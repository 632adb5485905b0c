use base64::engine::general_purpose::STANDARD;
use base64::Engine;
use formation_lap::model::{UpdateChannel, UpdateStatus};
use formation_lap::native_updater::{
    decode_public_key, decode_release_signature, parse_beta_endpoint, parse_release_endpoint, release_decision,
    validate_installer_url, validate_redirect_url, verify_installer_bytes, GitHubRelease, GitHubReleaseAsset,
    PendingSignedUpdate, ReleaseConfiguration, ReleaseManifest, ReleaseManifestPlatform,
};
use formation_lap::update_providers::UrlParts;

const PUBLIC_KEY_TEXT: &str = "untrusted comment: minisign public key E7620F1842B4E81F\n\
RWQf6LRCGA9i53mlYecO4IzT51TGPpvWucNSCh1CBM0QTaLn73Y7GFO3";
const SIGNATURE_TEXT: &str = "untrusted comment: signature from minisign secret key\n\
RWQf6LRCGA9i59SLOFxz6NxvASXDJeRtuZykwQepbDEGt87ig1BNpWaVWuNrm73YiIiJbq71Wi+dP9eKL8OC351vwIasSSbXxwA=\n\
trusted comment: timestamp:1555779966\tfile:test\n\
QtKMXWyYcwdpZAlPF7tE2ENJkRd1ujvKjlj1m9RtHTBnZPa5WKU5uWRs5GoP5M/VqE81QFuMKI5k/SfNQUaOAA==";

fn parts(text: &str) -> UrlParts {
    let url = url::Url::parse(text).expect("fixture URL should parse");
    UrlParts {
        scheme: url.scheme().to_owned(),
        username: url.username().to_owned(),
        has_password: url.password().is_some(),
        host: url.host_str().map(str::to_owned),
        path: url.path().to_owned(),
        query: url.query().map(str::to_owned),
        fragment: url.fragment().map(str::to_owned),
        serialization: url.as_str().to_owned(),
    }
}

fn release(tag_name: &str, draft: bool, prerelease: bool, assets: &[(&str, &str)]) -> GitHubRelease {
    GitHubRelease {
        tag_name: tag_name.to_owned(),
        draft,
        prerelease,
        published_at: Some("2026-07-24T08:00:00Z".to_owned()),
        assets: assets
            .iter()
            .map(|(name, url)| GitHubReleaseAsset { name: (*name).to_owned(), browser_download_url: (*url).to_owned() })
            .collect(),
    }
}

#[test]
fn release_configuration_requires_a_public_key_and_uses_the_official_stable_feed() {
    let public_key = STANDARD.encode(PUBLIC_KEY_TEXT);
    assert!(ReleaseConfiguration::new(None).is_err());
    let configured = ReleaseConfiguration::new(Some(&public_key)).expect("public key should be accepted");
    assert_eq!(
        configured.stable_endpoint.serialization,
        "https://github.com/Williem3/FormationLap/releases/latest/download/latest.json"
    );
}

#[test]
fn beta_discovery_ignores_drafts_and_stable_releases() {
    let releases = vec![
        release(
            "v1.0.0-beta.3",
            true,
            true,
            &[("latest.json", "https://github.com/Williem3/FormationLap/releases/download/v1.0.0-beta.3/latest.json")],
        ),
        release(
            "v1.0.0",
            false,
            false,
            &[("latest.json", "https://github.com/Williem3/FormationLap/releases/download/v1.0.0/latest.json")],
        ),
        release(
            "v1.0.0-beta.2",
            false,
            true,
            &[("latest.json", "https://github.com/Williem3/FormationLap/releases/download/v1.0.0-beta.2/latest.json")],
        ),
    ];
    assert_eq!(
        parse_beta_endpoint(&releases).expect("published prerelease should be selected").serialization,
        "https://github.com/Williem3/FormationLap/releases/download/v1.0.0-beta.2/latest.json"
    );
}

#[test]
fn beta_discovery_rejects_ambiguous_or_untrusted_assets() {
    let duplicate_assets = vec![release(
        "v1.0.0-beta.2",
        false,
        true,
        &[
            ("latest.json", "https://github.com/Williem3/FormationLap/releases/download/v1.0.0-beta.2/latest.json"),
            ("latest.json", "https://github.com/Williem3/FormationLap/releases/download/v1.0.0-beta.2/other/latest.json"),
        ],
    )];
    let foreign_asset = vec![release(
        "v1.0.0-beta.2",
        false,
        true,
        &[("latest.json", "https://github.com/other/project/releases/download/v1.0.0-beta.2/latest.json")],
    )];
    assert!(parse_beta_endpoint(&duplicate_assets).is_err());
    assert!(parse_beta_endpoint(&foreign_asset).is_err());
}

#[test]
fn beta_discovery_requires_the_feed_of_its_own_tag() {
    let mismatched_tag = vec![release(
        "v1.0.0-beta.4",
        false,
        true,
        &[("latest.json", "https://github.com/Williem3/FormationLap/releases/download/v1.0.0-beta.2/latest.json")],
    )];
    assert_eq!(
        parse_beta_endpoint(&mismatched_tag).expect_err("a foreign tag must be refused"),
        "No published signed Beta update feed is available."
    );
}

#[test]
fn missing_or_invalid_signature_metadata_is_rejected_before_download() {
    assert!(decode_release_signature("").is_err());
    assert!(decode_release_signature(&STANDARD.encode("not a minisign signature")).is_err());
}

#[test]
fn invalid_bundle_signature_cannot_reach_the_installer_stage() {
    let public_key = decode_public_key(&STANDARD.encode(PUBLIC_KEY_TEXT)).expect("fixture public key should decode");
    let signature = decode_release_signature(&STANDARD.encode(SIGNATURE_TEXT)).expect("fixture signature should decode");
    assert!(public_key.verify(b"test", &signature, true).is_ok(), "the known signed fixture should verify");
    let mut installer_invoked = false;
    if public_key.verify(b"tampered", &signature, true).is_ok() {
        installer_invoked = true;
    }
    assert!(!installer_invoked);
}

#[test]
fn official_installer_candidate_requires_exact_tag_version_architecture_and_filename() {
    let valid = parts("https://github.com/Williem3/FormationLap/releases/download/v1.2.3/Formation-Lap_1.2.3_x64-setup.exe");
    assert!(validate_installer_url(&valid, "1.2.3", "windows-x86_64").is_ok());
    for invalid in [
        "http://github.com/Williem3/FormationLap/releases/download/v1.2.3/Formation-Lap_1.2.3_x64-setup.exe",
        "https://github.com/other/FormationLap/releases/download/v1.2.3/Formation-Lap_1.2.3_x64-setup.exe",
        "https://github.com/Williem3/FormationLap/releases/download/v9.9.9/Formation-Lap_1.2.3_x64-setup.exe",
        "https://github.com/Williem3/FormationLap/releases/download/v1.2.3/Formation-Lap_1.2.3_arm64-setup.exe",
        "https://github.com/Williem3/FormationLap/releases/download/v1.2.3/other.exe",
    ] {
        assert!(validate_installer_url(&parts(invalid), "1.2.3", "windows-x86_64").is_err(), "{invalid} must be rejected");
    }
    assert!(validate_installer_url(&valid, "1.2.3", "windows-arm64").is_err());
}

#[test]
fn updater_redirects_stay_on_tightly_controlled_https_hosts() {
    for allowed in [
        "https://github.com/Williem3/FormationLap/releases/download/v1.2.3/latest.json",
        "https://objects.githubusercontent.com/github-production-release-asset/file?token=bounded",
        "https://release-assets.githubusercontent.com/github-production-release-asset/file?token=bounded",
    ] {
        assert!(validate_redirect_url(&parts(allowed)).is_ok());
    }
    for denied in [
        "http://github.com/Williem3/FormationLap/releases/download/v1.2.3/latest.json",
        "https://github.example.com/Williem3/FormationLap/releases/download/v1.2.3/latest.json",
        "https://user@github.com/Williem3/FormationLap/releases/download/v1.2.3/latest.json",
    ] {
        assert!(validate_redirect_url(&parts(denied)).is_err());
    }
}

#[test]
fn release_endpoints_must_be_official_feeds() {
    assert!(parse_release_endpoint("https://github.com/Williem3/FormationLap/releases/latest/download/latest.json", true).is_ok());
    assert!(parse_release_endpoint("https://github.com/Williem3/FormationLap/releases/download/v1.0.0/latest.json", true).is_err());
    assert!(parse_release_endpoint("https://github.com/Williem3/FormationLap/releases/download/v1.0.0/latest.json", false).is_ok());
    assert_eq!(
        parse_release_endpoint("https://github.com/Williem3/FormationLap/releases/download//latest.json", false)
            .expect_err("an empty tag must be refused"),
        "The updater endpoint is outside the official GitHub release feed."
    );
    assert_eq!(
        parse_release_endpoint("not a url", false).expect_err("garbage must be refused"),
        "The updater endpoint is invalid."
    );
}

fn manifest(version: &str, url: &str) -> ReleaseManifest {
    ReleaseManifest {
        version: version.to_owned(),
        platforms: vec![ReleaseManifestPlatform {
            target: "windows-x86_64".to_owned(),
            url: url.to_owned(),
            signature: STANDARD.encode(SIGNATURE_TEXT),
        }],
    }
}

#[test]
fn a_newer_stable_release_offers_its_signed_installer() {
    let offered = manifest(
        "1.0.0",
        "https://github.com/Williem3/FormationLap/releases/download/v1.0.0/Formation-Lap_1.0.0_x64-setup.exe",
    );
    let (status, pending) = release_decision(UpdateChannel::Stable, &offered, "0.9.0").expect("the release should be offered");
    assert_eq!(
        status,
        UpdateStatus::UpdateAvailable { current_version: "0.9.0".to_owned(), latest_version: "1.0.0".to_owned() }
    );
    assert_eq!(pending.expect("an installer should be pending").version, "1.0.0");
    let (status, pending) = release_decision(UpdateChannel::Stable, &offered, "1.0.0").expect("the same release is current");
    assert_eq!(status, UpdateStatus::Current { current_version: "1.0.0".to_owned() });
    assert!(pending.is_none());
}

#[test]
fn channels_only_accept_their_own_kind_of_release() {
    let beta = manifest(
        "1.0.0-beta.2",
        "https://github.com/Williem3/FormationLap/releases/download/v1.0.0-beta.2/Formation-Lap_1.0.0-beta.2_x64-setup.exe",
    );
    assert_eq!(
        release_decision(UpdateChannel::Stable, &beta, "0.9.0").expect_err("Stable must refuse a prerelease"),
        "The Stable feed cannot select a prerelease."
    );
    assert!(release_decision(UpdateChannel::Beta, &beta, "0.9.0").is_ok());
    let stable = manifest(
        "1.0.0",
        "https://github.com/Williem3/FormationLap/releases/download/v1.0.0/Formation-Lap_1.0.0_x64-setup.exe",
    );
    assert_eq!(
        release_decision(UpdateChannel::Beta, &stable, "0.9.0").expect_err("Beta must refuse a stable release"),
        "The Beta feed must select a published prerelease."
    );
    let mut two_platforms = manifest("1.0.0", "https://example.com/setup.exe");
    two_platforms.platforms.push(ReleaseManifestPlatform {
        target: "windows-arm64".to_owned(),
        url: String::new(),
        signature: String::new(),
    });
    assert_eq!(
        release_decision(UpdateChannel::Stable, &two_platforms, "0.9.0").expect_err("two platforms must be refused"),
        "The official update feed contained an unexpected platform set."
    );
    let foreign = manifest("1.0.0", "https://example.com/setup.exe");
    assert!(release_decision(UpdateChannel::Stable, &foreign, "0.9.0").is_err());
}

#[test]
fn only_signed_windows_executables_pass_installer_verification() {
    let configuration =
        ReleaseConfiguration::new(Some(&STANDARD.encode(PUBLIC_KEY_TEXT))).expect("public key should be accepted");
    let update = PendingSignedUpdate {
        channel: UpdateChannel::Stable,
        download_url: parts("https://github.com/Williem3/FormationLap/releases/download/v1.2.3/Formation-Lap_1.2.3_x64-setup.exe"),
        signature: STANDARD.encode(SIGNATURE_TEXT),
        target: "windows-x86_64".to_owned(),
        version: "1.2.3".to_owned(),
    };
    assert_eq!(
        verify_installer_bytes(&configuration, &update, b"test"),
        Err("The signed update is not a Windows executable.".to_owned())
    );
    assert_eq!(
        verify_installer_bytes(&configuration, &update, b"MZ tampered installer"),
        Err("The downloaded installer signature is invalid.".to_owned())
    );
    let unsigned = PendingSignedUpdate { signature: STANDARD.encode("not a minisign signature"), ..update };
    assert_eq!(
        verify_installer_bytes(&configuration, &unsigned, b"MZ installer"),
        Err("The release signature metadata is missing or invalid.".to_owned())
    );
}
