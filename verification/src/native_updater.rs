//! The decisions of Formation Lap's own signed updater: which feed and
//! installer URLs are official, which Beta feed is current, and whether a
//! release manifest offers a newer signed installer.
//!
//! Fetching and installing are the desktop host's work; each fetched document
//! is handed here, parsed, and each decision is made here.
use crate::model::{UpdateChannel, UpdateStatus};
use crate::release_identity::{
    decoded_text, encoded_text, minisign_accepts, minisign_key_decodes, minisign_public_key, minisign_signature,
    minisign_signature_decodes, minisign_verifies,
};
use crate::text::{
    chars_between, chars_end_with, chars_of, chars_start_with, ends_with, eq_ignore_ascii_case, is_blank,
    same_text, starts_with, string_from_chars, text_eq_ignore_ascii_case, trim, trimmed_chars,
};
use crate::update_providers::{url_parts, url_view, parsed_url, UrlParts, UrlView};
use vstd::prelude::*;

verus! {

/// The official Stable update feed.
pub const STABLE_ENDPOINT: &'static str = "https://github.com/Williem3/FormationLap/releases/latest/download/latest.json";

/// The release list searched for the newest Beta feed.
pub const BETA_RELEASES_API: &'static str = "https://api.github.com/repos/Williem3/FormationLap/releases?per_page=20";

/// The one installer target Formation Lap accepts.
pub const UPDATE_TARGET: &'static str = "windows-x86_64";

/// Where the official repository serves release downloads.
pub const RELEASE_DOWNLOAD_PREFIX: &'static str = "/Williem3/FormationLap/releases/download/";

/// The largest Beta release list, in bytes, that is read.
pub const MAX_BETA_DISCOVERY_BYTES: u64 = 262144;

/// The largest release manifest, in bytes, that is read.
pub const MAX_RELEASE_METADATA_BYTES: u64 = 262144;

/// The largest installer, in bytes, that is downloaded.
pub const MAX_INSTALLER_BYTES: u64 = 134217728;

/// How many redirects an update request may follow.
pub const MAX_UPDATE_REDIRECTS: usize = 3;

/// The hosts an update request may be redirected to.
pub open spec fn redirect_hosts() -> Seq<Seq<char>> {
    seq!["github.com"@, "api.github.com"@, "objects.githubusercontent.com"@, "release-assets.githubusercontent.com"@]
}

/// The release tag of an official `latest.json` download path.
pub open spec fn release_tag(path: Seq<char>) -> Option<Seq<char>> {
    let prefix = RELEASE_DOWNLOAD_PREFIX@;
    let suffix = "/latest.json"@;
    if starts_with(path, prefix) && ends_with(path.subrange(prefix.len() as int, path.len() as int), suffix) {
        Some(path.subrange(prefix.len() as int, path.len() - suffix.len()))
    } else {
        None
    }
}

fn release_tag_of(path: &str) -> (res: Option<String>)
    ensures
        match release_tag(path@) {
            Some(tag) => res is Some && res->0@ == tag,
            None => res is None,
        },
{
    let characters = chars_of(path);
    let prefix = chars_of(RELEASE_DOWNLOAD_PREFIX);
    let suffix = chars_of("/latest.json");
    if !chars_start_with(&characters, &prefix) {
        return None;
    }
    let rest = chars_between(&characters, prefix.len(), characters.len());
    if !chars_end_with(&rest, &suffix) {
        return None;
    }
    let tag = chars_between(&rest, 0, rest.len() - suffix.len());
    assert(tag@ =~= path@.subrange(prefix@.len() as int, path@.len() - suffix@.len()));
    Some(string_from_chars(&tag))
}

/// Whether a parsed URL is an official feed: HTTPS on github.com, no
/// credentials, query or fragment, and the Stable feed or a tagged release's
/// `latest.json`.
pub open spec fn is_official_endpoint(url: UrlView, stable: bool) -> bool {
    &&& url.scheme == "https"@
    &&& url.host == Some("github.com"@)
    &&& url.username.len() == 0
    &&& !url.has_password
    &&& url.query is None
    &&& url.fragment is None
    &&& if stable {
        url.serialization == STABLE_ENDPOINT@
    } else {
        release_tag(url.path) matches Some(tag) && tag.len() > 0
    }
}

/// Accepts only an official update feed URL.
pub fn parse_release_endpoint(value: &str, stable: bool) -> (res: Result<UrlParts, String>)
    ensures
        match parsed_url(value@) {
            None => res is Err && res->Err_0@ == "The updater endpoint is invalid."@,
            Some(url) => if is_official_endpoint(url, stable) {
                res is Ok && url_view(res->Ok_0) == url
            } else {
                res is Err && res->Err_0@ == "The updater endpoint is outside the official GitHub release feed."@
            },
        },
{
    let url = match url_parts(value) {
        Some(url) => url,
        None => return Err(String::from_str("The updater endpoint is invalid.")),
    };
    let path_is_valid = if stable {
        same_text(url.serialization.as_str(), STABLE_ENDPOINT)
    } else {
        match release_tag_of(url.path.as_str()) {
            Some(tag) => tag.as_str().unicode_len() > 0,
            None => false,
        }
    };
    let on_github = match &url.host {
        Some(host) => same_text(host.as_str(), "github.com"),
        None => false,
    };
    if !same_text(url.scheme.as_str(), "https") || !on_github || url.username.as_str().unicode_len() != 0
        || url.has_password || url.query.is_some() || url.fragment.is_some() || !path_is_valid {
        return Err(String::from_str("The updater endpoint is outside the official GitHub release feed."));
    }
    Ok(url)
}

/// Whether a redirect stays on the controlled HTTPS hosts without credentials
/// or fragment.
pub open spec fn is_controlled_redirect(url: UrlView) -> bool {
    &&& url.scheme == "https"@
    &&& url.username.len() == 0
    &&& !url.has_password
    &&& url.fragment is None
    &&& url.host matches Some(host) && exists|i: int| 0 <= i < redirect_hosts().len() && eq_ignore_ascii_case(
        host,
        #[trigger] redirect_hosts()[i],
    )
}

/// Refuses a redirect that leaves the controlled HTTPS hosts.
pub fn validate_redirect_url(url: &UrlParts) -> (res: Result<(), String>)
    ensures
        res is Ok <==> is_controlled_redirect(url_view(*url)),
        res is Err ==> res->Err_0@ == "The updater redirect left the controlled HTTPS hosts."@,
{
    let controlled_host = match &url.host {
        Some(host) => {
            let host = host.as_str();
            let allowed = text_eq_ignore_ascii_case(host, "github.com") || text_eq_ignore_ascii_case(host, "api.github.com")
                || text_eq_ignore_ascii_case(host, "objects.githubusercontent.com") || text_eq_ignore_ascii_case(
                host,
                "release-assets.githubusercontent.com",
            );
            proof {
                if allowed {
                    if eq_ignore_ascii_case(host@, "github.com"@) {
                        assert(redirect_hosts()[0] == "github.com"@);
                    } else if eq_ignore_ascii_case(host@, "api.github.com"@) {
                        assert(redirect_hosts()[1] == "api.github.com"@);
                    } else if eq_ignore_ascii_case(host@, "objects.githubusercontent.com"@) {
                        assert(redirect_hosts()[2] == "objects.githubusercontent.com"@);
                    } else {
                        assert(redirect_hosts()[3] == "release-assets.githubusercontent.com"@);
                    }
                }
            }
            allowed
        },
        None => false,
    };
    if !same_text(url.scheme.as_str(), "https") || url.username.as_str().unicode_len() != 0 || url.has_password
        || url.fragment.is_some() || !controlled_host {
        return Err(String::from_str("The updater redirect left the controlled HTTPS hosts."));
    }
    Ok(())
}

/// The official installer URL of a version.
pub open spec fn official_installer_url(version: Seq<char>) -> Seq<char> {
    "https://github.com/Williem3/FormationLap/releases/download/v"@ + version + "/Formation-Lap_"@ + version
        + "_x64-setup.exe"@
}

fn installer_url_text(version: &str) -> (res: String)
    ensures
        res@ == official_installer_url(version@),
{
    let mut text = chars_of("https://github.com/Williem3/FormationLap/releases/download/v");
    let mut part = chars_of(version);
    text.append(&mut part);
    let mut part = chars_of("/Formation-Lap_");
    text.append(&mut part);
    let mut part = chars_of(version);
    text.append(&mut part);
    let mut part = chars_of("_x64-setup.exe");
    text.append(&mut part);
    string_from_chars(&text)
}

/// Accepts only the official x64 installer of the exact version.
pub fn validate_installer_url(url: &UrlParts, version: &str, target: &str) -> (res: Result<(), String>)
    ensures
        target@ != UPDATE_TARGET@ ==> res is Err && res->Err_0@
            == "The signed update does not target the supported architecture."@,
        target@ == UPDATE_TARGET@ ==> (res is Ok <==> url.serialization@ == official_installer_url(version@)),
        target@ == UPDATE_TARGET@ && res is Err ==> res->Err_0@
            == "The installer URL does not match the official repository, tag, version, architecture, and filename."@,
{
    if !same_text(target, UPDATE_TARGET) {
        return Err(String::from_str("The signed update does not target the supported architecture."));
    }
    let expected = installer_url_text(version);
    if !same_text(url.serialization.as_str(), expected.as_str()) {
        return Err(
            String::from_str(
                "The installer URL does not match the official repository, tag, version, architecture, and filename.",
            ),
        );
    }
    Ok(())
}

/// One asset of a GitHub release.
#[derive(Debug)]
pub struct GitHubReleaseAsset {
    pub name: String,
    pub browser_download_url: String,
}

/// The fields of a GitHub release that Beta discovery reads.
#[derive(Debug)]
pub struct GitHubRelease {
    pub tag_name: String,
    pub draft: bool,
    pub prerelease: bool,
    pub published_at: Option<String>,
    pub assets: Vec<GitHubReleaseAsset>,
}

/// The number of a release's assets named `latest.json` among its first `count`.
pub open spec fn feed_asset_count(assets: Seq<GitHubReleaseAsset>, count: int) -> nat
    decreases count,
{
    if count <= 0 {
        0
    } else if assets[count - 1].name@ == "latest.json"@ {
        feed_asset_count(assets, count - 1) + 1
    } else {
        feed_asset_count(assets, count - 1)
    }
}

/// The position of the first asset named `latest.json`.
pub open spec fn first_feed_asset(assets: Seq<GitHubReleaseAsset>, from: int) -> int
    decreases assets.len() - from,
{
    if from >= assets.len() {
        assets.len() as int
    } else if assets[from].name@ == "latest.json"@ {
        from
    } else {
        first_feed_asset(assets, from + 1)
    }
}

/// The Beta feed a release offers: a published prerelease with exactly one
/// `latest.json` asset on the official feed path of its own tag.
pub open spec fn beta_feed(release: GitHubRelease) -> Option<UrlView> {
    let assets = release.assets@;
    if release.draft || !release.prerelease || release.published_at is None || feed_asset_count(
        assets,
        assets.len() as int,
    ) != 1 {
        None
    } else {
        match parsed_url(assets[first_feed_asset(assets, 0)].browser_download_url@) {
            Some(url) => if is_official_endpoint(url, false) && release_tag(url.path) == Some(release.tag_name@) {
                Some(url)
            } else {
                None
            },
            None => None,
        }
    }
}

/// Whether none of the first `count` releases offers a Beta feed.
pub open spec fn no_beta_feed_before(releases: Seq<GitHubRelease>, count: int) -> bool {
    forall|i: int| 0 <= i < count ==> (#[trigger] beta_feed(releases[i])) is None
}

/// The one `latest.json` asset of a release, if it has exactly one.
fn single_feed_asset(assets: &Vec<GitHubReleaseAsset>) -> (res: Option<usize>)
    ensures
        match res {
            Some(index) => feed_asset_count(assets@, assets@.len() as int) == 1 && index == first_feed_asset(assets@, 0)
                && index < assets@.len(),
            None => feed_asset_count(assets@, assets@.len() as int) != 1,
        },
{
    let mut found: Option<usize> = None;
    let mut duplicate = false;
    let mut index: usize = 0;
    while index < assets.len()
        invariant
            index <= assets@.len(),
            !duplicate ==> match found {
                Some(at) => feed_asset_count(assets@, index as int) == 1 && at == first_feed_asset(assets@, 0) && at < index,
                None => feed_asset_count(assets@, index as int) == 0 && first_feed_asset(assets@, 0) == first_feed_asset(
                    assets@,
                    index as int,
                ),
            },
            duplicate ==> feed_asset_count(assets@, index as int) >= 2,
        decreases assets@.len() - index,
    {
        if same_text(assets[index].name.as_str(), "latest.json") {
            if found.is_some() {
                duplicate = true;
            } else if !duplicate {
                found = Some(index);
            }
        }
        proof {
            if !duplicate && found is None && assets@[index as int].name@ != "latest.json"@ {
                assert(first_feed_asset(assets@, index as int) == first_feed_asset(assets@, index + 1));
            }
        }
        index = index + 1;
    }
    if duplicate {
        return None;
    }
    found
}

/// The Beta feed of one release, if it offers one.
fn release_beta_feed(release: &GitHubRelease) -> (res: Option<UrlParts>)
    ensures
        match beta_feed(*release) {
            Some(url) => res is Some && url_view(res->0) == url,
            None => res is None,
        },
{
    if release.draft || !release.prerelease || release.published_at.is_none() {
        return None;
    }
    let index = single_feed_asset(&release.assets)?;
    let endpoint = match parse_release_endpoint(release.assets[index].browser_download_url.as_str(), false) {
        Ok(endpoint) => endpoint,
        Err(_) => return None,
    };
    match release_tag_of(endpoint.path.as_str()) {
        Some(tag) => if same_text(tag.as_str(), release.tag_name.as_str()) {
            Some(endpoint)
        } else {
            None
        },
        None => None,
    }
}

/// The Beta feed of the first release, in the order listed, that offers one.
pub fn parse_beta_endpoint(releases: &Vec<GitHubRelease>) -> (res: Result<UrlParts, String>)
    ensures
        no_beta_feed_before(releases@, releases@.len() as int) ==> res is Err && res->Err_0@
            == "No published signed Beta update feed is available."@,
        res is Ok ==> exists|i: int| 0 <= i < releases@.len() && no_beta_feed_before(releases@, i) && #[trigger] beta_feed(
            releases@[i],
        ) == Some(url_view(res->Ok_0)),
{
    let mut index: usize = 0;
    while index < releases.len()
        invariant
            index <= releases@.len(),
            no_beta_feed_before(releases@, index as int),
        decreases releases@.len() - index,
    {
        match release_beta_feed(&releases[index]) {
            Some(endpoint) => {
                assert(beta_feed(releases@[index as int]) == Some(url_view(endpoint)));
                return Ok(endpoint);
            },
            None => {},
        }
        index = index + 1;
    }
    Err(String::from_str("No published signed Beta update feed is available."))
}

/// The official updater's configuration: its public key and Stable feed.
#[derive(Debug)]
pub struct ReleaseConfiguration {
    pub public_key: String,
    pub stable_endpoint: UrlParts,
}

/// The `minisign.pub` text of the updater's Base64 public key setting, once it
/// decodes to a Minisign key.
fn public_key_text(encoded: &str) -> (res: Result<String, String>)
    ensures
        crate::release_identity::standard_base64_decoded(encoded@) is None ==> res is Err && res->Err_0@
            == "The official updater public key is not valid Base64."@,
        match res {
            Ok(text) => encoded_text(encoded@) == Some(text@) && minisign_key_decodes(text@),
            Err(_) => !(encoded_text(encoded@) matches Some(text) && minisign_key_decodes(text)),
        },
{
    let text = match decoded_text(
        encoded,
        "The official updater public key is not valid Base64.",
        "The official updater public key is not UTF-8 text.",
    ) {
        Ok(text) => text,
        Err(error) => return Err(error.message),
    };
    match minisign_public_key(text.as_str()) {
        Some(_) => Ok(text),
        None => Err(String::from_str("The official updater public key is not a valid Minisign key.")),
    }
}

/// The signature text of Base64 release signature metadata, once it decodes to
/// a Minisign signature.
fn signature_text(encoded: &str) -> (res: Result<String, String>)
    ensures
        crate::release_identity::standard_base64_decoded(encoded@) is None ==> res is Err && res->Err_0@
            == "The release signature metadata is not valid Base64."@,
        match res {
            Ok(text) => encoded_text(encoded@) == Some(text@) && minisign_signature_decodes(text@),
            Err(_) => !(encoded_text(encoded@) matches Some(text) && minisign_signature_decodes(text)),
        },
{
    let text = match decoded_text(
        encoded,
        "The release signature metadata is not valid Base64.",
        "The release signature metadata is not UTF-8 text.",
    ) {
        Ok(text) => text,
        Err(error) => return Err(error.message),
    };
    match minisign_signature(text.as_str()) {
        Some(_) => Ok(text),
        None => Err(String::from_str("The release signature metadata is missing or invalid.")),
    }
}

/// The updater's public key from its Base64 setting.
pub fn decode_public_key(encoded: &str) -> (res: Result<minisign_verify::PublicKey, String>)
    ensures
        crate::release_identity::standard_base64_decoded(encoded@) is None ==> res is Err && res->Err_0@
            == "The official updater public key is not valid Base64."@,
        res is Ok <==> (encoded_text(encoded@) matches Some(text) && minisign_key_decodes(text)),
{
    let text = public_key_text(encoded)?;
    match minisign_public_key(text.as_str()) {
        Some(key) => Ok(key),
        None => Err(String::from_str("The official updater public key is not a valid Minisign key.")),
    }
}

/// A release signature from its Base64 metadata.
pub fn decode_release_signature(encoded: &str) -> (res: Result<minisign_verify::Signature, String>)
    ensures
        crate::release_identity::standard_base64_decoded(encoded@) is None ==> res is Err && res->Err_0@
            == "The release signature metadata is not valid Base64."@,
        res is Ok <==> (encoded_text(encoded@) matches Some(text) && minisign_signature_decodes(text)),
{
    let text = signature_text(encoded)?;
    match minisign_signature(text.as_str()) {
        Some(signature) => Ok(signature),
        None => Err(String::from_str("The release signature metadata is missing or invalid.")),
    }
}

impl ReleaseConfiguration {
    /// The configuration from a public key setting: it must be present and
    /// decode to a Minisign key.
    pub fn new(public_key: Option<&str>) -> (res: Result<Self, String>)
        ensures
            public_key is None ==> res is Err && res->Err_0@ == "The official updater public key is not configured."@,
            res is Ok ==> public_key is Some && res->Ok_0.public_key@ == trim(public_key->0@) && res->Ok_0.stable_endpoint.serialization@
                == STABLE_ENDPOINT@,
    {
        let public_key = match public_key {
            Some(key) => string_from_chars(&trimmed_chars(key)),
            None => return Err(String::from_str("The official updater public key is not configured.")),
        };
        decode_public_key(public_key.as_str())?;
        let stable_endpoint = parse_release_endpoint(STABLE_ENDPOINT, true)?;
        Ok(ReleaseConfiguration { public_key, stable_endpoint })
    }
}

/// One platform entry of a release manifest.
#[derive(Debug)]
pub struct ReleaseManifestPlatform {
    pub target: String,
    pub url: String,
    pub signature: String,
}

/// A release manifest: the version and one entry per platform.
#[derive(Debug)]
pub struct ReleaseManifest {
    pub version: String,
    pub platforms: Vec<ReleaseManifestPlatform>,
}

/// A signed update that passed every check before download.
#[derive(Debug)]
pub struct PendingSignedUpdate {
    pub channel: UpdateChannel,
    pub download_url: UrlParts,
    pub signature: String,
    pub target: String,
    pub version: String,
}

/// Whether a text parses as a semantic version, whether that version is a
/// prerelease, and how it prints.
pub uninterp spec fn parsed_semver(text: Seq<char>) -> Option<(bool, Seq<char>)>;

/// Whether the first of two parsed semantic versions does not come after the second.
pub uninterp spec fn semver_not_after(first: Seq<char>, second: Seq<char>) -> bool;

/// Parses a version with `semver::Version::parse` and reads whether its
/// prerelease part is non-empty and how it prints.
#[verifier::external_body]
fn semver_facts(text: &str) -> (res: Option<(bool, String)>)
    ensures
        match res {
            Some((prerelease, printed)) => parsed_semver(text@) == Some((prerelease, printed@)),
            None => parsed_semver(text@) is None,
        },
{
    match semver::Version::parse(text) {
        Ok(version) => Some((!version.pre.is_empty(), version.to_string())),
        Err(_) => None,
    }
}

/// Compares two versions that parse with `semver::Version::parse`, by the
/// crate's `<=`.
#[verifier::external_body]
fn semver_at_most(first: &str, second: &str) -> (res: bool)
    requires
        parsed_semver(first@) is Some,
        parsed_semver(second@) is Some,
    ensures
        res == semver_not_after(first@, second@),
{
    match (semver::Version::parse(first), semver::Version::parse(second)) {
        (Ok(first), Ok(second)) => first <= second,
        _ => false,
    }
}

/// What a release manifest offers against the installed version: the current
/// status, or a newer signed installer that passed every check before download.
pub fn release_decision(
    channel: UpdateChannel,
    manifest: &ReleaseManifest,
    current_version: &str,
) -> (res: Result<(UpdateStatus, Option<PendingSignedUpdate>), String>)
    ensures
        manifest.platforms@.len() != 1 ==> res is Err && res->Err_0@
            == "The official update feed contained an unexpected platform set."@,
        manifest.platforms@.len() == 1 && manifest.platforms@[0].target@ != UPDATE_TARGET@ ==> res is Err
            && res->Err_0@ == "The official update feed did not contain the x64 installer."@,
        manifest.platforms@.len() == 1 && manifest.platforms@[0].target@ == UPDATE_TARGET@ && parsed_semver(
            manifest.version@,
        ) is None ==> res is Err && res->Err_0@ == "The official update version is invalid."@,
        res matches Ok((UpdateStatus::Current { current_version: printed }, pending)) ==> pending is None
            && (parsed_semver(current_version@) matches Some((_, text)) && printed@ == text) && semver_not_after(
            manifest.version@,
            current_version@,
        ),
        res matches Ok((UpdateStatus::UpdateAvailable { latest_version, .. }, pending)) ==> latest_version@
            == manifest.version@ && !semver_not_after(manifest.version@, current_version@) && (pending matches Some(
            update,
        ) && update.download_url.serialization@ == official_installer_url(manifest.version@) && update.target@
            == UPDATE_TARGET@ && update.version@ == manifest.version@ && update.channel == channel),
        res matches Ok((status, _)) ==> !(status is Unknown) && manifest.platforms@.len() == 1 && (parsed_semver(
            manifest.version@,
        ) matches Some((prerelease, _)) && (channel == UpdateChannel::Stable ==> !prerelease) && (channel
            == UpdateChannel::Beta ==> prerelease)),
{
    if manifest.platforms.len() != 1 {
        return Err(String::from_str("The official update feed contained an unexpected platform set."));
    }
    let platform = &manifest.platforms[0];
    if !same_text(platform.target.as_str(), UPDATE_TARGET) {
        return Err(String::from_str("The official update feed did not contain the x64 installer."));
    }
    let latest_prerelease = match semver_facts(manifest.version.as_str()) {
        Some((prerelease, _)) => prerelease,
        None => return Err(String::from_str("The official update version is invalid.")),
    };
    let current = match semver_facts(current_version) {
        Some((_, printed)) => printed,
        None => return Err(String::from_str("The installed Formation Lap version is invalid.")),
    };
    match channel {
        UpdateChannel::Stable => if latest_prerelease {
            return Err(String::from_str("The Stable feed cannot select a prerelease."));
        },
        UpdateChannel::Beta => if !latest_prerelease {
            return Err(String::from_str("The Beta feed must select a published prerelease."));
        },
    }
    if semver_at_most(manifest.version.as_str(), current_version) {
        return Ok((UpdateStatus::Current { current_version: current }, None));
    }
    let download_url = match url_parts(platform.url.as_str()) {
        Some(url) => url,
        None => return Err(String::from_str("The official installer URL is invalid.")),
    };
    validate_installer_url(&download_url, manifest.version.as_str(), UPDATE_TARGET)?;
    decode_release_signature(platform.signature.as_str())?;
    Ok((
        UpdateStatus::UpdateAvailable { current_version: current, latest_version: manifest.version.clone() },
        Some(
            PendingSignedUpdate {
                channel,
                download_url,
                signature: platform.signature.clone(),
                target: String::from_str(UPDATE_TARGET),
                version: manifest.version.clone(),
            },
        ),
    ))
}

/// Whether downloaded bytes begin as a Windows executable does.
pub open spec fn starts_as_executable(bytes: Seq<u8>) -> bool {
    bytes.len() >= 2 && bytes[0] == 0x4d && bytes[1] == 0x5a
}

/// Checks a downloaded installer before it is staged: it must be a Windows
/// executable, and the configured key must accept the release's signature
/// over its bytes.
pub fn verify_installer_bytes(
    configuration: &ReleaseConfiguration,
    update: &PendingSignedUpdate,
    bytes: &[u8],
) -> (res: Result<(), String>)
    ensures
        !starts_as_executable(bytes@) ==> res is Err && res->Err_0@ == "The signed update is not a Windows executable."@,
        res is Ok ==> starts_as_executable(bytes@),
        starts_as_executable(bytes@) && crate::release_identity::standard_base64_decoded(configuration.public_key@)
            is None ==> res is Err && res->Err_0@ == "The official updater public key is not valid Base64."@,
        res is Ok <==> starts_as_executable(bytes@) && (encoded_text(configuration.public_key@) matches Some(key)
            && encoded_text(update.signature@) matches Some(signature) && minisign_key_decodes(key)
            && minisign_signature_decodes(signature) && minisign_verifies(key, bytes@, signature)),
        starts_as_executable(bytes@) && (encoded_text(configuration.public_key@) matches Some(key)
            && minisign_key_decodes(key)) && (encoded_text(update.signature@) matches Some(signature)
            && minisign_signature_decodes(signature)) && res is Err ==> res->Err_0@
            == "The downloaded installer signature is invalid."@,
{
    if bytes.len() < 2 || bytes[0] != 0x4d || bytes[1] != 0x5a {
        return Err(String::from_str("The signed update is not a Windows executable."));
    }
    let public_key = public_key_text(configuration.public_key.as_str())?;
    let signature = signature_text(update.signature.as_str())?;
    if minisign_accepts(public_key.as_str(), bytes, signature.as_str()) {
        Ok(())
    } else {
        Err(String::from_str("The downloaded installer signature is invalid."))
    }
}

} // verus!
