use formation_lap::privilege_protocol::ELEVATED_HELPER_PROTOCOL_VERSION;
use formation_lap::release_identity::{
    check_application_pair, check_manifest_metadata, decode_public_key, decode_signature, lower_hex_text,
    release_identity_check, sha256_hex, validate_sha256, verify_preview_manifest, ReleaseIdentityCheck,
    ReleaseIdentityManifest, RELEASE_IDENTITY_SCHEMA_VERSION,
};
use minisign_verify::{PublicKey, Signature};

const PUBLIC_KEY_TEXT: &str = "untrusted comment: minisign public key E7620F1842B4E81F\n\
RWQf6LRCGA9i53mlYecO4IzT51TGPpvWucNSCh1CBM0QTaLn73Y7GFO3";
const SIGNATURE_TEXT: &str = "untrusted comment: signature from minisign secret key\n\
RWQf6LRCGA9i59SLOFxz6NxvASXDJeRtuZykwQepbDEGt87ig1BNpWaVWuNrm73YiIiJbq71Wi+dP9eKL8OC351vwIasSSbXxwA=\n\
trusted comment: timestamp:1555779966\tfile:test\n\
QtKMXWyYcwdpZAlPF7tE2ENJkRd1ujvKjlj1m9RtHTBnZPa5WKU5uWRs5GoP5M/VqE81QFuMKI5k/SfNQUaOAA==";
const RELEASE_IDENTITY_PUBLIC_KEY: &str = "dW50cnVzdGVkIGNvbW1lbnQ6IG1pbmlzaWduIHB1YmxpYyBrZXk6IDhDM0M1RTU4OTZGMEE0OUEKUldTYXBQQ1dXRjQ4akxUbkVnVm8rcGRxKzloOXhlWFNiaVF3c0phcTFjNHRia1oxNWg1VVRPVmkK";
const RELEASE_IDENTITY_SIGNATURE: &str = "dW50cnVzdGVkIGNvbW1lbnQ6IHNpZ25hdHVyZSBmcm9tIHRhdXJpIHNlY3JldCBrZXkKUlVTYXBQQ1dXRjQ4akpvaktNUEpSQXpqclBCZHVFK2liUkRVRzhoWDZiOUlZMjRBajdrYlpsSHlyUTI4T1JtUGVPS0ZrSGpHa3hZalRXWDlhOEJRQUM5TzF4djNDSGNzWWdnPQp0cnVzdGVkIGNvbW1lbnQ6IHRpbWVzdGFtcDoxNzg0OTUwOTYwCWZpbGU6cmVsZWFzZV9pZGVudGl0eV9wYXlsb2FkLnR4dApYdmdBSytvU2laTUdNUi9kUktpeTloQm1zUHBXMUhtWFM0RTNSSGwzZWdNV0NFRmthbm1lRTlSaldPNzFzWUpCRWdsbmJmcWt6VFBJa0xVUFRSMnZEUT09Cg==";

fn fixture_manifest() -> ReleaseIdentityManifest {
    ReleaseIdentityManifest {
        schema_version: RELEASE_IDENTITY_SCHEMA_VERSION,
        main_executable_sha256: sha256_hex(b"main release bytes"),
        helper_sha256: sha256_hex(b"helper release bytes"),
        version: "0.9.0-preview.1".to_owned(),
        protocol_version: ELEVATED_HELPER_PROTOCOL_VERSION,
        release_channel: "preview".to_owned(),
        signature: RELEASE_IDENTITY_SIGNATURE.to_owned(),
    }
}

#[test]
fn known_minisign_fixture_is_accepted_and_tampering_is_rejected() {
    let public_key = PublicKey::decode(PUBLIC_KEY_TEXT).expect("fixture key should decode");
    let signature = Signature::decode(SIGNATURE_TEXT).expect("fixture signature should decode");
    assert!(public_key.verify(b"test", &signature, true).is_ok());
    assert!(public_key.verify(b"tampered", &signature, true).is_err());
}

#[test]
fn signing_payload_lists_every_signed_field() {
    let manifest = ReleaseIdentityManifest {
        schema_version: 1,
        main_executable_sha256: "aa".to_owned(),
        helper_sha256: "bb".to_owned(),
        version: "1.2.3".to_owned(),
        protocol_version: 2,
        release_channel: "preview".to_owned(),
        signature: String::new(),
    };
    assert_eq!(
        manifest.signing_payload(),
        "formation-lap-release-identity-v1\nmainExecutableSha256=aa\nhelperSha256=bb\nversion=1.2.3\nprotocolVersion=2\nreleaseChannel=preview\n"
    );
}

#[test]
fn sha256_digests_are_lowercase_hexadecimal() {
    assert_eq!(
        sha256_hex(b""),
        "e3b0c44298fc1c149afbf4c8996fb92427ae41e4649b934ca495991b7852b855"
    );
    assert_eq!(sha256_hex(b"abc"), "ba7816bf8f01cfea414140de5dae2223b00361a396177a9cb410ff61f20015ad");
    assert_eq!(lower_hex_text(&[0x00, 0x0f, 0xa0, 0xff]), "000fa0ff");
}

#[test]
fn digests_must_be_sixty_four_lowercase_hex_digits() {
    assert!(validate_sha256(&"a".repeat(64)).is_ok());
    assert!(validate_sha256(&"A".repeat(64)).is_err());
    assert!(validate_sha256(&"a".repeat(63)).is_err());
    assert_eq!(
        validate_sha256("xyz").expect_err("a short digest must be refused").message,
        "release identity contains an invalid SHA-256 digest"
    );
}

#[test]
fn preview_manifest_binds_both_executable_hashes_and_build_metadata() {
    let manifest = fixture_manifest();
    assert!(decode_public_key(RELEASE_IDENTITY_PUBLIC_KEY).is_ok());
    let public_key = RELEASE_IDENTITY_PUBLIC_KEY;
    verify_preview_manifest(
        &manifest,
        b"main release bytes",
        b"helper release bytes",
        "0.9.0-preview.1",
        "preview",
        public_key,
    )
    .expect("matching executable bytes and metadata should be accepted");
    let error = verify_preview_manifest(
        &manifest,
        b"main release bytes",
        b"tampered helper bytes",
        "0.9.0-preview.1",
        "preview",
        public_key,
    )
    .expect_err("tampered helper bytes must be rejected");
    assert!(error.message.contains("helper hash"));
    let error = verify_preview_manifest(
        &manifest,
        b"main release bytes",
        b"helper release bytes",
        "0.9.0-preview.2",
        "preview",
        public_key,
    )
    .expect_err("another build must be rejected");
    assert_eq!(error.message, "release identity metadata does not match this build");
}

#[test]
fn a_tampered_manifest_fails_its_signature() {
    let mut manifest = fixture_manifest();
    manifest.main_executable_sha256 = sha256_hex(b"other main bytes");
    assert!(decode_public_key(RELEASE_IDENTITY_PUBLIC_KEY).is_ok());
    let public_key = RELEASE_IDENTITY_PUBLIC_KEY;
    let error = verify_preview_manifest(
        &manifest,
        b"other main bytes",
        b"helper release bytes",
        "0.9.0-preview.1",
        "preview",
        public_key,
    )
    .expect_err("a changed digest must break the signature");
    assert_eq!(error.message, "release identity signature was rejected");
}

#[test]
fn encoded_keys_and_signatures_report_why_they_fail() {
    assert_eq!(
        decode_public_key("not base64!").err().map(|error| error.message),
        Some("release identity public key is not Base64".to_owned())
    );
    assert_eq!(
        decode_signature("/w==").err().map(|error| error.message),
        Some("release identity signature is not UTF-8".to_owned())
    );
    assert_eq!(
        decode_signature("aGVsbG8=").err().map(|error| error.message),
        Some("release identity signature is invalid".to_owned())
    );
    assert!(check_manifest_metadata(&fixture_manifest(), "0.9.0-preview.1", "preview").is_ok());
}

#[test]
fn application_pair_requires_exact_canonical_sibling_names() {
    assert!(check_application_pair(
        "C:\\Program Files\\Formation Lap\\formation-lap.exe",
        "C:\\Program Files\\Formation Lap\\formation-lap-elevated-helper.exe"
    )
    .is_ok());
    assert!(check_application_pair(
        "C:\\Program Files\\Formation Lap\\FORMATION-LAP.EXE",
        "C:\\Program Files\\Formation Lap\\formation-lap-elevated-helper.exe"
    )
    .is_ok());
    assert_eq!(
        check_application_pair(
            "C:\\Program Files\\Formation Lap\\renamed-main.exe",
            "C:\\Program Files\\Formation Lap\\formation-lap-elevated-helper.exe"
        )
        .expect_err("a renamed caller must be refused")
        .message,
        "caller is not named formation-lap.exe"
    );
    assert_eq!(
        check_application_pair(
            "C:\\Program Files\\Formation Lap\\formation-lap.exe",
            "C:\\Temp\\formation-lap-elevated-helper.exe"
        )
        .expect_err("separated executables must be refused")
        .message,
        "Formation Lap and its elevated helper are not canonical siblings"
    );
}

#[test]
fn only_preview_builds_verify_a_signed_release_identity() {
    assert_eq!(release_identity_check(true, None), Ok(ReleaseIdentityCheck::Skipped));
    assert_eq!(release_identity_check(false, Some("preview")), Ok(ReleaseIdentityCheck::VerifyPreview));
    assert_eq!(
        release_identity_check(false, Some("stable")).unwrap_err().message,
        "signed release identity verification is not available"
    );
    assert_eq!(
        release_identity_check(false, Some("beta")).unwrap_err().message,
        "signed release identity verification is not available"
    );
    assert_eq!(
        release_identity_check(false, Some("nightly")).unwrap_err().message,
        "compiled release channel is not recognized"
    );
    assert_eq!(
        release_identity_check(false, None).unwrap_err().message,
        "release channel is not compiled into this build"
    );
}
