//! The signed release identity that binds Formation Lap and its elevated
//! helper to the exact bytes of one release.
use crate::native_file_picker::path_is_file;
use crate::privilege_protocol::ELEVATED_HELPER_PROTOCOL_VERSION;
use crate::text::{
    chars_of, decimal, decimal_chars, eq_ignore_ascii_case, file_name, parent_directory, path_file_name,
    path_parent, same_text, starts_with, string_from_chars, text_eq_ignore_ascii_case,
};
use base64::Engine;
use sha2::Digest;
use vstd::prelude::*;
use vstd::utf8::{decode_utf8, encode_utf8, valid_utf8};

verus! {

/// The schema version of the release identity manifest.
pub const RELEASE_IDENTITY_SCHEMA_VERSION: u16 = 1;

/// The manifest's file name beside the executables.
pub const RELEASE_IDENTITY_FILE: &'static str = "formation-lap-release-identity.json";

/// The largest manifest, in bytes, that is read.
pub const MAX_RELEASE_IDENTITY_BYTES: u64 = 16384;

/// Why a release identity was refused.
#[derive(Debug, PartialEq, Eq)]
pub struct ReleaseIdentityError {
    pub message: String,
}

impl ReleaseIdentityError {
    /// An error with the given message.
    pub fn new(message: &str) -> (res: Self)
        ensures
            res.message@ == message@,
    {
        ReleaseIdentityError { message: message.to_string() }
    }
}

/// A Minisign public key.
#[verifier::external_type_specification]
#[verifier::external_body]
pub struct ExMinisignPublicKey(minisign_verify::PublicKey);

/// A Minisign signature.
#[verifier::external_type_specification]
#[verifier::external_body]
pub struct ExMinisignSignature(minisign_verify::Signature);

/// The signed manifest that names both executables' SHA-256 digests and the
/// build they belong to.
#[derive(Debug)]
pub struct ReleaseIdentityManifest {
    pub schema_version: u16,
    pub main_executable_sha256: String,
    pub helper_sha256: String,
    pub version: String,
    pub protocol_version: u16,
    pub release_channel: String,
    pub signature: String,
}

/// The text the release signature covers.
pub open spec fn signing_payload_text(manifest: ReleaseIdentityManifest) -> Seq<char> {
    "formation-lap-release-identity-v1\nmainExecutableSha256="@ + manifest.main_executable_sha256@
        + "\nhelperSha256="@ + manifest.helper_sha256@ + "\nversion="@ + manifest.version@
        + "\nprotocolVersion="@ + decimal(manifest.protocol_version as nat) + "\nreleaseChannel="@
        + manifest.release_channel@ + "\n"@
}

impl ReleaseIdentityManifest {
    /// The text the release signature covers: a fixed header and one line per
    /// signed field.
    pub fn signing_payload(&self) -> (res: String)
        ensures
            res@ == signing_payload_text(*self),
    {
        let mut text = chars_of("formation-lap-release-identity-v1\nmainExecutableSha256=");
        let mut part = chars_of(self.main_executable_sha256.as_str());
        text.append(&mut part);
        let mut part = chars_of("\nhelperSha256=");
        text.append(&mut part);
        let mut part = chars_of(self.helper_sha256.as_str());
        text.append(&mut part);
        let mut part = chars_of("\nversion=");
        text.append(&mut part);
        let mut part = chars_of(self.version.as_str());
        text.append(&mut part);
        let mut part = chars_of("\nprotocolVersion=");
        text.append(&mut part);
        let mut part = decimal_chars(self.protocol_version as u128);
        text.append(&mut part);
        let mut part = chars_of("\nreleaseChannel=");
        text.append(&mut part);
        let mut part = chars_of(self.release_channel.as_str());
        text.append(&mut part);
        let mut part = chars_of("\n");
        text.append(&mut part);
        string_from_chars(&text)
    }
}

/// Whether a character is a lowercase hexadecimal digit.
pub open spec fn is_lower_hex_digit(c: char) -> bool {
    ('0' <= c && c <= '9') || ('a' <= c && c <= 'f')
}

/// Whether a text is a SHA-256 digest in lowercase hexadecimal.
pub open spec fn is_sha256_text(value: Seq<char>) -> bool {
    value.len() == 64 && forall|i: int| 0 <= i < value.len() ==> is_lower_hex_digit(#[trigger] value[i])
}

/// Refuses anything but 64 lowercase hexadecimal digits.
pub fn validate_sha256(value: &str) -> (res: Result<(), ReleaseIdentityError>)
    ensures
        res is Ok <==> is_sha256_text(value@),
        res is Err ==> res->Err_0.message@ == "release identity contains an invalid SHA-256 digest"@,
{
    let characters = chars_of(value);
    let mut valid = characters.len() == 64;
    let mut index: usize = 0;
    while index < characters.len() && valid
        invariant
            characters@ == value@,
            index <= characters@.len(),
            valid == (characters@.len() == 64 && forall|i: int| 0 <= i < index ==> is_lower_hex_digit(#[trigger] characters@[i])),
        decreases characters@.len() - index,
    {
        let c = characters[index];
        if !(('0' <= c && c <= '9') || ('a' <= c && c <= 'f')) {
            valid = false;
        }
        index = index + 1;
    }
    if !valid {
        return Err(ReleaseIdentityError::new("release identity contains an invalid SHA-256 digest"));
    }
    Ok(())
}

/// The lowercase hexadecimal digit of a value below sixteen.
pub open spec fn lower_hex_digit(value: u8) -> char {
    if value < 10 {
        (('0' as u8) + value) as char
    } else {
        (('a' as u8) + value - 10) as char
    }
}

/// Bytes written as lowercase hexadecimal, two digits each.
pub open spec fn lower_hex(bytes: Seq<u8>) -> Seq<char>
    decreases bytes.len(),
{
    if bytes.len() == 0 {
        Seq::empty()
    } else {
        lower_hex(bytes.drop_last()).push(lower_hex_digit(bytes.last() / 16)).push(lower_hex_digit(bytes.last() % 16))
    }
}

fn lower_hex_digit_of(value: u8) -> (res: char)
    requires
        value < 16,
    ensures
        res == lower_hex_digit(value),
{
    if value < 10 {
        (('0' as u8) + value) as char
    } else {
        (('a' as u8) + value - 10) as char
    }
}

/// Bytes in lowercase hexadecimal, as `{:x}` writes a digest.
pub fn lower_hex_text(bytes: &[u8]) -> (res: String)
    ensures
        res@ == lower_hex(bytes@),
{
    let mut text: Vec<char> = Vec::new();
    let mut index: usize = 0;
    while index < bytes.len()
        invariant
            index <= bytes@.len(),
            text@ == lower_hex(bytes@.subrange(0, index as int)),
        decreases bytes@.len() - index,
    {
        let byte = bytes[index];
        text.push(lower_hex_digit_of(byte / 16));
        text.push(lower_hex_digit_of(byte % 16));
        proof {
            let prefix = bytes@.subrange(0, index + 1);
            assert(prefix.drop_last() =~= bytes@.subrange(0, index as int));
            assert(prefix.last() == byte);
        }
        index = index + 1;
    }
    assert(bytes@.subrange(0, bytes@.len() as int) =~= bytes@);
    string_from_chars(&text)
}

/// The SHA-256 digest of some bytes.
pub uninterp spec fn sha256_digest(bytes: Seq<u8>) -> Seq<u8>;

/// Hashes bytes with `sha2::Sha256::digest`. The contract names the digest
/// and states its length of 32 bytes; the hash function itself is the crate's.
#[verifier::external_body]
fn sha256(bytes: &[u8]) -> (res: Vec<u8>)
    ensures
        res@ == sha256_digest(bytes@),
        res@.len() == 32,
{
    sha2::Sha256::digest(bytes).to_vec()
}

/// The lowercase hexadecimal SHA-256 digest of some bytes.
pub fn sha256_hex(bytes: &[u8]) -> (res: String)
    ensures
        res@ == lower_hex(sha256_digest(bytes@)),
{
    let digest = sha256(bytes);
    lower_hex_text(digest.as_slice())
}

/// What standard Base64 decoding gives for a text, if it is valid Base64.
pub uninterp spec fn standard_base64_decoded(text: Seq<char>) -> Option<Seq<u8>>;

/// Decodes standard, padded Base64 with `base64`'s `STANDARD` engine. The
/// contract names the result; the alphabet and padding rules are the crate's.
#[verifier::external_body]
pub(crate) fn decode_standard_base64(text: &str) -> (res: Option<Vec<u8>>)
    ensures
        match res {
            Some(bytes) => standard_base64_decoded(text@) == Some(bytes@),
            None => standard_base64_decoded(text@) is None,
        },
{
    match base64::engine::general_purpose::STANDARD.decode(text) {
        Ok(bytes) => Some(bytes),
        Err(_) => None,
    }
}

/// Reads bytes as UTF-8 text with `std::str::from_utf8`, which refuses bytes
/// that are not valid UTF-8 and otherwise gives the characters they encode.
#[verifier::external_body]
pub(crate) fn utf8_text(bytes: &[u8]) -> (res: Option<String>)
    ensures
        match res {
            Some(text) => valid_utf8(bytes@) && text@ == decode_utf8(bytes@),
            None => !valid_utf8(bytes@),
        },
{
    match std::str::from_utf8(bytes) {
        Ok(text) => Some(text.to_string()),
        Err(_) => None,
    }
}

/// Whether `minisign_verify::PublicKey::decode` accepts a `minisign.pub` text.
pub uninterp spec fn minisign_key_decodes(text: Seq<char>) -> bool;

/// Whether `minisign_verify::Signature::decode` accepts a signature text.
pub uninterp spec fn minisign_signature_decodes(text: Seq<char>) -> bool;

/// Whether `minisign_verify::PublicKey::verify`, legacy signatures allowed,
/// accepts the signature text over the payload under the public key text.
pub uninterp spec fn minisign_verifies(public_key: Seq<char>, payload: Seq<u8>, signature: Seq<char>) -> bool;

/// Reads a Minisign public key in `minisign.pub` form with
/// `minisign_verify::PublicKey::decode`. The contract names whether the text
/// decodes (`minisign_key_decodes`); the key itself is opaque.
#[verifier::external_body]
pub(crate) fn minisign_public_key(text: &str) -> (res: Option<minisign_verify::PublicKey>)
    ensures
        res is Some == minisign_key_decodes(text@),
{
    match minisign_verify::PublicKey::decode(text) {
        Ok(key) => Some(key),
        Err(_) => None,
    }
}

/// Reads a Minisign signature with `minisign_verify::Signature::decode`. The
/// contract names whether the text decodes (`minisign_signature_decodes`); the
/// signature itself is opaque.
#[verifier::external_body]
pub(crate) fn minisign_signature(text: &str) -> (res: Option<minisign_verify::Signature>)
    ensures
        res is Some == minisign_signature_decodes(text@),
{
    match minisign_verify::Signature::decode(text) {
        Ok(signature) => Some(signature),
        Err(_) => None,
    }
}

/// Checks a signature over some bytes with `minisign_verify::PublicKey::verify`,
/// legacy signatures allowed, reading the key and the signature from their
/// texts with the crate's `decode` functions. The contract names the answer
/// (`minisign_verifies`), which depends on the three arguments alone, and states
/// that an accepted signature comes from texts that decode.
#[verifier::external_body]
pub(crate) fn minisign_accepts(public_key_text: &str, payload: &[u8], signature_text: &str) -> (res: bool)
    ensures
        res == minisign_verifies(public_key_text@, payload@, signature_text@),
        res ==> minisign_key_decodes(public_key_text@) && minisign_signature_decodes(signature_text@),
{
    match (minisign_verify::PublicKey::decode(public_key_text), minisign_verify::Signature::decode(signature_text)) {
        (Ok(key), Ok(signature)) => key.verify(payload, &signature, true).is_ok(),
        _ => false,
    }
}

/// The `minisign.pub` text a Base64 public key setting holds, if it holds one.
pub open spec fn encoded_text(encoded: Seq<char>) -> Option<Seq<char>> {
    match standard_base64_decoded(encoded) {
        Some(bytes) => if valid_utf8(bytes) {
            Some(decode_utf8(bytes))
        } else {
            None
        },
        None => None,
    }
}

/// The text behind a Base64 setting, or the error to report.
pub(crate) fn decoded_text(encoded: &str, not_base64: &str, not_utf8: &str) -> (res: Result<String, ReleaseIdentityError>)
    ensures
        match encoded_text(encoded@) {
            Some(text) => res is Ok && res->Ok_0@ == text,
            None => res is Err && (res->Err_0.message@ == not_base64@ || res->Err_0.message@ == not_utf8@),
        },
        standard_base64_decoded(encoded@) is None ==> res is Err && res->Err_0.message@ == not_base64@,
        standard_base64_decoded(encoded@) is Some && encoded_text(encoded@) is None ==> res is Err
            && res->Err_0.message@ == not_utf8@,
{
    let bytes = match decode_standard_base64(encoded) {
        Some(bytes) => bytes,
        None => return Err(ReleaseIdentityError::new(not_base64)),
    };
    match utf8_text(bytes.as_slice()) {
        Some(text) => Ok(text),
        None => Err(ReleaseIdentityError::new(not_utf8)),
    }
}

/// The release identity public key from its Base64 setting.
pub fn decode_public_key(encoded: &str) -> (res: Result<minisign_verify::PublicKey, ReleaseIdentityError>)
    ensures
        standard_base64_decoded(encoded@) is None ==> res is Err && res->Err_0.message@
            == "release identity public key is not Base64"@,
        standard_base64_decoded(encoded@) is Some && encoded_text(encoded@) is None ==> res is Err
            && res->Err_0.message@ == "release identity public key is not UTF-8"@,
        res is Ok <==> (encoded_text(encoded@) matches Some(text) && minisign_key_decodes(text)),
        encoded_text(encoded@) is Some && res is Err ==> res->Err_0.message@ == "release identity public key is invalid"@,
{
    let text = decoded_text(encoded, "release identity public key is not Base64", "release identity public key is not UTF-8")?;
    match minisign_public_key(text.as_str()) {
        Some(key) => Ok(key),
        None => Err(ReleaseIdentityError::new("release identity public key is invalid")),
    }
}

/// The release identity signature from its Base64 form.
pub fn decode_signature(encoded: &str) -> (res: Result<minisign_verify::Signature, ReleaseIdentityError>)
    ensures
        standard_base64_decoded(encoded@) is None ==> res is Err && res->Err_0.message@
            == "release identity signature is not Base64"@,
        standard_base64_decoded(encoded@) is Some && encoded_text(encoded@) is None ==> res is Err
            && res->Err_0.message@ == "release identity signature is not UTF-8"@,
        res is Ok <==> (encoded_text(encoded@) matches Some(text) && minisign_signature_decodes(text)),
        encoded_text(encoded@) is Some && res is Err ==> res->Err_0.message@ == "release identity signature is invalid"@,
{
    let text = decoded_text(encoded, "release identity signature is not Base64", "release identity signature is not UTF-8")?;
    match minisign_signature(text.as_str()) {
        Some(signature) => Ok(signature),
        None => Err(ReleaseIdentityError::new("release identity signature is invalid")),
    }
}

/// Whether a manifest's metadata belongs to this build and names two digests.
pub open spec fn metadata_matches(
    manifest: ReleaseIdentityManifest,
    expected_version: Seq<char>,
    expected_channel: Seq<char>,
) -> bool {
    &&& manifest.schema_version == RELEASE_IDENTITY_SCHEMA_VERSION
    &&& manifest.version@ == expected_version
    &&& manifest.protocol_version == ELEVATED_HELPER_PROTOCOL_VERSION
    &&& manifest.release_channel@ == expected_channel
}

/// Refuses a manifest of another build, or one whose digests are malformed.
pub fn check_manifest_metadata(
    manifest: &ReleaseIdentityManifest,
    expected_version: &str,
    expected_channel: &str,
) -> (res: Result<(), ReleaseIdentityError>)
    ensures
        !metadata_matches(*manifest, expected_version@, expected_channel@) ==> res is Err && res->Err_0.message@
            == "release identity metadata does not match this build"@,
        metadata_matches(*manifest, expected_version@, expected_channel@) ==> (res is Ok <==> (is_sha256_text(
            manifest.main_executable_sha256@,
        ) && is_sha256_text(manifest.helper_sha256@))),
        res is Err && metadata_matches(*manifest, expected_version@, expected_channel@) ==> res->Err_0.message@
            == "release identity contains an invalid SHA-256 digest"@,
{
    if manifest.schema_version != RELEASE_IDENTITY_SCHEMA_VERSION || !same_text(manifest.version.as_str(), expected_version)
        || manifest.protocol_version != ELEVATED_HELPER_PROTOCOL_VERSION || !same_text(
        manifest.release_channel.as_str(),
        expected_channel,
    ) {
        return Err(ReleaseIdentityError::new("release identity metadata does not match this build"));
    }
    validate_sha256(manifest.main_executable_sha256.as_str())?;
    validate_sha256(manifest.helper_sha256.as_str())?;
    Ok(())
}

/// Whether a preview release verifies: the manifest belongs to this build and
/// names two digests, the Base64 release key and the manifest's signature
/// decode, the signature verifies over the signing payload, and both
/// executables hash to the digests the manifest names.
pub open spec fn preview_release_verifies(
    manifest: ReleaseIdentityManifest,
    main_executable: Seq<u8>,
    helper_executable: Seq<u8>,
    expected_version: Seq<char>,
    expected_channel: Seq<char>,
    public_key: Seq<char>,
) -> bool {
    &&& metadata_matches(manifest, expected_version, expected_channel)
    &&& is_sha256_text(manifest.main_executable_sha256@)
    &&& is_sha256_text(manifest.helper_sha256@)
    &&& encoded_text(public_key) matches Some(key)
    &&& encoded_text(manifest.signature@) matches Some(signature)
    &&& minisign_key_decodes(key)
    &&& minisign_signature_decodes(signature)
    &&& minisign_verifies(key, encode_utf8(signing_payload_text(manifest)), signature)
    &&& manifest.main_executable_sha256@ == lower_hex(sha256_digest(main_executable))
    &&& manifest.helper_sha256@ == lower_hex(sha256_digest(helper_executable))
}

/// Verifies a preview release: the manifest belongs to this build, its
/// signature verifies under the Base64 release key, and both executables hash
/// to the digests it names.
pub fn verify_preview_manifest(
    manifest: &ReleaseIdentityManifest,
    main_executable: &[u8],
    helper_executable: &[u8],
    expected_version: &str,
    expected_channel: &str,
    public_key: &str,
) -> (res: Result<(), ReleaseIdentityError>)
    ensures
        res is Ok <==> preview_release_verifies(
            *manifest,
            main_executable@,
            helper_executable@,
            expected_version@,
            expected_channel@,
            public_key@,
        ),
        !metadata_matches(*manifest, expected_version@, expected_channel@) ==> res is Err && res->Err_0.message@
            == "release identity metadata does not match this build"@,
        res is Err && metadata_matches(*manifest, expected_version@, expected_channel@) && is_sha256_text(
            manifest.main_executable_sha256@,
        ) && is_sha256_text(manifest.helper_sha256@) && (encoded_text(public_key@) matches Some(key)
            && minisign_key_decodes(key)) && (encoded_text(manifest.signature@) matches Some(signature)
            && minisign_signature_decodes(signature)) && manifest.main_executable_sha256@ == lower_hex(
            sha256_digest(main_executable@),
        ) && manifest.helper_sha256@ == lower_hex(sha256_digest(helper_executable@)) ==> res->Err_0.message@
            == "release identity signature was rejected"@,
        res is Err && preview_signature_accepted(*manifest, expected_version@, expected_channel@, public_key@)
            && manifest.main_executable_sha256@ == lower_hex(sha256_digest(main_executable@)) ==> res->Err_0.message@
            == "elevated helper hash does not match the release identity"@,
{
    check_manifest_metadata(manifest, expected_version, expected_channel)?;
    let key_text = decoded_text(public_key, "release identity public key is not Base64", "release identity public key is not UTF-8")?;
    if minisign_public_key(key_text.as_str()).is_none() {
        return Err(ReleaseIdentityError::new("release identity public key is invalid"));
    }
    let signature_text = decoded_text(
        manifest.signature.as_str(),
        "release identity signature is not Base64",
        "release identity signature is not UTF-8",
    )?;
    if minisign_signature(signature_text.as_str()).is_none() {
        return Err(ReleaseIdentityError::new("release identity signature is invalid"));
    }
    let payload = manifest.signing_payload();
    if !minisign_accepts(key_text.as_str(), payload.as_str().as_bytes(), signature_text.as_str()) {
        return Err(ReleaseIdentityError::new("release identity signature was rejected"));
    }
    let main_digest = sha256_hex(main_executable);
    if !same_text(main_digest.as_str(), manifest.main_executable_sha256.as_str()) {
        return Err(ReleaseIdentityError::new("Formation Lap executable hash does not match the release identity"));
    }
    let helper_digest = sha256_hex(helper_executable);
    if !same_text(helper_digest.as_str(), manifest.helper_sha256.as_str()) {
        return Err(ReleaseIdentityError::new("elevated helper hash does not match the release identity"));
    }
    Ok(())
}

/// Whether a manifest passes every check before the executables are hashed.
pub open spec fn preview_signature_accepted(
    manifest: ReleaseIdentityManifest,
    expected_version: Seq<char>,
    expected_channel: Seq<char>,
    public_key: Seq<char>,
) -> bool {
    &&& metadata_matches(manifest, expected_version, expected_channel)
    &&& is_sha256_text(manifest.main_executable_sha256@)
    &&& is_sha256_text(manifest.helper_sha256@)
    &&& encoded_text(public_key) matches Some(key)
    &&& encoded_text(manifest.signature@) matches Some(signature)
    &&& minisign_key_decodes(key)
    &&& minisign_signature_decodes(signature)
    &&& minisign_verifies(key, encode_utf8(signing_payload_text(manifest)), signature)
}

/// Whether a path's file name is the expected one, ignoring ASCII case.
pub open spec fn file_name_is(path: Seq<char>, expected: Seq<char>) -> bool {
    file_name(path) matches Some(name) && eq_ignore_ascii_case(name, expected)
}

fn file_name_matches(path: &str, expected: &str) -> (res: bool)
    ensures
        res == file_name_is(path@, expected@),
{
    match path_file_name(path) {
        Some(name) => {
            let name = string_from_chars(&name);
            text_eq_ignore_ascii_case(name.as_str(), expected)
        },
        None => false,
    }
}

/// Canonicalizes a path with `std::path::Path::canonicalize`. What is on disk
/// decides, so nothing is promised of the answer.
#[verifier::external_body]
pub(crate) fn canonicalize_path(path: &str) -> (res: Result<String, String>) {
    match std::path::Path::new(path).canonicalize() {
        Ok(canonical) => Ok(canonical.to_string_lossy().into_owned()),
        Err(error) => Err(error.to_string()),
    }
}

fn labelled(label: &str, text: &str, detail: &str) -> (res: ReleaseIdentityError)
    ensures
        res.message@ == label@ + text@ + detail@,
        starts_with(res.message@, label@),
{
    let mut message = chars_of(label);
    let mut part = chars_of(text);
    message.append(&mut part);
    let mut part = chars_of(detail);
    message.append(&mut part);
    assert((label@ + text@ + detail@).subrange(0, label@.len() as int) =~= label@);
    ReleaseIdentityError { message: string_from_chars(&message) }
}

/// The canonical path of an existing regular file.
fn canonical_file(path: &str, label: &str) -> (res: Result<String, ReleaseIdentityError>)
    ensures
        res is Err ==> starts_with(res->Err_0.message@, label@),
{
    let canonical = match canonicalize_path(path) {
        Ok(canonical) => canonical,
        Err(error) => return Err(labelled(label, " is unavailable: ", error.as_str())),
    };
    if !path_is_file(canonical.as_str()) {
        return Err(labelled(label, " is not a regular file", ""));
    }
    Ok(canonical)
}

/// Why a canonical executable pair is not the installed pair, if it is not.
pub open spec fn pair_failure(main: Seq<char>, helper: Seq<char>) -> Option<Seq<char>> {
    if !file_name_is(main, "formation-lap.exe"@) {
        Some("caller is not named formation-lap.exe"@)
    } else if !file_name_is(helper, "formation-lap-elevated-helper.exe"@) {
        Some("helper has an unexpected executable name"@)
    } else if parent_directory(main) != parent_directory(helper) {
        Some("Formation Lap and its elevated helper are not canonical siblings"@)
    } else {
        None
    }
}

/// Whether a message is one of the reasons a canonical pair is refused.
pub open spec fn is_pair_failure_message(message: Seq<char>) -> bool {
    exists|main: Seq<char>, helper: Seq<char>| #[trigger] pair_failure(main, helper) == Some(message)
}

/// Accepts two canonical paths only when they are `formation-lap.exe` and
/// `formation-lap-elevated-helper.exe` in one folder.
pub fn check_application_pair(main: &str, helper: &str) -> (res: Result<(), ReleaseIdentityError>)
    ensures
        match pair_failure(main@, helper@) {
            Some(message) => res is Err && res->Err_0.message@ == message,
            None => res is Ok,
        },
{
    if !file_name_matches(main, "formation-lap.exe") {
        return Err(ReleaseIdentityError::new("caller is not named formation-lap.exe"));
    }
    if !file_name_matches(helper, "formation-lap-elevated-helper.exe") {
        return Err(ReleaseIdentityError::new("helper has an unexpected executable name"));
    }
    let main_parent = path_parent(main);
    let helper_parent = path_parent(helper);
    let siblings = match (&main_parent, &helper_parent) {
        (Some(left), Some(right)) => {
            let left = string_from_chars(left);
            let right = string_from_chars(right);
            same_text(left.as_str(), right.as_str())
        },
        (None, None) => true,
        _ => false,
    };
    if !siblings {
        return Err(ReleaseIdentityError::new("Formation Lap and its elevated helper are not canonical siblings"));
    }
    Ok(())
}

/// Canonicalizes both executables and accepts them only as the installed pair.
pub fn validate_expected_application_pair(
    main_executable: &str,
    helper_executable: &str,
) -> (res: Result<(String, String), ReleaseIdentityError>)
    ensures
        res matches Ok((main, helper)) ==> pair_failure(main@, helper@) is None,
        res is Err ==> starts_with(res->Err_0.message@, "Formation Lap executable"@) || starts_with(
            res->Err_0.message@,
            "elevated helper"@,
        ) || is_pair_failure_message(res->Err_0.message@),
{
    let main = canonical_file(main_executable, "Formation Lap executable")?;
    let helper = canonical_file(helper_executable, "elevated helper")?;
    match check_application_pair(main.as_str(), helper.as_str()) {
        Ok(()) => {},
        Err(error) => {
            assert(pair_failure(main@, helper@) == Some(error.message@));
            return Err(error);
        },
    }
    Ok((main, helper))
}

/// What a build does with its release identity before it starts the elevated
/// helper.
#[derive(Debug, PartialEq, Eq)]
pub enum ReleaseIdentityCheck {
    /// A development build trusts the installed pair without a manifest.
    Skipped,
    /// A preview build verifies the signed manifest and both digests.
    VerifyPreview,
}

/// The check a build owes, from whether it is a development build and the
/// release channel compiled into it.
pub open spec fn release_identity_check_for(
    development_build: bool,
    channel: Option<Seq<char>>,
) -> Result<ReleaseIdentityCheck, Seq<char>> {
    if development_build {
        Ok(ReleaseIdentityCheck::Skipped)
    } else {
        match channel {
            None => Err("release channel is not compiled into this build"@),
            Some(name) => if name == "preview"@ {
                Ok(ReleaseIdentityCheck::VerifyPreview)
            } else if name == "beta"@ || name == "stable"@ {
                Err("signed release identity verification is not available"@)
            } else {
                Err("compiled release channel is not recognized"@)
            },
        }
    }
}

/// Decides how a build checks its release identity: development builds skip
/// it, preview builds verify the signed manifest, and every other channel is
/// refused.
pub fn release_identity_check(
    development_build: bool,
    channel: Option<&str>,
) -> (res: Result<ReleaseIdentityCheck, ReleaseIdentityError>)
    ensures
        match release_identity_check_for(
            development_build,
            match channel {
                Some(name) => Some(name@),
                None => None,
            },
        ) {
            Ok(check) => res == Ok::<ReleaseIdentityCheck, ReleaseIdentityError>(check),
            Err(message) => res is Err && res->Err_0.message@ == message,
        },
{
    if development_build {
        return Ok(ReleaseIdentityCheck::Skipped);
    }
    match channel {
        None => Err(ReleaseIdentityError::new("release channel is not compiled into this build")),
        Some(name) => {
            if same_text(name, "preview") {
                Ok(ReleaseIdentityCheck::VerifyPreview)
            } else if same_text(name, "beta") || same_text(name, "stable") {
                Err(ReleaseIdentityError::new("signed release identity verification is not available"))
            } else {
                Err(ReleaseIdentityError::new("compiled release channel is not recognized"))
            }
        },
    }
}

} // verus!
