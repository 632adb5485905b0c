//! Random identifiers for profiles, applications, requests and confirmations.
use crate::text::same_text;
use vstd::prelude::*;

verus! {

/// Whether a character is a lower-case hexadecimal digit.
pub open spec fn is_lower_hex(c: char) -> bool {
    ('0' <= c && c <= '9') || ('a' <= c && c <= 'f')
}

/// Whether a position of a hyphenated UUID holds a hyphen.
pub open spec fn is_uuid_hyphen_position(index: int) -> bool {
    index == 8 || index == 13 || index == 18 || index == 23
}

/// Whether a text is a UUID in its canonical form: 36 characters, lower-case
/// hexadecimal digits in five groups of 8, 4, 4, 4 and 12 joined by hyphens.
pub open spec fn is_canonical_uuid(text: Seq<char>) -> bool {
    &&& text.len() == 36
    &&& forall|index: int|
        0 <= index < 36 ==> if is_uuid_hyphen_position(index) {
            text[index] == '-'
        } else {
            is_lower_hex(#[trigger] text[index])
        }
}

/// A fresh random (version 4) UUID in canonical form.
///
/// Calls `uuid::Uuid::new_v4` and renders it with `to_string`. The contract
/// claims only the shape of the text: the crate's `Display` writes the
/// lower-case hyphenated form, and `new_v4` sets the version digit to `4`.
/// That two calls give different values is not stated.
#[verifier::external_body]
pub fn new_uuid() -> (res: String)
    ensures
        is_canonical_uuid(res@),
        res@[14] == '4',
{
    uuid::Uuid::new_v4().to_string()
}

/// The canonical rendering of a UUID text, if `uuid` can parse it.
///
/// Calls `uuid::Uuid::parse_str` and renders a parsed value with `to_string`.
/// The contract claims that whatever comes back is canonical, and that a text
/// already in canonical form comes back unchanged (the parser accepts
/// hyphenated hexadecimal and the renderer writes it in lower case). Which
/// other spellings the parser accepts is not stated.
#[verifier::external_body]
fn canonical_uuid_rendering(text: &str) -> (res: Option<String>)
    ensures
        res is Some ==> is_canonical_uuid(res->0@),
        is_canonical_uuid(text@) ==> res is Some && res->0@ == text@,
{
    uuid::Uuid::parse_str(text).ok().map(|parsed| parsed.to_string())
}

/// Whether a text is a UUID written exactly in canonical form.
pub fn is_canonical_uuid_text(text: &str) -> (res: bool)
    ensures
        res == is_canonical_uuid(text@),
{
    match canonical_uuid_rendering(text) {
        Some(rendered) => same_text(rendered.as_str(), text),
        None => false,
    }
}

} // verus!
