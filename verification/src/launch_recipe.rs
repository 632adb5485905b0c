//! Steam launch URIs and the sanitized launch target a diagnostic may record.
use crate::model::{LaunchRecipe, LaunchRecipeView, LaunchSource, SteamLaunchSelector};
use crate::text::{
    chars_of, decimal, decimal_chars, file_name, is_blank, path_file_name, string_from_chars,
    text_is_blank,
};
use vstd::prelude::*;
use vstd::string::StringSliceAdditionalSpecFns;
use vstd::utf8::encode_utf8;

verus! {

/// The largest total size, in bytes, of Steam launch arguments.
pub const MAX_STEAM_ARGUMENT_BYTES: usize = 4096;

/// Where a Test Game Launch went, without private paths or arguments.
#[derive(Clone, Debug)]
pub enum GameLaunchTarget {
    Steam { uri: String },
    DirectExecutable { executable_name: String },
}

/// The sanitized record of a Test Game Launch: names, the target and the
/// observed executable name, never private paths.
#[derive(Clone, Debug)]
pub struct GameLaunchDiagnostic {
    pub schema_version: u32,
    pub profile_name: String,
    pub vr_enabled: bool,
    pub vr_launch_mode: Option<crate::model::VrLaunchMode>,
    pub target: GameLaunchTarget,
    pub arguments: Vec<String>,
    pub monitored_process: Option<String>,
    pub observed_process: String,
}

/// A string result seen as character sequences.
pub open spec fn text_result(result: Result<String, String>) -> Result<Seq<char>, Seq<char>> {
    match result {
        Ok(value) => Ok(value@),
        Err(message) => Err(message@),
    }
}

/// Whether a byte stays as it is in a percent-encoded URI component.
pub open spec fn is_unreserved(byte: u8) -> bool {
    ||| (48u8 <= byte && byte <= 57u8)
    ||| (65u8 <= byte && byte <= 90u8)
    ||| (97u8 <= byte && byte <= 122u8)
    ||| byte == 45u8
    ||| byte == 46u8
    ||| byte == 95u8
    ||| byte == 126u8
}

/// The upper-case hexadecimal digit of a value below sixteen.
pub open spec fn hex_digit(value: u8) -> char {
    if value < 10 {
        ((48u8 + value) as u8) as char
    } else {
        ((65u8 + value - 10) as u8) as char
    }
}

/// The encoding of one byte: itself when unreserved, else `%` and two hex digits.
pub open spec fn encoded_byte(byte: u8) -> Seq<char> {
    if is_unreserved(byte) {
        seq![byte as char]
    } else {
        seq!['%', hex_digit(byte / 16), hex_digit(byte % 16)]
    }
}

/// The percent encoding of a byte sequence.
pub open spec fn percent_encoded(bytes: Seq<u8>) -> Seq<char>
    decreases bytes.len(),
{
    if bytes.len() == 0 {
        Seq::empty()
    } else {
        percent_encoded(bytes.drop_last()) + encoded_byte(bytes.last())
    }
}

fn hex_digit_char(value: u8) -> (res: char)
    requires
        value < 16,
    ensures
        res == hex_digit(value),
{
    if value < 10 {
        (48u8 + value) as char
    } else {
        (65u8 + value - 10) as char
    }
}

/// Percent-encodes the UTF-8 bytes of `value`.
pub fn percent_encode(value: &str) -> (res: Vec<char>)
    ensures
        res@ == percent_encoded(value.spec_bytes()),
{
    let bytes = value.as_bytes();
    let mut encoded: Vec<char> = Vec::new();
    let mut index: usize = 0;
    while index < bytes.len()
        invariant
            bytes@ == value.spec_bytes(),
            index <= bytes@.len(),
            encoded@ == percent_encoded(bytes@.subrange(0, index as int)),
        decreases bytes@.len() - index,
    {
        let byte = bytes[index];
        let unreserved = (48u8 <= byte && byte <= 57u8) || (65u8 <= byte && byte <= 90u8) || (97u8
            <= byte && byte <= 122u8) || byte == 45u8 || byte == 46u8 || byte == 95u8 || byte
            == 126u8;
        if unreserved {
            encoded.push(byte as char);
        } else {
            encoded.push('%');
            encoded.push(hex_digit_char(byte / 16));
            encoded.push(hex_digit_char(byte % 16));
        }
        proof {
            let prefix = bytes@.subrange(0, index + 1);
            assert(prefix.drop_last() =~= bytes@.subrange(0, index as int));
            assert(prefix.last() == byte);
        }
        index = index + 1;
        assert(encoded@ =~= percent_encoded(bytes@.subrange(0, index as int)));
    }
    assert(bytes@.subrange(0, bytes@.len() as int) =~= bytes@);
    encoded
}

/// The total UTF-8 size of a list of arguments.
pub open spec fn total_bytes(arguments: Seq<String>) -> nat
    decreases arguments.len(),
{
    if arguments.len() == 0 {
        0
    } else {
        total_bytes(arguments.drop_last()) + encode_utf8(arguments.last()@).len()
    }
}

/// The arguments of a Steam run URI: each one percent-encoded, joined by `%20`.
pub open spec fn joined_encoded_arguments(arguments: Seq<String>) -> Seq<char>
    decreases arguments.len(),
{
    if arguments.len() == 0 {
        Seq::empty()
    } else if arguments.len() == 1 {
        percent_encoded(encode_utf8(arguments[0]@))
    } else {
        joined_encoded_arguments(arguments.drop_last()) + "%20"@ + percent_encoded(encode_utf8(arguments.last()@))
    }
}

/// One argument alone is its percent encoding, with no separator.
pub proof fn joined_single_argument(argument: String)
    ensures
        joined_encoded_arguments(seq![argument]) == percent_encoded(encode_utf8(argument@)),
{
}

/// Joining two nonempty lists of arguments one after the other puts exactly one
/// `%20` between them: the encoding of a list is the encoding of its first
/// part, `%20`, and the encoding of its second part.
pub proof fn joined_arguments_concatenate(first: Seq<String>, second: Seq<String>)
    requires
        first.len() >= 1,
        second.len() >= 1,
    ensures
        joined_encoded_arguments(first + second) == joined_encoded_arguments(first) + "%20"@ + joined_encoded_arguments(second),
    decreases second.len(),
{
    if second.len() == 1 {
        assert((first + second).drop_last() =~= first);
        assert((first + second).last() == second[0]);
    } else {
        joined_arguments_concatenate(first, second.drop_last());
        assert((first + second).drop_last() =~= first + second.drop_last());
        assert((first + second).last() == second.last());
        assert(joined_encoded_arguments(first + second) == joined_encoded_arguments(first + second.drop_last()) + "%20"@
            + percent_encoded(encode_utf8(second.last()@)));
        assert(joined_encoded_arguments(second) == joined_encoded_arguments(second.drop_last()) + "%20"@ + percent_encoded(
            encode_utf8(second.last()@),
        ));
        assert(joined_encoded_arguments(first + second) =~= joined_encoded_arguments(first) + "%20"@
            + joined_encoded_arguments(second));
    }
}

/// Every argument in turn: the encoding of `n` arguments is the encoding of the
/// first, then `%20` and the encoding of each further one, so it holds exactly
/// `n - 1` separators, one between each pair of neighbours.
pub proof fn joined_arguments_separate_each_pair(arguments: Seq<String>, split: int)
    requires
        0 < split < arguments.len(),
    ensures
        joined_encoded_arguments(arguments) == joined_encoded_arguments(arguments.subrange(0, split)) + "%20"@
            + joined_encoded_arguments(arguments.subrange(split, arguments.len() as int)),
{
    joined_arguments_concatenate(arguments.subrange(0, split), arguments.subrange(split, arguments.len() as int));
    assert(arguments.subrange(0, split) + arguments.subrange(split, arguments.len() as int) =~= arguments);
}

/// The launch option a selector names in a `steam://launch` URI.
pub open spec fn selector_text(selector: SteamLaunchSelector) -> Seq<char> {
    match selector {
        SteamLaunchSelector::Default => "option0"@,
        SteamLaunchSelector::OpenVr => "VR"@,
        SteamLaunchSelector::Oculus => "OTHERVR"@,
        SteamLaunchSelector::Numbered { index } => "option"@ + decimal(index as nat),
    }
}

/// The Steam URI of a Launch Recipe, or why it has none.
pub open spec fn steam_uri(recipe: LaunchRecipeView) -> Result<Seq<char>, Seq<char>> {
    match recipe.source {
        LaunchSource::Steam { app_id, selector } => match selector {
            None => Err("Steam launch selector is missing"@),
            Some(selector) => if total_bytes(recipe.arguments) > MAX_STEAM_ARGUMENT_BYTES {
                Err("Steam launch arguments exceed the safe limit"@)
            } else if recipe.arguments.len() == 0 {
                Ok("steam://launch/"@ + decimal(app_id as nat) + "/"@ + selector_text(selector))
            } else if selector != SteamLaunchSelector::Default {
                Err("Steam launch arguments require the explicit default selector"@)
            } else {
                Ok("steam://run/"@ + decimal(app_id as nat) + "//"@ + joined_encoded_arguments(
                    recipe.arguments,
                ) + "/"@)
            },
        },
        LaunchSource::DirectExecutable { .. } => Err("launch source is not Steam"@),
    }
}

fn selector_chars(selector: SteamLaunchSelector) -> (res: Vec<char>)
    ensures
        res@ == selector_text(selector),
{
    match selector {
        SteamLaunchSelector::Default => chars_of("option0"),
        SteamLaunchSelector::OpenVr => chars_of("VR"),
        SteamLaunchSelector::Oculus => chars_of("OTHERVR"),
        SteamLaunchSelector::Numbered { index } => {
            let mut text = chars_of("option");
            let mut digits = decimal_chars(index as u128);
            text.append(&mut digits);
            text
        },
    }
}

/// Whether the arguments' total size exceeds the Steam limit.
fn arguments_exceed_limit(arguments: &Vec<String>) -> (res: bool)
    ensures
        res == (total_bytes(arguments@) > MAX_STEAM_ARGUMENT_BYTES),
{
    let mut total: usize = 0;
    let mut index: usize = 0;
    while index < arguments.len()
        invariant
            index <= arguments@.len(),
            total as nat == total_bytes(arguments@.subrange(0, index as int)),
            total <= MAX_STEAM_ARGUMENT_BYTES,
        decreases arguments@.len() - index,
    {
        let argument = arguments[index].as_str();
        let length = argument.as_bytes().len();
        proof {
            let prefix = arguments@.subrange(0, index + 1);
            assert(prefix.drop_last() =~= arguments@.subrange(0, index as int));
            assert(prefix.last() == arguments@[index as int]);
            assert(argument@ == arguments@[index as int]@);
            assert(length == encode_utf8(prefix.last()@).len());
        }
        if length > MAX_STEAM_ARGUMENT_BYTES - total {
            proof {
                lemma_total_bytes_prefix_monotone(arguments@, index + 1);
            }
            return true;
        }
        total = total + length;
        index = index + 1;
    }
    assert(arguments@.subrange(0, index as int) =~= arguments@);
    false
}

/// A longer prefix of a list of arguments is never smaller.
proof fn lemma_total_bytes_prefix_monotone(arguments: Seq<String>, length: int)
    requires
        0 <= length <= arguments.len(),
    ensures
        total_bytes(arguments.subrange(0, length)) <= total_bytes(arguments),
    decreases arguments.len() - length,
{
    if length < arguments.len() {
        lemma_total_bytes_prefix_monotone(arguments, length + 1);
        assert(arguments.subrange(0, length + 1).drop_last() =~= arguments.subrange(0, length));
    } else {
        assert(arguments.subrange(0, length) =~= arguments);
    }
}

fn joined_arguments(arguments: &Vec<String>) -> (res: Vec<char>)
    ensures
        res@ == joined_encoded_arguments(arguments@),
{
    let mut joined: Vec<char> = Vec::new();
    let mut index: usize = 0;
    while index < arguments.len()
        invariant
            index <= arguments@.len(),
            joined@ == joined_encoded_arguments(arguments@.subrange(0, index as int)),
        decreases arguments@.len() - index,
    {
        let mut encoded = percent_encode(arguments[index].as_str());
        proof {
            let prefix = arguments@.subrange(0, index + 1);
            assert(prefix.drop_last() =~= arguments@.subrange(0, index as int));
            assert(prefix.last() == arguments@[index as int]);
        }
        if index > 0 {
            let mut separator = chars_of("%20");
            joined.append(&mut separator);
        }
        joined.append(&mut encoded);
        index = index + 1;
        proof {
            let prefix = arguments@.subrange(0, index as int);
            if index == 1 {
                assert(prefix.len() == 1);
                assert(prefix[0] == arguments@[0]);
                assert(joined@ =~= joined_encoded_arguments(prefix));
            } else {
                assert(joined@ =~= joined_encoded_arguments(prefix));
            }
        }
    }
    assert(arguments@.subrange(0, index as int) =~= arguments@);
    joined
}

/// Renders the Steam URI of a Launch Recipe.
pub fn steam_launch_uri(recipe: &LaunchRecipe) -> (res: Result<String, String>)
    ensures
        text_result(res) == steam_uri(recipe@),
{
    let (app_id, selector) = match &recipe.source {
        LaunchSource::Steam { app_id, selector } => (*app_id, *selector),
        LaunchSource::DirectExecutable { .. } => {
            return Err(String::from_str("launch source is not Steam"));
        },
    };
    let selector = match selector {
        Some(selector) => selector,
        None => {
            return Err(String::from_str("Steam launch selector is missing"));
        },
    };
    if arguments_exceed_limit(&recipe.arguments) {
        return Err(String::from_str("Steam launch arguments exceed the safe limit"));
    }
    if recipe.arguments.len() == 0 {
        let mut uri = chars_of("steam://launch/");
        let mut digits = decimal_chars(app_id as u128);
        let mut slash = chars_of("/");
        let mut option = selector_chars(selector);
        uri.append(&mut digits);
        uri.append(&mut slash);
        uri.append(&mut option);
        return Ok(string_from_chars(&uri));
    }
    if selector != SteamLaunchSelector::Default {
        return Err(String::from_str("Steam launch arguments require the explicit default selector"));
    }
    let mut uri = chars_of("steam://run/");
    let mut digits = decimal_chars(app_id as u128);
    let mut separator = chars_of("//");
    let mut arguments = joined_arguments(&recipe.arguments);
    let mut closing = chars_of("/");
    uri.append(&mut digits);
    uri.append(&mut separator);
    uri.append(&mut arguments);
    uri.append(&mut closing);
    Ok(string_from_chars(&uri))
}

/// The sanitized target of a Launch Recipe, or why it has none.
pub open spec fn sanitized_target_spec(recipe: LaunchRecipeView) -> Result<Seq<char>, Seq<char>> {
    match recipe.source {
        LaunchSource::Steam { .. } => steam_uri(recipe),
        LaunchSource::DirectExecutable { executable_path } => match file_name(executable_path@) {
            Some(name) => if is_blank(name) {
                Err("direct executable does not have a valid file name"@)
            } else {
                Ok(name)
            },
            None => Err("direct executable does not have a valid file name"@),
        },
    }
}

/// The target a Test Game Launch records: the Steam URI, or only the executable's
/// file name for a direct launch.
pub fn sanitized_target(recipe: &LaunchRecipe) -> (res: Result<GameLaunchTarget, String>)
    ensures
        match res {
            Ok(GameLaunchTarget::Steam { uri }) => recipe.source is Steam && sanitized_target_spec(
                recipe@,
            ) == Ok::<Seq<char>, Seq<char>>(uri@),
            Ok(GameLaunchTarget::DirectExecutable { executable_name }) => recipe.source is DirectExecutable
                && sanitized_target_spec(recipe@) == Ok::<Seq<char>, Seq<char>>(executable_name@),
            Err(message) => sanitized_target_spec(recipe@) == Err::<Seq<char>, Seq<char>>(message@),
        },
{
    match &recipe.source {
        LaunchSource::Steam { .. } => match steam_launch_uri(recipe) {
            Ok(uri) => Ok(GameLaunchTarget::Steam { uri }),
            Err(message) => Err(message),
        },
        LaunchSource::DirectExecutable { executable_path } => {
            match path_file_name(executable_path.as_str()) {
                Some(name) => {
                    let name = string_from_chars(&name);
                    if text_is_blank(name.as_str()) {
                        Err(String::from_str("direct executable does not have a valid file name"))
                    } else {
                        Ok(GameLaunchTarget::DirectExecutable { executable_name: name })
                    }
                },
                None => Err(String::from_str("direct executable does not have a valid file name")),
            }
        },
    }
}

} // verus!
