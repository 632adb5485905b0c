//! Character-level text helpers: whitespace, ASCII case, decimal numbers and paths.
use vstd::prelude::*;

verus! {

/// The characters of a string slice, in order.
#[verifier::external_body]
pub fn chars_of(text: &str) -> (res: Vec<char>)
    ensures
        res@ == text@,
{
    text.chars().collect()
}

/// A string made of the given characters, in order.
#[verifier::external_body]
pub fn string_from_chars(characters: &Vec<char>) -> (res: String)
    ensures
        res@ == characters@,
{
    characters.iter().collect()
}

/// Unicode `White_Space`, the set that `char::is_whitespace` and `str::trim` use.
pub open spec fn is_whitespace(c: char) -> bool {
    ||| ('\u{9}' <= c && c <= '\u{d}')
    ||| c == ' '
    ||| c == '\u{85}'
    ||| c == '\u{a0}'
    ||| c == '\u{1680}'
    ||| ('\u{2000}' <= c && c <= '\u{200a}')
    ||| c == '\u{2028}'
    ||| c == '\u{2029}'
    ||| c == '\u{202f}'
    ||| c == '\u{205f}'
    ||| c == '\u{3000}'
}

pub fn char_is_whitespace(c: char) -> (res: bool)
    ensures
        res == is_whitespace(c),
{
    ('\u{9}' <= c && c <= '\u{d}') || c == ' ' || c == '\u{85}' || c == '\u{a0}' || c == '\u{1680}'
        || ('\u{2000}' <= c && c <= '\u{200a}') || c == '\u{2028}' || c == '\u{2029}' || c
        == '\u{202f}' || c == '\u{205f}' || c == '\u{3000}'
}

/// Whether a text holds nothing but whitespace: what `text.trim().is_empty()` tests.
pub open spec fn is_blank(text: Seq<char>) -> bool {
    forall|i: int| 0 <= i < text.len() ==> is_whitespace(#[trigger] text[i])
}

pub fn text_is_blank(text: &str) -> (res: bool)
    ensures
        res == is_blank(text@),
{
    let characters = chars_of(text);
    let mut index: usize = 0;
    while index < characters.len()
        invariant
            characters@ == text@,
            index <= characters@.len(),
            forall|i: int| 0 <= i < index ==> is_whitespace(#[trigger] text@[i]),
        decreases characters@.len() - index,
    {
        if !char_is_whitespace(characters[index]) {
            return false;
        }
        index = index + 1;
    }
    true
}

/// The index of the first non-whitespace character, or the length.
pub open spec fn trim_start_index(text: Seq<char>) -> int
    decreases text.len(),
{
    if text.len() == 0 || !is_whitespace(text[0]) {
        0
    } else {
        1 + trim_start_index(text.drop_first())
    }
}

/// The length that remains after trailing whitespace is removed.
pub open spec fn trim_end_length(text: Seq<char>) -> int
    decreases text.len(),
{
    if text.len() == 0 || !is_whitespace(text.last()) {
        text.len() as int
    } else {
        trim_end_length(text.drop_last())
    }
}

/// `str::trim_end`.
pub open spec fn trim_end(text: Seq<char>) -> Seq<char> {
    text.subrange(0, trim_end_length(text))
}

/// `str::trim_start`.
pub open spec fn trim_start(text: Seq<char>) -> Seq<char> {
    text.subrange(trim_start_index(text), text.len() as int)
}

/// `str::trim`.
pub open spec fn trim(text: Seq<char>) -> Seq<char> {
    trim_end(trim_start(text))
}

proof fn lemma_trim_start_index_bounds(text: Seq<char>)
    ensures
        0 <= trim_start_index(text) <= text.len(),
        forall|i: int| 0 <= i < trim_start_index(text) ==> is_whitespace(#[trigger] text[i]),
        trim_start_index(text) < text.len() ==> !is_whitespace(text[trim_start_index(text)]),
    decreases text.len(),
{
    if text.len() > 0 && is_whitespace(text[0]) {
        lemma_trim_start_index_bounds(text.drop_first());
        assert forall|i: int| 0 <= i < trim_start_index(text) implies is_whitespace(
            #[trigger] text[i],
        ) by {
            if i > 0 {
                assert(text[i] == text.drop_first()[i - 1]);
            }
        }
    }
}

proof fn lemma_trim_end_length_bounds(text: Seq<char>)
    ensures
        0 <= trim_end_length(text) <= text.len(),
        forall|i: int| trim_end_length(text) <= i < text.len() ==> is_whitespace(#[trigger] text[i]),
        trim_end_length(text) > 0 ==> !is_whitespace(text[trim_end_length(text) - 1]),
    decreases text.len(),
{
    if text.len() > 0 && is_whitespace(text.last()) {
        lemma_trim_end_length_bounds(text.drop_last());
        assert forall|i: int| trim_end_length(text) <= i < text.len() implies is_whitespace(
            #[trigger] text[i],
        ) by {
            if i < text.len() - 1 {
                assert(text[i] == text.drop_last()[i]);
            }
        }
    }
}

/// The first index whose character is not whitespace.
fn trim_start_position(characters: &Vec<char>) -> (res: usize)
    ensures
        res == trim_start_index(characters@),
{
    let mut index: usize = 0;
    assert(characters@.subrange(0, characters@.len() as int) =~= characters@);
    while index < characters.len() && char_is_whitespace(characters[index])
        invariant
            index <= characters@.len(),
            trim_start_index(characters@) == index + trim_start_index(characters@.subrange(index as int, characters@.len() as int)),
        decreases characters@.len() - index,
    {
        let ghost rest = characters@.subrange(index as int, characters@.len() as int);
        assert(rest.drop_first() =~= characters@.subrange(index + 1, characters@.len() as int));
        index = index + 1;
    }
    proof {
        let rest = characters@.subrange(index as int, characters@.len() as int);
        if index < characters@.len() {
            assert(rest[0] == characters@[index as int]);
        }
    }
    index
}

/// The length without trailing whitespace.
fn trim_end_position(characters: &Vec<char>, start: usize) -> (res: usize)
    requires
        start <= characters@.len(),
    ensures
        res == start + trim_end_length(characters@.subrange(start as int, characters@.len() as int)),
{
    let mut end: usize = characters.len();
    while end > start && char_is_whitespace(characters[end - 1])
        invariant
            start <= end <= characters@.len(),
            start + trim_end_length(characters@.subrange(start as int, characters@.len() as int))
                == start + trim_end_length(characters@.subrange(start as int, end as int)),
        decreases end,
    {
        let ghost part = characters@.subrange(start as int, end as int);
        assert(part.drop_last() =~= characters@.subrange(start as int, end - 1));
        assert(part.last() == characters@[end - 1]);
        end = end - 1;
    }
    proof {
        let part = characters@.subrange(start as int, end as int);
        if end > start {
            assert(part.last() == characters@[end - 1]);
        }
    }
    end
}

/// A copy of the characters from `start` up to `end`.
pub fn chars_between(characters: &Vec<char>, start: usize, end: usize) -> (res: Vec<char>)
    requires
        start <= end <= characters@.len(),
    ensures
        res@ == characters@.subrange(start as int, end as int),
{
    let mut res: Vec<char> = Vec::new();
    let mut index = start;
    while index < end
        invariant
            start <= index <= end,
            end <= characters@.len(),
            res@ =~= characters@.subrange(start as int, index as int),
        decreases end - index,
    {
        res.push(characters[index]);
        index = index + 1;
    }
    res
}

/// The characters without leading and trailing whitespace.
pub fn trim_chars(characters: &Vec<char>) -> (res: Vec<char>)
    ensures
        res@ == trim(characters@),
{
    let start = trim_start_position(characters);
    proof {
        lemma_trim_start_index_bounds(characters@);
    }
    let end = trim_end_position(characters, start);
    proof {
        lemma_trim_end_length_bounds(characters@.subrange(start as int, characters@.len() as int));
    }
    let res = chars_between(characters, start, end);
    proof {
        let started = characters@.subrange(start as int, characters@.len() as int);
        assert(trim_start(characters@) =~= started);
        assert(trim(characters@) =~= started.subrange(0, end - start));
        assert(res@ =~= started.subrange(0, end - start));
    }
    res
}

/// The characters of `text` without leading and trailing whitespace.
pub fn trimmed_chars(text: &str) -> (res: Vec<char>)
    ensures
        res@ == trim(text@),
{
    let characters = chars_of(text);
    trim_chars(&characters)
}

/// ASCII lower case of one character.
pub open spec fn ascii_lower(c: char) -> char {
    if 'A' <= c && c <= 'Z' {
        ((c as u32) + 32) as char
    } else {
        c
    }
}

pub fn char_to_ascii_lowercase(c: char) -> (res: char)
    ensures
        res == ascii_lower(c),
{
    if 'A' <= c && c <= 'Z' {
        let code: u32 = c as u32 + 32;
        assert(code <= 0x7f);
        code as u8 as char
    } else {
        c
    }
}

/// ASCII lower case of a text, as `to_ascii_lowercase` computes it.
pub open spec fn ascii_lowercase(text: Seq<char>) -> Seq<char> {
    text.map_values(|c: char| ascii_lower(c))
}

pub fn chars_to_ascii_lowercase(characters: &Vec<char>) -> (res: Vec<char>)
    ensures
        res@ == ascii_lowercase(characters@),
{
    let mut res: Vec<char> = Vec::new();
    let mut index: usize = 0;
    while index < characters.len()
        invariant
            index <= characters@.len(),
            res@ =~= ascii_lowercase(characters@.subrange(0, index as int)),
        decreases characters@.len() - index,
    {
        res.push(char_to_ascii_lowercase(characters[index]));
        index = index + 1;
        assert(ascii_lowercase(characters@.subrange(0, index as int)) =~= ascii_lowercase(
            characters@.subrange(0, index - 1),
        ).push(ascii_lower(characters@[index - 1])));
    }
    assert(characters@.subrange(0, index as int) =~= characters@);
    res
}

/// Whether two texts are equal when ASCII letters are compared without case.
pub open spec fn eq_ignore_ascii_case(left: Seq<char>, right: Seq<char>) -> bool {
    ascii_lowercase(left) == ascii_lowercase(right)
}

pub fn text_eq_ignore_ascii_case(left: &str, right: &str) -> (res: bool)
    ensures
        res == eq_ignore_ascii_case(left@, right@),
{
    let left_lower = chars_to_ascii_lowercase(&chars_of(left));
    let right_lower = chars_to_ascii_lowercase(&chars_of(right));
    chars_equal(&left_lower, &right_lower)
}

/// Whether two character sequences are equal.
pub fn chars_equal(left: &Vec<char>, right: &Vec<char>) -> (res: bool)
    ensures
        res == (left@ == right@),
{
    if left.len() != right.len() {
        return false;
    }
    let mut index: usize = 0;
    while index < left.len()
        invariant
            left@.len() == right@.len(),
            index <= left@.len(),
            forall|i: int| 0 <= i < index ==> left@[i] == right@[i],
        decreases left@.len() - index,
    {
        if left[index] != right[index] {
            return false;
        }
        index = index + 1;
    }
    assert(left@ =~= right@);
    true
}

/// Whether two texts hold the same characters.
pub fn same_text(left: &str, right: &str) -> (res: bool)
    ensures
        res == (left@ == right@),
{
    let left_chars = chars_of(left);
    let right_chars = chars_of(right);
    chars_equal(&left_chars, &right_chars)
}

/// Whether `text` begins with `prefix`.
pub open spec fn starts_with(text: Seq<char>, prefix: Seq<char>) -> bool {
    prefix.len() <= text.len() && text.subrange(0, prefix.len() as int) == prefix
}

/// Whether `text` ends with `suffix`.
pub open spec fn ends_with(text: Seq<char>, suffix: Seq<char>) -> bool {
    suffix.len() <= text.len() && text.subrange(text.len() - suffix.len(), text.len() as int)
        == suffix
}

/// Whether `pattern` occurs in `text` at `at`.
pub open spec fn occurs_at(text: Seq<char>, pattern: Seq<char>, at: int) -> bool {
    0 <= at && at + pattern.len() <= text.len() && text.subrange(at, at + pattern.len())
        == pattern
}

pub fn chars_occur_at(text: &Vec<char>, pattern: &Vec<char>, at: usize) -> (res: bool)
    ensures
        res == occurs_at(text@, pattern@, at as int),
{
    if at > text.len() || pattern.len() > text.len() - at {
        return false;
    }
    let mut index: usize = 0;
    while index < pattern.len()
        invariant
            at + pattern@.len() <= text@.len(),
            index <= pattern@.len(),
            forall|i: int| 0 <= i < index ==> text@[at + i] == pattern@[i],
        decreases pattern@.len() - index,
    {
        assert(at + index < text.len());
        let position: usize = at + index;
        if text[position] != pattern[index] {
            return false;
        }
        index = index + 1;
    }
    assert(text@.subrange(at as int, at + pattern@.len()) =~= pattern@);
    true
}

pub fn chars_start_with(text: &Vec<char>, prefix: &Vec<char>) -> (res: bool)
    ensures
        res == starts_with(text@, prefix@),
{
    chars_occur_at(text, prefix, 0)
}

pub fn chars_end_with(text: &Vec<char>, suffix: &Vec<char>) -> (res: bool)
    ensures
        res == ends_with(text@, suffix@),
{
    if suffix.len() > text.len() {
        return false;
    }
    chars_occur_at(text, suffix, text.len() - suffix.len())
}

/// The words of a text so far and the word being read, scanning left to right.
pub open spec fn words_state(text: Seq<char>) -> (Seq<Seq<char>>, Seq<char>)
    decreases text.len(),
{
    if text.len() == 0 {
        (Seq::empty(), Seq::empty())
    } else {
        let (done, current) = words_state(text.drop_last());
        let c = text.last();
        if is_whitespace(c) {
            if current.len() > 0 {
                (done.push(current), Seq::empty())
            } else {
                (done, Seq::empty())
            }
        } else {
            (done, current.push(c))
        }
    }
}

/// The non-empty whitespace-separated words of a text, as `split_whitespace` yields them.
pub open spec fn words(text: Seq<char>) -> Seq<Seq<char>> {
    let (done, current) = words_state(text);
    if current.len() > 0 {
        done.push(current)
    } else {
        done
    }
}

/// Splits a text into its whitespace-separated words.
pub fn split_words(text: &Vec<char>) -> (res: Vec<Vec<char>>)
    ensures
        res@.len() == words(text@).len(),
        forall|i: int| 0 <= i < res@.len() ==> #[trigger] res@[i]@ == words(text@)[i],
{
    let mut done: Vec<Vec<char>> = Vec::new();
    let mut current: Vec<char> = Vec::new();
    let mut index: usize = 0;
    while index < text.len()
        invariant
            index <= text@.len(),
            done@.len() == words_state(text@.subrange(0, index as int)).0.len(),
            forall|i: int| 0 <= i < done@.len() ==> #[trigger] done@[i]@ == words_state(
                text@.subrange(0, index as int),
            ).0[i],
            current@ == words_state(text@.subrange(0, index as int)).1,
        decreases text@.len() - index,
    {
        let c = text[index];
        proof {
            let prefix = text@.subrange(0, index + 1);
            assert(prefix.drop_last() =~= text@.subrange(0, index as int));
            assert(prefix.last() == c);
        }
        if char_is_whitespace(c) {
            if current.len() > 0 {
                done.push(current);
                current = Vec::new();
            }
        } else {
            current.push(c);
        }
        index = index + 1;
    }
    assert(text@.subrange(0, index as int) =~= text@);
    if current.len() > 0 {
        done.push(current);
    }
    done
}

/// The character sequences of a list of character vectors.
pub open spec fn char_views(items: Seq<Vec<char>>) -> Seq<Seq<char>> {
    items.map_values(|item: Vec<char>| item@)
}

/// The words of a text joined by single spaces: `split_whitespace().join(" ")`.
pub open spec fn joined_with_spaces(parts: Seq<Seq<char>>) -> Seq<char>
    decreases parts.len(),
{
    if parts.len() == 0 {
        Seq::empty()
    } else if parts.len() == 1 {
        parts[0]
    } else {
        joined_with_spaces(parts.drop_last()) + seq![' '] + parts.last()
    }
}

/// Joins words with single spaces.
pub fn join_with_spaces(parts: &Vec<Vec<char>>) -> (res: Vec<char>)
    ensures
        res@ == joined_with_spaces(char_views(parts@)),
{
    let ghost views = char_views(parts@);
    let mut joined: Vec<char> = Vec::new();
    let mut index: usize = 0;
    while index < parts.len()
        invariant
            index <= parts@.len(),
            views == char_views(parts@),
            joined@ == joined_with_spaces(views.subrange(0, index as int)),
        decreases parts@.len() - index,
    {
        proof {
            let prefix = views.subrange(0, index + 1);
            assert(prefix.drop_last() =~= views.subrange(0, index as int));
            assert(prefix.last() == parts@[index as int]@);
        }
        if index > 0 {
            joined.push(' ');
        }
        let mut part = parts[index].clone();
        joined.append(&mut part);
        index = index + 1;
        proof {
            let prefix = views.subrange(0, index as int);
            if index == 1 {
                assert(joined@ =~= joined_with_spaces(prefix));
            } else {
                assert(joined@ =~= joined_with_spaces(prefix));
            }
        }
    }
    assert(views.subrange(0, index as int) =~= views);
    joined
}

/// The whitespace of a text collapsed to single spaces and trimmed at both ends.
pub open spec fn collapse_whitespace(text: Seq<char>) -> Seq<char> {
    joined_with_spaces(words(text))
}

/// Collapses whitespace runs to single spaces and trims both ends.
pub fn collapsed_whitespace(text: &Vec<char>) -> (res: Vec<char>)
    ensures
        res@ == collapse_whitespace(text@),
{
    let parts = split_words(text);
    let res = join_with_spaces(&parts);
    assert(char_views(parts@) =~= words(text@));
    res
}

/// The complete lines of a text so far and the line being read.
pub open spec fn lines_state(text: Seq<char>) -> (Seq<Seq<char>>, Seq<char>)
    decreases text.len(),
{
    if text.len() == 0 {
        (Seq::empty(), Seq::empty())
    } else {
        let (done, current) = lines_state(text.drop_last());
        let c = text.last();
        if c == '\n' {
            (done.push(without_carriage_return(current)), Seq::empty())
        } else {
            (done, current.push(c))
        }
    }
}

/// A line without the `\r` of a `\r\n` ending.
pub open spec fn without_carriage_return(line: Seq<char>) -> Seq<char> {
    if line.len() > 0 && line.last() == '\r' {
        line.drop_last()
    } else {
        line
    }
}

/// The lines of a text, as `str::lines` yields them.
pub open spec fn lines(text: Seq<char>) -> Seq<Seq<char>> {
    let (done, current) = lines_state(text);
    if current.len() > 0 {
        done.push(current)
    } else {
        done
    }
}

/// Splits a text into lines.
pub fn split_lines(text: &Vec<char>) -> (res: Vec<Vec<char>>)
    ensures
        res@.len() == lines(text@).len(),
        forall|i: int| 0 <= i < res@.len() ==> #[trigger] res@[i]@ == lines(text@)[i],
{
    let mut done: Vec<Vec<char>> = Vec::new();
    let mut current: Vec<char> = Vec::new();
    let mut index: usize = 0;
    while index < text.len()
        invariant
            index <= text@.len(),
            done@.len() == lines_state(text@.subrange(0, index as int)).0.len(),
            forall|i: int| 0 <= i < done@.len() ==> #[trigger] done@[i]@ == lines_state(
                text@.subrange(0, index as int),
            ).0[i],
            current@ == lines_state(text@.subrange(0, index as int)).1,
        decreases text@.len() - index,
    {
        let c = text[index];
        proof {
            let prefix = text@.subrange(0, index + 1);
            assert(prefix.drop_last() =~= text@.subrange(0, index as int));
            assert(prefix.last() == c);
        }
        if c == '\n' {
            if current.len() > 0 && current[current.len() - 1] == '\r' {
                current.pop();
            }
            done.push(current);
            current = Vec::new();
        } else {
            current.push(c);
        }
        index = index + 1;
    }
    assert(text@.subrange(0, index as int) =~= text@);
    if current.len() > 0 {
        done.push(current);
    }
    done
}

/// The first position at or after `from` where `pattern` occurs.
pub open spec fn first_occurrence(text: Seq<char>, pattern: Seq<char>, from: nat) -> Option<nat>
    decreases text.len() + 1 - from,
{
    if from > text.len() {
        None
    } else if occurs_at(text, pattern, from as int) {
        Some(from)
    } else {
        first_occurrence(text, pattern, from + 1)
    }
}

/// The first occurrence is the found position when none lies before it.
proof fn lemma_first_occurrence(text: Seq<char>, pattern: Seq<char>, from: nat, found: Option<nat>)
    requires
        match found {
            Some(at) => from <= at && occurs_at(text, pattern, at as int) && forall|j: int|
                from <= j < at ==> !occurs_at(text, pattern, j),
            None => forall|j: int| from <= j ==> !occurs_at(text, pattern, j),
        },
    ensures
        first_occurrence(text, pattern, from) == found,
    decreases text.len() + 1 - from,
{
    if from > text.len() {
        if let Some(at) = found {
            assert(at + pattern.len() <= text.len());
        }
    } else if occurs_at(text, pattern, from as int) {
    } else {
        lemma_first_occurrence(text, pattern, from + 1, found);
    }
}

/// The first position at or after `from` where `pattern` occurs.
pub fn find_first(text: &Vec<char>, pattern: &Vec<char>, from: usize) -> (res: Option<usize>)
    ensures
        match res {
            Some(at) => first_occurrence(text@, pattern@, from as nat) == Some(at as nat),
            None => first_occurrence(text@, pattern@, from as nat) is None,
        },
        res matches Some(at) ==> from <= at && occurs_at(text@, pattern@, at as int),
{
    let res = find_from(text, pattern, from);
    proof {
        let found: Option<nat> = match res {
            Some(at) => Some(at as nat),
            None => None,
        };
        lemma_first_occurrence(text@, pattern@, from as nat, found);
    }
    res
}

/// Whether `pattern` occurs somewhere in `text`.
pub open spec fn contains_text(text: Seq<char>, pattern: Seq<char>) -> bool {
    exists|at: int| occurs_at(text, pattern, at)
}

/// The first position at or after `from` where `pattern` occurs.
pub fn find_from(text: &Vec<char>, pattern: &Vec<char>, from: usize) -> (res: Option<usize>)
    ensures
        match res {
            Some(at) => from <= at && occurs_at(text@, pattern@, at as int) && forall|j: int|
                from <= j < at ==> !occurs_at(text@, pattern@, j),
            None => forall|j: int| from <= j ==> !occurs_at(text@, pattern@, j),
        },
{
    if from > text.len() {
        return None;
    }
    let mut at = from;
    while at < text.len()
        invariant
            from <= at <= text@.len(),
            forall|j: int| from <= j < at ==> !occurs_at(text@, pattern@, j),
        decreases text@.len() - at,
    {
        if chars_occur_at(text, pattern, at) {
            return Some(at);
        }
        at = at + 1;
    }
    if chars_occur_at(text, pattern, at) {
        return Some(at);
    }
    assert forall|j: int| from <= j implies !occurs_at(text@, pattern@, j) by {
        if j > at {
            assert(j + pattern@.len() > text@.len());
        }
    }
    None
}

pub fn text_contains(text: &str, pattern: &str) -> (res: bool)
    ensures
        res == contains_text(text@, pattern@),
{
    let characters = chars_of(text);
    let needle = chars_of(pattern);
    match find_from(&characters, &needle, 0) {
        Some(_) => true,
        None => false,
    }
}

/// The decimal digit of a value below ten.
pub open spec fn digit_char(d: nat) -> char {
    (('0' as u32) + d) as char
}

/// The decimal representation of a natural number, without sign or leading zeros.
pub open spec fn decimal(n: nat) -> Seq<char>
    decreases n,
{
    if n < 10 {
        seq![digit_char(n)]
    } else {
        decimal(n / 10).push(digit_char(n % 10))
    }
}

/// The decimal digits of `n`, as `format!("{n}")` writes them.
pub fn decimal_chars(n: u128) -> (res: Vec<char>)
    ensures
        res@ == decimal(n as nat),
    decreases n,
{
    let digit: u128 = n % 10;
    let c = (('0' as u8) + (digit as u8)) as char;
    assert(c == digit_char(digit as nat));
    if n < 10 {
        let mut res: Vec<char> = Vec::new();
        res.push(c);
        assert(res@ =~= seq![digit_char(n as nat)]);
        res
    } else {
        let mut res = decimal_chars(n / 10);
        res.push(c);
        res
    }
}

/// The decimal representation of `n` as a string.
pub fn decimal_string(n: u128) -> (res: String)
    ensures
        res@ == decimal(n as nat),
{
    string_from_chars(&decimal_chars(n))
}

/// Whether a character is an ASCII decimal digit.
pub open spec fn is_digit(c: char) -> bool {
    '0' <= c && c <= '9'
}

/// The value of a sequence of decimal digits.
pub open spec fn digits_value(digits: Seq<char>) -> nat
    decreases digits.len(),
{
    if digits.len() == 0 {
        0
    } else {
        digits_value(digits.drop_last()) * 10 + ((digits.last() as u32) - ('0' as u32)) as nat
    }
}

/// The digits that `u64::from_str` reads: an optional `+` then at least one digit.
pub open spec fn unsigned_digits(text: Seq<char>) -> Seq<char> {
    if text.len() > 0 && text[0] == '+' {
        text.drop_first()
    } else {
        text
    }
}

/// What `text.parse::<u64>()` returns.
pub open spec fn parse_u64(text: Seq<char>) -> Option<u64> {
    let digits = unsigned_digits(text);
    if digits.len() > 0 && (forall|i: int| 0 <= i < digits.len() ==> is_digit(#[trigger] digits[i]))
        && digits_value(digits) <= u64::MAX {
        Some(digits_value(digits) as u64)
    } else {
        None
    }
}

/// Parses an unsigned decimal number the way `str::parse::<u64>` does.
pub fn parse_u64_chars(text: &Vec<char>, start: usize, end: usize) -> (res: Option<u64>)
    requires
        start <= end <= text@.len(),
    ensures
        res == parse_u64(text@.subrange(start as int, end as int)),
{
    let ghost whole = text@.subrange(start as int, end as int);
    let mut index = start;
    if index < end && text[index] == '+' {
        index = index + 1;
    }
    let ghost digits = unsigned_digits(whole);
    assert(digits =~= text@.subrange(index as int, end as int));
    if index == end {
        assert(digits.len() == 0);
        return None;
    }
    let first = index;
    let mut value: u64 = 0;
    while index < end
        invariant
            start <= first <= index <= end,
            end <= text@.len(),
            whole == text@.subrange(start as int, end as int),
            digits == unsigned_digits(whole),
            digits =~= text@.subrange(first as int, end as int),
            forall|i: int| first <= i < index ==> is_digit(#[trigger] text@[i]),
            value as nat == digits_value(text@.subrange(first as int, index as int)),
        decreases end - index,
    {
        let c = text[index];
        if !('0' <= c && c <= '9') {
            proof {
                assert(!is_digit(digits[index - first]));
                assert(whole == text@.subrange(start as int, end as int));
                assert(unsigned_digits(whole) == digits);
                assert(parse_u64(whole) is None);
            }
            return None;
        }
        let digit: u64 = (c as u32 - '0' as u32) as u64;
        proof {
            let part = text@.subrange(first as int, index + 1);
            assert(part.drop_last() =~= text@.subrange(first as int, index as int));
            assert(part.last() == c);
        }
        if value > (u64::MAX - digit) / 10 {
            proof {
                assert(value * 10 + digit > u64::MAX) by (nonlinear_arith)
                    requires
                        value > (u64::MAX - digit) / 10,
                        digit <= 9,
                ;
                let part = text@.subrange(first as int, index + 1);
                assert(digits.subrange(0, index + 1 - first) =~= part);
                assert forall|i: int| 0 <= i < index + 1 - first implies is_digit(#[trigger] digits[i]) by {
                    assert(digits[i] == text@[first + i]);
                }
                lemma_digits_value_prefix_monotone(digits, index + 1 - first);
                assert(digits_value(part) == value * 10 + digit);
            }
            return None;
        }
        value = value * 10 + digit;
        index = index + 1;
    }
    assert(text@.subrange(first as int, index as int) =~= digits);
    Some(value)
}

/// A longer all-digit prefix never has a smaller value.
proof fn lemma_digits_value_prefix_monotone(digits: Seq<char>, length: int)
    requires
        0 <= length <= digits.len(),
        forall|i: int| 0 <= i < length ==> is_digit(#[trigger] digits[i]),
    ensures
        (forall|i: int| 0 <= i < digits.len() ==> is_digit(#[trigger] digits[i])) ==> digits_value(
            digits.subrange(0, length),
        ) <= digits_value(digits),
    decreases digits.len() - length,
{
    if length < digits.len() {
        if forall|i: int| 0 <= i < digits.len() ==> is_digit(#[trigger] digits[i]) {
            lemma_digits_value_prefix_monotone(digits, length + 1);
            let longer = digits.subrange(0, length + 1);
            assert(longer.drop_last() =~= digits.subrange(0, length));
            assert(is_digit(longer.last()));
        }
    } else {
        assert(digits.subrange(0, length) =~= digits);
    }
}

/// Whether a character separates Windows path components.
pub open spec fn is_path_separator(c: char) -> bool {
    c == '\\' || c == '/'
}

/// The length of a path without its trailing separators.
pub open spec fn trimmed_path_length(path: Seq<char>) -> int
    decreases path.len(),
{
    if path.len() > 0 && is_path_separator(path.last()) {
        trimmed_path_length(path.drop_last())
    } else {
        path.len() as int
    }
}

/// The index just after the last separator before `end`, or 0.
pub open spec fn component_start(path: Seq<char>, end: int) -> int
    decreases end,
{
    if end <= 0 {
        0
    } else if is_path_separator(path[end - 1]) || path[end - 1] == ':' {
        end
    } else {
        component_start(path, end - 1)
    }
}

/// The final component of a Windows path, as `Path::file_name` reads it: trailing
/// separators are ignored; an empty, `.` or `..` component has no name.
pub open spec fn file_name(path: Seq<char>) -> Option<Seq<char>> {
    let end = trimmed_path_length(path);
    let start = component_start(path, end);
    let name = path.subrange(start, end);
    if name.len() == 0 || name == seq!['.'] || name == seq!['.', '.'] {
        None
    } else {
        Some(name)
    }
}

proof fn lemma_trimmed_path_length_bounds(path: Seq<char>)
    ensures
        0 <= trimmed_path_length(path) <= path.len(),
        trimmed_path_length(path) == path.len() || true,
    decreases path.len(),
{
    if path.len() > 0 && is_path_separator(path.last()) {
        lemma_trimmed_path_length_bounds(path.drop_last());
    }
}

proof fn lemma_component_start_bounds(path: Seq<char>, end: int)
    requires
        0 <= end <= path.len(),
    ensures
        0 <= component_start(path, end) <= end,
    decreases end,
{
    if end > 0 && !(is_path_separator(path[end - 1]) || path[end - 1] == ':') {
        lemma_component_start_bounds(path, end - 1);
    }
}

/// The final component of a Windows path.
pub fn path_file_name(path: &str) -> (res: Option<Vec<char>>)
    ensures
        match res {
            Some(name) => file_name(path@) == Some(name@),
            None => file_name(path@) is None,
        },
{
    let characters = chars_of(path);
    let mut end = characters.len();
    assert(characters@.subrange(0, end as int) =~= characters@);
    while end > 0 && (characters[end - 1] == '\\' || characters[end - 1] == '/')
        invariant
            end <= characters@.len(),
            trimmed_path_length(characters@) == trimmed_path_length(characters@.subrange(0, end as int)),
        decreases end,
    {
        let ghost part = characters@.subrange(0, end as int);
        assert(part.drop_last() =~= characters@.subrange(0, end - 1));
        end = end - 1;
    }
    proof {
        let part = characters@.subrange(0, end as int);
        if end > 0 {
            assert(part.last() == characters@[end - 1]);
        }
        assert(trimmed_path_length(part) == end);
    }
    let mut start = end;
    while start > 0 && !(characters[start - 1] == '\\' || characters[start - 1] == '/'
        || characters[start - 1] == ':')
        invariant
            start <= end <= characters@.len(),
            component_start(characters@, end as int) == component_start(characters@, start as int),
        decreases start,
    {
        start = start - 1;
    }
    let mut name: Vec<char> = Vec::new();
    let mut index = start;
    while index < end
        invariant
            start <= index <= end,
            end <= characters@.len(),
            name@ =~= characters@.subrange(start as int, index as int),
        decreases end - index,
    {
        name.push(characters[index]);
        index = index + 1;
    }
    if name.len() == 0 || (name.len() == 1 && name[0] == '.') || (name.len() == 2 && name[0] == '.'
        && name[1] == '.') {
        proof {
            if name@.len() == 1 {
                assert(name@ =~= seq!['.']);
            }
            if name@.len() == 2 {
                assert(name@ =~= seq!['.', '.']);
            }
        }
        None
    } else {
        proof {
            if name@ == seq!['.'] {
                assert(name@[0] == '.');
            }
            if name@ == seq!['.', '.'] {
                assert(name@[0] == '.' && name@[1] == '.');
            }
        }
        Some(name)
    }
}

/// The characters of `path` before its final component, without the separator, when
/// the final component is preceded by one: what `Path::parent` gives for such a path.
pub open spec fn parent_directory(path: Seq<char>) -> Option<Seq<char>> {
    let end = trimmed_path_length(path);
    let start = component_start(path, end);
    if start > 0 && is_path_separator(path[start - 1]) {
        Some(path.subrange(0, start - 1))
    } else if start > 0 {
        Some(path.subrange(0, start))
    } else if end > 0 {
        Some(Seq::empty())
    } else {
        None
    }
}

pub fn path_parent(path: &str) -> (res: Option<Vec<char>>)
    ensures
        match res {
            Some(parent) => parent_directory(path@) == Some(parent@),
            None => parent_directory(path@) is None,
        },
{
    let characters = chars_of(path);
    let mut end = characters.len();
    assert(characters@.subrange(0, end as int) =~= characters@);
    while end > 0 && (characters[end - 1] == '\\' || characters[end - 1] == '/')
        invariant
            end <= characters@.len(),
            trimmed_path_length(characters@) == trimmed_path_length(characters@.subrange(0, end as int)),
        decreases end,
    {
        let ghost part = characters@.subrange(0, end as int);
        assert(part.drop_last() =~= characters@.subrange(0, end - 1));
        end = end - 1;
    }
    proof {
        let part = characters@.subrange(0, end as int);
        if end > 0 {
            assert(part.last() == characters@[end - 1]);
        }
        assert(trimmed_path_length(part) == end);
    }
    let mut start = end;
    while start > 0 && !(characters[start - 1] == '\\' || characters[start - 1] == '/'
        || characters[start - 1] == ':')
        invariant
            start <= end <= characters@.len(),
            component_start(characters@, end as int) == component_start(characters@, start as int),
        decreases start,
    {
        start = start - 1;
    }
    let stop = if start > 0 && (characters[start - 1] == '\\' || characters[start - 1] == '/') {
        start - 1
    } else if start > 0 {
        start
    } else if end > 0 {
        0
    } else {
        return None;
    };
    let mut parent: Vec<char> = Vec::new();
    let mut index: usize = 0;
    while index < stop
        invariant
            index <= stop,
            stop <= characters@.len(),
            parent@ =~= characters@.subrange(0, index as int),
        decreases stop - index,
    {
        parent.push(characters[index]);
        index = index + 1;
    }
    Some(parent)
}

} // verus!
