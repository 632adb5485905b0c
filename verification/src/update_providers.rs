//! Reads update advice from curated providers: a GitHub release, a Winget
//! listing, or the official SimHub page. Every answer that is not exact becomes
//! `Unknown`: the providers fail closed.
use crate::model::{
    ApplicationUpdateSnapshot, ApplicationUpdateTarget, CatalogUpdateProvider, UpdateCheckPlan,
    UpdateStatus, UpdateStatusView,
};
use crate::text::{
    ascii_lower, char_views, eq_ignore_ascii_case, same_text, text_eq_ignore_ascii_case, ascii_lowercase, chars_between, chars_equal, chars_of, chars_to_ascii_lowercase,
    collapse_whitespace, collapsed_whitespace, find_first, first_occurrence, is_digit, occurs_at, parse_u64,
    parse_u64_chars, split_lines, split_words, lines, words, starts_with, string_from_chars, trim,
    trim_chars,
};
use vstd::prelude::*;

verus! {

/// The status and information link an update provider advises.
#[derive(Debug, PartialEq, Eq)]
pub struct ProviderAdvice {
    pub status: UpdateStatus,
    pub information_url: Option<String>,
}

/// The abstract value of a `ProviderAdvice`.
pub struct ProviderAdviceView {
    pub status: UpdateStatusView,
    pub information_url: Option<Seq<char>>,
}

impl View for ProviderAdvice {
    type V = ProviderAdviceView;

    open spec fn view(&self) -> ProviderAdviceView {
        ProviderAdviceView {
            status: self.status@,
            information_url: match self.information_url {
                Some(url) => Some(url@),
                None => None,
            },
        }
    }
}

/// Advice that the status is unknown, for the given reason, with no link.
pub open spec fn unknown_advice(reason: Seq<char>) -> ProviderAdviceView {
    ProviderAdviceView { status: UpdateStatusView::Unknown { reason }, information_url: None }
}

fn unknown(reason: &str) -> (res: ProviderAdvice)
    ensures
        res@ == unknown_advice(reason@),
{
    ProviderAdvice { status: UpdateStatus::Unknown { reason: reason.to_string() }, information_url: None }
}

/// The pieces of a text between separators, as `str::split` yields them, and
/// the piece being read.
pub open spec fn split_state(text: Seq<char>, separator: char) -> (Seq<Seq<char>>, Seq<char>)
    decreases text.len(),
{
    if text.len() == 0 {
        (Seq::empty(), Seq::empty())
    } else {
        let (done, current) = split_state(text.drop_last(), separator);
        if text.last() == separator {
            (done.push(current), Seq::empty())
        } else {
            (done, current.push(text.last()))
        }
    }
}

/// The pieces of a text between separators; empty pieces included.
pub open spec fn split_on(text: Seq<char>, separator: char) -> Seq<Seq<char>> {
    split_state(text, separator).0.push(split_state(text, separator).1)
}

/// The numbers of dot-separated pieces, if every piece is one.
pub open spec fn parsed_segments(parts: Seq<Seq<char>>) -> Option<Seq<u64>>
    decreases parts.len(),
{
    if parts.len() == 0 {
        Some(Seq::empty())
    } else {
        match (parsed_segments(parts.drop_last()), parse_u64(parts.last())) {
            (Some(values), Some(value)) => Some(values.push(value)),
            _ => None,
        }
    }
}

/// The numbers of a dotted version, if every piece is one.
pub open spec fn version_numbers(text: Seq<char>) -> Option<Seq<u64>> {
    parsed_segments(split_on(text, '.'))
}

/// A text without one leading `v`.
pub open spec fn without_v(text: Seq<char>) -> Seq<char> {
    if text.len() > 0 && text[0] == 'v' {
        text.drop_first()
    } else {
        text
    }
}

/// A version as written, without surrounding space or a leading `v`, when it has
/// at least two numeric pieces and is not all zeros.
pub open spec fn normalized_version(value: Seq<char>) -> Option<Seq<char>> {
    let candidate = trim(without_v(trim(value)));
    match version_numbers(candidate) {
        Some(numbers) => if numbers.len() >= 2 && exists|i: int|
            0 <= i < numbers.len() && #[trigger] numbers[i] != 0 {
            Some(candidate)
        } else {
            None
        },
        None => None,
    }
}

fn numbers_of_version(text: &Vec<char>) -> (res: Option<Vec<u64>>)
    ensures
        match res {
            Some(values) => version_numbers(text@) == Some(values@),
            None => version_numbers(text@) is None,
        },
{
    let mut values: Vec<u64> = Vec::new();
    let mut start: usize = 0;
    let mut index: usize = 0;
    while index < text.len()
        invariant
            start <= index <= text@.len(),
            split_state(text@.subrange(0, index as int), '.').1 == text@.subrange(
                start as int,
                index as int,
            ),
            parsed_segments(split_state(text@.subrange(0, index as int), '.').0) == Some(values@),
        decreases text@.len() - index,
    {
        proof {
            let prefix = text@.subrange(0, index + 1);
            assert(prefix.drop_last() =~= text@.subrange(0, index as int));
            assert(prefix.last() == text@[index as int]);
        }
        if text[index] == '.' {
            let parsed = parse_u64_chars(text, start, index);
            proof {
                let done = split_state(text@.subrange(0, index as int), '.').0;
                let piece = text@.subrange(start as int, index as int);
                assert(done.push(piece).drop_last() =~= done);
                assert(done.push(piece).last() == piece);
            }
            match parsed {
                Some(value) => {
                    values.push(value);
                },
                None => {
                    proof {
                        lemma_parsed_segments_prefix_none(
                            split_on(text@, '.'),
                            split_state(text@.subrange(0, index + 1), '.').0,
                            text@,
                            index as int + 1,
                        );
                    }
                    return None;
                },
            }
            start = index + 1;
        } else {
            assert(text@.subrange(start as int, index + 1) =~= text@.subrange(start as int, index as int).push(text@[index as int]));
        }
        index = index + 1;
    }
    assert(text@.subrange(0, index as int) =~= text@);
    let last = parse_u64_chars(text, start, index);
    proof {
        let done = split_state(text@, '.').0;
        let piece = text@.subrange(start as int, index as int);
        assert(done.push(piece).drop_last() =~= done);
        assert(done.push(piece).last() == piece);
    }
    match last {
        Some(value) => {
            values.push(value);
            Some(values)
        },
        None => None,
    }
}

/// Once a complete piece fails to parse, the whole text fails.
proof fn lemma_parsed_segments_prefix_none(
    all: Seq<Seq<char>>,
    done: Seq<Seq<char>>,
    text: Seq<char>,
    length: int,
)
    requires
        0 <= length <= text.len(),
        done == split_state(text.subrange(0, length), '.').0,
        all == split_on(text, '.'),
        parsed_segments(done) is None,
    ensures
        parsed_segments(all) is None,
    decreases text.len() - length,
{
    lemma_split_done_prefix(text, length);
    lemma_parsed_segments_none_extends(done, all);
}

/// The complete pieces of a prefix are a prefix of the pieces of the whole text.
proof fn lemma_split_done_prefix(text: Seq<char>, length: int)
    requires
        0 <= length <= text.len(),
    ensures
        split_state(text.subrange(0, length), '.').0.len() <= split_on(text, '.').len(),
        split_on(text, '.').subrange(0, split_state(text.subrange(0, length), '.').0.len() as int)
            == split_state(text.subrange(0, length), '.').0,
    decreases text.len() - length,
{
    if length == text.len() {
        assert(text.subrange(0, length) =~= text);
        let done = split_state(text, '.').0;
        assert(split_on(text, '.').subrange(0, done.len() as int) =~= done);
    } else {
        lemma_split_done_prefix(text, length + 1);
        let shorter = text.subrange(0, length);
        let longer = text.subrange(0, length + 1);
        assert(longer.drop_last() =~= shorter);
        let done_short = split_state(shorter, '.').0;
        let done_long = split_state(longer, '.').0;
        let all = split_on(text, '.');
        assert(done_long.subrange(0, done_short.len() as int) =~= done_short);
        assert(all.subrange(0, done_short.len() as int) =~= all.subrange(0, done_long.len() as int).subrange(
            0,
            done_short.len() as int,
        ));
    }
}

/// A failing prefix of pieces makes every extension fail.
proof fn lemma_parsed_segments_none_extends(prefix: Seq<Seq<char>>, all: Seq<Seq<char>>)
    requires
        prefix.len() <= all.len(),
        all.subrange(0, prefix.len() as int) == prefix,
        parsed_segments(prefix) is None,
    ensures
        parsed_segments(all) is None,
    decreases all.len(),
{
    if all.len() > prefix.len() {
        assert(all.drop_last().subrange(0, prefix.len() as int) =~= prefix);
        lemma_parsed_segments_none_extends(prefix, all.drop_last());
    } else {
        assert(all =~= prefix);
    }
}

/// Reads a version the way providers must write it; see `normalized_version`.
pub fn normalize_version(value: &Vec<char>) -> (res: Option<Vec<char>>)
    ensures
        match res {
            Some(version) => normalized_version(value@) == Some(version@),
            None => normalized_version(value@) is None,
        },
{
    let trimmed = trim_chars(value);
    let stripped = if trimmed.len() > 0 && trimmed[0] == 'v' {
        chars_between(&trimmed, 1, trimmed.len())
    } else {
        chars_between(&trimmed, 0, trimmed.len())
    };
    assert(stripped@ == without_v(trimmed@));
    let candidate = trim_chars(&stripped);
    match numbers_of_version(&candidate) {
        Some(numbers) => {
            let mut nonzero = false;
            let mut index: usize = 0;
            while index < numbers.len()
                invariant
                    index <= numbers@.len(),
                    nonzero <==> exists|i: int| 0 <= i < index && #[trigger] numbers@[i] != 0,
                decreases numbers@.len() - index,
            {
                if numbers[index] != 0 {
                    nonzero = true;
                }
                index = index + 1;
            }
            if numbers.len() >= 2 && nonzero {
                Some(candidate)
            } else {
                None
            }
        },
        None => None,
    }
}

/// How an installed version stands against an available one.
#[derive(Clone, Copy, Debug, PartialEq, Eq, Structural)]
pub enum VersionOrder {
    Older,
    Same,
    Newer,
}

/// A version number at a position, zero past the end.
pub open spec fn padded(values: Seq<u64>, index: int) -> u64 {
    if 0 <= index < values.len() {
        values[index]
    } else {
        0
    }
}

/// The first difference between two zero-padded versions from `index` on.
pub open spec fn order_from(current: Seq<u64>, latest: Seq<u64>, index: nat, length: nat) -> VersionOrder
    decreases length - index,
{
    if index >= length {
        VersionOrder::Same
    } else if padded(current, index as int) < padded(latest, index as int) {
        VersionOrder::Older
    } else if padded(current, index as int) > padded(latest, index as int) {
        VersionOrder::Newer
    } else {
        order_from(current, latest, index + 1, length)
    }
}

/// The longer of two lengths.
pub open spec fn longer(left: nat, right: nat) -> nat {
    if left >= right {
        left
    } else {
        right
    }
}

/// How two dotted versions compare, piece by piece, the shorter padded with zeros.
pub open spec fn version_order(current: Seq<char>, latest: Seq<char>) -> Option<VersionOrder> {
    match (version_numbers(current), version_numbers(latest)) {
        (Some(left), Some(right)) => Some(order_from(left, right, 0, longer(left.len(), right.len()))),
        _ => None,
    }
}

/// Compares two dotted versions; `None` when either is not all numbers.
pub fn compare_versions(current: &Vec<char>, latest: &Vec<char>) -> (res: Option<VersionOrder>)
    ensures
        res == version_order(current@, latest@),
{
    let left = match numbers_of_version(current) {
        Some(values) => values,
        None => return None,
    };
    let right = match numbers_of_version(latest) {
        Some(values) => values,
        None => return None,
    };
    let length = if left.len() >= right.len() { left.len() } else { right.len() };
    let mut index: usize = 0;
    while index < length
        invariant
            index <= length,
            length as nat == longer(left@.len(), right@.len()),
            order_from(left@, right@, 0, length as nat) == order_from(left@, right@, index as nat, length as nat),
            version_numbers(current@) == Some(left@),
            version_numbers(latest@) == Some(right@),
        decreases length - index,
    {
        let a: u64 = if index < left.len() { left[index] } else { 0 };
        let b: u64 = if index < right.len() { right[index] } else { 0 };
        if a < b {
            return Some(VersionOrder::Older);
        }
        if a > b {
            return Some(VersionOrder::Newer);
        }
        index = index + 1;
    }
    Some(VersionOrder::Same)
}

/// Every version compares the same as itself.
pub proof fn version_order_is_reflexive(version: Seq<char>)
    requires
        version_numbers(version) is Some,
    ensures
        version_order(version, version) == Some(VersionOrder::Same),
{
    let values = version_numbers(version)->0;
    lemma_order_from_same(values, 0, values.len());
}

proof fn lemma_order_from_same(values: Seq<u64>, index: nat, length: nat)
    ensures
        order_from(values, values, index, length) == VersionOrder::Same,
    decreases length - index,
{
    if index < length {
        lemma_order_from_same(values, index + 1, length);
    }
}

/// Two versions compare as their pieces do, the missing pieces of the shorter
/// one read as zero: Same when every piece agrees, Older or Newer by the first
/// piece that differs.
pub proof fn version_order_compares_zero_padded_pieces(current: Seq<char>, latest: Seq<char>)
    requires
        version_numbers(current) is Some,
        version_numbers(latest) is Some,
    ensures
        ({
            let a = version_numbers(current)->0;
            let b = version_numbers(latest)->0;
            &&& version_order(current, latest) == Some(VersionOrder::Same) <==> forall|i: int|
                0 <= i ==> (if i < a.len() { a[i] } else { 0u64 }) == (if i < b.len() { b[i] } else { 0u64 })
            &&& version_order(current, latest) == Some(VersionOrder::Older) <==> exists|k: int|
                0 <= k && (if k < a.len() { a[k] } else { 0u64 }) < (if k < b.len() { b[k] } else { 0u64 }) && forall|i: int|
                    0 <= i < k ==> (if i < a.len() { a[i] } else { 0u64 }) == (if i < b.len() { b[i] } else { 0u64 })
            &&& version_order(current, latest) == Some(VersionOrder::Newer) <==> exists|k: int|
                0 <= k && (if k < a.len() { a[k] } else { 0u64 }) > (if k < b.len() { b[k] } else { 0u64 }) && forall|i: int|
                    0 <= i < k ==> (if i < a.len() { a[i] } else { 0u64 }) == (if i < b.len() { b[i] } else { 0u64 })
        }),
{
    let a = version_numbers(current)->0;
    let b = version_numbers(latest)->0;
    let length = longer(a.len(), b.len());
    lemma_order_from_first_difference(a, b, 0, length);
}

/// A version whose pieces begin with all of another's, and that has a nonzero
/// piece past them, is later: the shorter one is Older, never Same.
pub proof fn version_with_more_nonzero_pieces_is_later(current: Seq<char>, latest: Seq<char>)
    requires
        version_numbers(current) is Some,
        version_numbers(latest) is Some,
        version_numbers(current)->0.len() < version_numbers(latest)->0.len(),
        version_numbers(current)->0 == version_numbers(latest)->0.subrange(0, version_numbers(current)->0.len() as int),
        exists|k: int|
            version_numbers(current)->0.len() <= k < version_numbers(latest)->0.len() && #[trigger] version_numbers(latest)->0[k]
                != 0,
    ensures
        version_order(current, latest) == Some(VersionOrder::Older),
        version_order(latest, current) == Some(VersionOrder::Newer),
{
    let a = version_numbers(current)->0;
    let b = version_numbers(latest)->0;
    version_order_compares_zero_padded_pieces(current, latest);
    version_order_is_antisymmetric(current, latest);
    let first = choose|k: int| a.len() <= k < b.len() && #[trigger] b[k] != 0 && forall|m: int|
        a.len() <= m < k ==> b[m] == 0;
    assert(exists|k: int| a.len() <= k < b.len() && #[trigger] b[k] != 0 && forall|m: int| a.len() <= m < k ==> b[m] == 0) by {
        lemma_first_nonzero(b, a.len() as int);
    }
    assert forall|i: int| 0 <= i < first implies (if i < a.len() { a[i] } else { 0u64 }) == (if i < b.len() {
        b[i]
    } else {
        0u64
    }) by {
        if i < a.len() {
            assert(a[i] == b.subrange(0, a.len() as int)[i]);
        }
    }
}

/// Past `from`, a sequence with a nonzero element has a first one.
proof fn lemma_first_nonzero(values: Seq<u64>, from: int)
    requires
        0 <= from,
        exists|k: int| from <= k < values.len() && #[trigger] values[k] != 0,
    ensures
        exists|k: int| from <= k < values.len() && #[trigger] values[k] != 0 && forall|m: int| from <= m < k ==> values[m] == 0,
    decreases values.len() - from,
{
    if values[from] != 0 {
        assert(forall|m: int| from <= m < from ==> values[m] == 0);
    } else {
        lemma_first_nonzero(values, from + 1);
        let k = choose|k: int| from + 1 <= k < values.len() && #[trigger] values[k] != 0 && forall|m: int|
            from + 1 <= m < k ==> values[m] == 0;
        assert forall|m: int| from <= m < k implies values[m] == 0 by {
            if m > from {
            }
        }
    }
}

/// From `index` on, the comparison is Same when every padded piece agrees, and
/// otherwise decided by the first padded piece that differs.
proof fn lemma_order_from_first_difference(a: Seq<u64>, b: Seq<u64>, index: nat, length: nat)
    requires
        a.len() <= length,
        b.len() <= length,
    ensures
        order_from(a, b, index, length) == VersionOrder::Same <==> forall|i: int|
            index <= i ==> (if i < a.len() { a[i] } else { 0u64 }) == (if i < b.len() { b[i] } else { 0u64 }),
        order_from(a, b, index, length) == VersionOrder::Older <==> exists|k: int|
            index <= k && (if k < a.len() { a[k] } else { 0u64 }) < (if k < b.len() { b[k] } else { 0u64 }) && forall|i: int|
                index <= i < k ==> (if i < a.len() { a[i] } else { 0u64 }) == (if i < b.len() { b[i] } else { 0u64 }),
        order_from(a, b, index, length) == VersionOrder::Newer <==> exists|k: int|
            index <= k && (if k < a.len() { a[k] } else { 0u64 }) > (if k < b.len() { b[k] } else { 0u64 }) && forall|i: int|
                index <= i < k ==> (if i < a.len() { a[i] } else { 0u64 }) == (if i < b.len() { b[i] } else { 0u64 }),
    decreases length - index,
{
    if index >= length {
        assert forall|i: int| index <= i implies (if i < a.len() { a[i] } else { 0u64 }) == (if i < b.len() {
            b[i]
        } else {
            0u64
        }) by {}
        if exists|k: int|
            index <= k && (if k < a.len() { a[k] } else { 0u64 }) < (if k < b.len() { b[k] } else { 0u64 }) && forall|i: int|
                index <= i < k ==> (if i < a.len() { a[i] } else { 0u64 }) == (if i < b.len() { b[i] } else { 0u64 }) {
            let k = choose|k: int|
                index <= k && (if k < a.len() { a[k] } else { 0u64 }) < (if k < b.len() { b[k] } else { 0u64 }) && forall|i: int|
                    index <= i < k ==> (if i < a.len() { a[i] } else { 0u64 }) == (if i < b.len() { b[i] } else { 0u64 });
            assert(false);
        }
        if exists|k: int|
            index <= k && (if k < a.len() { a[k] } else { 0u64 }) > (if k < b.len() { b[k] } else { 0u64 }) && forall|i: int|
                index <= i < k ==> (if i < a.len() { a[i] } else { 0u64 }) == (if i < b.len() { b[i] } else { 0u64 }) {
            let k = choose|k: int|
                index <= k && (if k < a.len() { a[k] } else { 0u64 }) > (if k < b.len() { b[k] } else { 0u64 }) && forall|i: int|
                    index <= i < k ==> (if i < a.len() { a[i] } else { 0u64 }) == (if i < b.len() { b[i] } else { 0u64 });
            assert(false);
        }
    } else {
        lemma_order_from_first_difference(a, b, index + 1, length);
        let x = index as int;
        let ax = if x < a.len() { a[x] } else { 0u64 };
        let bx = if x < b.len() { b[x] } else { 0u64 };
        assert(ax == padded(a, x) && bx == padded(b, x));
        if ax < bx {
            assert(index <= x && forall|i: int| index <= i < x ==> (if i < a.len() { a[i] } else { 0u64 }) == (if i < b.len() {
                b[i]
            } else {
                0u64
            }));
            if exists|k: int|
                index <= k && (if k < a.len() { a[k] } else { 0u64 }) > (if k < b.len() { b[k] } else { 0u64 }) && forall|i: int|
                    index <= i < k ==> (if i < a.len() { a[i] } else { 0u64 }) == (if i < b.len() { b[i] } else { 0u64 }) {
                let k = choose|k: int|
                    index <= k && (if k < a.len() { a[k] } else { 0u64 }) > (if k < b.len() { b[k] } else { 0u64 }) && forall|i: int|
                        index <= i < k ==> (if i < a.len() { a[i] } else { 0u64 }) == (if i < b.len() { b[i] } else { 0u64 });
                if k > x {
                    assert((if x < a.len() { a[x] } else { 0u64 }) == (if x < b.len() { b[x] } else { 0u64 }));
                }
            }
        } else if ax > bx {
            if exists|k: int|
                index <= k && (if k < a.len() { a[k] } else { 0u64 }) < (if k < b.len() { b[k] } else { 0u64 }) && forall|i: int|
                    index <= i < k ==> (if i < a.len() { a[i] } else { 0u64 }) == (if i < b.len() { b[i] } else { 0u64 }) {
                let k = choose|k: int|
                    index <= k && (if k < a.len() { a[k] } else { 0u64 }) < (if k < b.len() { b[k] } else { 0u64 }) && forall|i: int|
                        index <= i < k ==> (if i < a.len() { a[i] } else { 0u64 }) == (if i < b.len() { b[i] } else { 0u64 });
                if k > x {
                    assert((if x < a.len() { a[x] } else { 0u64 }) == (if x < b.len() { b[x] } else { 0u64 }));
                }
            }
        } else {
            // the first piece agrees: both sides reduce to the comparison from the next index
            if exists|k: int|
                index <= k && (if k < a.len() { a[k] } else { 0u64 }) < (if k < b.len() { b[k] } else { 0u64 }) && forall|i: int|
                    index <= i < k ==> (if i < a.len() { a[i] } else { 0u64 }) == (if i < b.len() { b[i] } else { 0u64 }) {
                let k = choose|k: int|
                    index <= k && (if k < a.len() { a[k] } else { 0u64 }) < (if k < b.len() { b[k] } else { 0u64 }) && forall|i: int|
                        index <= i < k ==> (if i < a.len() { a[i] } else { 0u64 }) == (if i < b.len() { b[i] } else { 0u64 });
                assert(k > x);
            }
            if exists|k: int|
                index <= k && (if k < a.len() { a[k] } else { 0u64 }) > (if k < b.len() { b[k] } else { 0u64 }) && forall|i: int|
                    index <= i < k ==> (if i < a.len() { a[i] } else { 0u64 }) == (if i < b.len() { b[i] } else { 0u64 }) {
                let k = choose|k: int|
                    index <= k && (if k < a.len() { a[k] } else { 0u64 }) > (if k < b.len() { b[k] } else { 0u64 }) && forall|i: int|
                        index <= i < k ==> (if i < a.len() { a[i] } else { 0u64 }) == (if i < b.len() { b[i] } else { 0u64 });
                assert(k > x);
            }
        }
    }
}

/// Swapping the two versions reverses the comparison.
pub proof fn version_order_is_antisymmetric(current: Seq<char>, latest: Seq<char>)
    ensures
        version_order(current, latest) == Some(VersionOrder::Older) <==> version_order(latest, current)
            == Some(VersionOrder::Newer),
        version_order(current, latest) == Some(VersionOrder::Same) <==> version_order(latest, current)
            == Some(VersionOrder::Same),
{
    match (version_numbers(current), version_numbers(latest)) {
        (Some(left), Some(right)) => {
            assert(longer(left.len(), right.len()) == longer(right.len(), left.len()));
            lemma_order_from_swap(left, right, 0, longer(left.len(), right.len()));
        },
        _ => {},
    }
}

proof fn lemma_order_from_swap(left: Seq<u64>, right: Seq<u64>, index: nat, length: nat)
    ensures
        order_from(left, right, index, length) == VersionOrder::Older <==> order_from(
            right,
            left,
            index,
            length,
        ) == VersionOrder::Newer,
        order_from(left, right, index, length) == VersionOrder::Newer <==> order_from(
            right,
            left,
            index,
            length,
        ) == VersionOrder::Older,
        order_from(left, right, index, length) == VersionOrder::Same <==> order_from(
            right,
            left,
            index,
            length,
        ) == VersionOrder::Same,
    decreases length - index,
{
    if index < length {
        lemma_order_from_swap(left, right, index + 1, length);
    }
}

/// Text with tags removed; each `>` becomes a space.
pub open spec fn strip_tags_state(text: Seq<char>) -> (Seq<char>, bool)
    decreases text.len(),
{
    if text.len() == 0 {
        (Seq::empty(), false)
    } else {
        let (kept, in_tag) = strip_tags_state(text.drop_last());
        let c = text.last();
        if c == '<' {
            (kept, true)
        } else if c == '>' {
            (kept.push(' '), false)
        } else if !in_tag {
            (kept.push(c), in_tag)
        } else {
            (kept, in_tag)
        }
    }
}

/// The visible text of an HTML fragment with its whitespace collapsed.
pub open spec fn collapsed_html(text: Seq<char>) -> Seq<char> {
    collapse_whitespace(strip_tags_state(text).0)
}

/// The visible text of an HTML fragment, whitespace collapsed to single spaces.
pub fn collapse_html_text(value: &Vec<char>) -> (res: Vec<char>)
    ensures
        res@ == collapsed_html(value@),
{
    let mut kept: Vec<char> = Vec::new();
    let mut in_tag = false;
    let mut index: usize = 0;
    while index < value.len()
        invariant
            index <= value@.len(),
            (kept@, in_tag) == strip_tags_state(value@.subrange(0, index as int)),
        decreases value@.len() - index,
    {
        let c = value[index];
        proof {
            let prefix = value@.subrange(0, index + 1);
            assert(prefix.drop_last() =~= value@.subrange(0, index as int));
            assert(prefix.last() == c);
        }
        if c == '<' {
            in_tag = true;
        } else if c == '>' {
            in_tag = false;
            kept.push(' ');
        } else if !in_tag {
            kept.push(c);
        }
        index = index + 1;
    }
    assert(value@.subrange(0, index as int) =~= value@);
    collapsed_whitespace(&kept)
}

/// Whether a character is a heading level digit.
pub open spec fn is_heading_level(c: char) -> bool {
    '1' <= c && c <= '6'
}

/// The closing tag of a heading level.
pub open spec fn closing_tag(level: char) -> Seq<char> {
    seq!['<', '/', 'h', level, '>']
}

/// The collapsed text of each `<h1>`..`<h6>` element from `cursor` on, found in
/// the lower-cased copy and read from the document itself.
pub open spec fn headings_from(document: Seq<char>, lower: Seq<char>, cursor: nat) -> Seq<Seq<char>>
    decreases lower.len() + 1 - cursor,
{
    match first_occurrence(lower, seq!['<', 'h'], cursor) {
        None => Seq::empty(),
        Some(start) => if start + 2 >= lower.len() {
            Seq::empty()
        } else if !is_heading_level(lower[start + 2int]) {
            if start + 2 > cursor {
                headings_from(document, lower, start + 2)
            } else {
                Seq::empty()
            }
        } else {
            match first_occurrence(lower, seq!['>'], start) {
                None => Seq::empty(),
                Some(open_end) => {
                    let content_start = open_end + 1;
                    match first_occurrence(lower, closing_tag(lower[start + 2int]), content_start) {
                        None => if content_start > cursor && content_start <= lower.len() {
                            headings_from(document, lower, content_start)
                        } else {
                            Seq::empty()
                        },
                        Some(content_end) => if content_end + 5 > cursor && content_end + 5 <= lower.len()
                            && content_start <= content_end && lower.len() == document.len() {
                            seq![collapsed_html(document.subrange(content_start as int, content_end as int))]
                                + headings_from(document, lower, content_end + 5)
                        } else {
                            Seq::empty()
                        },
                    }
                },
            }
        },
    }
}

/// The headings of an HTML document.
pub open spec fn html_headings_of(document: Seq<char>) -> Seq<Seq<char>> {
    headings_from(document, ascii_lowercase(document), 0)
}

/// The collapsed text of each heading element of an HTML document, in order.
pub fn html_headings(document: &Vec<char>) -> (res: Vec<Vec<char>>)
    ensures
        char_views(res@) == html_headings_of(document@),
{
    let lower = chars_to_ascii_lowercase(document);
    let opening = chars_of("<h");
    let closing_angle = chars_of(">");
    proof {
        reveal_strlit("<h");
        reveal_strlit(">");
        assert(opening@ =~= seq!['<', 'h']);
        assert(closing_angle@ =~= seq!['>']);
    }
    let ghost all = html_headings_of(document@);
    let mut headings: Vec<Vec<char>> = Vec::new();
    let mut cursor: usize = 0;
    loop
        invariant
            lower@ == ascii_lowercase(document@),
            lower@.len() == document@.len(),
            opening@ == seq!['<', 'h'],
            closing_angle@ == seq!['>'],
            cursor <= lower@.len() + 5,
            all == html_headings_of(document@),
            all == char_views(headings@) + headings_from(
                document@,
                lower@,
                cursor as nat,
            ),
        ensures
            char_views(headings@) == all,
            all == html_headings_of(document@),
        decreases lower@.len() + 6 - cursor,
    {
        let found_start = find_first(&lower, &opening, cursor);
        if found_start.is_none() {
            assert(char_views(headings@) =~= all);
            break;
        }
        let start = found_start.unwrap();
        assert(occurs_at(lower@, opening@, start as int));
        assert(start + 2 <= lower@.len());
        if lower.len() - start <= 2 {
            assert(char_views(headings@) =~= all);
            break;
        }
        let level = lower[start + 2];
        if !('1' <= level && level <= '6') {
            if start + 2 > cursor {
                cursor = start + 2;
                continue;
            }
            assert(char_views(headings@) =~= all);
            break;
        }
        let found_end = find_first(&lower, &closing_angle, start);
        if found_end.is_none() {
            assert(char_views(headings@) =~= all);
            break;
        }
        let open_end = found_end.unwrap();
        let content_start = open_end + 1;
        let mut close: Vec<char> = Vec::new();
        close.push('<');
        close.push('/');
        close.push('h');
        close.push(level);
        close.push('>');
        assert(close@ =~= closing_tag(lower@[start + 2]));
        match find_first(&lower, &close, content_start) {
            None => {
                if content_start > cursor && content_start <= lower.len() {
                    cursor = content_start;
                    continue;
                }
                assert(char_views(headings@) =~= all);
                break;
            },
            Some(content_end) => {
                if content_end + 5 > cursor && content_end + 5 <= lower.len() && content_start
                    <= content_end {
                    let content = chars_between(document, content_start, content_end);
                    let heading = collapse_html_text(&content);
                    let ghost before = char_views(headings@);
                    headings.push(heading);
                    proof {
                        assert(char_views(headings@) =~= before.push(
                            heading@,
                        ));
                        assert(all =~= char_views(headings@)
                            + headings_from(document@, lower@, (content_end + 5) as nat));
                    }
                    cursor = content_end + 5;
                } else {
                    assert(char_views(headings@) =~= all);
                    break;
                }
            },
        }
    }
    headings
}


/// The versions named by `Download SimHub v…` headings, normalized.
pub open spec fn download_versions(headings: Seq<Seq<char>>) -> Seq<Seq<char>>
    decreases headings.len(),
{
    if headings.len() == 0 {
        Seq::empty()
    } else {
        let earlier = download_versions(headings.drop_last());
        let heading = headings.last();
        if starts_with(heading, "Download SimHub v"@) {
            match normalized_version(trim(heading.subrange(17, heading.len() as int))) {
                Some(version) => earlier.push(version),
                None => earlier,
            }
        } else {
            earlier
        }
    }
}

/// How many headings normalize to exactly this version.
pub open spec fn count_version_headings(headings: Seq<Seq<char>>, version: Seq<char>) -> nat
    decreases headings.len(),
{
    if headings.len() == 0 {
        0
    } else {
        count_version_headings(headings.drop_last(), version) + if normalized_version(headings.last())
            == Some(version) {
            1nat
        } else {
            0nat
        }
    }
}

/// The advice of a comparison between a normalized installed and latest version.
pub open spec fn compared_advice(
    current: Seq<char>,
    latest: Seq<char>,
    information_url: Seq<char>,
    failure: Seq<char>,
) -> ProviderAdviceView {
    match version_order(current, latest) {
        None => unknown_advice(failure),
        Some(order) => ProviderAdviceView {
            status: if order == VersionOrder::Older {
                UpdateStatusView::UpdateAvailable { current_version: current, latest_version: latest }
            } else {
                UpdateStatusView::Current { current_version: current }
            },
            information_url: Some(information_url),
        },
    }
}

/// The installed version, normalized, if it was read at all.
pub open spec fn installed_version(current: Option<Seq<char>>) -> Option<Seq<char>> {
    match current {
        Some(value) => normalized_version(value),
        None => None,
    }
}

/// The advice of the official SimHub page: exactly one download heading, whose
/// version appears in exactly one other heading, the changelog.
pub open spec fn simhub_advice(current: Option<Seq<char>>, document: Seq<char>, information_url: Seq<char>) -> ProviderAdviceView {
    match installed_version(current) {
        None => unknown_advice("The installed SimHub version could not be read safely."@),
        Some(installed) => {
            let headings = html_headings_of(document);
            let downloads = download_versions(headings);
            if downloads.len() != 1 {
                unknown_advice("The official SimHub page changed or was ambiguous."@)
            } else if count_version_headings(headings, downloads[0]) != 1 {
                unknown_advice("The official SimHub download and changelog versions did not agree."@)
            } else {
                compared_advice(
                    installed,
                    downloads[0],
                    information_url,
                    "The SimHub versions could not be compared."@,
                )
            }
        },
    }
}

fn optional_chars(value: Option<&str>) -> (res: Option<Vec<char>>)
    ensures
        match value {
            Some(text) => res is Some && res->0@ == text@,
            None => res is None,
        },
{
    match value {
        Some(text) => Some(chars_of(text)),
        None => None,
    }
}

/// The installed version, normalized, if it was read at all.
fn installed_version_of(current_version: Option<&str>) -> (res: Option<Vec<char>>)
    ensures
        match res {
            Some(version) => installed_version(optional_text(current_version)) == Some(version@),
            None => installed_version(optional_text(current_version)) is None,
        },
{
    match optional_chars(current_version) {
        Some(characters) => normalize_version(&characters),
        None => None,
    }
}

/// An optional text slice as characters.
pub open spec fn optional_text(value: Option<&str>) -> Option<Seq<char>> {
    match value {
        Some(text) => Some(text@),
        None => None,
    }
}

fn compared(current: Vec<char>, latest: Vec<char>, information_url: &str, failure: &str) -> (res: ProviderAdvice)
    ensures
        res@ == compared_advice(current@, latest@, information_url@, failure@),
{
    match compare_versions(&current, &latest) {
        None => unknown(failure),
        Some(order) => {
            let status = if order == VersionOrder::Older {
                UpdateStatus::UpdateAvailable {
                    current_version: string_from_chars(&current),
                    latest_version: string_from_chars(&latest),
                }
            } else {
                UpdateStatus::Current { current_version: string_from_chars(&current) }
            };
            ProviderAdvice { status, information_url: Some(information_url.to_string()) }
        },
    }
}

fn collect_download_versions(headings: &Vec<Vec<char>>) -> (res: Vec<Vec<char>>)
    ensures
        char_views(res@) == download_versions(char_views(headings@)),
{
    let prefix = chars_of("Download SimHub v");
    proof {
        reveal_strlit("Download SimHub v");
    }
    let mut versions: Vec<Vec<char>> = Vec::new();
    let mut index: usize = 0;
    while index < headings.len()
        invariant
            index <= headings@.len(),
            prefix@ == "Download SimHub v"@,
            prefix@.len() == 17,
            char_views(versions@) == download_versions(char_views(headings@).subrange(0, index as int)),
        decreases headings@.len() - index,
    {
        proof {
            let part = char_views(headings@).subrange(0, index + 1);
            assert(part.drop_last() =~= char_views(headings@).subrange(0, index as int));
            assert(part.last() == headings@[index as int]@);
        }
        let heading = &headings[index];
        if crate::text::chars_start_with(heading, &prefix) {
            let rest = chars_between(heading, 17, heading.len());
            let trimmed = trim_chars(&rest);
            match normalize_version(&trimmed) {
                Some(version) => {
                    let ghost before = char_views(versions@);
                    versions.push(version);
                    assert(char_views(versions@) =~= before.push(version@));
                },
                None => {},
            }
        }
        index = index + 1;
    }
    assert(char_views(headings@).subrange(0, index as int) =~= char_views(headings@));
    versions
}

fn count_headings_with_version(headings: &Vec<Vec<char>>, version: &Vec<char>) -> (res: u64)
    ensures
        res == count_version_headings(char_views(headings@), version@),
{
    let mut count: u64 = 0;
    let mut index: usize = 0;
    while index < headings.len()
        invariant
            index <= headings@.len(),
            count == count_version_headings(char_views(headings@).subrange(0, index as int), version@),
            count <= index,
        decreases headings@.len() - index,
    {
        proof {
            let part = char_views(headings@).subrange(0, index + 1);
            assert(part.drop_last() =~= char_views(headings@).subrange(0, index as int));
            assert(part.last() == headings@[index as int]@);
        }
        match normalize_version(&headings[index]) {
            Some(normalized) => {
                if chars_equal(&normalized, version) {
                    count = count + 1;
                }
            },
            None => {},
        }
        index = index + 1;
    }
    assert(char_views(headings@).subrange(0, index as int) =~= char_views(headings@));
    count
}

/// Advice from the official SimHub download page.
pub fn parse_simhub_page(current_version: Option<&str>, response: &str, information_url: &str) -> (res:
    ProviderAdvice)
    ensures
        res@ == simhub_advice(optional_text(current_version), response@, information_url@),
{
    let installed = match installed_version_of(current_version) {
        Some(version) => version,
        None => return unknown("The installed SimHub version could not be read safely."),
    };
    let document = chars_of(response);
    let headings = html_headings(&document);
    let downloads = collect_download_versions(&headings);
    if downloads.len() != 1 {
        return unknown("The official SimHub page changed or was ambiguous.");
    }
    let latest = downloads[0].clone();
    assert(latest@ == char_views(downloads@)[0]);
    if count_headings_with_version(&headings, &latest) != 1 {
        return unknown("The official SimHub download and changelog versions did not agree.");
    }
    compared(installed, latest, information_url, "The SimHub versions could not be compared.")
}

/// Whether a text holds a pattern, as `str::contains` tests.
pub open spec fn has_text(text: Seq<char>, pattern: Seq<char>) -> bool {
    first_occurrence(text, pattern, 0) is Some
}

fn chars_contain(text: &Vec<char>, pattern: &str) -> (res: bool)
    ensures
        res == has_text(text@, pattern@),
{
    let needle = chars_of(pattern);
    match find_first(text, &needle, 0) {
        Some(_) => true,
        None => false,
    }
}

/// Whether a Winget line is the English column header.
pub open spec fn is_winget_header(line: Seq<char>) -> bool {
    has_text(line, "Name"@) && has_text(line, "Id"@) && has_text(line, "Version"@) && has_text(
        line,
        "Source"@,
    )
}

/// The first header line at or after `from`.
pub open spec fn first_winget_header(lines: Seq<Seq<char>>, from: nat) -> Option<nat>
    decreases lines.len() - from,
{
    if from >= lines.len() {
        None
    } else if is_winget_header(lines[from as int]) {
        Some(from)
    } else {
        first_winget_header(lines, from + 1)
    }
}

/// The first column equal to `value`.
pub open spec fn first_column(columns: Seq<Seq<char>>, value: Seq<char>, from: nat) -> Option<nat>
    decreases columns.len() - from,
{
    if from >= columns.len() {
        None
    } else if columns[from as int] == value {
        Some(from)
    } else {
        first_column(columns, value, from + 1)
    }
}

/// The installed and next column of a Winget row for the package, when the row's
/// last column names the `winget` source.
pub open spec fn winget_row(line: Seq<char>, package_id: Seq<char>) -> Option<(Seq<char>, Option<Seq<char>>)> {
    let columns = words(line);
    match first_column(columns, package_id, 0) {
        None => None,
        Some(index) => if index + 1 >= columns.len() {
            None
        } else if columns.last() == "winget"@ {
            Some(
                (
                    columns[index + 1int],
                    if index + 2 < columns.len() {
                        Some(columns[index + 2int])
                    } else {
                        None
                    },
                ),
            )
        } else {
            None
        },
    }
}

/// The package rows of a Winget listing.
pub open spec fn winget_rows(lines: Seq<Seq<char>>, package_id: Seq<char>) -> Seq<(Seq<char>, Option<Seq<char>>)>
    decreases lines.len(),
{
    if lines.len() == 0 {
        Seq::empty()
    } else {
        let earlier = winget_rows(lines.drop_last(), package_id);
        match winget_row(lines.last(), package_id) {
            Some(row) => earlier.push(row),
            None => earlier,
        }
    }
}

/// The advice of a `winget list` output: the English header, exactly one row for
/// the package, an unambiguous installed version and, when the header has an
/// `Available` column, an unambiguous available version.
pub open spec fn winget_advice(response: Seq<char>, package_id: Seq<char>) -> ProviderAdviceView {
    let all = lines(response);
    match first_winget_header(all, 0) {
        None => unknown_advice("Winget output was localized or ambiguous."@),
        Some(header) => {
            let has_available = has_text(all[header as int], "Available"@);
            let rows = winget_rows(all.subrange(header + 1int, all.len() as int), package_id);
            if rows.len() != 1 {
                unknown_advice("Winget did not return one exact package match."@)
            } else if normalized_version(rows[0].0) is None {
                unknown_advice("Winget returned an ambiguous installed version."@)
            } else if has_available {
                match rows[0].1 {
                    Some(available) => if available != "winget"@ {
                        match normalized_version(available) {
                            Some(latest) => ProviderAdviceView {
                                status: UpdateStatusView::UpdateAvailable {
                                    current_version: rows[0].0,
                                    latest_version: latest,
                                },
                                information_url: None,
                            },
                            None => unknown_advice(
                                "Winget did not provide a reliable available version."@,
                            ),
                        }
                    } else {
                        unknown_advice("Winget did not provide a reliable available version."@)
                    },
                    None => unknown_advice("Winget did not provide a reliable available version."@),
                }
            } else {
                ProviderAdviceView {
                    status: UpdateStatusView::Current { current_version: rows[0].0 },
                    information_url: None,
                }
            }
        },
    }
}

fn find_winget_header(all: &Vec<Vec<char>>) -> (res: Option<usize>)
    ensures
        match res {
            Some(index) => first_winget_header(char_views(all@), 0) == Some(index as nat) && index
                < all@.len(),
            None => first_winget_header(char_views(all@), 0) is None,
        },
{
    let mut index: usize = 0;
    while index < all.len()
        invariant
            index <= all@.len(),
            first_winget_header(char_views(all@), 0) == first_winget_header(char_views(all@), index as nat),
        decreases all@.len() - index,
    {
        let line = &all[index];
        assert(char_views(all@)[index as int] == line@);
        if chars_contain(line, "Name") && chars_contain(line, "Id") && chars_contain(line, "Version")
            && chars_contain(line, "Source") {
            return Some(index);
        }
        index = index + 1;
    }
    None
}

fn find_column(columns: &Vec<Vec<char>>, value: &Vec<char>) -> (res: Option<usize>)
    ensures
        match res {
            Some(index) => first_column(char_views(columns@), value@, 0) == Some(index as nat) && index
                < columns@.len(),
            None => first_column(char_views(columns@), value@, 0) is None,
        },
{
    let mut index: usize = 0;
    while index < columns.len()
        invariant
            index <= columns@.len(),
            first_column(char_views(columns@), value@, 0) == first_column(char_views(columns@), value@, index as nat),
        decreases columns@.len() - index,
    {
        assert(char_views(columns@)[index as int] == columns@[index as int]@);
        if chars_equal(&columns[index], value) {
            return Some(index);
        }
        index = index + 1;
    }
    None
}

fn read_winget_row(line: &Vec<char>, package_id: &Vec<char>) -> (res: Option<(Vec<char>, Option<Vec<char>>)>)
    ensures
        match res {
            Some((current, next)) => winget_row(line@, package_id@) == Some(
                (
                    current@,
                    match next {
                        Some(value) => Some(value@),
                        None => None,
                    },
                ),
            ),
            None => winget_row(line@, package_id@) is None,
        },
{
    let columns = split_words(line);
    assert(char_views(columns@) =~= words(line@));
    let index = match find_column(&columns, package_id) {
        Some(index) => index,
        None => return None,
    };
    if columns.len() - index <= 1 {
        return None;
    }
    let source = chars_of("winget");
    proof {
        reveal_strlit("winget");
    }
    assert(char_views(columns@).last() == columns@[columns@.len() - 1]@);
    if !chars_equal(&columns[columns.len() - 1], &source) {
        return None;
    }
    let current = columns[index + 1].clone();
    let next = if columns.len() - index > 2 {
        Some(columns[index + 2].clone())
    } else {
        None
    };
    Some((current, next))
}

/// Advice from a `winget list --id <package> --exact` output.
pub fn parse_winget_list(response: &str, package_id: &str) -> (res: ProviderAdvice)
    ensures
        res@ == winget_advice(response@, package_id@),
{
    let text = chars_of(response);
    let all = split_lines(&text);
    assert(char_views(all@) =~= lines(response@));
    let header = match find_winget_header(&all) {
        Some(header) => header,
        None => return unknown("Winget output was localized or ambiguous."),
    };
    let has_available = chars_contain(&all[header], "Available");
    assert(char_views(all@)[header as int] == all@[header as int]@);
    let package = chars_of(package_id);
    let mut rows: Vec<(Vec<char>, Option<Vec<char>>)> = Vec::new();
    let ghost rest = char_views(all@).subrange(header + 1, all@.len() as int);
    let line_count = all.len();
    assert(header < line_count);
    let mut index: usize = header + 1;
    while index < all.len()
        invariant
            header < index <= all@.len(),
            package@ == package_id@,
            rest == char_views(all@).subrange(header + 1, all@.len() as int),
            rows@.len() == winget_rows(rest.subrange(0, index - header - 1), package@).len(),
            forall|i: int| 0 <= i < rows@.len() ==> (#[trigger] rows@[i]).0@ == winget_rows(
                rest.subrange(0, index - header - 1),
                package@,
            )[i].0 && match rows@[i].1 {
                Some(value) => winget_rows(rest.subrange(0, index - header - 1), package@)[i].1 == Some(value@),
                None => winget_rows(rest.subrange(0, index - header - 1), package@)[i].1 is None,
            },
        decreases all@.len() - index,
    {
        proof {
            let part = rest.subrange(0, index - header);
            assert(part.drop_last() =~= rest.subrange(0, index - header - 1));
            assert(part.last() == all@[index as int]@);
        }
        match read_winget_row(&all[index], &package) {
            Some(row) => {
                rows.push(row);
            },
            None => {},
        }
        index = index + 1;
    }
    assert(rest.subrange(0, index - header - 1) =~= rest);
    if rows.len() != 1 {
        return unknown("Winget did not return one exact package match.");
    }
    let (current, available) = rows.pop().unwrap();
    if normalize_version(&current).is_none() {
        return unknown("Winget returned an ambiguous installed version.");
    }
    if has_available {
        let reliable = "Winget did not provide a reliable available version.";
        match available {
            Some(value) => {
                let source = chars_of("winget");
                if chars_equal(&value, &source) {
                    return unknown(reliable);
                }
                match normalize_version(&value) {
                    Some(latest) => ProviderAdvice {
                        status: UpdateStatus::UpdateAvailable {
                            current_version: string_from_chars(&current),
                            latest_version: string_from_chars(&latest),
                        },
                        information_url: None,
                    },
                    None => unknown(reliable),
                }
            },
            None => unknown(reliable),
        }
    } else {
        ProviderAdvice {
            status: UpdateStatus::Current { current_version: string_from_chars(&current) },
            information_url: None,
        }
    }
}


/// What `url` reads from a URL: scheme, user name, whether a password is
/// present, host, path, query, fragment and the serialized URL.
pub struct UrlView {
    pub scheme: Seq<char>,
    pub username: Seq<char>,
    pub has_password: bool,
    pub host: Option<Seq<char>>,
    pub path: Seq<char>,
    pub query: Option<Seq<char>>,
    pub fragment: Option<Seq<char>>,
    pub serialization: Seq<char>,
}

/// The parts of a URL as `url::Url::parse` reads them; `None` when the text
/// does not parse.
pub uninterp spec fn parsed_url(text: Seq<char>) -> Option<UrlView>;

/// The parts of a parsed URL.
#[derive(Debug)]
pub struct UrlParts {
    pub scheme: String,
    pub username: String,
    pub has_password: bool,
    pub host: Option<String>,
    pub path: String,
    pub query: Option<String>,
    pub fragment: Option<String>,
    pub serialization: String,
}

/// The view of an optional text.
pub open spec fn text_view(text: Option<String>) -> Option<Seq<char>> {
    match text {
        Some(text) => Some(text@),
        None => None,
    }
}

/// The abstract value of URL parts.
pub open spec fn url_view(parts: UrlParts) -> UrlView {
    UrlView {
        scheme: parts.scheme@,
        username: parts.username@,
        has_password: parts.has_password,
        host: text_view(parts.host),
        path: parts.path@,
        query: text_view(parts.query),
        fragment: text_view(parts.fragment),
        serialization: parts.serialization@,
    }
}

/// The abstract value of optional URL parts.
pub open spec fn url_parts_view(parts: Option<UrlParts>) -> Option<UrlView> {
    match parts {
        Some(parts) => Some(url_view(parts)),
        None => None,
    }
}

/// Parses a URL with `url::Url::parse` and reads `scheme`, `username`,
/// `password`, `host_str`, `path`, `query`, `fragment` and `as_str`.
///
/// The contract names the result (`parsed_url`) and claims nothing more: the
/// WHATWG parsing rules that decide it are the crate's.
#[verifier::external_body]
pub(crate) fn url_parts(text: &str) -> (res: Option<UrlParts>)
    ensures
        url_parts_view(res) == parsed_url(text@),
{
    match url::Url::parse(text) {
        Ok(url) => Some(
            UrlParts {
                scheme: url.scheme().to_owned(),
                username: url.username().to_owned(),
                has_password: url.password().is_some(),
                host: url.host_str().map(str::to_owned),
                path: url.path().to_owned(),
                query: url.query().map(str::to_owned),
                fragment: url.fragment().map(str::to_owned),
                serialization: url.as_str().to_owned(),
            },
        ),
        Err(_) => None,
    }
}

/// Whether a host is one of the allowed hosts, ignoring ASCII case.
pub open spec fn host_is_allowed(host: Seq<char>, allowed_hosts: Seq<&str>) -> bool {
    exists|index: int| 0 <= index < allowed_hosts.len() && eq_ignore_ascii_case(host, #[trigger] allowed_hosts[index]@)
}

/// Whether parsed URL parts describe an HTTPS link without credentials to an allowed host.
pub open spec fn is_trusted_url(parts: Option<UrlView>, allowed_hosts: Seq<&str>) -> bool {
    match parts {
        Some(url) => {
            &&& url.scheme == "https"@
            &&& url.username.len() == 0
            &&& !url.has_password
            &&& url.host matches Some(host) && host_is_allowed(host, allowed_hosts)
        },
        None => false,
    }
}

fn host_allowed(host: &str, allowed_hosts: &[&str]) -> (res: bool)
    ensures
        res == host_is_allowed(host@, allowed_hosts@),
{
    let mut index: usize = 0;
    while index < allowed_hosts.len()
        invariant
            index <= allowed_hosts@.len(),
            forall|earlier: int| 0 <= earlier < index ==> !eq_ignore_ascii_case(host@, #[trigger] allowed_hosts@[earlier]@),
        decreases allowed_hosts@.len() - index,
    {
        if text_eq_ignore_ascii_case(host, allowed_hosts[index]) {
            return true;
        }
        index = index + 1;
    }
    false
}

/// Whether a link is an HTTPS URL without credentials on one of the allowed hosts.
pub fn is_trusted_information_url(value: &str, allowed_hosts: &[&str]) -> (res: bool)
    ensures
        res == is_trusted_url(parsed_url(value@), allowed_hosts@),
{
    proof {
        reveal_strlit("https");
    }
    match url_parts(value) {
        Some(parts) => {
            let https = same_text(parts.scheme.as_str(), "https");
            let anonymous = parts.username.as_str().as_bytes().len() == 0 && !parts.has_password;
            proof {
                vstd::utf8::encode_utf8_valid_utf8(parts.username@);
                if parts.username@.len() > 0 {
                    lemma_nonempty_text_has_bytes(parts.username@);
                }
            }
            match &parts.host {
                Some(host) => https && anonymous && host_allowed(host.as_str(), allowed_hosts),
                None => false,
            }
        },
        None => false,
    }
}

/// A non-empty text has a non-empty UTF-8 encoding.
proof fn lemma_nonempty_text_has_bytes(text: Seq<char>)
    requires
        text.len() > 0,
    ensures
        vstd::utf8::encode_utf8(text).len() > 0,
{
    vstd::utf8::encode_utf8_first_scalar(text);
}

/// The host of a URL, when it parses and has one.
pub open spec fn url_host_of(url: Seq<char>) -> Option<Seq<char>> {
    match parsed_url(url) {
        Some(parts) => parts.host,
        None => None,
    }
}

/// The host of a URL, when it parses and has one.
pub fn url_host(url: &str) -> (res: Option<String>)
    ensures
        match res {
            Some(host) => url_host_of(url@) == Some(host@),
            None => url_host_of(url@) is None,
        },
{
    match url_parts(url) {
        Some(parts) => parts.host,
        None => None,
    }
}

/// The tag name and link of a GitHub release document: the string fields
/// `tag_name` and `html_url` of a JSON object, or `None`.
pub uninterp spec fn github_release_fields(response: Seq<char>) -> Option<(Seq<char>, Seq<char>)>;

/// Reads `tag_name` and `html_url` from a GitHub release with `serde_json`.
///
/// Parses the text as a `serde_json::Value` and takes both fields as strings.
/// The contract names the result (`github_release_fields`) and claims nothing
/// more: JSON syntax is the crate's.
#[verifier::external_body]
fn release_fields(response: &str) -> (res: Option<(String, String)>)
    ensures
        match res {
            Some((tag, link)) => github_release_fields(response@) == Some((tag@, link@)),
            None => github_release_fields(response@) is None,
        },
{
    let value: serde_json::Value = serde_json::from_str(response).ok()?;
    let tag = value.get("tag_name")?.as_str()?.to_owned();
    let link = value.get("html_url")?.as_str()?.to_owned();
    Some((tag, link))
}

/// The advice of a GitHub release: an unambiguous installed version, a release
/// document, an unambiguous tag, a trusted release link and comparable versions.
pub open spec fn github_advice(
    current: Option<Seq<char>>,
    release: Option<(Seq<char>, Seq<char>)>,
    link_is_trusted: bool,
) -> ProviderAdviceView {
    match installed_version(current) {
        None => unknown_advice("The installed version could not be read safely."@),
        Some(installed) => match release {
            None => unknown_advice("The trusted release provider returned an invalid response."@),
            Some((tag, link)) => match normalized_version(tag) {
                None => unknown_advice("The trusted release provider returned an ambiguous version."@),
                Some(latest) => if !link_is_trusted {
                    unknown_advice("The trusted release provider returned an invalid release link."@)
                } else {
                    compared_advice(
                        installed,
                        latest,
                        link,
                        "The installed and available versions could not be compared."@,
                    )
                },
            },
        },
    }
}

/// The hosts a GitHub release link may point to.
pub open spec fn github_link_hosts() -> Seq<&'static str> {
    seq!["github.com"]
}

/// Whether the link of a release document is trusted.
pub open spec fn github_link_is_trusted(release: Option<(Seq<char>, Seq<char>)>) -> bool {
    match release {
        Some((_, link)) => is_trusted_url(parsed_url(link), github_link_hosts()),
        None => false,
    }
}

/// Advice from the fields of a GitHub release, given whether its link is trusted.
pub fn github_release_advice(
    current_version: Option<&str>,
    release: Option<(String, String)>,
    link_is_trusted: bool,
) -> (res: ProviderAdvice)
    ensures
        res@ == github_advice(
            optional_text(current_version),
            match release {
                Some((tag, link)) => Some((tag@, link@)),
                None => None,
            },
            link_is_trusted,
        ),
{
    let installed = match installed_version_of(current_version) {
        Some(version) => version,
        None => return unknown("The installed version could not be read safely."),
    };
    let (tag, link) = match release {
        Some(fields) => fields,
        None => return unknown("The trusted release provider returned an invalid response."),
    };
    let latest = match normalize_version(&chars_of(tag.as_str())) {
        Some(version) => version,
        None => return unknown("The trusted release provider returned an ambiguous version."),
    };
    if !link_is_trusted {
        return unknown("The trusted release provider returned an invalid release link.");
    }
    compared(
        installed,
        latest,
        link.as_str(),
        "The installed and available versions could not be compared.",
    )
}

/// Advice from a GitHub `releases/latest` response.
pub fn parse_github_release(current_version: Option<&str>, response: &str) -> (res: ProviderAdvice)
    ensures
        res@ == github_advice(
            optional_text(current_version),
            github_release_fields(response@),
            github_link_is_trusted(github_release_fields(response@)),
        ),
{
    let release = release_fields(response);
    let trusted = match &release {
        Some((_, link)) => {
            let hosts: [&str; 1] = ["github.com"];
            proof {
                assert(hosts@ =~= github_link_hosts());
            }
            is_trusted_information_url(link.as_str(), &hosts)
        },
        None => false,
    };
    github_release_advice(current_version, release, trusted)
}

/// Reads provider answers. Implementations perform the network and process
/// work; the runner decides what their answers mean.
pub trait UpdateProviderRuntime {
    /// The body of an HTTPS GET that stays on the allowed hosts.
    fn get_https(&self, url: &str, allowed_hosts: &[&str]) -> Result<String, String>;

    /// The output of `winget list` for one exact package id.
    fn winget_list(&self, package_id: &str) -> Result<String, String>;

    /// The file version of an installed executable.
    fn file_version(&self, executable_path: &str) -> Option<String>;
}

/// What a provider's advice may be, whatever the runtime answered: the failure
/// reason when the runtime failed, otherwise the provider's reading of an answer.
pub open spec fn advice_fits(provider: Option<CatalogUpdateProvider>, advice: ProviderAdviceView) -> bool {
    match provider {
        None => advice == unknown_advice("No trusted update provider is configured."@),
        Some(CatalogUpdateProvider::GitHubReleases { .. }) => {
            ||| advice == unknown_advice("The trusted GitHub release provider could not be reached."@)
            ||| exists|current: Option<Seq<char>>, response: Seq<char>| advice == #[trigger] github_advice(
                current,
                github_release_fields(response),
                github_link_is_trusted(github_release_fields(response)),
            )
        },
        Some(CatalogUpdateProvider::Winget { package_id }) => {
            ||| advice == unknown_advice("Winget could not return reliable update information."@)
            ||| exists|response: Seq<char>| advice == #[trigger] winget_advice(response, package_id@)
        },
        Some(CatalogUpdateProvider::OfficialPage { url }) => {
            ||| advice == unknown_advice("The official update page could not be reached safely."@)
            ||| (url_host_of(url@) is Some && exists|current: Option<Seq<char>>, response: Seq<char>|
                advice == #[trigger] simhub_advice(current, response, url@))
        },
    }
}

/// Runs the curated providers of an update check.
pub struct UpdateProviderRunner<R> {
    runtime: R,
}

impl<R: UpdateProviderRuntime> UpdateProviderRunner<R> {
    /// The runtime the providers ask.
    pub closed spec fn runtime(&self) -> R {
        self.runtime
    }

    /// A runner over a runtime.
    pub fn new(runtime: R) -> (res: Self)
        ensures
            res.runtime() == runtime,
    {
        UpdateProviderRunner { runtime }
    }

    fn installed_file_version(&self, executable_path: &Option<String>) -> (res: Option<String>)
        ensures
            executable_path is None ==> res is None,
    {
        match executable_path {
            Some(path) => self.runtime.file_version(path.as_str()),
            None => None,
        }
    }

    fn advise(&self, target: &ApplicationUpdateTarget) -> (res: ProviderAdvice)
        ensures
            advice_fits(target.provider, res@),
    {
        match &target.provider {
            Some(CatalogUpdateProvider::GitHubReleases { repository }) => {
                let mut url = chars_of("https://api.github.com/repos/");
                let mut middle = chars_of(repository.as_str());
                let mut tail = chars_of("/releases/latest");
                url.append(&mut middle);
                url.append(&mut tail);
                let url = string_from_chars(&url);
                let hosts: [&str; 1] = ["api.github.com"];
                match self.runtime.get_https(url.as_str(), &hosts) {
                    Ok(response) => {
                        let installed = self.installed_file_version(&target.executable_path);
                        let advice = match &installed {
                            Some(version) => parse_github_release(Some(version.as_str()), response.as_str()),
                            None => parse_github_release(None, response.as_str()),
                        };
                        proof {
                            let current = match installed {
                                Some(version) => Some(version@),
                                None => None,
                            };
                            assert(advice@ == github_advice(
                                current,
                                github_release_fields(response@),
                                github_link_is_trusted(github_release_fields(response@)),
                            ));
                        }
                        advice
                    },
                    Err(_) => unknown("The trusted GitHub release provider could not be reached."),
                }
            },
            Some(CatalogUpdateProvider::Winget { package_id }) => {
                match self.runtime.winget_list(package_id.as_str()) {
                    Ok(response) => {
                        let advice = parse_winget_list(response.as_str(), package_id.as_str());
                        assert(advice@ == winget_advice(response@, package_id@));
                        advice
                    },
                    Err(_) => unknown("Winget could not return reliable update information."),
                }
            },
            Some(CatalogUpdateProvider::OfficialPage { url }) => {
                let failure = "The official update page could not be reached safely.";
                let host = match url_host(url.as_str()) {
                    Some(host) => host,
                    None => return unknown(failure),
                };
                let hosts: [&str; 1] = [host.as_str()];
                match self.runtime.get_https(url.as_str(), &hosts) {
                    Ok(response) => {
                        let installed = self.installed_file_version(&target.executable_path);
                        let advice = match &installed {
                            Some(version) => parse_simhub_page(
                                Some(version.as_str()),
                                response.as_str(),
                                url.as_str(),
                            ),
                            None => parse_simhub_page(None, response.as_str(), url.as_str()),
                        };
                        proof {
                            let current = match installed {
                                Some(version) => Some(version@),
                                None => None,
                            };
                            assert(advice@ == simhub_advice(current, response@, url@));
                        }
                        advice
                    },
                    Err(_) => unknown(failure),
                }
            },
            None => unknown("No trusted update provider is configured."),
        }
    }

    /// The update advice for each application of a plan, in the plan's order.
    pub fn check(&self, plan: &UpdateCheckPlan) -> (res: Vec<ApplicationUpdateSnapshot>)
        ensures
            res@.len() == plan.applications@.len(),
            forall|i: int|
                0 <= i < res@.len() ==> {
                    &&& (#[trigger] res@[i]).application_id == plan.applications@[i].application_id
                    &&& res@[i].name == plan.applications@[i].name
                    &&& advice_fits(
                        plan.applications@[i].provider,
                        ProviderAdviceView {
                            status: res@[i].status@,
                            information_url: match res@[i].information_url {
                                Some(url) => Some(url@),
                                None => None,
                            },
                        },
                    )
                },
    {
        let mut snapshots: Vec<ApplicationUpdateSnapshot> = Vec::new();
        let mut index: usize = 0;
        while index < plan.applications.len()
            invariant
                index <= plan.applications@.len(),
                snapshots@.len() == index,
                forall|i: int|
                    0 <= i < index ==> {
                        &&& (#[trigger] snapshots@[i]).application_id == plan.applications@[i].application_id
                        &&& snapshots@[i].name == plan.applications@[i].name
                        &&& advice_fits(
                            plan.applications@[i].provider,
                            ProviderAdviceView {
                                status: snapshots@[i].status@,
                                information_url: match snapshots@[i].information_url {
                                    Some(url) => Some(url@),
                                    None => None,
                                },
                            },
                        )
                    },
            decreases plan.applications@.len() - index,
        {
            let target = &plan.applications[index];
            let advice = self.advise(target);
            let ProviderAdvice { status, information_url } = advice;
            snapshots.push(
                ApplicationUpdateSnapshot {
                    application_id: target.application_id.clone(),
                    name: target.name.clone(),
                    status,
                    information_url,
                },
            );
            index = index + 1;
        }
        snapshots
    }
}

/// Whether a character may appear in a provider package identifier.
pub open spec fn is_safe_identifier_char(c: char) -> bool {
    ('a' <= c && c <= 'z') || ('A' <= c && c <= 'Z') || ('0' <= c && c <= '9') || c == '-' || c == '_' || c == '.'
}

/// Whether a provider package identifier may be handed to a package manager:
/// it is not empty and holds only ASCII letters, digits, `-`, `_` and `.`.
pub fn is_safe_provider_identifier(identifier: &str) -> (res: bool)
    ensures
        res == (identifier@.len() > 0 && forall|i: int| 0 <= i < identifier@.len() ==> is_safe_identifier_char(
            #[trigger] identifier@[i],
        )),
{
    let characters = chars_of(identifier);
    if characters.len() == 0 {
        return false;
    }
    let mut index: usize = 0;
    while index < characters.len()
        invariant
            characters@ == identifier@,
            index <= characters@.len(),
            forall|i: int| 0 <= i < index ==> is_safe_identifier_char(#[trigger] characters@[i]),
        decreases characters@.len() - index,
    {
        let c = characters[index];
        if !(('a' <= c && c <= 'z') || ('A' <= c && c <= 'Z') || ('0' <= c && c <= '9') || c == '-' || c == '_'
            || c == '.') {
            return false;
        }
        index = index + 1;
    }
    true
}

} // verus!
