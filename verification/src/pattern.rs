//! Finding the size pair of a template: the text `"width":<digits>,"height":<digits>`.

use vstd::prelude::*;
use crate::decimal::is_digit;

verus! {

/// The bytes `"width":`, with which a size pair begins.
pub const WIDTH_KEY: [u8; 8] = [0x22, 0x77, 0x69, 0x64, 0x74, 0x68, 0x22, 0x3a];

/// The bytes `,"height":`, which part the two numbers of a size pair.
pub const HEIGHT_KEY: [u8; 10] = [0x2c, 0x22, 0x68, 0x65, 0x69, 0x67, 0x68, 0x74, 0x22, 0x3a];

/// Whether the bytes of `key` stand in `text` from position `at` on.
pub open spec fn holds_at(text: Seq<u8>, at: int, key: Seq<u8>) -> bool {
    &&& 0 <= at
    &&& at + key.len() <= text.len()
    &&& text.subrange(at, at + key.len()) == key
}

/// Where the run of digits that starts at `from` ends: the first position from
/// `from` on that holds no digit, or the end of `text`.
pub open spec fn run_end(text: Seq<u8>, from: int) -> int
    decreases text.len() - from,
{
    if 0 <= from < text.len() && is_digit(text[from]) {
        run_end(text, from + 1)
    } else {
        from
    }
}

/// Whether `text` holds `key` at `at`.
pub fn has_key(text: &[u8], at: usize, key: &[u8]) -> (r: bool)
    ensures
        r == holds_at(text@, at as int, key@),
{
    if at > text.len() || key.len() > text.len() - at {
        return false;
    }
    let mut i: usize = 0;
    while i < key.len()
        invariant
            at + key.len() <= text.len(),
            i <= key.len(),
            forall|j: int| 0 <= j < i ==> text@[at + j] == key@[j],
        decreases key.len() - i,
    {
        if text[at + i] != key[i] {
            assert(text@.subrange(at as int, at + key.len())[i as int] != key@[i as int]);
            return false;
        }
        i += 1;
    }
    assert(text@.subrange(at as int, at + key.len()) =~= key@);
    true
}

/// A run of digits ends where the first byte that is no digit stands.
pub proof fn lemma_run_end(text: Seq<u8>, from: int, end: int)
    requires
        0 <= from <= end <= text.len(),
        forall|i: int| from <= i < end ==> is_digit(#[trigger] text[i]),
        end == text.len() || !is_digit(text[end]),
    ensures
        run_end(text, from) == end,
    decreases end - from,
{
    if from < end {
        lemma_run_end(text, from + 1, end);
    }
}

/// A run of digits holds digits only, and stops at the end of the text or
/// before a byte that is no digit.
pub proof fn lemma_run_holds_digits(text: Seq<u8>, from: int)
    requires
        0 <= from <= text.len(),
    ensures
        from <= run_end(text, from) <= text.len(),
        forall|i: int| from <= i < run_end(text, from) ==> is_digit(#[trigger] text[i]),
        run_end(text, from) == text.len() || !is_digit(text[run_end(text, from)]),
    decreases text.len() - from,
{
    if from < text.len() && is_digit(text[from]) {
        lemma_run_holds_digits(text, from + 1);
    }
}

/// The end of the run of digits that starts at `from`.
pub fn scan_digits(text: &[u8], from: usize) -> (end: usize)
    ensures
        end == run_end(text@, from as int),
{
    if from >= text.len() {
        return from;
    }
    let mut end: usize = from;
    while end < text.len() && 0x30 <= text[end] && text[end] <= 0x39
        invariant
            from <= end <= text.len(),
            forall|i: int| from <= i < end ==> is_digit(#[trigger] text@[i]),
        decreases text.len() - end,
    {
        end += 1;
    }
    proof {
        lemma_run_end(text@, from as int, end as int);
    }
    end
}

/// Where the comma of a size pair that begins at `at` stands: after the digits
/// of the width.
pub open spec fn comma_of(text: Seq<u8>, at: int) -> int {
    run_end(text, at + WIDTH_KEY@.len())
}

/// Where a size pair that begins at `at` ends: after the digits of the height.
pub open spec fn pair_end(text: Seq<u8>, at: int) -> int {
    run_end(text, comma_of(text, at) + HEIGHT_KEY@.len())
}

/// Whether a size pair begins at `at`: `"width":`, one digit or more,
/// `,"height":`, and again one digit or more. Each number runs on as long as
/// digits follow.
pub open spec fn pair_at(text: Seq<u8>, at: int) -> bool {
    &&& holds_at(text, at, WIDTH_KEY@)
    &&& comma_of(text, at) > at + WIDTH_KEY@.len()
    &&& holds_at(text, comma_of(text, at), HEIGHT_KEY@)
    &&& pair_end(text, at) > comma_of(text, at) + HEIGHT_KEY@.len()
}

/// A size pair lies within its text: it ends behind its two keys and two
/// digits at the least, and not behind the end of the text.
pub proof fn lemma_pair_in_text(text: Seq<u8>, at: int)
    requires
        pair_at(text, at),
    ensures
        0 <= at,
        at + WIDTH_KEY@.len() + 1 <= comma_of(text, at),
        comma_of(text, at) + HEIGHT_KEY@.len() + 1 <= pair_end(text, at) <= text.len(),
{
    lemma_run_holds_digits(text, comma_of(text, at) + HEIGHT_KEY@.len());
}

/// A size pair that begins before a later `"width":` also ends before it: the
/// quote with which that key begins can stand nowhere inside a pair.
pub proof fn lemma_pair_ends_before_key(text: Seq<u8>, at: int, key_at: int)
    requires
        pair_at(text, at),
        holds_at(text, key_at, WIDTH_KEY@),
        at < key_at,
    ensures
        pair_end(text, at) <= key_at,
{
    let comma = comma_of(text, at);
    let end = pair_end(text, at);
    lemma_run_holds_digits(text, at + WIDTH_KEY@.len());
    lemma_run_holds_digits(text, comma + HEIGHT_KEY@.len());
    assert(text.subrange(key_at, key_at + 8)[0] == text[key_at]);
    assert(text.subrange(key_at, key_at + 8)[1] == text[key_at + 1]);
    if key_at < end {
        if key_at < at + 8 {
            let k = key_at - at;
            assert(text.subrange(at, at + 8)[k] == text[key_at]);
            assert(k == 6);
            assert(text.subrange(at, at + 8)[k + 1] == text[key_at + 1]);
        } else if key_at < comma {
            assert(is_digit(text[key_at]));
        } else if key_at < comma + 10 {
            let k = key_at - comma;
            assert(text.subrange(comma, comma + 10)[k] == text[key_at]);
            assert(k == 1 || k == 8);
            assert(text.subrange(comma, comma + 10)[k + 1] == text[key_at + 1]);
        } else {
            assert(is_digit(text[key_at]));
        }
    }
}

/// Whether a size pair begins at `at`, and where it ends, depends on the text
/// up to the pair's end and on whether a digit follows there, and on nothing
/// else.
pub proof fn lemma_pair_in_other_text(text: Seq<u8>, other: Seq<u8>, at: int)
    requires
        pair_at(text, at),
        pair_end(text, at) <= other.len(),
        forall|i: int| at <= i < pair_end(text, at) ==> text[i] == other[i],
        pair_end(text, at) == other.len() || !is_digit(other[pair_end(text, at)]),
    ensures
        pair_at(other, at),
        comma_of(other, at) == comma_of(text, at),
        pair_end(other, at) == pair_end(text, at),
{
    let comma = comma_of(text, at);
    let end = pair_end(text, at);
    lemma_run_holds_digits(text, at + WIDTH_KEY@.len());
    lemma_run_holds_digits(text, comma + HEIGHT_KEY@.len());
    assert(text.subrange(comma, comma + 10)[0] == text[comma]);
    lemma_run_end(other, at + 8, comma);
    lemma_run_end(other, comma + 10, end);
    assert(other.subrange(at, at + 8) =~= text.subrange(at, at + 8));
    assert(other.subrange(comma, comma + 10) =~= text.subrange(comma, comma + 10));
}

/// Two texts that are the same up to the end of a `"width":` key have the same
/// size pairs before that key.
pub proof fn lemma_same_pairs_before_key(text: Seq<u8>, other: Seq<u8>, key_at: int, at: int)
    requires
        holds_at(text, key_at, WIDTH_KEY@),
        key_at + WIDTH_KEY@.len() <= other.len(),
        forall|i: int| 0 <= i < key_at + WIDTH_KEY@.len() ==> text[i] == other[i],
        0 <= at < key_at,
        pair_at(other, at),
    ensures
        pair_at(text, at),
{
    assert(other.subrange(key_at, key_at + 8) =~= text.subrange(key_at, key_at + 8));
    lemma_pair_ends_before_key(other, at, key_at);
    lemma_run_holds_digits(other, comma_of(other, at) + HEIGHT_KEY@.len());
    lemma_pair_in_other_text(other, text, at);
}

/// Whether the first size pair of `text` begins at `at`.
pub open spec fn first_pair_at(text: Seq<u8>, at: int) -> bool {
    &&& pair_at(text, at)
    &&& forall|before: int| 0 <= before < at ==> !pair_at(text, before)
}

/// Where the first size pair of `text` begins, if it holds one.
pub open spec fn first_pair(text: Seq<u8>) -> Option<int> {
    if exists|at: int| first_pair_at(text, at) {
        Some(choose|at: int| first_pair_at(text, at))
    } else {
        None
    }
}

/// The place of a size pair in a text: it begins at `start` and ends before `end`.
#[derive(Clone, Copy, Debug, PartialEq, Eq, Structural)]
pub struct Span {
    pub start: usize,
    pub end: usize,
}

/// Where the size pair that begins at `at` ends, if one begins there.
pub fn pair_end_at(text: &[u8], at: usize) -> (r: Option<usize>)
    ensures
        r is Some <==> pair_at(text@, at as int),
        r matches Some(end) ==> end == pair_end(text@, at as int),
{
    if !has_key(text, at, WIDTH_KEY.as_slice()) {
        return None;
    }
    assert(text@.len() == text.len());
    let width_from: usize = at + WIDTH_KEY.len();
    let comma = scan_digits(text, width_from);
    if comma == width_from {
        return None;
    }
    if !has_key(text, comma, HEIGHT_KEY.as_slice()) {
        return None;
    }
    let height_from: usize = comma + HEIGHT_KEY.len();
    let end = scan_digits(text, height_from);
    if end == height_from {
        return None;
    }
    proof {
        lemma_run_holds_digits(text@, width_from as int);
        lemma_run_holds_digits(text@, height_from as int);
    }
    Some(end)
}

/// The first size pair begins where a pair stands with none before it.
pub proof fn lemma_first_pair(text: Seq<u8>, at: int)
    requires
        first_pair_at(text, at),
    ensures
        first_pair(text) == Some(at),
{
    let chosen = choose|at: int| first_pair_at(text, at);
    assert(first_pair_at(text, chosen));
    if chosen < at {
        assert(!pair_at(text, chosen));
    } else if at < chosen {
        assert(!pair_at(text, at));
    }
}

/// A text in which no position begins a size pair has no first pair.
pub proof fn lemma_no_pair(text: Seq<u8>)
    requires
        forall|at: int| 0 <= at < text.len() ==> !pair_at(text, at),
    ensures
        first_pair(text) is None,
{
    assert forall|at: int| !first_pair_at(text, at) by {
        if pair_at(text, at) {
            assert(WIDTH_KEY@.len() == 8);
            assert(0 <= at < text.len());
        }
    }
}

/// The place of the first size pair of `text`, if it holds one.
pub fn find_size_pair(text: &[u8]) -> (r: Option<Span>)
    ensures
        match r {
            Some(span) => first_pair(text@) == Some(span.start as int) && span.end == pair_end(
                text@,
                span.start as int,
            ),
            None => first_pair(text@) is None,
        },
{
    let mut at: usize = 0;
    while at < text.len()
        invariant
            at <= text.len(),
            forall|before: int| 0 <= before < at ==> !pair_at(text@, before),
        decreases text.len() - at,
    {
        if let Some(end) = pair_end_at(text, at) {
            proof {
                lemma_first_pair(text@, at as int);
            }
            return Some(Span { start: at, end });
        }
        at += 1;
    }
    proof {
        lemma_no_pair(text@);
    }
    None
}

} // verus!
