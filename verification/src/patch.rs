//! Writing a size over the size pair of a template.

use vstd::prelude::*;
use crate::decimal::is_digit;
use crate::pattern::{
    comma_of, find_size_pair, first_pair, lemma_first_pair, lemma_pair_in_text, lemma_run_end,
    lemma_run_holds_digits, lemma_same_pairs_before_key, pair_at, pair_end, HEIGHT_KEY, WIDTH_KEY,
};
use crate::size::{is_whole, WindowSize};

verus! {

/// The size pair that states the numbers `width` and `height`: `"width":`,
/// the text of the width, `,"height":` and the text of the height.
pub open spec fn size_pair(width: Seq<u8>, height: Seq<u8>) -> Seq<u8> {
    WIDTH_KEY@ + width + HEIGHT_KEY@ + height
}

/// `text` with the size pair that begins at `at` replaced by the pair that
/// states `width` and `height`; what stands before and after the pair is kept.
pub open spec fn replaced(text: Seq<u8>, at: int, width: Seq<u8>, height: Seq<u8>) -> Seq<u8> {
    text.subrange(0, at) + size_pair(width, height) + text.subrange(
        pair_end(text, at),
        text.len() as int,
    )
}

/// `text` with its first size pair replaced by the pair that states `width`
/// and `height`, each as it is written. A text without a size pair is left as
/// it is.
pub open spec fn patched(text: Seq<u8>, width: Seq<u8>, height: Seq<u8>) -> Seq<u8> {
    match first_pair(text) {
        Some(at) => replaced(text, at, width, height),
        None => text,
    }
}

/// Appends the size pair that states `size` to `out`.
pub fn push_size_pair(out: &mut Vec<u8>, size: &WindowSize)
    ensures
        final(out)@ == old(out)@ + size_pair(size.width@, size.height@),
{
    out.extend_from_slice(WIDTH_KEY.as_slice());
    out.extend_from_slice(size.width.as_slice());
    out.extend_from_slice(HEIGHT_KEY.as_slice());
    out.extend_from_slice(size.height.as_slice());
    assert(out@ =~= old(out)@ + size_pair(size.width@, size.height@));
}

/// Writes `size` over the first size pair of `template`, each number as it is
/// written. Every byte outside that pair is copied as it is; a template
/// without a size pair is copied whole.
pub fn patch_template(template: &[u8], size: &WindowSize) -> (out: Vec<u8>)
    ensures
        out@ == patched(template@, size.width@, size.height@),
{
    let mut out: Vec<u8> = Vec::new();
    match find_size_pair(template) {
        Some(span) => {
            proof {
                lemma_pair_in_text(template@, span.start as int);
            }
            out.extend_from_slice(vstd::slice::slice_subrange(template, 0, span.start));
            push_size_pair(&mut out, size);
            out.extend_from_slice(vstd::slice::slice_subrange(template, span.end, template.len()));
            assert(out@ =~= replaced(template@, span.start as int, size.width@, size.height@));
        },
        None => {
            out.extend_from_slice(template);
            assert(out@ =~= template@);
        },
    }
    out
}

/// The bytes of a replaced text, one by one: those before the pair, those of
/// the stated pair, and those behind the old pair.
proof fn lemma_replaced_bytes(text: Seq<u8>, at: int, width: Seq<u8>, height: Seq<u8>)
    requires
        pair_at(text, at),
    ensures
        ({
            let end = pair_end(text, at);
            let out = replaced(text, at, width, height);
            let stated = size_pair(width, height).len() as int;
            &&& 0 <= at < end <= text.len()
            &&& out.len() == at + stated + (text.len() - end)
            &&& forall|i: int| 0 <= i < at ==> out[i] == text[i]
            &&& forall|i: int| at <= i < at + stated ==> out[i] == size_pair(width, height)[i - at]
            &&& forall|i: int| at + stated <= i < out.len() ==> out[i] == text[i - at - stated + end]
        }),
{
    lemma_pair_in_text(text, at);
}

/// What a patch changes, and what it leaves: where a text has a first size
/// pair, the patched text is the same up to that pair, holds the pair that
/// states `width` and `height` in its place, as they are written, and is the
/// same again from the old pair's end on. No byte outside the first size pair
/// is touched, whatever it spells.
pub proof fn lemma_patch_touches_first_pair_only(text: Seq<u8>, width: Seq<u8>, height: Seq<u8>)
    requires
        first_pair(text) is Some,
    ensures
        ({
            let at = first_pair(text)->0;
            let end = pair_end(text, at);
            let out = patched(text, width, height);
            let stated = size_pair(width, height).len() as int;
            &&& 0 <= at < end <= text.len()
            &&& out.len() == at + stated + (text.len() - end)
            &&& out.subrange(0, at) == text.subrange(0, at)
            &&& out.subrange(at, at + stated) == size_pair(width, height)
            &&& out.subrange(at + stated, out.len() as int) == text.subrange(end, text.len() as int)
        }),
{
    let at = first_pair(text)->0;
    let end = pair_end(text, at);
    let out = patched(text, width, height);
    let stated = size_pair(width, height).len() as int;
    lemma_replaced_bytes(text, at, width, height);
    assert(out.subrange(0, at) =~= text.subrange(0, at));
    assert(out.subrange(at, at + stated) =~= size_pair(width, height));
    assert(out.subrange(at + stated, out.len() as int) =~= text.subrange(end, text.len() as int));
}

/// Where the pair that states two whole numbers stands in a text, followed by
/// no digit, a size pair begins; it ends where the stated pair ends, and its
/// comma stands behind the digits of the width.
pub proof fn lemma_stated_pair(text: Seq<u8>, at: int, width: Seq<u8>, height: Seq<u8>)
    requires
        is_whole(width),
        is_whole(height),
        0 <= at,
        at + size_pair(width, height).len() <= text.len(),
        text.subrange(at, at + size_pair(width, height).len()) == size_pair(width, height),
        at + size_pair(width, height).len() == text.len() || !is_digit(
            text[at + size_pair(width, height).len()],
        ),
    ensures
        pair_at(text, at),
        comma_of(text, at) == at + WIDTH_KEY@.len() + width.len(),
        pair_end(text, at) == at + size_pair(width, height).len(),
{
    reveal(is_whole);
    let pair = size_pair(width, height);
    let comma = at + 8 + width.len();
    let end = at + pair.len();
    assert(end == comma + 10 + height.len());
    assert forall|i: int| at <= i < end implies text[i] == pair[i - at] by {
        assert(text.subrange(at, at + pair.len())[i - at] == text[i]);
    }
    assert forall|i: int| at + 8 <= i < comma implies is_digit(#[trigger] text[i]) by {
        assert(pair[i - at] == width[i - at - 8]);
    }
    assert(text[comma] == HEIGHT_KEY@[0]) by {
        assert(pair[comma - at] == HEIGHT_KEY@[0]);
    }
    assert forall|i: int| comma + 10 <= i < end implies is_digit(#[trigger] text[i]) by {
        assert(pair[i - at] == height[i - comma - 10]);
    }
    lemma_run_end(text, at + 8, comma);
    lemma_run_end(text, comma + 10, end);
    assert(text.subrange(at, at + 8) =~= WIDTH_KEY@) by {
        assert forall|k: int| 0 <= k < 8 implies text.subrange(at, at + 8)[k] == WIDTH_KEY@[k] by {
            assert(pair[k] == WIDTH_KEY@[k]);
        }
    }
    assert(text.subrange(comma, comma + 10) =~= HEIGHT_KEY@) by {
        assert forall|k: int| 0 <= k < 10 implies text.subrange(comma, comma + 10)[k]
            == HEIGHT_KEY@[k] by {
            assert(pair[comma - at + k] == HEIGHT_KEY@[k]);
        }
    }
}

/// In a replaced text the stated pair stands where the old pair began, and no
/// digit follows it.
proof fn lemma_replaced_holds_pair(text: Seq<u8>, at: int, width: Seq<u8>, height: Seq<u8>)
    requires
        pair_at(text, at),
    ensures
        ({
            let out = replaced(text, at, width, height);
            let end = at + size_pair(width, height).len();
            &&& 0 <= at
            &&& end <= out.len()
            &&& out.subrange(at, end) == size_pair(width, height)
            &&& end == out.len() || !is_digit(out[end])
        }),
{
    let out = replaced(text, at, width, height);
    let end = at + size_pair(width, height).len();
    lemma_replaced_bytes(text, at, width, height);
    lemma_run_holds_digits(text, comma_of(text, at) + HEIGHT_KEY@.len());
    assert(out.subrange(at, end) =~= size_pair(width, height));
}

/// A replaced text has no size pair before the place of the replaced pair,
/// where the text had none.
proof fn lemma_replaced_has_no_earlier_pair(
    text: Seq<u8>,
    at: int,
    width: Seq<u8>,
    height: Seq<u8>,
    before: int,
)
    requires
        pair_at(text, at),
        0 <= before < at,
        !pair_at(text, before),
    ensures
        !pair_at(replaced(text, at, width, height), before),
{
    let out = replaced(text, at, width, height);
    lemma_replaced_bytes(text, at, width, height);
    if pair_at(out, before) {
        assert forall|i: int| 0 <= i < at + 8 implies text[i] == out[i] by {
            if i >= at {
                assert(text.subrange(at, at + 8)[i - at] == text[i]);
            }
        }
        lemma_same_pairs_before_key(text, out, at, before);
    }
}

/// Patched with two whole numbers, a text has its first size pair where it
/// had it before, and that pair is the one that states the two numbers.
pub proof fn lemma_patched_first_pair(text: Seq<u8>, width: Seq<u8>, height: Seq<u8>)
    requires
        first_pair(text) is Some,
        is_whole(width),
        is_whole(height),
    ensures
        ({
            let at = first_pair(text)->0;
            let out = patched(text, width, height);
            &&& first_pair(out) == Some(at)
            &&& comma_of(out, at) == at + WIDTH_KEY@.len() + width.len()
            &&& pair_end(out, at) == at + size_pair(width, height).len()
            &&& out.subrange(at, pair_end(out, at)) == size_pair(width, height)
        }),
{
    let at = first_pair(text)->0;
    let out = replaced(text, at, width, height);
    lemma_replaced_holds_pair(text, at, width, height);
    lemma_stated_pair(out, at, width, height);
    assert forall|before: int| 0 <= before < at implies !pair_at(out, before) by {
        lemma_replaced_has_no_earlier_pair(text, at, width, height, before);
    }
    lemma_first_pair(out, at);
}

/// The patched text states the size: the digits of the two numbers of its
/// first size pair are those of `width` and of `height`.
pub proof fn lemma_patched_states_size(text: Seq<u8>, width: Seq<u8>, height: Seq<u8>)
    requires
        first_pair(text) is Some,
        is_whole(width),
        is_whole(height),
    ensures
        ({
            let out = patched(text, width, height);
            let at = first_pair(out)->0;
            let comma = comma_of(out, at);
            let end = pair_end(out, at);
            &&& first_pair(out) is Some
            &&& out.subrange(at + WIDTH_KEY@.len(), comma) == width
            &&& out.subrange(comma + HEIGHT_KEY@.len(), end) == height
        }),
{
    let out = patched(text, width, height);
    lemma_patched_first_pair(text, width, height);
    let at = first_pair(out)->0;
    let comma = comma_of(out, at);
    let end = pair_end(out, at);
    let pair = size_pair(width, height);
    assert(out.subrange(at + 8, comma) =~= width) by {
        assert forall|k: int| 0 <= k < width.len() implies out.subrange(at + 8, comma)[k]
            == width[k] by {
            assert(out.subrange(at, end)[k + 8] == pair[k + 8]);
        }
    }
    assert(out.subrange(comma + 10, end) =~= height) by {
        assert forall|k: int| 0 <= k < height.len() implies out.subrange(comma + 10, end)[k]
            == height[k] by {
            assert(out.subrange(at, end)[comma + 10 - at + k] == pair[comma + 10 - at + k]);
        }
    }
}

/// Patching a text that was patched with whole numbers is patching the text:
/// the size that is written last stands, and nothing else differs.
pub proof fn lemma_patch_again(
    text: Seq<u8>,
    width: Seq<u8>,
    height: Seq<u8>,
    next_width: Seq<u8>,
    next_height: Seq<u8>,
)
    requires
        is_whole(width),
        is_whole(height),
    ensures
        patched(patched(text, width, height), next_width, next_height) == patched(
            text,
            next_width,
            next_height,
        ),
{
    if first_pair(text) is Some {
        let at = first_pair(text)->0;
        let once = patched(text, width, height);
        lemma_patched_first_pair(text, width, height);
        lemma_patch_touches_first_pair_only(text, width, height);
        assert(patched(once, next_width, next_height) == replaced(
            once,
            at,
            next_width,
            next_height,
        ));
    }
}

/// Patching with whole numbers is idempotent: to patch the patched text once
/// more with the same size changes nothing.
pub proof fn lemma_patch_idempotent(text: Seq<u8>, width: Seq<u8>, height: Seq<u8>)
    requires
        is_whole(width),
        is_whole(height),
    ensures
        patched(patched(text, width, height), width, height) == patched(text, width, height),
{
    lemma_patch_again(text, width, height, width, height);
}

} // verus!
