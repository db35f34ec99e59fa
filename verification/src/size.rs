//! The size of a window: its width and its height, each as the decimal text
//! of a number that is not negative.

use vstd::prelude::*;
use crate::decimal::{all_digits, decimal, lemma_decimal_digits, push_decimal};
use crate::pattern::{lemma_run_end, lemma_run_holds_digits, run_end, scan_digits};

verus! {

/// Whether `text` is made of digits alone, and of one at the least.
#[verifier::opaque]
pub open spec fn is_whole(text: Seq<u8>) -> bool {
    text.len() > 0 && all_digits(text)
}

/// Whether `text` writes a number that is not negative: one digit or more,
/// and after them, if anything, a point and again one digit or more.
pub open spec fn is_number(text: Seq<u8>) -> bool {
    let point = run_end(text, 0);
    &&& 0 < point
    &&& point == text.len() || {
        &&& text[point] == 0x2e
        &&& point + 1 < text.len()
        &&& run_end(text, point + 1) == text.len()
    }
}

/// Whether `text` writes a number that is not negative.
pub fn check_number(text: &[u8]) -> (r: bool)
    ensures
        r == is_number(text@),
{
    let point = scan_digits(text, 0);
    proof {
        lemma_run_holds_digits(text@, 0);
    }
    if point == 0 {
        return false;
    }
    if point == text.len() {
        return true;
    }
    if text[point] != 0x2e || point + 1 >= text.len() {
        return false;
    }
    scan_digits(text, point + 1) == text.len()
}

/// A text of digits alone writes a number.
pub proof fn lemma_whole_is_number(text: Seq<u8>)
    requires
        is_whole(text),
    ensures
        is_number(text),
{
    reveal(is_whole);
    lemma_run_end(text, 0, text.len() as int);
}

/// The width and height of a window, each written as a number.
#[derive(Clone, Debug, PartialEq, Eq)]
pub struct WindowSize {
    pub width: Vec<u8>,
    pub height: Vec<u8>,
}

impl WindowSize {
    /// Whether both the width and the height write a number.
    pub open spec fn wf(&self) -> bool {
        is_number(self.width@) && is_number(self.height@)
    }

    /// The size of a window that is `width` pixels wide and `height` high, as
    /// a resize of the window reports it.
    pub fn from_pixels(width: u64, height: u64) -> (size: WindowSize)
        ensures
            size.width@ == decimal(width as nat),
            size.height@ == decimal(height as nat),
            is_whole(size.width@),
            is_whole(size.height@),
            size.wf(),
    {
        let mut wide: Vec<u8> = Vec::new();
        push_decimal(&mut wide, width);
        let mut high: Vec<u8> = Vec::new();
        push_decimal(&mut high, height);
        proof {
            lemma_decimal_digits(width as nat);
            lemma_decimal_digits(height as nat);
            assert(wide@ =~= decimal(width as nat));
            assert(high@ =~= decimal(height as nat));
            reveal(is_whole);
            lemma_whole_is_number(wide@);
            lemma_whole_is_number(high@);
        }
        WindowSize { width: wide, height: high }
    }
}

} // verus!
