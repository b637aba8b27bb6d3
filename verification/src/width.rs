//! Display-width bookkeeping for text layout.
//!
//! A character occupies a number of terminal columns: 1 for narrow
//! characters, 2 for wide (double-width) ones. Characters whose display
//! width cannot be determined (control characters) are given a fallback
//! width of 2 — treated as wide rather than silently dropped.

use vstd::prelude::*;

verus! {

/// The number of columns the terminal needs for a character, or `None` when
/// the character is a control character, as the `unicode-width` tables
/// assign it.
pub uninterp spec fn unicode_char_width(c: char) -> Option<usize>;

/// Relies on `unicode_width::UnicodeWidthChar::width`: the displayed width
/// of the character in columns (`None` for a control character), a function
/// of the character alone. Its lookup tables never yield a width above 3.
#[verifier::external_body]
pub(crate) fn char_display_width(c: char) -> (r: Option<usize>)
    ensures
        r == unicode_char_width(c),
        r matches Some(w) ==> w <= 3,
{
    unicode_width::UnicodeWidthChar::width(c)
}

/// The width a character advances the layout by: its display width, with a
/// fallback of 2 for characters whose width cannot be determined.
pub open spec fn char_width(c: char) -> int {
    match unicode_char_width(c) {
        Some(w) => w as int,
        None => 2,
    }
}

/// The summed layout width of the first `k` characters of `s`: the column
/// offset, relative to the start of the printed text, at which character
/// `k` is placed.
pub open spec fn prefix_width(s: Seq<char>, k: int) -> int
    decreases k,
{
    if k <= 0 {
        0
    } else {
        prefix_width(s, k - 1) + char_width(s[k - 1])
    }
}

/// The printed width of a whole string: the sum of its characters' widths
/// (not the character count).
pub open spec fn total_width(s: Seq<char>) -> int {
    prefix_width(s, s.len() as int)
}

/// When every character of `s` before `j` is at least one column wide, the
/// layout position of character `i` lies strictly before the position of
/// character `j`: no two such characters land on the same cell.
pub proof fn lemma_prefix_width_strict_mono(s: Seq<char>, i: int, j: int)
    requires
        0 <= i < j,
        forall|t: int| 0 <= t < j ==> char_width(s[t]) >= 1,
    ensures
        prefix_width(s, i) < prefix_width(s, j),
    decreases j,
{
    if j == i + 1 {
        assert(char_width(s[j - 1]) >= 1);
    } else {
        lemma_prefix_width_strict_mono(s, i, j - 1);
        assert(char_width(s[j - 1]) >= 1);
    }
}

/// In a string of only narrow characters (each one column wide) the
/// character at index `k` is laid out exactly `k` columns in: every
/// character lands in its own consecutive cell, and a string of length `n`
/// prints with total width `n`.
pub proof fn lemma_narrow_prefix_width(s: Seq<char>, k: int)
    requires
        forall|i: int| 0 <= i < s.len() ==> char_width(s[i]) == 1,
        0 <= k <= s.len(),
    ensures
        prefix_width(s, k) == k,
    decreases k,
{
    if k > 0 {
        lemma_narrow_prefix_width(s, k - 1);
    }
}

/// A wide character followed by a narrow one: the wide character advances
/// the layout by two columns, so the narrow character lands two columns
/// after it, and the total printed width is three.
pub proof fn lemma_wide_then_narrow(s: Seq<char>)
    requires
        s.len() == 2,
        char_width(s[0]) == 2,
        char_width(s[1]) == 1,
    ensures
        prefix_width(s, 0) == 0,
        prefix_width(s, 1) == 2,
        total_width(s) == 3,
{
}

} // verus!
