//! Display widths of text and clipping of text to a range of display columns.

use unicode_width::UnicodeWidthChar;
use unicode_width::UnicodeWidthStr;
use vstd::prelude::*;

verus! {

/// Columns that `unicode_width` gives to a whole string.
pub uninterp spec fn str_cols(s: Seq<char>) -> usize;

/// Columns that `unicode_width` gives to one character (`None` for control characters).
pub uninterp spec fn char_cols(c: char) -> Option<usize>;

/// Relies on `UnicodeWidthStr::width`: the display width of the string,
/// which depends on its characters alone; the empty string is 0 columns wide.
#[verifier::external_body]
pub(crate) fn str_width(s: &str) -> (r: usize)
    ensures
        r == str_cols(s@),
        s@.len() == 0 ==> r == 0,
{
    UnicodeWidthStr::width(s)
}

/// Relies on `UnicodeWidthChar::width`: the display width of one character,
/// `None` for a control character.
#[verifier::external_body]
pub(crate) fn char_width(c: char) -> (r: Option<usize>)
    ensures
        r == char_cols(c),
{
    UnicodeWidthChar::width(c)
}

/// Relies on `String::push`: appends one character.
#[verifier::external_body]
pub(crate) fn push_char(s: &mut String, c: char)
    ensures
        final(s)@ == old(s)@.push(c),
{
    s.push(c)
}

/// Width of one character inside a clipped row; control characters take no column.
pub open spec fn cw(c: char) -> int {
    match char_cols(c) {
        Some(w) => w as int,
        None => 0,
    }
}

/// The characters of `s`, laid out from column `col` on, that start inside
/// `[lo, hi)` and end no later than `hi`. A glyph is never split: one that
/// straddles a bound is left out whole.
pub open spec fn clip_from(s: Seq<char>, col: int, lo: int, hi: int) -> Seq<char>
    decreases s.len(),
{
    if s.len() == 0 {
        Seq::empty()
    } else {
        let w = cw(s[0]);
        let rest = clip_from(s.drop_first(), col + w, lo, hi);
        if lo <= col && col < hi && col + w <= hi {
            seq![s[0]] + rest
        } else {
            rest
        }
    }
}

/// `s` clipped to the display columns `[lo, hi)`, counted from its start.
pub open spec fn clip(s: Seq<char>, lo: int, hi: int) -> Seq<char> {
    clip_from(s, 0, lo, hi)
}

/// Past the right bound nothing more is kept.
pub proof fn lemma_clip_beyond(s: Seq<char>, col: int, lo: int, hi: int)
    requires
        col >= hi,
    ensures
        clip_from(s, col, lo, hi) == Seq::<char>::empty(),
    decreases s.len(),
{
    if s.len() > 0 {
        lemma_clip_beyond(s.drop_first(), col + cw(s[0]), lo, hi);
    }
}

/// An empty column range keeps nothing.
pub proof fn lemma_clip_empty_range(s: Seq<char>, lo: int)
    ensures
        clip(s, lo, lo) == Seq::<char>::empty(),
{
    lemma_clip_empty_from(s, 0, lo);
}

proof fn lemma_clip_empty_from(s: Seq<char>, col: int, lo: int)
    ensures
        clip_from(s, col, lo, lo) == Seq::<char>::empty(),
    decreases s.len(),
{
    if s.len() > 0 {
        lemma_clip_empty_from(s.drop_first(), col + cw(s[0]), lo);
    }
}

/// The part of `s` that shows in the display columns `[lo, hi)`.
pub fn string_window(s: &String, lo: usize, hi: usize) -> (r: String)
    ensures
        r@ == clip(s@, lo as int, hi as int),
{
    let n = s.as_str().unicode_len();
    let mut r = String::new();
    let mut col: usize = 0;
    let mut i: usize = 0;
    proof {
        assert(s@.skip(0) =~= s@);
        assert(r@ + clip(s@, lo as int, hi as int) =~= clip(s@, lo as int, hi as int));
    }
    while i < n
        invariant
            n == s@.len(),
            i <= n,
            col <= hi,
            clip(s@, lo as int, hi as int) == r@ + clip_from(
                s@.skip(i as int),
                col as int,
                lo as int,
                hi as int,
            ),
        decreases n - i,
    {
        let c = s.as_str().get_char(i);
        let w: usize = match char_width(c) {
            Some(w) => w,
            None => 0,
        };
        let ghost rest = s@.skip(i as int);
        proof {
            assert(rest.drop_first() =~= s@.skip(i + 1));
            assert(rest[0] == c);
        }
        if w > hi - col {
            proof {
                lemma_clip_beyond(rest.drop_first(), col + w, lo as int, hi as int);
                assert(clip_from(rest, col as int, lo as int, hi as int) =~= Seq::<char>::empty());
                assert(s@.skip(n as int) =~= Seq::<char>::empty());
                assert(r@ + Seq::<char>::empty() =~= r@);
            }
            i = n;
        } else {
            if lo <= col && col < hi {
                let ghost before = r@;
                push_char(&mut r, c);
                proof {
                    assert(before + (seq![c] + clip_from(s@.skip(i + 1), col + w, lo as int, hi as int))
                        =~= r@ + clip_from(s@.skip(i + 1), col + w, lo as int, hi as int));
                }
            }
            col = col + w;
            i = i + 1;
        }
    }
    proof {
        assert(s@.skip(n as int) =~= Seq::<char>::empty());
        assert(r@ + Seq::<char>::empty() =~= r@);
    }
    r
}

} // verus!
