//! Display width of text, in terminal columns.
use vstd::prelude::*;

verus! {

/// Width that unicode-width's lookup tables give to a character at or above
/// U+00A0.
pub uninterp spec fn table_width_of(c: char) -> nat;

/// Columns taken by one character when it is part of a text: control
/// characters take none.
pub open spec fn char_width(c: char) -> nat {
    match unicode_width_spec(c) {
        Some(w) => w as nat,
        None => 0,
    }
}

/// Display width of a text: the sum of the widths of its characters.
pub open spec fn str_width(s: Seq<char>) -> nat
    decreases s.len(),
{
    if s.len() == 0 {
        0
    } else {
        str_width(s.drop_last()) + char_width(s.last())
    }
}

/// What unicode-width reports for `c`: `None` below U+0020 and from U+007F
/// up to U+00A0, one column for the rest of ASCII, and its tables' width,
/// at most three columns, above.
pub open spec fn unicode_width_spec(c: char) -> Option<usize> {
    let u = c as u32;
    if u < 0x20 || (0x7F <= u && u < 0xA0) {
        None
    } else if u < 0x7F {
        Some(1)
    } else {
        Some(table_width_of(c) as usize)
    }
}

/// Relies on `unicode_width::UnicodeWidthChar::width`: `None` below U+0020
/// and from U+007F up to U+00A0, one column for the rest of ASCII, and a
/// table lookup of at most three columns above.
#[verifier::external_body]
fn unicode_char_width(c: char) -> (r: Option<usize>)
    ensures
        r == unicode_width_spec(c),
        r matches Some(w) ==> w <= 3,
        0xA0 <= (c as u32) ==> r == Some(table_width_of(c) as usize),
{
    unicode_width::UnicodeWidthChar::width(c)
}

/// Columns that `c` takes in a text.
pub fn char_columns(c: char) -> (r: usize)
    ensures
        r == char_width(c),
        r <= 3,
{
    match unicode_char_width(c) {
        Some(w) => w,
        None => 0,
    }
}

/// Display width of `s`, the sum of its characters' widths. This departs
/// from unicode-width's own width of a string, which counts a control
/// character as one column and gives emoji and ligature sequences the width
/// of the whole sequence.
pub fn display_width(s: &str) -> (r: usize)
    requires
        s@.len() <= usize::MAX / 3,
    ensures
        r == str_width(s@),
{
    let mut w: usize = 0;
    let ghost seen: Seq<char> = Seq::empty();
    for c in it: s.chars()
        invariant
            it.seq() == s@,
            s@.len() <= usize::MAX / 3,
            seen == s@.subrange(0, it.index() as int),
            w == str_width(seen),
            w <= 3 * it.index(),
    {
        let k = char_columns(c);
        proof {
            let next = seen.push(c);
            assert(next.drop_last() == seen);
            seen = next;
        }
        w = w + k;
    }
    proof {
        assert(seen =~= s@);
    }
    w
}

} // verus!
