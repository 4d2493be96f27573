//! The text sink that tables render into, and filling/alignment of text.
use vstd::prelude::*;
use vstd::utf8::{decode_utf8, encode_utf8, valid_utf8};
use vstd::string::{StringExecFns, StringSliceAdditionalSpecFns};

use crate::cell::Attr;
use crate::format::Alignment;
use crate::width::{display_width, str_width};

verus! {

broadcast use vstd::utf8::encode_utf8_decode_utf8;

/// `n` copies of `c`.
pub open spec fn repeat(c: char, n: nat) -> Seq<char> {
    Seq::new(n, |_i: int| c)
}

/// The line ending that rendering emits.
pub open spec fn newline() -> Seq<char> {
    seq!['\n']
}

/// Number of fill characters needed to bring `text` to `size` columns.
pub open spec fn fill_count(text: Seq<char>, size: nat) -> nat {
    if str_width(text) < size {
        (size - str_width(text)) as nat
    } else {
        0
    }
}

/// How many of `n` fill characters go before the text.
pub open spec fn left_fill(align: Alignment, n: nat) -> nat {
    match align {
        Alignment::LEFT => 0,
        Alignment::CENTER => n / 2,
        Alignment::RIGHT => n,
    }
}

/// `text` aligned in `size` columns with `fill`; the fill after the text is
/// left out when `skip_right_fill` holds.
pub open spec fn aligned(
    align: Alignment,
    text: Seq<char>,
    fill: char,
    size: nat,
    skip_right_fill: bool,
) -> Seq<char> {
    let n = fill_count(text, size);
    let l = left_fill(align, n);
    repeat(fill, l) + text + if skip_right_fill {
        Seq::empty()
    } else {
        repeat(fill, (n - l) as nat)
    }
}

/// Error of a write whose bytes are not valid UTF-8.
#[derive(Clone, Copy, Debug, PartialEq, Eq)]
pub struct InvalidUtf8;

/// A run of written text, as byte offsets, to print with a cell's style.
pub struct StyleMark {
    pub start: usize,
    pub end: usize,
    pub style: Vec<Attr>,
}

/// Collects rendered text in memory, with the runs of it that carry a style.
pub struct StringWriter {
    string: String,
    marks: Vec<StyleMark>,
}

impl View for StringWriter {
    type V = Seq<char>;

    closed spec fn view(&self) -> Seq<char> {
        self.string@
    }
}

/// Relies on `String::push`: appends the character.
#[verifier::external_body]
pub(crate) fn push_char(s: &mut String, c: char)
    ensures
        final(s)@ == old(s)@.push(c),
{
    s.push(c)
}

/// Relies on `std::str::from_utf8`: it succeeds exactly on valid UTF-8, and
/// the text it returns is the one those bytes encode.
#[verifier::external_body]
fn utf8_text(data: &[u8]) -> (r: Option<&str>)
    ensures
        r is Some <==> valid_utf8(data@),
        r matches Some(t) ==> t.spec_bytes() == data@,
{
    std::str::from_utf8(data).ok()
}

impl StringWriter {
    /// The styled runs written so far: their offsets and style.
    pub closed spec fn style_marks(&self) -> Seq<(usize, usize, Seq<Attr>)> {
        self.marks@.map_values(|m: StyleMark| (m.start, m.end, m.style@))
    }

    /// Create a new, empty `StringWriter`.
    pub fn new() -> (r: StringWriter)
        ensures
            r@ == Seq::<char>::empty(),
            r.style_marks() == Seq::<(usize, usize, Seq<Attr>)>::empty(),
    {
        let w = StringWriter { string: String::new(), marks: Vec::new() };
        assert(w.style_marks() =~= Seq::<(usize, usize, Seq<Attr>)>::empty());
        w
    }

    /// Number of bytes written so far, in UTF-8.
    pub fn byte_len(&self) -> (r: usize)
        ensures
            r == encode_utf8(self@).len() as usize,
    {
        self.string.as_str().len()
    }

    /// Record that bytes `start` up to `end` were printed with `style`.
    pub fn mark_style(&mut self, start: usize, end: usize, style: &Vec<Attr>)
        ensures
            final(self)@ == old(self)@,
            final(self).style_marks() == old(self).style_marks().push((start, end, style@)),
    {
        let mut copy: Vec<Attr> = Vec::new();
        for i in 0..style.len()
            invariant
                copy@ == style@.subrange(0, i as int),
        {
            copy.push(style[i]);
            assert(copy@ =~= style@.subrange(0, i + 1));
        }
        assert(copy@ =~= style@);
        let ghost before = self.style_marks();
        self.marks.push(StyleMark { start, end, style: copy });
        assert(self.style_marks() =~= before.push((start, end, style@)));
    }

    /// The styled runs written so far, in order.
    pub fn marks(&self) -> (r: &Vec<StyleMark>)
        ensures
            r@.map_values(|m: StyleMark| (m.start, m.end, m.style@)) == self.style_marks(),
    {
        &self.marks
    }

    /// The text written so far.
    pub fn as_string(&self) -> (r: &str)
        ensures
            r@ == self@,
    {
        self.string.as_str()
    }

    /// Append the text that `data` encodes in UTF-8, or fail and append
    /// nothing when it is not valid UTF-8.
    pub fn write(&mut self, data: &[u8]) -> (r: Result<usize, InvalidUtf8>)
        ensures
            final(self).style_marks() == old(self).style_marks(),
            valid_utf8(data@) ==> r == Ok::<usize, InvalidUtf8>(data@.len() as usize)
                && final(self)@ == old(self)@ + decode_utf8(data@),
            !valid_utf8(data@) ==> r == Err::<usize, InvalidUtf8>(InvalidUtf8) && final(self)@
                == old(self)@,
    {
        match utf8_text(data) {
            Some(t) => {
                self.string.append(t);
                Ok(data.len())
            },
            None => Err(InvalidUtf8),
        }
    }

    /// Nothing is buffered: flushing always succeeds.
    pub fn flush(&mut self) -> (r: Result<(), InvalidUtf8>)
        ensures
            final(self).style_marks() == old(self).style_marks(),
            r is Ok,
            final(self)@ == old(self)@,
    {
        Ok(())
    }

    /// The text written, taking the writer apart.
    pub fn into_string(self) -> (r: String)
        ensures
            r@ == self@,
    {
        self.string
    }

    /// Append `s`.
    pub fn push_str(&mut self, s: &str)
        ensures
            final(self).style_marks() == old(self).style_marks(),
            final(self)@ == old(self)@ + s@,
    {
        self.string.append(s);
    }

    /// Append `c`.
    pub fn push(&mut self, c: char)
        ensures
            final(self).style_marks() == old(self).style_marks(),
            final(self)@ == old(self)@.push(c),
    {
        push_char(&mut self.string, c);
    }

    /// Append `n` copies of `c`.
    pub fn push_repeat(&mut self, c: char, n: usize)
        ensures
            final(self).style_marks() == old(self).style_marks(),
            final(self)@ == old(self)@ + repeat(c, n as nat),
    {
        let ghost start = self@;
        for i in 0..n
            invariant
                self@ == start + repeat(c, i as nat),
                self.style_marks() == old(self).style_marks(),
        {
            self.push(c);
            proof {
                assert(start + repeat(c, (i + 1) as nat) =~= (start + repeat(c, i as nat)).push(c));
            }
        }
    }
}

/// The width of a concatenation is the sum of the widths.
pub proof fn lemma_str_width_concat(a: Seq<char>, b: Seq<char>)
    ensures
        str_width(a + b) == str_width(a) + str_width(b),
    decreases b.len(),
{
    if b.len() == 0 {
        assert(a + b =~= a);
    } else {
        lemma_str_width_concat(a, b.drop_last());
        assert((a + b).drop_last() =~= a + b.drop_last());
        assert((a + b).last() == b.last());
    }
}

/// A run of printable ASCII fill characters is one column per character.
pub proof fn lemma_str_width_repeat(c: char, n: nat)
    requires
        0x20 <= (c as u32) < 0x7F,
    ensures
        str_width(repeat(c, n)) == n,
    decreases n,
{
    if n > 0 {
        lemma_str_width_repeat(c, (n - 1) as nat);
        assert(repeat(c, n).drop_last() =~= repeat(c, (n - 1) as nat));
    }
}

/// Align `text` in `size` columns with `fill` and append it to `out`. The fill
/// after the text is left out when `skip_right_fill` holds.
pub fn print_align(
    out: &mut StringWriter,
    align: Alignment,
    text: &str,
    fill: char,
    size: usize,
    skip_right_fill: bool,
)
    requires
        text@.len() <= usize::MAX / 3,
    ensures
        final(out)@ == old(out)@ + aligned(align, text@, fill, size as nat, skip_right_fill),
        final(out).style_marks() == old(out).style_marks(),
{
    let text_len = display_width(text);
    let nfill: usize = if text_len < size {
        size - text_len
    } else {
        0
    };
    let left: usize = match align {
        Alignment::LEFT => 0,
        Alignment::CENTER => nfill / 2,
        Alignment::RIGHT => nfill,
    };
    let ghost start = out@;
    out.push_repeat(fill, left);
    out.push_str(text);
    if !skip_right_fill {
        out.push_repeat(fill, nfill - left);
    }
    proof {
        let tail = if skip_right_fill {
            Seq::empty()
        } else {
            repeat(fill, (nfill - left) as nat)
        };
        assert(out@ =~= start + (repeat(fill, left as nat) + text@ + tail));
    }
}

} // verus!
