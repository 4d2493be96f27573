//! Table cells: lines of text with an alignment and style attributes.
use vstd::prelude::*;
use vstd::string::StringExecFns;
use vstd::utf8::encode_utf8;

use crate::color::{color_letter, color_of_letter, Color};
use crate::format::Alignment;
use crate::utils::{aligned, push_char, lemma_str_width_concat, lemma_str_width_repeat, print_align, repeat, StringWriter};
use crate::width::{display_width, str_width};

verus! {

/// A style attribute of a cell, applied when it is printed to a terminal.
#[derive(Clone, Copy, Debug, PartialEq, Eq, Structural)]
pub enum Attr {
    Bold,
    Dim,
    Italic(bool),
    Underline(bool),
    Blink,
    Standout(bool),
    Reverse,
    Secure,
    ForegroundColor(Color),
    BackgroundColor(Color),
}

/// Drop one carriage return that ends `l`.
pub open spec fn strip_cr(l: Seq<char>) -> Seq<char> {
    if l.len() > 0 && l.last() == '\r' {
        l.drop_last()
    } else {
        l
    }
}

/// The lines of `s` ended by a newline (without their line ending), and the
/// text after the last newline.
pub open spec fn scan_lines(s: Seq<char>) -> (Seq<Seq<char>>, Seq<char>)
    decreases s.len(),
{
    if s.len() == 0 {
        (Seq::empty(), Seq::empty())
    } else {
        let (done, cur) = scan_lines(s.drop_last());
        if s.last() == '\n' {
            (done.push(strip_cr(cur)), Seq::empty())
        } else {
            (done, cur.push(s.last()))
        }
    }
}

/// The lines of `s`: split at `\n` or `\r\n`, the final line ending being
/// optional. An empty text is one empty line.
pub open spec fn text_lines(s: Seq<char>) -> Seq<Seq<char>> {
    let (done, cur) = scan_lines(s);
    if cur.len() > 0 || done.len() == 0 {
        done.push(cur)
    } else {
        done
    }
}

/// The largest display width among `lines`; 0 when there is none.
pub open spec fn max_width(lines: Seq<Seq<char>>) -> nat
    decreases lines.len(),
{
    if lines.len() == 0 {
        0
    } else {
        let m = max_width(lines.drop_last());
        let w = str_width(lines.last());
        if w > m {
            w
        } else {
            m
        }
    }
}

/// `lines` joined with `\n` between them.
pub open spec fn join_lines(lines: Seq<Seq<char>>) -> Seq<char>
    decreases lines.len(),
{
    if lines.len() == 0 {
        Seq::empty()
    } else if lines.len() == 1 {
        lines[0]
    } else {
        join_lines(lines.drop_last()) + seq!['\n'] + lines.last()
    }
}

/// The state of reading a style specifier: attributes and alignment so far,
/// and whether a color letter for the foreground or background is awaited.
pub struct StyleScan {
    pub attrs: Seq<Attr>,
    pub align: Alignment,
    pub foreground: bool,
    pub background: bool,
}

/// Read one letter of a style specifier. Unknown letters are ignored; after
/// `F` or `B` a letter that is no color is dropped.
pub open spec fn style_step(st: StyleScan, c: char) -> StyleScan {
    if st.foreground || st.background {
        match color_of_letter(c) {
            Some(col) => StyleScan {
                attrs: st.attrs.push(
                    if st.foreground {
                        Attr::ForegroundColor(col)
                    } else {
                        Attr::BackgroundColor(col)
                    },
                ),
                foreground: false,
                background: false,
                ..st
            },
            None => StyleScan { foreground: false, background: false, ..st },
        }
    } else {
        match c {
            'F' => StyleScan { foreground: true, ..st },
            'B' => StyleScan { background: true, ..st },
            'b' => StyleScan { attrs: st.attrs.push(Attr::Bold), ..st },
            'i' => StyleScan { attrs: st.attrs.push(Attr::Italic(true)), ..st },
            'u' => StyleScan { attrs: st.attrs.push(Attr::Underline(true)), ..st },
            'c' => StyleScan { align: Alignment::CENTER, ..st },
            'l' => StyleScan { align: Alignment::LEFT, ..st },
            'r' => StyleScan { align: Alignment::RIGHT, ..st },
            _ => st,
        }
    }
}

/// Read the style specifier `s` from a cell with no style, aligned left.
pub open spec fn scan_style(s: Seq<char>) -> StyleScan
    decreases s.len(),
{
    if s.len() == 0 {
        StyleScan { attrs: Seq::empty(), align: Alignment::LEFT, foreground: false, background: false }
    } else {
        style_step(scan_style(s.drop_last()), s.last())
    }
}

/// A table cell holding one or more lines of text.
///
/// Once created, a cell's text cannot be modified; the cell is replaced
/// instead.
#[derive(Debug)]
pub struct Cell {
    content: Vec<String>,
    width: usize,
    align: Alignment,
    style: Vec<Attr>,
}

impl Cell {
    /// At least one line, `width` the widest of them, and every line short
    /// enough for its width to be counted.
    #[verifier::type_invariant]
    spec fn inv(self) -> bool {
        &&& self.content@.len() >= 1
        &&& self.width as nat == max_width(self.lines())
        &&& forall|i: int| 0 <= i < self.content@.len() ==> #[trigger] self.content@[i]@.len() <= usize::MAX / 3
    }

    /// The lines of text.
    pub closed spec fn lines(&self) -> Seq<Seq<char>> {
        self.content@.map_values(|l: String| l@)
    }

    /// The display width: that of the widest line.
    pub closed spec fn width_spec(&self) -> nat {
        self.width as nat
    }

    /// The alignment of the text.
    pub closed spec fn alignment(&self) -> Alignment {
        self.align
    }

    /// The style attributes, in the order they were added.
    pub closed spec fn styles(&self) -> Seq<Attr> {
        self.style@
    }

    /// Number of lines.
    pub open spec fn height_spec(&self) -> nat {
        self.lines().len()
    }

    /// Line `i`, or an empty line past the last one.
    pub open spec fn line(&self, i: int) -> Seq<char> {
        if 0 <= i < self.lines().len() {
            self.lines()[i]
        } else {
            Seq::empty()
        }
    }

    /// Line `i` aligned in `col_width` columns with spaces.
    pub open spec fn line_text(&self, i: int, col_width: nat, skip_right_fill: bool) -> Seq<char> {
        aligned(self.alignment(), self.line(i), ' ', col_width, skip_right_fill)
    }

    /// Create a cell holding the lines of `string`, aligned by `align`. The
    /// bound on the length keeps the sum of the characters' widths within
    /// `usize`.
    #[verifier::rlimit(30)]
    pub fn new_align(string: &str, align: Alignment) -> (r: Cell)
        requires
            string@.len() <= usize::MAX / 3,
        ensures
            r.lines() == text_lines(string@),
            r.width_spec() == max_width(text_lines(string@)),
            r.height_spec() >= 1,
            r.alignment() == align,
            r.styles() == Seq::<Attr>::empty(),
    {
        let mut content: Vec<String> = Vec::new();
        let mut cur = String::new();
        let mut pending_cr = false;
        let ghost seen: Seq<char> = Seq::empty();
        for c in it: string.chars()
            invariant
                it.seq() == string@,
                string@.len() <= usize::MAX / 3,
                seen == string@.subrange(0, it.index() as int),
                scan_lines(seen).0 == content@.map_values(|l: String| l@),
                scan_lines(seen).1 == cur@ + (if pending_cr {
                    seq!['\r']
                } else {
                    Seq::empty()
                }),
                !pending_cr ==> cur@.len() == 0 || cur@.last() != '\r',
                forall|i: int| 0 <= i < content@.len() ==> #[trigger] content@[i]@.len() <= seen.len(),
                cur@.len() + (if pending_cr { 1int } else { 0int }) <= seen.len(),
        {
            let ghost old_content = content@;
            let ghost old_cur = cur@;
            let ghost old_pending = pending_cr;
            if c == '\n' {
                let line = cur;
                content.push(line);
                cur = String::new();
                pending_cr = false;
            } else if c == '\r' {
                if pending_cr {
                    push_char(&mut cur, '\r');
                }
                pending_cr = true;
            } else {
                if pending_cr {
                    push_char(&mut cur, '\r');
                    pending_cr = false;
                }
                push_char(&mut cur, c);
            }
            proof {
                let next = seen.push(c);
                assert(next.drop_last() == seen);
                assert(next.last() == c);
                if c == '\n' {
                    assert(strip_cr(scan_lines(seen).1) == old_cur);
                    assert(content@.map_values(|l: String| l@) =~= old_content.map_values(|l: String| l@).push(old_cur));
                }
                seen = next;
            }
        }
        if pending_cr {
            push_char(&mut cur, '\r');
        }
        proof {
            assert(seen =~= string@);
            assert(scan_lines(seen).1 =~= cur@);
        }
        assert(cur@ == scan_lines(string@).1);
        if !cur.as_str().is_empty() || content.len() == 0 {
            let ghost before = content@;
            content.push(cur);
            assert(content@.map_values(|l: String| l@) =~= before.map_values(|l: String| l@).push(
                scan_lines(string@).1,
            ));
        }
        let ghost lines = content@.map_values(|l: String| l@);
        assert(lines == text_lines(string@));
        let mut width: usize = 0;
        for i in 0..content.len()
            invariant
                lines == content@.map_values(|l: String| l@),
                forall|k: int| 0 <= k < content@.len() ==> #[trigger] content@[k]@.len() <= usize::MAX / 3,
                width == max_width(lines.subrange(0, i as int)),
        {
            let l = display_width(content[i].as_str());
            proof {
                assert(lines.subrange(0, i + 1).drop_last() =~= lines.subrange(0, i as int));
            }
            if l > width {
                width = l;
            }
        }
        assert(lines.subrange(0, content@.len() as int) =~= lines);
        Cell { content, width, align, style: Vec::new() }
    }

    /// Set the alignment of the text.
    pub fn align(&mut self, align: Alignment)
        ensures
            final(self).lines() == old(self).lines(),
            final(self).width_spec() == old(self).width_spec(),
            final(self).alignment() == align,
            final(self).styles() == old(self).styles(),
    {
        proof {
            use_type_invariant(&*self);
        }
        self.align = align;
    }

    /// Add a style attribute.
    pub fn style(&mut self, attr: Attr)
        ensures
            final(self).lines() == old(self).lines(),
            final(self).width_spec() == old(self).width_spec(),
            final(self).alignment() == old(self).alignment(),
            final(self).styles() == old(self).styles().push(attr),
    {
        proof {
            use_type_invariant(&*self);
        }
        let mut styles: Vec<Attr> = Vec::new();
        std::mem::swap(&mut styles, &mut self.style);
        styles.push(attr);
        std::mem::swap(&mut styles, &mut self.style);
    }

    /// Add a style attribute; can be chained.
    pub fn with_style(self, attr: Attr) -> (r: Cell)
        ensures
            r.lines() == self.lines(),
            r.width_spec() == self.width_spec(),
            r.alignment() == self.alignment(),
            r.styles() == self.styles().push(attr),
    {
        let mut c = self;
        c.style(attr);
        c
    }

    /// Remove all style attributes and align left again.
    pub fn reset_style(&mut self)
        ensures
            final(self).lines() == old(self).lines(),
            final(self).width_spec() == old(self).width_spec(),
            final(self).alignment() == Alignment::LEFT,
            final(self).styles() == Seq::<Attr>::empty(),
    {
        proof {
            use_type_invariant(&*self);
        }
        self.style = Vec::new();
        self.align = Alignment::LEFT;
    }

    /// Replace the cell's style by the one that the specifier `spec` gives.
    ///
    /// `F` and `B` set the foreground and background color, and take a color
    /// letter; `b`, `i` and `u` ask for bold, italic and underline; `c`, `l`
    /// and `r` align center, left and right. Color letters are `d` black,
    /// `r` red, `g` green, `y` yellow, `b` blue, `m` magenta, `c` cyan and
    /// `w` white, in upper case for bright colors. Unknown letters are
    /// ignored.
    pub fn style_spec(self, spec: &str) -> (r: Cell)
        ensures
            r.lines() == self.lines(),
            r.width_spec() == self.width_spec(),
            r.alignment() == scan_style(spec@).align,
            r.styles() == scan_style(spec@).attrs,
    {
        let mut c = self;
        c.reset_style();
        let mut foreground = false;
        let mut background = false;
        let ghost seen: Seq<char> = Seq::empty();
        for ch in it: spec.chars()
            invariant
                it.seq() == spec@,
                seen == spec@.subrange(0, it.index() as int),
                c.lines() == self.lines(),
                c.width_spec() == self.width_spec(),
                scan_style(seen) == (StyleScan {
                    attrs: c.styles(),
                    align: c.alignment(),
                    foreground,
                    background,
                }),
        {
            if foreground || background {
                match color_letter(ch) {
                    Some(color) => {
                        if foreground {
                            c.style(Attr::ForegroundColor(color));
                        } else {
                            c.style(Attr::BackgroundColor(color));
                        }
                    },
                    None => {},
                }
                foreground = false;
                background = false;
            } else {
                match ch {
                    'F' => foreground = true,
                    'B' => background = true,
                    'b' => c.style(Attr::Bold),
                    'i' => c.style(Attr::Italic(true)),
                    'u' => c.style(Attr::Underline(true)),
                    'c' => c.align(Alignment::CENTER),
                    'l' => c.align(Alignment::LEFT),
                    'r' => c.align(Alignment::RIGHT),
                    _ => {},
                }
            }
            proof {
                let next = seen.push(ch);
                assert(next.drop_last() == seen);
                seen = next;
            }
        }
        proof {
            assert(seen =~= spec@);
        }
        c
    }

    /// Number of lines; never below one.
    pub fn get_height(&self) -> (r: usize)
        ensures
            r == self.height_spec(),
            r >= 1,
    {
        proof {
            use_type_invariant(self);
        }
        self.content.len()
    }

    /// Display width: that of the widest line.
    pub fn get_width(&self) -> (r: usize)
        ensures
            r == self.width_spec(),
            r == max_width(self.lines()),
    {
        proof {
            use_type_invariant(self);
        }
        self.width
    }

    /// Alignment of the text.
    pub fn get_alignment(&self) -> (r: Alignment)
        ensures
            r == self.alignment(),
    {
        self.align
    }

    /// Style attributes, in the order they were added.
    pub fn get_style(&self) -> (r: &Vec<Attr>)
        ensures
            r@ == self.styles(),
    {
        &self.style
    }

    /// The whole text, lines joined with `\n`.
    pub fn get_content(&self) -> (r: String)
        ensures
            r@ == join_lines(self.lines()),
    {
        proof {
            use_type_invariant(self);
        }
        let ghost lines = self.lines();
        let mut s = String::new();
        for i in 0..self.content.len()
            invariant
                lines == self.content@.map_values(|l: String| l@),
                s@ == join_lines(lines.subrange(0, i as int)),
        {
            if i > 0 {
                push_char(&mut s, '\n');
            }
            s.append(self.content[i].as_str());
            proof {
                let p = lines.subrange(0, i + 1);
                assert(p.drop_last() =~= lines.subrange(0, i as int));
                if i == 0 {
                    assert(s@ =~= p[0]);
                }
            }
        }
        assert(lines.subrange(0, self.content@.len() as int) =~= lines);
        s
    }

    /// Print line `idx` to `out`, aligned in `col_width` columns with spaces
    /// (a blank line past the last one). The fill after the text is left out
    /// when `skip_right_fill` holds. With the fill kept and `col_width` at
    /// least the cell's width, exactly `col_width` columns are printed.
    pub fn print(&self, out: &mut StringWriter, idx: usize, col_width: usize, skip_right_fill: bool)
        ensures
            final(out)@ == old(out)@ + self.line_text(idx as int, col_width as nat, skip_right_fill),
            col_width >= self.width_spec() ==> str_width(
                self.line_text(idx as int, col_width as nat, false),
            ) == col_width,
            self.styles().len() == 0 ==> final(out).style_marks() == old(out).style_marks(),
            self.styles().len() > 0 ==> final(out).style_marks() == old(out).style_marks().push(
                (
                    encode_utf8(old(out)@).len() as usize,
                    encode_utf8(final(out)@).len() as usize,
                    self.styles(),
                ),
            ),
    {
        proof {
            use_type_invariant(self);
            if col_width >= self.width_spec() {
                if idx < self.lines().len() {
                    lemma_max_width_bounds(self.lines(), idx as int);
                }
                lemma_aligned_width(self.alignment(), self.line(idx as int), col_width as nat);
            }
        }
        let start = out.byte_len();
        if idx < self.content.len() {
            print_align(out, self.align, self.content[idx].as_str(), ' ', col_width, skip_right_fill);
        } else {
            assert(""@ =~= Seq::<char>::empty()) by {
                reveal_strlit("");
            }
            print_align(out, self.align, "", ' ', col_width, skip_right_fill);
        }
        if self.style.len() > 0 {
            let end = out.byte_len();
            out.mark_style(start, end, &self.style);
        }
    }

    /// Create a cell holding the lines of `string`, aligned left.
    pub fn new(string: &str) -> (r: Cell)
        requires
            string@.len() <= usize::MAX / 3,
        ensures
            r.lines() == text_lines(string@),
            r.width_spec() == max_width(text_lines(string@)),
            r.height_spec() >= 1,
            r.alignment() == Alignment::LEFT,
            r.styles() == Seq::<Attr>::empty(),
    {
        Cell::new_align(string, Alignment::LEFT)
    }
}

impl Default for Cell {
    /// A cell of one empty line, aligned left, with no style.
    fn default() -> (r: Cell)
        ensures
            r.lines() == seq![Seq::<char>::empty()],
            r.width_spec() == 0,
            r.alignment() == Alignment::LEFT,
            r.styles() == Seq::<Attr>::empty(),
    {
        let mut content: Vec<String> = Vec::new();
        content.push(String::new());
        let ghost lines = content@.map_values(|l: String| l@);
        assert(lines =~= seq![Seq::<char>::empty()]);
        assert(lines.drop_last() =~= Seq::<Seq<char>>::empty());
        assert(lines.last() =~= Seq::<char>::empty());
        assert(str_width(lines.last()) == 0);
        assert(max_width(lines.drop_last()) == 0);
        assert(max_width(lines) == 0);
        assert(content@[0]@.len() == 0);
        Cell { content, width: 0, align: Alignment::LEFT, style: Vec::new() }
    }
}

/// Text without a newline reads as one line.
proof fn lemma_scan_one_line(s: Seq<char>)
    requires
        forall|i: int| 0 <= i < s.len() ==> s[i] != '\n',
    ensures
        scan_lines(s) == (Seq::<Seq<char>>::empty(), s),
    decreases s.len(),
{
    if s.len() > 0 {
        lemma_scan_one_line(s.drop_last());
        assert(s.drop_last().push(s.last()) =~= s);
    }
}

/// A cell made of text without a newline has that text as its one line,
/// and its width is the sum of the widths of the text's characters.
pub proof fn lemma_single_line_width(s: Seq<char>)
    requires
        forall|i: int| 0 <= i < s.len() ==> s[i] != '\n',
    ensures
        text_lines(s) == seq![s],
        max_width(text_lines(s)) == str_width(s),
{
    lemma_scan_one_line(s);
    assert(Seq::<Seq<char>>::empty().push(s) =~= seq![s]);
    assert(seq![s].drop_last() =~= Seq::<Seq<char>>::empty());
    assert(seq![s].last() == s);
    assert(max_width(Seq::<Seq<char>>::empty()) == 0);
    assert(max_width(seq![s]) == str_width(s));
}

/// No line is wider than the widest.
pub proof fn lemma_max_width_bounds(lines: Seq<Seq<char>>, i: int)
    requires
        0 <= i < lines.len(),
    ensures
        str_width(lines[i]) <= max_width(lines),
    decreases lines.len(),
{
    if i < lines.len() - 1 {
        lemma_max_width_bounds(lines.drop_last(), i);
    }
}

/// Text no wider than `size`, aligned in `size` columns with spaces and
/// the fill kept on both sides, is exactly `size` columns wide.
pub proof fn lemma_aligned_width(align: Alignment, text: Seq<char>, size: nat)
    requires
        str_width(text) <= size,
    ensures
        str_width(aligned(align, text, ' ', size, false)) == size,
{
    let n = (size - str_width(text)) as nat;
    let l = match align {
        Alignment::LEFT => 0,
        Alignment::CENTER => n / 2,
        Alignment::RIGHT => n,
    };
    let left = repeat(' ', l);
    let right = repeat(' ', (n - l) as nat);
    lemma_str_width_repeat(' ', l);
    lemma_str_width_repeat(' ', (n - l) as nat);
    lemma_str_width_concat(left, text);
    lemma_str_width_concat(left + text, right);
}

impl Clone for Cell {
    fn clone(&self) -> (r: Cell)
        ensures
            r.lines() == self.lines(),
            r.width_spec() == self.width_spec(),
            r.alignment() == self.alignment(),
            r.styles() == self.styles(),
    {
        proof {
            use_type_invariant(self);
        }
        let mut content: Vec<String> = Vec::new();
        for i in 0..self.content.len()
            invariant
                content@.map_values(|l: String| l@) == self.lines().subrange(0, i as int),
                content@.len() == i,
                self.lines() == self.content@.map_values(|l: String| l@),
                forall|k: int| 0 <= k < i ==> #[trigger] content@[k]@ == self.content@[k]@,
        {
            content.push(self.content[i].clone());
            assert(content@.map_values(|l: String| l@) =~= self.lines().subrange(0, i + 1));
        }
        assert(self.lines().subrange(0, self.content@.len() as int) =~= self.lines());
        let mut style: Vec<Attr> = Vec::new();
        for i in 0..self.style.len()
            invariant
                style@ == self.style@.subrange(0, i as int),
        {
            style.push(self.style[i]);
            assert(style@ =~= self.style@.subrange(0, i + 1));
        }
        assert(self.style@.subrange(0, self.style@.len() as int) =~= self.style@);
        Cell { content, width: self.width, align: self.align, style }
    }
}

} // verus!
