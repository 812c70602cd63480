//! Word wrapping: lays a text out in lines that fit a carriage of given width.
use vstd::prelude::*;

verus! {

/// Measures glyphs; implemented by fonts.
pub trait FontProvider {
    /// Width of the rendered glyph for `ch`, as a function of `ch`.
    spec fn glyph_width(&self, ch: char) -> usize;

    /// Width of the rendered glyph for `ch`.
    fn get_glyph_width(&self, ch: char) -> (r: usize)
        ensures
            r == self.glyph_width(ch),
    ;
}

/// A line: characters `[start, end)` of the source text.
pub type Line = (usize, usize);

/// State of the word-wrapping algorithm.
pub struct Forme<'a, F: FontProvider> {
    lines: Vec<Line>,
    margin: usize,
    head: usize,
    start: usize,
    end: usize,
    brk: Option<usize>,
    done: bool,
    newline: bool,
    font_provider: &'a F,
}

/// Each line starts where the one before it ended, the first at 0, and `start` is
/// where the next line will start.
pub open spec fn chained(lines: Seq<Line>, start: usize) -> bool {
    &&& lines.len() > 0 ==> lines[0].0 == 0
    &&& forall|k: int| 0 <= k < lines.len() - 1 ==> #[trigger] lines[k + 1].0 == lines[k].1
    &&& start == if lines.len() == 0 { 0 } else { lines.last().1 }
}

/// Characters that end a paragraph.
pub open spec fn is_paragraph_break_spec(ch: char) -> bool {
    ch == '\u{000A}' || ch == '\u{000B}' || ch == '\u{000C}' || ch == '\u{000D}' || ch == '\u{0085}'
        || ch == '\u{2028}' || ch == '\u{2029}'
}

/// Whitespace at which a line may break.
pub open spec fn is_line_break_spec(ch: char) -> bool {
    ch == '\u{0009}' || ch == '\u{0020}' || ch == '\u{1680}' || ('\u{2000}' <= ch <= '\u{2007}')
        || ch == '\u{2009}' || ch == '\u{200A}' || ch == '\u{205F}' || ch == '\u{3000}' || ch
        == '\u{180E}' || ch == '\u{200B}' || ch == '\u{200C}' || ch == '\u{200D}'
}

/// The state of the word-wrapping algorithm: the lines so far, the print head's
/// position on the carriage, the current line's start and end, the last breaking
/// whitespace seen, and whether a paragraph break was the last thing read.
pub struct LayoutState {
    pub lines: Seq<Line>,
    pub head: usize,
    pub start: usize,
    pub end: usize,
    pub brk: Option<usize>,
    pub newline: bool,
}

/// Nothing read yet.
pub open spec fn blank_layout() -> LayoutState {
    LayoutState { lines: seq![], head: 0, start: 0, end: 0, brk: None, newline: false }
}

/// After a graphic or non-breaking character `w` wide.
pub open spec fn char_read(st: LayoutState, w: usize) -> LayoutState {
    LayoutState { head: st.head.saturating_add(w), end: st.end.wrapping_add(1), newline: false, ..st }
}

/// After a breaking whitespace `w` wide.
pub open spec fn space_read(st: LayoutState, w: usize) -> LayoutState {
    LayoutState { brk: Some(st.end), head: st.head.saturating_add(w), end: st.end.wrapping_add(1), ..st }
}

/// After a paragraph break, which ends the line just after itself.
pub open spec fn paragraph_read(st: LayoutState) -> LayoutState {
    let end = st.end.wrapping_add(1);
    LayoutState { lines: st.lines.push((st.start, end)), start: end, newline: true, brk: None, head: 0, ..st }
}

/// After the carriage overflows: the line ends after the last breaking whitespace,
/// or before the last character when there is none.
pub open spec fn wrapped(st: LayoutState) -> LayoutState {
    let end = match st.brk {
        None => st.end.wrapping_sub(1),
        Some(b) => b.wrapping_add(1),
    };
    LayoutState { lines: st.lines.push((st.start, end)), start: end, head: 0, ..st }
}

/// After character `ch`, `w` wide, on a carriage `margin` wide.
pub open spec fn after_char(st: LayoutState, ch: char, w: usize, margin: usize) -> LayoutState {
    let st1 = if is_line_break_spec(ch) {
        space_read(st, w)
    } else if is_paragraph_break_spec(ch) {
        paragraph_read(st)
    } else {
        char_read(st, w)
    };
    if st1.head > margin {
        wrapped(st1)
    } else {
        st1
    }
}

/// The layout state after reading `chars` measured with `font`.
pub open spec fn laid_out<F: FontProvider>(font: F, chars: Seq<char>, margin: usize) -> LayoutState
    decreases chars.len(),
{
    if chars.len() == 0 {
        blank_layout()
    } else {
        after_char(
            laid_out(font, chars.drop_last(), margin),
            chars.last(),
            font.glyph_width(chars.last()),
            margin,
        )
    }
}

/// The lines once input ends: an unfinished line is closed.
pub open spec fn finished(st: LayoutState) -> Seq<Line> {
    if !st.newline && st.end > st.start {
        st.lines.push((st.start, st.end))
    } else {
        st.lines
    }
}

impl<'a, F: FontProvider> Forme<'a, F> {
    /// The lines laid out so far.
    pub closed spec fn lines(&self) -> Seq<Line> {
        self.lines@
    }

    /// Input is still being taken (the layout has not been terminated).
    pub closed spec fn accepts_input(&self) -> bool {
        !self.done
    }

    /// Nothing has been read yet.
    pub closed spec fn at_origin(&self) -> bool {
        self.start == 0 && self.end == 0
    }

    pub closed spec fn wf(&self) -> bool {
        chained(self.lines@, self.start)
    }

    /// A forme for a carriage `margin` wide, measuring with `font_provider`.
    pub fn new(margin: usize, font_provider: &'a F) -> (r: Self)
        ensures
            r.wf(),
            r.lines() == Seq::<Line>::empty(),
    {
        Self {
            margin,
            font_provider,
            lines: Vec::new(),
            head: 0,
            start: 0,
            end: 0,
            brk: None,
            done: true,
            newline: false,
        }
    }

    /// Back to an empty layout, ready for input.
    pub fn clear(&mut self)
        ensures
            final(self).wf(),
            final(self).lines() == Seq::<Line>::empty(),
            final(self).accepts_input(),
            final(self).at_origin(),
            final(self).model() == blank_layout(),
            final(self).font() == old(self).font(),
            final(self).margin_width() == old(self).margin_width(),
    {
        self.lines.clear();
        self.head = 0;
        self.start = 0;
        self.end = 0;
        self.brk = None;
        self.done = false;
        self.newline = false;
    }

    /// The state of the layout.
    pub closed spec fn model(&self) -> LayoutState {
        LayoutState {
            lines: self.lines@,
            head: self.head,
            start: self.start,
            end: self.end,
            brk: self.brk,
            newline: self.newline,
        }
    }

    /// The font that measures glyphs.
    pub closed spec fn font(&self) -> F {
        *self.font_provider
    }

    /// The width of the carriage.
    pub closed spec fn margin_width(&self) -> usize {
        self.margin
    }

    /// Lays `s` out: each line ends after the last breaking whitespace before the
    /// carriage overflows (or mid-word when there is none), and paragraph breaks
    /// end lines. Lines follow one another without gaps.
    pub fn layout_from_str(&mut self, s: &str)
        ensures
            final(self).wf(),
            final(self).lines() == finished(laid_out(old(self).font(), s@, old(self).margin_width())),
            s@.len() == 0 ==> final(self).lines() == Seq::<Line>::empty(),
    {
        self.clear();
        let ghost font = self.font();
        let ghost margin = self.margin;
        let ghost mut read: Seq<char> = seq![];
        for ch in it: s.chars()
            invariant
                self.wf(),
                !self.done,
                font == self.font(),
                margin == self.margin,
                font == old(self).font(),
                margin == old(self).margin_width(),
                it.seq() == s@,
                read == it.seq().take(it.index() as int),
                self.model() == laid_out(font, read, margin),
                it.index() == 0 ==> self.lines@.len() == 0 && self.end == 0 && self.start == 0,
        {
            if is_line_break(ch) {
                self.handle_space(ch);
            } else if is_paragraph_break(ch) {
                self.paragraph_break();
            } else {
                self.handle_char(ch);
            }
            if self.head > self.margin {
                self.breach_margin();
            }
            proof {
                let grown = read.push(ch);
                assert(grown.drop_last() =~= read);
                read = grown;
            }
        }
        assert(read =~= s@);
        self.terminate_input();
    }

    fn handle_char(&mut self, ch: char)
        requires
            old(self).wf(),
            !old(self).done,
        ensures
            final(self).wf(),
            final(self).model() == char_read(old(self).model(), old(self).font().glyph_width(ch)),
            final(self).done == old(self).done,
            final(self).margin == old(self).margin,
            final(self).font_provider == old(self).font_provider,
    {
        self.head = self.head.saturating_add(self.font_provider.get_glyph_width(ch));
        self.end = self.end.wrapping_add(1);
        self.newline = false;
    }

    fn handle_space(&mut self, ch: char)
        requires
            old(self).wf(),
            !old(self).done,
        ensures
            final(self).wf(),
            final(self).model() == space_read(old(self).model(), old(self).font().glyph_width(ch)),
            final(self).done == old(self).done,
            final(self).margin == old(self).margin,
            final(self).font_provider == old(self).font_provider,
    {
        let end = self.end;
        self.brk = Some(end);
        self.head = self.head.saturating_add(self.font_provider.get_glyph_width(ch));
        self.end = end.wrapping_add(1);
    }

    fn paragraph_break(&mut self)
        requires
            old(self).wf(),
            !old(self).done,
        ensures
            final(self).wf(),
            final(self).model() == paragraph_read(old(self).model()),
            final(self).done == old(self).done,
            final(self).margin == old(self).margin,
            final(self).font_provider == old(self).font_provider,
    {
        let end = self.end.wrapping_add(1);
        self.lines.push((self.start, end));
        self.start = end;
        self.newline = true;
        self.brk = None;
        self.head = 0;
    }

    fn breach_margin(&mut self)
        requires
            old(self).wf(),
            !old(self).done,
        ensures
            final(self).wf(),
            final(self).model() == wrapped(old(self).model()),
            final(self).done == old(self).done,
            final(self).margin == old(self).margin,
            final(self).font_provider == old(self).font_provider,
    {
        match self.brk {
            None => {
                let end = self.end.wrapping_sub(1);
                self.lines.push((self.start, end));
                self.start = end;
                self.head = 0;
            },
            Some(brk) => {
                let end = brk.wrapping_add(1);
                self.lines.push((self.start, end));
                self.start = end;
                self.head = 0;
            },
        }
    }

    fn terminate_input(&mut self)
        requires
            old(self).wf(),
            !old(self).done,
        ensures
            final(self).wf(),
            final(self).lines@ == finished(old(self).model()),
    {
        if !self.newline && self.end > self.start {
            self.lines.push((self.start, self.end));
            self.start = self.end;
        }
        self.done = true;
    }

    /// The lines laid out.
    pub fn borrow_lines(&self) -> (r: &Vec<Line>)
        ensures
            r@ == self.lines(),
    {
        &self.lines
    }
}

/// Whether `ch` is whitespace at which a line may break.
fn is_line_break(ch: char) -> (r: bool)
    ensures
        r == is_line_break_spec(ch),
{
    match ch {
        '\u{0009}' | '\u{0020}' | '\u{1680}' => true,
        '\u{2000}'..='\u{2007}' => true,
        '\u{2009}' | '\u{200A}' | '\u{205F}' | '\u{3000}' => true,
        '\u{180E}' | '\u{200B}' | '\u{200C}' | '\u{200D}' => true,
        _ => false,
    }
}

/// Whether `ch` ends a paragraph.
fn is_paragraph_break(ch: char) -> (r: bool)
    ensures
        r == is_paragraph_break_spec(ch),
{
    match ch {
        '\u{000A}' | '\u{000B}' | '\u{000C}' | '\u{000D}' | '\u{0085}' | '\u{2028}' | '\u{2029}' => true,
        _ => false,
    }
}

} // verus!
