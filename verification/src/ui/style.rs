//! Styled text.
//!
//! A line is modelled by the sequence of its spans, a span by its characters
//! and its style.

use crate::text::text;
use vstd::prelude::*;
use vstd::string::*;

verus! {

/// A terminal colour.
#[derive(Debug, Clone, Copy, PartialEq, Eq, Structural)]
pub enum Colour {
    Reset,
    Black,
    Red,
    Green,
    Yellow,
    Blue,
    Magenta,
    Cyan,
    White,
    DarkGray,
    Indexed(u8),
}

/// How a span looks. A colour that is not given is inherited.
#[derive(Debug, Clone, Copy, PartialEq, Eq, Structural)]
pub struct Style {
    pub fg: Option<Colour>,
    pub bg: Option<Colour>,
    pub bold: bool,
    pub blink: bool,
    pub reversed: bool,
}

/// The style that changes nothing.
pub open spec fn unstyled() -> Style {
    Style { fg: None, bg: None, bold: false, blink: false, reversed: false }
}

/// Nothing but a foreground colour.
pub open spec fn inked(fg: Colour) -> Style {
    Style { fg: Some(fg), ..unstyled() }
}

/// A bold foreground colour.
pub open spec fn bold_ink(fg: Colour) -> Style {
    Style { fg: Some(fg), bold: true, ..unstyled() }
}

/// A bold foreground on a background.
pub open spec fn bold_on(fg: Colour, bg: Colour) -> Style {
    Style { fg: Some(fg), bg: Some(bg), bold: true, ..unstyled() }
}

impl Style {
    pub fn plain() -> (r: Style)
        ensures
            r == unstyled(),
    {
        Style { fg: None, bg: None, bold: false, blink: false, reversed: false }
    }

    pub fn ink(fg: Colour) -> (r: Style)
        ensures
            r == inked(fg),
    {
        Style { fg: Some(fg), bg: None, bold: false, blink: false, reversed: false }
    }

    pub fn bold(fg: Colour) -> (r: Style)
        ensures
            r == bold_ink(fg),
    {
        Style { fg: Some(fg), bg: None, bold: true, blink: false, reversed: false }
    }

    pub fn bold_on(fg: Colour, bg: Colour) -> (r: Style)
        ensures
            r == bold_on(fg, bg),
    {
        Style { fg: Some(fg), bg: Some(bg), bold: true, blink: false, reversed: false }
    }
}

/// A run of characters in one style.
#[derive(Debug, PartialEq, Eq)]
pub struct Span {
    pub text: String,
    pub style: Style,
}

impl View for Span {
    type V = (Seq<char>, Style);

    open spec fn view(&self) -> (Seq<char>, Style) {
        (self.text@, self.style)
    }
}

impl Span {
    pub fn styled(text: String, style: Style) -> (r: Span)
        ensures
            r@ == (text@, style),
    {
        Span { text, style }
    }

    pub fn of(s: &str, style: Style) -> (r: Span)
        ensures
            r@ == (s@, style),
    {
        Span { text: text(s), style }
    }

    pub fn raw(s: &str) -> (r: Span)
        ensures
            r@ == (s@, unstyled()),
    {
        Span { text: text(s), style: Style::plain() }
    }

    /// The same characters in the same style.
    pub fn copy(&self) -> (r: Span)
        ensures
            r@ == self@,
    {
        Span { text: self.text.clone(), style: self.style }
    }
}

/// One line of spans.
#[derive(Debug, PartialEq, Eq)]
pub struct Line {
    pub spans: Vec<Span>,
}

/// The models of several spans.
pub open spec fn spans_view(spans: Seq<Span>) -> Seq<(Seq<char>, Style)> {
    spans.map_values(|s: Span| s@)
}

impl View for Line {
    type V = Seq<(Seq<char>, Style)>;

    open spec fn view(&self) -> Seq<(Seq<char>, Style)> {
        spans_view(self.spans@)
    }
}

/// The models of several lines.
pub open spec fn lines_view(lines: Seq<Line>) -> Seq<Seq<(Seq<char>, Style)>> {
    lines.map_values(|l: Line| l@)
}

/// The characters of a line, whatever their styles.
pub open spec fn characters(spans: Seq<(Seq<char>, Style)>) -> Seq<char>
    decreases spans.len(),
{
    if spans.len() == 0 {
        seq![]
    } else {
        characters(spans.drop_last()) + spans.last().0
    }
}

impl Line {
    /// A line of one span.
    pub fn one(span: Span) -> (r: Line)
        ensures
            r@ == seq![span@],
    {
        let mut spans: Vec<Span> = Vec::new();
        spans.push(span);
        let r = Line { spans };
        assert(r@ =~= seq![span@]);
        r
    }

    /// A line of two spans.
    pub fn two(first: Span, second: Span) -> (r: Line)
        ensures
            r@ == seq![first@, second@],
    {
        let mut spans: Vec<Span> = Vec::new();
        spans.push(first);
        spans.push(second);
        let r = Line { spans };
        assert(r@ =~= seq![first@, second@]);
        r
    }

    /// An empty line without a style.
    pub fn blank() -> (r: Line)
        ensures
            r@ == seq![(""@, unstyled())],
    {
        Line::one(Span::raw(""))
    }

    /// Append a span.
    pub fn push(&mut self, span: Span)
        ensures
            final(self)@ == old(self)@.push(span@),
    {
        let ghost before = self@;
        self.spans.push(span);
        assert(self@ =~= before.push(span@));
    }

    /// The characters of the line.
    pub fn text(&self) -> (r: String)
        ensures
            r@ == characters(self@),
    {
        let mut out = String::new();
        let mut i: usize = 0;
        assert(out@ =~= characters(self@.take(0)));
        while i < self.spans.len()
            invariant
                i <= self.spans@.len(),
                out@ == characters(self@.take(i as int)),
            decreases self.spans@.len() - i,
        {
            proof {
                assert(self@.take(i + 1).drop_last() =~= self@.take(i as int));
            }
            out.append(self.spans[i].text.as_str());
            i += 1;
        }
        assert(self@.take(self.spans@.len() as int) =~= self@);
        out
    }
}

/// Append a line.
pub fn push_line(lines: &mut Vec<Line>, line: Line)
    ensures
        lines_view(final(lines)@) == lines_view(old(lines)@).push(line@),
{
    let ghost before = lines@;
    lines.push(line);
    assert(lines_view(lines@) =~= lines_view(before).push(line@));
}

/// Append several lines.
pub fn push_lines(lines: &mut Vec<Line>, mut more: Vec<Line>)
    ensures
        lines_view(final(lines)@) == lines_view(old(lines)@) + lines_view(more@),
{
    let ghost before = lines@;
    let ghost extra = more@;
    lines.append(&mut more);
    assert(lines_view(lines@) =~= lines_view(before) + lines_view(extra));
}

/// A style says what it names and nothing else.
pub proof fn a_style_says_what_it_names(fg: Colour, bg: Colour)
    ensures
        unstyled().fg is None && unstyled().bg is None && !unstyled().bold && !unstyled().blink
            && !unstyled().reversed,
        inked(fg).fg == Some(fg) && inked(fg).bg is None && !inked(fg).bold && !inked(fg).blink
            && !inked(fg).reversed,
        bold_ink(fg).fg == Some(fg) && bold_ink(fg).bg is None && bold_ink(fg).bold && !bold_ink(
            fg,
        ).blink && !bold_ink(fg).reversed,
        bold_on(fg, bg).fg == Some(fg) && bold_on(fg, bg).bg == Some(bg) && bold_on(fg, bg).bold
            && !bold_on(fg, bg).blink && !bold_on(fg, bg).reversed,
{
}

/// The characters of a line are those of its spans, in order and without
/// anything between them.
pub proof fn a_line_reads_from_left_to_right(
    left: Seq<(Seq<char>, Style)>,
    right: Seq<(Seq<char>, Style)>,
    span: (Seq<char>, Style),
)
    ensures
        characters(left + right) == characters(left) + characters(right),
        characters(seq![span]) == span.0,
        characters(Seq::<(Seq<char>, Style)>::empty()).len() == 0,
    decreases right.len(),
{
    reveal_with_fuel(characters, 2);
    assert(seq![span].drop_last() =~= Seq::<(Seq<char>, Style)>::empty());
    assert(characters(seq![span]) =~= span.0);
    if right.len() == 0 {
        assert(left + right =~= left);
        assert(characters(left) + characters(right) =~= characters(left));
    } else {
        assert((left + right).drop_last() =~= left + right.drop_last());
        a_line_reads_from_left_to_right(left, right.drop_last(), span);
        assert(characters(left + right) =~= characters(left) + characters(right));
    }
}

} // verus!
