//! What is to be put on the screen, piece by piece.
//!
//! The console says what goes where; whoever owns the terminal puts it there.

use crate::tui::meter::RailBar;
use crate::ui::geometry::Rect;
use crate::ui::style::lines_view;
use crate::ui::style::push_line;
use crate::ui::style::Line;
use crate::ui::style::Style;
use vstd::prelude::*;

verus! {

/// One piece of a screen. Later pieces are drawn over earlier ones.
#[derive(Debug, PartialEq, Eq)]
pub enum Draw {
    /// A text at a cell.
    Text {
        x: u16,
        y: u16,
        text: String,
        style: Style,
    },
    /// Lines in an area, wrapped or cut off at its right edge.
    Lines {
        area: Rect,
        lines: Vec<Line>,
        wrap: bool,
    },
    /// A meter's bar.
    Bar(RailBar),
    /// The audio waveform.
    AfScope(Rect),
    /// The audio spectrum.
    AfFft(Rect),
    /// The newest spectrum frame.
    Trace(Rect),
    /// The spectrum history.
    Waterfall(Rect),
}

/// The model of a piece.
pub enum DrawView {
    Text(u16, u16, Seq<char>, Style),
    Lines(Rect, Seq<Seq<(Seq<char>, Style)>>, bool),
    Bar(RailBar),
    AfScope(Rect),
    AfFft(Rect),
    Trace(Rect),
    Waterfall(Rect),
}

impl View for Draw {
    type V = DrawView;

    open spec fn view(&self) -> DrawView {
        match self {
            Draw::Text { x, y, text, style } => DrawView::Text(*x, *y, text@, *style),
            Draw::Lines { area, lines, wrap } => DrawView::Lines(*area, lines_view(lines@), *wrap),
            Draw::Bar(bar) => DrawView::Bar(*bar),
            Draw::AfScope(area) => DrawView::AfScope(*area),
            Draw::AfFft(area) => DrawView::AfFft(*area),
            Draw::Trace(area) => DrawView::Trace(*area),
            Draw::Waterfall(area) => DrawView::Waterfall(*area),
        }
    }
}

/// The models of several pieces.
pub open spec fn draws(ds: Seq<Draw>) -> Seq<DrawView> {
    ds.map_values(|d: Draw| d@)
}

/// Append a piece.
pub fn push_draw(out: &mut Vec<Draw>, d: Draw)
    ensures
        draws(final(out)@) == draws(old(out)@).push(d@),
{
    let ghost before = out@;
    out.push(d);
    assert(draws(out@) =~= draws(before).push(d@));
}

/// Append a text at a cell.
pub fn push_text_at(out: &mut Vec<Draw>, x: u16, y: u16, text: String, style: Style)
    ensures
        draws(final(out)@) == draws(old(out)@).push(DrawView::Text(x, y, text@, style)),
{
    push_draw(out, Draw::Text { x, y, text, style });
}

/// Append one line in an area.
pub fn push_line_in(out: &mut Vec<Draw>, area: Rect, line: Line)
    ensures
        draws(final(out)@) == draws(old(out)@).push(DrawView::Lines(area, seq![line@], false)),
{
    let mut lines: Vec<Line> = Vec::new();
    push_line(&mut lines, line);
    assert(lines_view(lines@) =~= seq![line@]);
    push_draw(out, Draw::Lines { area, lines, wrap: false });
}

/// Append lines in an area.
pub fn push_lines_in(out: &mut Vec<Draw>, area: Rect, lines: Vec<Line>, wrap: bool)
    ensures
        draws(final(out)@) == draws(old(out)@).push(
            DrawView::Lines(area, lines_view(lines@), wrap),
        ),
{
    push_draw(out, Draw::Lines { area, lines, wrap });
}

} // verus!
