//! The audio panels of the monitoring rail.
//!
//! Three states share one geometry: a panel that collapsed when a cable was
//! unplugged would make the whole rail jump.

use crate::tui::meter::Cell;
use crate::tui::spectrum::column_cells;
use crate::tui::spectrum::push_column;
use crate::ui::geometry::Rect;
use crate::ui::intensity::steps;
use crate::ui::intensity::steps_of;
use crate::ui::style::inked;
use crate::ui::style::unstyled;
use crate::ui::style::Colour;
use crate::ui::style::Line;
use crate::ui::style::Span;
use crate::ui::style::Style;
use vstd::prelude::*;
use vstd::string::*;

verus! {

/// What is known of the radio's audio.
#[derive(Debug, Clone, Copy, PartialEq, Eq, Structural)]
pub enum AudioState {
    /// No audio path.
    Absent,
    /// There is an audio path, and nothing streams through it.
    Configured,
    Streaming,
}

pub open spec fn state_label(state: AudioState) -> Seq<char> {
    match state {
        AudioState::Absent => "NONE"@,
        AudioState::Configured => "PENDING"@,
        AudioState::Streaming => "LIVE"@,
    }
}

impl AudioState {
    pub fn label(self) -> (r: &'static str)
        ensures
            r@ == state_label(self),
    {
        match self {
            AudioState::Absent => "NONE",
            AudioState::Configured => "PENDING",
            AudioState::Streaming => "LIVE",
        }
    }
}

/// The ink of a panel with nothing in it.
pub open spec fn dimmed(state: AudioState, ink: Colour) -> Colour {
    match state {
        AudioState::Streaming => ink,
        _ => Colour::DarkGray,
    }
}

/// The ink of a panel with nothing in it.
pub fn dim_for(state: AudioState, ink: Colour) -> (r: Colour)
    ensures
        r == dimmed(state, ink),
{
    match state {
        AudioState::Streaming => ink,
        _ => Colour::DarkGray,
    }
}

/// The spans of a panel's header: its name, and the state it is in.
pub open spec fn header_spans(name: Seq<char>, state: AudioState, ink: Colour, dim: Colour) -> Seq<
    (Seq<char>, Style),
> {
    seq![
        (name, inked(ink)),
        (" "@, unstyled()),
        (
            state_label(state),
            inked(
                if state == AudioState::Streaming {
                    ink
                } else {
                    dim
                },
            ),
        ),
    ]
}

/// A one-line header: a panel's name, and the state it is in, in every state.
pub fn af_header(name: &str, state: AudioState, ink: Colour, dim: Colour) -> (r: Line)
    ensures
        r@ == header_spans(name@, state, ink, dim),
{
    let shade = match state {
        AudioState::Streaming => ink,
        _ => dim,
    };
    let mut line = Line::two(Span::of(name, Style::ink(ink)), Span::raw(" "));
    line.push(Span::of(state.label(), Style::ink(shade)));
    assert(line@ =~= header_spans(name@, state, ink, dim));
    line
}

/// The cells of the first columns of an audio spectrum. A column without
/// energy data stays empty.
pub open spec fn fft_columns(columns: Seq<Option<i64>>, area: Rect, ink: Colour, cols: nat) -> Seq<
    Cell,
>
    decreases cols,
{
    if cols == 0 {
        seq![]
    } else {
        let before = fft_columns(columns, area, ink, (cols - 1) as nat);
        match columns[cols - 1] {
            Some(t) => before + column_cells(
                steps_of(t as int, 8 * area.height as int),
                cols - 1,
                area,
                ink,
                area.height as nat,
            ),
            None => before,
        }
    }
}

/// The floor of a panel with nothing in it: an instrument, not a hole.
pub open spec fn floor_cells(area: Rect, fg: Colour, cols: nat) -> Seq<Cell> {
    Seq::new(
        cols,
        |col: int|
            Cell {
                x: (area.x + col) as u16,
                y: (area.y + area.height - 1) as u16,
                ch: '·',
                fg,
            },
    )
}

/// The frequencies the audio spectrum covers, from zero up, in hertz. They are
/// the panel's, not the signal's: a scale that moved with the data would make
/// two moments incomparable.
pub const AF_FFT_SPAN_HZ: i32 = 3000;

/// The edges of the receive filter, in hertz.
#[derive(Debug, Clone, Copy, PartialEq, Eq, Structural)]
pub struct Passband {
    pub low_hz: i32,
    pub high_hz: i32,
}

/// The column of a panel that a frequency belongs to. `None` where it is
/// outside the panel.
pub open spec fn column_of(hz: i32, width: u16) -> Option<int> {
    if 0 <= hz < AF_FFT_SPAN_HZ {
        Some(hz * width / (AF_FFT_SPAN_HZ as int))
    } else {
        None
    }
}

/// A frequency on the panel belongs to exactly one column, and a higher one to
/// no column further left.
pub proof fn a_frequency_has_its_own_column(low: i32, high: i32, width: u16)
    requires
        0 <= low <= high < AF_FFT_SPAN_HZ,
        width > 0,
    ensures
        column_of(low, width) matches Some(a) && column_of(high, width) matches Some(b) && 0 <= a
            <= b < width && a * AF_FFT_SPAN_HZ <= low * width < (a + 1) * AF_FFT_SPAN_HZ,
{
    assert(0 <= low * width <= high * width < 3000 * width) by (nonlinear_arith)
        requires
            0 <= low <= high < 3000,
            width > 0,
    ;
}

/// The column of a panel, `width` columns wide, that a frequency belongs to.
/// `None` where it is outside the panel.
pub fn edge_column(hz: i32, width: u16) -> (r: Option<u16>)
    ensures
        match column_of(hz, width) {
            Some(c) => r matches Some(v) && v == c,
            None => r is None,
        },
{
    if hz < 0 || hz >= AF_FFT_SPAN_HZ {
        return None;
    }
    proof {
        assert(0 <= hz * width <= 3000 * width) by (nonlinear_arith)
            requires
                0 <= hz < 3000,
                0 <= width,
        ;
    }
    Some(((hz as u64 * width as u64) / (AF_FFT_SPAN_HZ as u64)) as u16)
}

/// The cell of a filter edge: on the floor of its column. An edge outside the
/// panel is dropped, not moved to its border.
pub open spec fn edge_cells(hz: i32, area: Rect, setting: Colour) -> Seq<Cell> {
    match column_of(hz, area.width) {
        Some(col) => seq![
            Cell {
                x: (area.x + col) as u16,
                y: (area.y + area.height - 1) as u16,
                ch: '┃',
                fg: setting,
            },
        ],
        None => seq![],
    }
}

/// All cells of an audio spectrum panel.
pub open spec fn fft_cells(
    columns: Option<Seq<Option<i64>>>,
    passband: Option<Passband>,
    state: AudioState,
    area: Rect,
    ink: Colour,
    setting: Colour,
) -> Seq<Cell> {
    let body = match columns {
        Some(columns) => fft_columns(columns, area, ink, area.width as nat),
        None => floor_cells(area, dimmed(state, ink), area.width as nat),
    };
    match passband {
        Some(p) => body + edge_cells(p.low_hz, area, setting) + edge_cells(
            p.high_hz,
            area,
            setting,
        ),
        None => body,
    }
}

fn push_edge(cells: &mut Vec<Cell>, hz: i32, area: Rect, setting: Colour)
    requires
        area.fits(),
        area.width > 0,
        area.height > 0,
    ensures
        final(cells)@ == old(cells)@ + edge_cells(hz, area, setting),
{
    let ghost before = cells@;
    if let Some(col) = edge_column(hz, area.width) {
        proof {
            a_frequency_has_its_own_column(hz, hz, area.width);
        }
        cells.push(
            Cell { x: area.x + col, y: area.y + area.height - 1, ch: '┃', fg: setting },
        );
    }
    assert(cells@ =~= before + edge_cells(hz, area, setting));
}

/// The audio spectrum: one column per cell, the filter edges marked on top.
///
/// `columns` holds the intensity of each column, where there is a frame at all.
pub fn af_fft(
    columns: Option<&Vec<Option<i64>>>,
    passband: Option<Passband>,
    state: AudioState,
    area: Rect,
    ink: Colour,
    setting: Colour,
) -> (r: Vec<Cell>)
    requires
        area.fits(),
        columns matches Some(c) ==> c@.len() == area.width,
    ensures
        area.width == 0 || area.height == 0 ==> r@.len() == 0,
        area.width > 0 && area.height > 0 ==> r@ == fft_cells(
            match columns {
                Some(c) => Some(c@),
                None => None,
            },
            passband,
            state,
            area,
            ink,
            setting,
        ),
{
    let mut cells: Vec<Cell> = Vec::new();
    if area.width == 0 || area.height == 0 {
        return cells;
    }
    let mut col: u16 = 0;
    match columns {
        Some(c) => {
            while col < area.width
                invariant
                    col <= area.width,
                    area.fits(),
                    c@.len() == area.width,
                    cells@ == fft_columns(c@, area, ink, col as nat),
                decreases area.width - col,
            {
                match c[col as usize] {
                    Some(t) => {
                        let filled: u32 = steps(t, 8 * area.height as u32);
                        push_column(&mut cells, filled, col, area, ink);
                    },
                    None => {},
                }
                col += 1;
            }
        },
        None => {
            let fg = dim_for(state, ink);
            assert(cells@ =~= floor_cells(area, fg, 0));
            while col < area.width
                invariant
                    col <= area.width,
                    area.fits(),
                    area.height > 0,
                    cells@ == floor_cells(area, fg, col as nat),
                decreases area.width - col,
            {
                cells.push(
                    Cell { x: area.x + col, y: area.y + area.height - 1, ch: '·', fg },
                );
                col += 1;
                assert(cells@ =~= floor_cells(area, fg, col as nat));
            }
        },
    }
    if let Some(p) = passband {
        push_edge(&mut cells, p.low_hz, area, setting);
        push_edge(&mut cells, p.high_hz, area, setting);
    }
    cells
}

/// A filter edge is marked in its own column, on the floor of the panel, and
/// one outside the panel is not marked at all.
pub proof fn an_edge_is_marked_in_its_column(hz: i32, area: Rect, setting: Colour)
    requires
        area.fits(),
        area.width > 0,
        area.height > 0,
    ensures
        0 <= hz < 3000 ==> {
            let cells = edge_cells(hz, area, setting);
            &&& cells.len() == 1
            &&& area.x <= cells[0].x < area.x + area.width
            &&& cells[0].y == area.y + area.height - 1
            &&& (cells[0].x - area.x) * 3000 <= hz * area.width < (cells[0].x - area.x + 1) * 3000
            &&& cells[0].ch == '┃'
            &&& cells[0].fg == setting
        },
        hz < 0 || hz >= 3000 ==> edge_cells(hz, area, setting).len() == 0,
{
    if 0 <= hz < 3000 {
        a_frequency_has_its_own_column(hz, hz, area.width);
    }
}

/// A panel with nothing in it has a dotted floor all across, and stays inside
/// its area.
pub proof fn a_floor_runs_all_across(area: Rect, fg: Colour, col: int)
    requires
        area.fits(),
        area.height > 0,
        0 <= col < area.width,
    ensures
        ({
            let cells = floor_cells(area, fg, area.width as nat);
            &&& cells.len() == area.width
            &&& cells[col].x == area.x + col
            &&& cells[col].y == area.y + area.height - 1
            &&& cells[col].ch == '·'
            &&& cells[col].fg == fg
        }),
{
}

/// A column of the audio spectrum shows its own energy, in eighths of a cell
/// from the floor up, and one without energy data shows nothing. No cell lies
/// outside the area.
pub proof fn an_audio_column_shows_its_energy(
    columns: Seq<Option<i64>>,
    area: Rect,
    ink: Colour,
    col: int,
    row: int,
)
    requires
        area.fits(),
        columns.len() == area.width,
        0 <= col < area.width,
        0 <= row < area.height,
    ensures
        ({
            let cells = fft_columns(columns, area, ink, area.width as nat);
            let under = 8 * (area.height - 1 - row);
            &&& forall|i: int|
                0 <= i < cells.len() ==> area.x <= (#[trigger] cells[i]).x < area.x + area.width
                    && area.y <= cells[i].y < area.y + area.height
            &&& (exists|i: int|
                0 <= i < cells.len() && (#[trigger] cells[i]).x == area.x + col && cells[i].y
                    == area.y + row) <==> (columns[col] matches Some(t) && steps_of(
                t as int,
                8 * area.height as int,
            ) > under)
        }),
{
    fft_up_to(columns, area, ink, area.width as nat, col, row);
}

proof fn fft_up_to(
    columns: Seq<Option<i64>>,
    area: Rect,
    ink: Colour,
    cols: nat,
    col: int,
    row: int,
)
    requires
        area.fits(),
        columns.len() == area.width,
        cols <= area.width,
        0 <= col < area.width,
        0 <= row < area.height,
    ensures
        ({
            let cells = fft_columns(columns, area, ink, cols);
            let under = 8 * (area.height - 1 - row);
            &&& forall|i: int|
                0 <= i < cells.len() ==> area.x <= (#[trigger] cells[i]).x < area.x + cols
                    && area.y <= cells[i].y < area.y + area.height
            &&& (exists|i: int|
                0 <= i < cells.len() && (#[trigger] cells[i]).x == area.x + col && cells[i].y
                    == area.y + row) <==> (col < cols && (columns[col] matches Some(t) && steps_of(
                t as int,
                8 * area.height as int,
            ) > under))
        }),
    decreases cols,
{
    if cols > 0 {
        fft_up_to(columns, area, ink, (cols - 1) as nat, col, row);
        let before = fft_columns(columns, area, ink, (cols - 1) as nat);
        let cells = fft_columns(columns, area, ink, cols);
        let under = 8 * (area.height - 1 - row);
        if let Some(t) = columns[cols - 1] {
            let filled = steps_of(t as int, 8 * area.height as int);
            crate::ui::intensity::steps_follow_the_intensity(
                t as int,
                t as int,
                8 * area.height as int,
            );
            let more = column_cells(filled, cols - 1, area, ink, area.height as nat);
            crate::tui::spectrum::a_column_shows_what_it_is_filled(
                filled,
                cols - 1,
                area,
                ink,
                row,
            );
            assert forall|i: int| 0 <= i < cells.len() implies area.x <= (#[trigger] cells[i]).x
                < area.x + cols && area.y <= cells[i].y < area.y + area.height && (i
                >= before.len() ==> cells[i].x == area.x + cols - 1) by {
                if i < before.len() {
                    assert(cells[i] == before[i]);
                } else {
                    assert(cells[i] == more[i - before.len()]);
                }
            }
            if col == cols - 1 {
                if filled > under {
                    let k = choose|k: int|
                        0 <= k < more.len() && (#[trigger] more[k]).y == area.y + row;
                    assert(cells[before.len() + k] == more[k]);
                }
                if exists|i: int|
                    0 <= i < cells.len() && (#[trigger] cells[i]).x == area.x + col && cells[i].y
                        == area.y + row {
                    let i = choose|i: int|
                        0 <= i < cells.len() && (#[trigger] cells[i]).x == area.x + col
                            && cells[i].y == area.y + row;
                    if i < before.len() {
                        assert(cells[i] == before[i]);
                    } else {
                        assert(more[i - before.len()].y == area.y + row);
                    }
                }
            } else {
                if exists|i: int|
                    0 <= i < before.len() && (#[trigger] before[i]).x == area.x + col
                        && before[i].y == area.y + row {
                    let i = choose|i: int|
                        0 <= i < before.len() && (#[trigger] before[i]).x == area.x + col
                            && before[i].y == area.y + row;
                    assert(cells[i] == before[i]);
                }
                if exists|i: int|
                    0 <= i < cells.len() && (#[trigger] cells[i]).x == area.x + col && cells[i].y
                        == area.y + row {
                    let i = choose|i: int|
                        0 <= i < cells.len() && (#[trigger] cells[i]).x == area.x + col
                            && cells[i].y == area.y + row;
                    assert(i < before.len());
                    assert(cells[i] == before[i]);
                }
            }
        } else {
            assert(cells == before);
        }
    }
}

/// The filter edges are drawn over everything else, so that they are never
/// buried: they come last, the lower edge and then the upper, whatever the
/// state. What is under them is the columns where there is a frame, and the
/// floor where there is none.
pub proof fn the_edges_come_last(
    columns: Option<Seq<Option<i64>>>,
    low_hz: i32,
    high_hz: i32,
    state: AudioState,
    area: Rect,
    ink: Colour,
    setting: Colour,
)
    requires
        area.fits(),
        area.width > 0,
        area.height > 0,
        0 <= low_hz < 3000,
        0 <= high_hz < 3000,
    ensures
        ({
            let bare = fft_cells(columns, None, state, area, ink, setting);
            let marked = fft_cells(
                columns,
                Some(Passband { low_hz, high_hz }),
                state,
                area,
                ink,
                setting,
            );
            let n = bare.len() as int;
            &&& marked.len() == n + 2
            &&& marked.take(n) == bare
            &&& (marked[n].x - area.x) * 3000 <= low_hz * area.width < (marked[n].x - area.x + 1)
                * 3000
            &&& (marked[n + 1].x - area.x) * 3000 <= high_hz * area.width < (marked[n + 1].x
                - area.x + 1) * 3000
            &&& marked[n].y == area.y + area.height - 1
            &&& marked[n + 1].y == area.y + area.height - 1
            &&& columns is None ==> n == area.width
        }),
{
    an_edge_is_marked_in_its_column(low_hz, area, setting);
    an_edge_is_marked_in_its_column(high_hz, area, setting);
    let bare = fft_cells(columns, None, state, area, ink, setting);
    let marked = fft_cells(
        columns,
        Some(Passband { low_hz, high_hz }),
        state,
        area,
        ink,
        setting,
    );
    assert(marked.take(bare.len() as int) =~= bare);
}

/// A header names the panel and the state, and no two states are named alike.
/// Only audio that streams is in the panel's own ink.
pub proof fn a_header_tells_the_states_apart(
    name: Seq<char>,
    a: AudioState,
    b: AudioState,
    ink: Colour,
    dim: Colour,
)
    ensures
        header_spans(name, a, ink, dim)[0].0 == name,
        header_spans(name, a, ink, dim)[2].0 == header_spans(name, b, ink, dim)[2].0 ==> a == b,
        a is Streaming ==> header_spans(name, a, ink, dim)[2].1 == header_spans(
            name,
            a,
            ink,
            dim,
        )[0].1 && dimmed(a, ink) == ink,
        !(a is Streaming) ==> header_spans(name, a, ink, dim)[2].1 == inked(dim) && dimmed(a, ink)
            == Colour::DarkGray,
{
    reveal_strlit("NONE");
    reveal_strlit("PENDING");
    reveal_strlit("LIVE");
    assert(state_label(AudioState::Absent)[0] == 'N');
    assert(state_label(AudioState::Configured)[0] == 'P');
    assert(state_label(AudioState::Streaming)[0] == 'L');
}

} // verus!
