//! The coarse panorama: a spectrum trace and a half-block waterfall.
//!
//! What a bin's power comes to in eighths of a cell, or as a colour, is for
//! the caller to say. Which bin a column samples, which cells a column fills
//! and where an older row belongs on the newest one's axis are decided here.

use crate::tui::meter::cell_level;
use crate::tui::meter::level_in_cell;
use crate::tui::meter::Cell;
use crate::ui::geometry::Rect;
use crate::ui::intensity::held;
use crate::ui::intensity::steps;
use crate::ui::intensity::steps_follow_the_intensity;
use crate::ui::intensity::steps_of;
use crate::ui::intensity::FULL;
use crate::ui::style::Colour;
use vstd::prelude::*;

verus! {

/// A block that fills its cell from below, in eighths.
pub open spec fn low_block(level: int) -> char {
    if level == 0 {
        ' '
    } else if level == 1 {
        '▁'
    } else if level == 2 {
        '▂'
    } else if level == 3 {
        '▃'
    } else if level == 4 {
        '▄'
    } else if level == 5 {
        '▅'
    } else if level == 6 {
        '▆'
    } else if level == 7 {
        '▇'
    } else {
        '█'
    }
}

/// A block that fills its cell from below, in eighths.
pub fn vertical_block(level: usize) -> (r: char)
    ensures
        r == low_block(level as int),
{
    match level {
        0 => ' ',
        1 => '▁',
        2 => '▂',
        3 => '▃',
        4 => '▄',
        5 => '▅',
        6 => '▆',
        7 => '▇',
        _ => '█',
    }
}

/// The upper half block: two history rows share one text row.
pub const UPPER_HALF: char = '▀';

/// The bin nearest to a column, of the two equally near the higher.
pub open spec fn nearest_bin(bins: int, col: int, width: int) -> int {
    if width <= 1 {
        0
    } else {
        let n = (2 * col * (bins - 1) + (width - 1)) / (2 * (width - 1));
        if n > bins - 1 {
            bins - 1
        } else {
            n
        }
    }
}

/// Which bin a column samples. The nearest one, not an average: an average
/// would bury a narrow carrier.
pub fn bin_for_column(bins: usize, col: u16, width: u16) -> (r: usize)
    requires
        bins > 0,
    ensures
        r == nearest_bin(bins as int, col as int, width as int),
        r < bins,
{
    if width <= 1 {
        return 0;
    }
    let top: u128 = (bins - 1) as u128;
    let last: u128 = (width - 1) as u128;
    proof {
        assert(0 <= 2 * col * (bins - 1) <= 2 * 0xffff * 0xffff_ffff_ffff_ffff) by (nonlinear_arith)
            requires
                0 <= col <= 0xffff,
                0 <= bins - 1 <= 0xffff_ffff_ffff_ffff,
        ;
    }
    let ghost product = 2 * col * (bins - 1);
    let doubled: u128 = 2 * col as u128;
    assert(doubled * top == product) by (nonlinear_arith)
        requires
            doubled == 2 * col,
            top == bins - 1,
            product == 2 * col * (bins - 1),
    ;
    let n: u128 = (doubled * top + last) / (2 * last);
    if n > top {
        bins - 1
    } else {
        n as usize
    }
}

/// The bin a column samples is the nearest: no bin lies closer to where the
/// column is. The first column samples the first bin and the last the last, so
/// that low frequencies are on the left.
pub proof fn the_nearest_bin_is_sampled(bins: int, col: int, width: int, other: int)
    requires
        bins > 0,
        width > 1,
        0 <= col < width,
        0 <= other < bins,
    ensures
        ({
            let near = nearest_bin(bins, col, width) * (width - 1) - col * (bins - 1);
            let far = other * (width - 1) - col * (bins - 1);
            (if near < 0 {
                -near
            } else {
                near
            }) <= (if far < 0 {
                -far
            } else {
                far
            })
        }),
        nearest_bin(bins, 0, width) == 0,
        nearest_bin(bins, width - 1, width) == bins - 1,
{
    let w = width - 1;
    let b = bins - 1;
    let target = col * b;
    let n0 = (2 * col * b + w) / (2 * w);
    let n = nearest_bin(bins, col, width);
    assert(2 * col * b == 2 * target) by (nonlinear_arith)
        requires
            target == col * b,
    ;
    assert(n0 * (2 * w) <= 2 * target + w < n0 * (2 * w) + 2 * w) by (nonlinear_arith)
        requires
            n0 == (2 * target + w) / (2 * w),
            w > 0,
    ;
    assert(0 <= target <= b * w) by (nonlinear_arith)
        requires
            target == col * b,
            0 <= col <= w,
            b >= 0,
    ;
    assert(n0 <= b) by (nonlinear_arith)
        requires
            n0 * (2 * w) <= 2 * target + w,
            target <= b * w,
            w > 0,
    ;
    assert(n0 * (2 * w) == 2 * (n0 * w)) by (nonlinear_arith);
    let near = n0 * w - target;
    assert(-w <= 2 * near <= w);
    let far = other * w - target;
    if other != n0 {
        let gap = (other - n0) * w;
        assert(gap == other * w - n0 * w) by (nonlinear_arith)
            requires
                gap == (other - n0) * w,
        ;
        if other > n0 {
            assert(gap >= w) by (nonlinear_arith)
                requires
                    gap == (other - n0) * w,
                    other - n0 >= 1,
                    w > 0,
            ;
        } else {
            assert(gap <= -w) by (nonlinear_arith)
                requires
                    gap == (other - n0) * w,
                    other - n0 <= -1,
                    w > 0,
            ;
        }
    }
    assert(nearest_bin(bins, 0, width) == 0) by {
        assert(2 * 0 * b == 0) by (nonlinear_arith);
        assert(w / (2 * w) == 0) by (nonlinear_arith)
            requires
                w > 0,
        ;
    }
    assert(nearest_bin(bins, width - 1, width) == b) by {
        assert((2 * w * b + w) / (2 * w) == b) by (nonlinear_arith)
            requires
                w > 0,
                b >= 0,
        ;
    }
}

/// A quotient rounded to the nearest integer, halves away from zero.
pub open spec fn rounded(n: int, d: int) -> int {
    if n >= 0 {
        (2 * n + d) / (2 * d)
    } else {
        -((2 * (-n) + d) / (2 * d))
    }
}

/// The value of `n` in 32 bits, or the nearest end of their range.
pub open spec fn clamped(n: int) -> int {
    if n < i32::MIN {
        i32::MIN as int
    } else if n > i32::MAX {
        i32::MAX as int
    } else {
        n
    }
}

/// What the projection of a frame depends on: its centre, its span and how
/// many bins it has.
#[derive(Debug, Clone, Copy, PartialEq, Eq, Structural)]
pub struct FrameAxis {
    pub center_hz: u64,
    pub span_hz: u32,
    pub bins: usize,
}

/// By how many columns a frame's content is shifted on the axis of another.
pub open spec fn offset_columns(center: u64, reference: FrameAxis, width: u16) -> int {
    if reference.span_hz == 0 || width == 0 {
        0
    } else {
        clamped(rounded((center - reference.center_hz) * width, reference.span_hz as int))
    }
}

/// By how many columns a frame's content is shifted on the axis of
/// `reference`: to the right where its centre is higher. Frames that share a
/// centre are not shifted.
pub fn column_offset(center_hz: u64, reference: FrameAxis, width: u16) -> (r: i32)
    ensures
        r == offset_columns(center_hz, reference, width),
{
    if reference.span_hz == 0 || width == 0 {
        return 0;
    }
    let delta: i128 = center_hz as i128 - reference.center_hz as i128;
    let d: i128 = reference.span_hz as i128;
    proof {
        assert(-0xffff_ffff_ffff_ffff * 0xffff <= delta * width <= 0xffff_ffff_ffff_ffff * 0xffff)
            by (nonlinear_arith)
            requires
                -0xffff_ffff_ffff_ffff <= delta <= 0xffff_ffff_ffff_ffff,
                0 <= width <= 0xffff,
        ;
    }
    let n: i128 = delta * width as i128;
    let rounded_away: i128 = if n >= 0 {
        (2 * n + d) / (2 * d)
    } else {
        -((2 * (-n) + d) / (2 * d))
    };
    if rounded_away < i32::MIN as i128 {
        i32::MIN
    } else if rounded_away > i32::MAX as i128 {
        i32::MAX
    } else {
        rounded_away as i32
    }
}

/// Frames that share a centre are not shifted, a frame captured higher up the
/// band is not shifted to the left, nor one captured lower down to the right.
pub proof fn a_shift_follows_the_centre(center: u64, reference: FrameAxis, width: u16)
    ensures
        center == reference.center_hz ==> offset_columns(center, reference, width) == 0,
        center >= reference.center_hz ==> offset_columns(center, reference, width) >= 0,
        center <= reference.center_hz ==> offset_columns(center, reference, width) <= 0,
{
    if reference.span_hz > 0 && width > 0 {
        let n = (center - reference.center_hz) * width;
        let d = reference.span_hz as int;
        assert(center == reference.center_hz ==> n == 0) by (nonlinear_arith)
            requires
                n == (center - reference.center_hz) * width,
        ;
        assert(center >= reference.center_hz ==> n >= 0) by (nonlinear_arith)
            requires
                n == (center - reference.center_hz) * width,
                width > 0,
        ;
        assert(center < reference.center_hz ==> n < 0) by (nonlinear_arith)
            requires
                n == (center - reference.center_hz) * width,
                width > 0,
        ;
        assert(d / (2 * d) == 0) by (nonlinear_arith)
            requires
                d > 0,
        ;
        if n >= 0 {
            assert((2 * n + d) / (2 * d) >= 0) by (nonlinear_arith)
                requires
                    n >= 0,
                    d > 0,
            ;
        } else {
            assert((2 * (-n) + d) / (2 * d) >= 0) by (nonlinear_arith)
                requires
                    n < 0,
                    d > 0,
            ;
        }
    }
}

/// The bin of `frame` that a column on the axis of `reference` shows. `None`
/// where the frame never saw this frequency.
pub open spec fn sampled_bin(frame: FrameAxis, reference: FrameAxis, col: int, width: u16) -> Option<
    int,
> {
    let src = col - offset_columns(frame.center_hz, reference, width);
    if frame.bins == 0 || src < 0 || src >= width {
        None
    } else {
        Some(nearest_bin(frame.bins as int, src, width as int))
    }
}

/// The bin of `frame` that a column on the axis of `reference` shows. A column
/// the frame never captured shows nothing, rather than data in the wrong
/// place.
pub fn sample(frame: FrameAxis, reference: FrameAxis, col: u16, width: u16) -> (r: Option<usize>)
    ensures
        match sampled_bin(frame, reference, col as int, width) {
            Some(bin) => r matches Some(b) && b == bin && b < frame.bins,
            None => r is None,
        },
{
    if frame.bins == 0 {
        return None;
    }
    let src: i64 = col as i64 - column_offset(frame.center_hz, reference, width) as i64;
    if src < 0 || src >= width as i64 {
        return None;
    }
    Some(bin_for_column(frame.bins, src as u16, width))
}

/// A stationary signal holds its column. With one column for each bin, and a
/// dial that moved by `k` columns between two frames, the bin of the older
/// frame that a column shows is the one that saw the same frequency as the
/// newer frame's bin in that column; where there is none, the column shows
/// nothing.
pub proof fn a_stationary_signal_holds_its_column(
    older: FrameAxis,
    newer: FrameAxis,
    width: u16,
    k: int,
    col: int,
)
    requires
        width > 1,
        older.bins == width,
        newer.bins == width,
        newer.span_hz > 0,
        (older.center_hz - newer.center_hz) * width == k * newer.span_hz,
        i32::MIN <= k <= i32::MAX,
        0 <= col < width,
    ensures
        sampled_bin(newer, newer, col, width) == Some(col),
        sampled_bin(older, newer, col, width) == (if 0 <= col - k < width {
            Some(col - k)
        } else {
            None
        }),
{
    let d = newer.span_hz as int;
    let w = width - 1;
    a_shift_follows_the_centre(newer.center_hz, newer, width);
    assert(rounded(k * d, d) == k) by {
        if k * d >= 0 {
            assert((2 * (k * d) + d) / (2 * d) == k) by (nonlinear_arith)
                requires
                    d > 0,
            ;
        } else {
            assert((2 * (-(k * d)) + d) / (2 * d) == -k) by (nonlinear_arith)
                requires
                    d > 0,
            ;
        }
    }
    assert forall|src: int| 0 <= src < width implies #[trigger] nearest_bin(
        width as int,
        src,
        width as int,
    ) == src by {
        assert((2 * src * w + w) / (2 * w) == src) by (nonlinear_arith)
            requires
                w > 0,
                src >= 0,
        ;
    }
}

/// A bin of one of the frames.
#[derive(Debug, Clone, Copy, PartialEq, Eq, Structural)]
pub struct Sample {
    pub frame: usize,
    pub bin: usize,
}

/// A cell of the waterfall: the upper half shows one history row, the lower
/// half the next. What shows nothing is absence, not silence.
#[derive(Debug, Clone, Copy, PartialEq, Eq, Structural)]
pub struct WaterfallCell {
    pub x: u16,
    pub y: u16,
    pub top: Option<Sample>,
    pub bottom: Option<Sample>,
}

/// What history row `index` shows in a column.
pub open spec fn row_sample(frames: Seq<FrameAxis>, index: int, col: int, width: u16) -> Option<
    Sample,
> {
    if index >= frames.len() {
        None
    } else {
        match sampled_bin(frames[index], frames[0], col, width) {
            Some(bin) => Some(Sample { frame: index as usize, bin: bin as usize }),
            None => None,
        }
    }
}

/// The cell of the waterfall at a row and a column.
pub open spec fn waterfall_cell(frames: Seq<FrameAxis>, area: Rect, row: int, col: int) -> WaterfallCell {
    WaterfallCell {
        x: (area.x + col) as u16,
        y: (area.y + row) as u16,
        top: row_sample(frames, row * 2, col, area.width),
        bottom: row_sample(frames, row * 2 + 1, col, area.width),
    }
}

/// The cells of one row of the waterfall.
pub open spec fn waterfall_row(frames: Seq<FrameAxis>, area: Rect, row: int, count: nat) -> Seq<
    WaterfallCell,
> {
    Seq::new(count, |col: int| waterfall_cell(frames, area, row, col))
}

/// The cells of the first rows of the waterfall.
pub open spec fn waterfall_rows(frames: Seq<FrameAxis>, area: Rect, rows: nat) -> Seq<
    WaterfallCell,
>
    decreases rows,
{
    if rows == 0 {
        seq![]
    } else {
        waterfall_rows(frames, area, (rows - 1) as nat) + waterfall_row(
            frames,
            area,
            rows - 1,
            area.width as nat,
        )
    }
}

/// Whether a sample, where there is one, is a bin that its frame has.
pub open spec fn is_bin_of(sample: Option<Sample>, frames: Seq<FrameAxis>) -> bool {
    sample matches Some(s) ==> s.frame < frames.len() && s.bin < frames[s.frame as int].bins
}

fn sample_row(frames: &Vec<FrameAxis>, index: usize, col: u16, width: u16) -> (r: Option<Sample>)
    requires
        frames@.len() > 0,
    ensures
        r == row_sample(frames@, index as int, col as int, width),
        is_bin_of(r, frames@),
{
    if index >= frames.len() {
        return None;
    }
    match sample(frames[index], frames[0], col, width) {
        Some(bin) => Some(Sample { frame: index, bin }),
        None => None,
    }
}

/// Which bins the cells of a waterfall show: newest row at the top, two history
/// rows per text row. Rows are projected onto the newest frame's axis, so that
/// a stationary signal holds a vertical column.
pub fn waterfall_samples(frames: &Vec<FrameAxis>, area: Rect) -> (r: Vec<WaterfallCell>)
    requires
        area.fits(),
    ensures
        frames@.len() == 0 ==> r@.len() == 0,
        frames@.len() > 0 ==> r@ == waterfall_rows(frames@, area, area.height as nat),
        forall|i: int|
            0 <= i < r@.len() ==> is_bin_of((#[trigger] r@[i]).top, frames@) && is_bin_of(
                r@[i].bottom,
                frames@,
            ),
{
    let mut cells: Vec<WaterfallCell> = Vec::new();
    if frames.len() == 0 {
        return cells;
    }
    let mut row: u16 = 0;
    while row < area.height
        invariant
            row <= area.height,
            area.fits(),
            frames@.len() > 0,
            cells@ == waterfall_rows(frames@, area, row as nat),
            forall|i: int|
                0 <= i < cells@.len() ==> is_bin_of((#[trigger] cells@[i]).top, frames@)
                    && is_bin_of(cells@[i].bottom, frames@),
        decreases area.height - row,
    {
        let ghost before = cells@;
        let mut col: u16 = 0;
        assert(cells@ =~= before + waterfall_row(frames@, area, row as int, 0));
        while col < area.width
            invariant
                col <= area.width,
                row < area.height,
                area.fits(),
                frames@.len() > 0,
                cells@ == before + waterfall_row(frames@, area, row as int, col as nat),
                forall|i: int|
                    0 <= i < cells@.len() ==> is_bin_of((#[trigger] cells@[i]).top, frames@)
                        && is_bin_of(cells@[i].bottom, frames@),
            decreases area.width - col,
        {
            let top = sample_row(frames, row as usize * 2, col, area.width);
            let bottom = sample_row(frames, row as usize * 2 + 1, col, area.width);
            cells.push(WaterfallCell { x: area.x + col, y: area.y + row, top, bottom });
            col += 1;
            assert(cells@ =~= before + waterfall_row(frames@, area, row as int, col as nat));
        }
        row += 1;
    }
    cells
}

/// How many eighths a cell of a column shows: the lowest row has the first
/// eight.
pub open spec fn column_level(filled: int, height: int, row: int) -> int {
    cell_level(filled, (height - 1 - row) * 8)
}

/// The cells of the first `rows` rows of a column that show anything.
pub open spec fn column_cells(
    filled: int,
    col: int,
    area: Rect,
    fg: Colour,
    rows: nat,
) -> Seq<Cell>
    decreases rows,
{
    if rows == 0 {
        seq![]
    } else {
        let before = column_cells(filled, col, area, fg, (rows - 1) as nat);
        let row = rows - 1;
        let level = column_level(filled, area.height as int, row);
        if level > 0 {
            before.push(
                Cell {
                    x: (area.x + col) as u16,
                    y: (area.y + row) as u16,
                    ch: low_block(level),
                    fg,
                },
            )
        } else {
            before
        }
    }
}

/// Append the cells of one column. A weak signal is a stub at the bottom.
pub fn push_column(cells: &mut Vec<Cell>, filled: u32, col: u16, area: Rect, fg: Colour)
    requires
        area.fits(),
        col < area.width,
    ensures
        final(cells)@ == old(cells)@ + column_cells(
            filled as int,
            col as int,
            area,
            fg,
            area.height as nat,
        ),
{
    let ghost before = cells@;
    let mut row: u16 = 0;
    assert(cells@ =~= before + column_cells(filled as int, col as int, area, fg, 0));
    while row < area.height
        invariant
            row <= area.height,
            area.fits(),
            col < area.width,
            cells@ == before + column_cells(filled as int, col as int, area, fg, row as nat),
        decreases area.height - row,
    {
        let base: u32 = (area.height - 1 - row) as u32 * 8;
        let level: usize = level_in_cell(filled, base);
        if level > 0 {
            cells.push(Cell { x: area.x + col, y: area.y + row, ch: vertical_block(level), fg });
        }
        row += 1;
        assert(cells@ =~= before + column_cells(filled as int, col as int, area, fg, row as nat));
    }
}

/// The cells of the first columns of a trace.
pub open spec fn trace_cells(filled: Seq<u32>, area: Rect, fg: Colour, cols: nat) -> Seq<Cell>
    decreases cols,
{
    if cols == 0 {
        seq![]
    } else {
        trace_cells(filled, area, fg, (cols - 1) as nat) + column_cells(
            filled[cols - 1] as int,
            cols - 1,
            area,
            fg,
            area.height as nat,
        )
    }
}

/// How many eighths of a column each column of a trace fills: those of the
/// bin it samples.
pub open spec fn fills(levels: Seq<i64>, area: Rect) -> Seq<u32> {
    Seq::new(
        area.width as nat,
        |col: int|
            steps_of(
                levels[nearest_bin(levels.len() as int, col, area.width as int)] as int,
                area.height * 8,
            ) as u32,
    )
}

/// How many eighths of a column each column of a trace fills.
fn column_fills(levels: &Vec<i64>, area: Rect) -> (r: Vec<u32>)
    requires
        levels@.len() > 0,
    ensures
        r@ == fills(levels@, area),
{
    let mut out: Vec<u32> = Vec::new();
    let mut col: u16 = 0;
    while col < area.width
        invariant
            col <= area.width,
            levels@.len() > 0,
            out@ == fills(levels@, area).take(col as int),
        decreases area.width - col,
    {
        assert(levels@.len() == levels.len());
        let bin: usize = bin_for_column(levels.len(), col, area.width);
        out.push(steps(levels[bin], area.height as u32 * 8));
        col += 1;
        assert(out@ =~= fills(levels@, area).take(col as int));
    }
    assert(out@ =~= fills(levels@, area));
    out
}

/// A frame as a trace, one column per cell, in eighths of one. `levels` holds
/// the intensity of every bin, lowest frequency first, which is drawn
/// leftmost. A frame without bins draws nothing.
pub fn spectrum_trace(levels: &Vec<i64>, area: Rect, fg: Colour) -> (r: Vec<Cell>)
    requires
        area.fits(),
    ensures
        r@ == (if levels@.len() == 0 {
            Seq::empty()
        } else {
            trace_cells(fills(levels@, area), area, fg, area.width as nat)
        }),
{
    let mut cells: Vec<Cell> = Vec::new();
    if levels.len() == 0 {
        assert(cells@ =~= Seq::empty());
        return cells;
    }
    let filled = column_fills(levels, area);
    let mut col: u16 = 0;
    while col < area.width
        invariant
            col <= area.width,
            area.fits(),
            filled@.len() == area.width,
            cells@ == trace_cells(filled@, area, fg, col as nat),
        decreases area.width - col,
    {
        push_column(&mut cells, filled[col as usize], col, area, fg);
        col += 1;
    }
    cells
}

/// A column that is filled further shows at least as much in every cell, and a
/// cell that shows anything has only full cells below it: a column grows from
/// the bottom.
pub proof fn a_column_grows_from_the_bottom(weak: nat, strong: nat, height: int, row: int, below: int)
    requires
        weak <= strong,
        0 <= row < below < height,
    ensures
        column_level(weak as int, height, row) <= column_level(strong as int, height, row),
        column_level(weak as int, height, row) > 0 ==> column_level(weak as int, height, below)
            == 8,
{
}

/// A colour ramp, cold to hot.
#[derive(Debug, PartialEq, Eq)]
pub struct WaterfallPalette {
    pub stops: Vec<Colour>,
}

/// The ramp from blue through green to red.
pub open spec fn turbo_stops() -> Seq<Colour> {
    seq![
        Colour::Indexed(17),
        Colour::Indexed(19),
        Colour::Indexed(26),
        Colour::Indexed(37),
        Colour::Indexed(43),
        Colour::Indexed(46),
        Colour::Indexed(118),
        Colour::Indexed(184),
        Colour::Indexed(214),
        Colour::Indexed(202),
        Colour::Indexed(196),
    ]
}

/// The ramp for terminals with sixteen colours.
pub open spec fn ansi16_stops() -> Seq<Colour> {
    seq![
        Colour::Black,
        Colour::Blue,
        Colour::Cyan,
        Colour::Green,
        Colour::Yellow,
        Colour::Red,
    ]
}

/// The colour of an intensity: that of the nearest stop.
pub open spec fn stop_colour(stops: Seq<Colour>, t: int) -> Colour {
    if stops.len() == 0 {
        Colour::Reset
    } else {
        stops[steps_of(t, stops.len() - 1)]
    }
}

impl WaterfallPalette {
    pub fn turbo() -> (r: WaterfallPalette)
        ensures
            r.stops@ == turbo_stops(),
    {
        let stops: Vec<Colour> = vec![
            Colour::Indexed(17),
            Colour::Indexed(19),
            Colour::Indexed(26),
            Colour::Indexed(37),
            Colour::Indexed(43),
            Colour::Indexed(46),
            Colour::Indexed(118),
            Colour::Indexed(184),
            Colour::Indexed(214),
            Colour::Indexed(202),
            Colour::Indexed(196),
        ];
        assert(stops@ =~= turbo_stops());
        WaterfallPalette { stops }
    }

    pub fn ansi16() -> (r: WaterfallPalette)
        ensures
            r.stops@ == ansi16_stops(),
    {
        let stops: Vec<Colour> = vec![
            Colour::Black,
            Colour::Blue,
            Colour::Cyan,
            Colour::Green,
            Colour::Yellow,
            Colour::Red,
        ];
        assert(stops@ =~= ansi16_stops());
        WaterfallPalette { stops }
    }

    /// The colour of an intensity: that of the nearest stop. A ramp without
    /// stops leaves the terminal's own colour.
    pub fn at(&self, t: i64) -> (r: Colour)
        requires
            self.stops@.len() <= u32::MAX,
        ensures
            r == stop_colour(self.stops@, t as int),
    {
        if self.stops.len() == 0 {
            return Colour::Reset;
        }
        let last: u32 = (self.stops.len() - 1) as u32;
        self.stops[steps(t, last) as usize]
    }
}

impl Default for WaterfallPalette {
    fn default() -> (r: Self)
        ensures
            r.stops@ == turbo_stops(),
    {
        WaterfallPalette::turbo()
    }
}

/// A ramp is cold at no intensity and hot at full, and holds its ends beyond
/// them.
pub proof fn a_ramp_spans_its_stops(stops: Seq<Colour>, t: int)
    requires
        stops.len() > 0,
    ensures
        t <= 0 ==> stop_colour(stops, t) == stops.first(),
        t >= FULL ==> stop_colour(stops, t) == stops.last(),
        stops.contains(stop_colour(stops, t)),
{
    steps_follow_the_intensity(t, t, stops.len() - 1);
    assert(t <= 0 ==> held(t) == held(0));
    assert(t >= FULL ==> held(t) == held(FULL as int));
}

/// A spectrum frame: its axis and the intensity of every bin, lowest frequency
/// first.
#[derive(Debug, PartialEq, Eq)]
pub struct SpectrumFrame {
    pub axis: FrameAxis,
    pub levels: Vec<i64>,
}

/// The axes of several frames.
pub open spec fn axes(frames: Seq<SpectrumFrame>) -> Seq<FrameAxis> {
    frames.map_values(|f: SpectrumFrame| f.axis)
}

/// A cell of a drawn waterfall: the colour of its upper half and of its lower.
#[derive(Debug, Clone, Copy, PartialEq, Eq, Structural)]
pub struct ShadedCell {
    pub x: u16,
    pub y: u16,
    pub upper: Colour,
    pub lower: Colour,
}

/// The colour of a sample: that of its intensity, or of what was never
/// captured.
pub open spec fn sample_colour(
    frames: Seq<SpectrumFrame>,
    sample: Option<Sample>,
    stops: Seq<Colour>,
    absent: Colour,
) -> Colour {
    match sample {
        Some(s) => stop_colour(stops, frames[s.frame as int].levels@[s.bin as int] as int),
        None => absent,
    }
}

/// A cell in colours.
pub open spec fn shaded(
    frames: Seq<SpectrumFrame>,
    cell: WaterfallCell,
    stops: Seq<Colour>,
    absent: Colour,
) -> ShadedCell {
    ShadedCell {
        x: cell.x,
        y: cell.y,
        upper: sample_colour(frames, cell.top, stops, absent),
        lower: sample_colour(frames, cell.bottom, stops, absent),
    }
}

fn shade_of(
    frames: &Vec<SpectrumFrame>,
    sample: Option<Sample>,
    palette: &WaterfallPalette,
    absent: Colour,
) -> (r: Colour)
    requires
        palette.stops@.len() <= u32::MAX,
        is_bin_of(sample, axes(frames@)),
        forall|i: int|
            0 <= i < frames@.len() ==> (#[trigger] frames@[i]).levels@.len()
                == frames@[i].axis.bins,
    ensures
        r == sample_colour(frames@, sample, palette.stops@, absent),
{
    match sample {
        Some(s) => {
            assert(frames@[s.frame as int].levels@.len() == axes(frames@)[s.frame as int].bins);
            palette.at(frames[s.frame].levels[s.bin])
        },
        None => absent,
    }
}

/// A waterfall, newest row at the top, two history rows per text row, every
/// column in the colour of its intensity. A column that a row never captured
/// shows `absent`, rather than data in the wrong place.
pub fn waterfall(
    frames: &Vec<SpectrumFrame>,
    area: Rect,
    palette: &WaterfallPalette,
    absent: Colour,
) -> (r: Vec<ShadedCell>)
    requires
        area.fits(),
        palette.stops@.len() <= u32::MAX,
        forall|i: int|
            0 <= i < frames@.len() ==> (#[trigger] frames@[i]).levels@.len()
                == frames@[i].axis.bins,
    ensures
        frames@.len() == 0 ==> r@.len() == 0,
        frames@.len() > 0 ==> r@ == waterfall_rows(
            axes(frames@),
            area,
            area.height as nat,
        ).map_values(|cell: WaterfallCell| shaded(frames@, cell, palette.stops@, absent)),
{
    let mut places: Vec<FrameAxis> = Vec::new();
    let mut i: usize = 0;
    while i < frames.len()
        invariant
            i <= frames@.len(),
            places@ == axes(frames@).take(i as int),
        decreases frames@.len() - i,
    {
        places.push(frames[i].axis);
        i += 1;
        assert(places@ =~= axes(frames@).take(i as int));
    }
    assert(places@ =~= axes(frames@));
    let samples = waterfall_samples(&places, area);
    let ghost drawn = samples@.map_values(
        |cell: WaterfallCell| shaded(frames@, cell, palette.stops@, absent),
    );
    let mut cells: Vec<ShadedCell> = Vec::new();
    let mut n: usize = 0;
    while n < samples.len()
        invariant
            n <= samples@.len(),
            palette.stops@.len() <= u32::MAX,
            forall|i: int|
                0 <= i < frames@.len() ==> (#[trigger] frames@[i]).levels@.len()
                    == frames@[i].axis.bins,
            forall|i: int|
                0 <= i < samples@.len() ==> is_bin_of(
                    (#[trigger] samples@[i]).top,
                    axes(frames@),
                ) && is_bin_of(samples@[i].bottom, axes(frames@)),
            drawn == samples@.map_values(
                |cell: WaterfallCell| shaded(frames@, cell, palette.stops@, absent),
            ),
            cells@ == drawn.take(n as int),
        decreases samples@.len() - n,
    {
        let cell = samples[n];
        assert(is_bin_of(samples@[n as int].top, axes(frames@)));
        let upper = shade_of(frames, cell.top, palette, absent);
        let lower = shade_of(frames, cell.bottom, palette, absent);
        cells.push(ShadedCell { x: cell.x, y: cell.y, upper, lower });
        n += 1;
        assert(cells@ =~= drawn.take(n as int));
    }
    assert(cells@ =~= drawn);
    cells
}

/// The cells of the waterfall row by row: where each one is.
proof fn a_cell_at(frames: Seq<FrameAxis>, area: Rect, rows: nat, row: int, col: int)
    requires
        0 <= row < rows,
        0 <= col < area.width,
    ensures
        waterfall_rows(frames, area, rows).len() == rows * area.width,
        0 <= row * area.width + col < rows * area.width,
        waterfall_rows(frames, area, rows)[row * area.width + col] == waterfall_cell(
            frames,
            area,
            row,
            col,
        ),
    decreases rows,
{
    let w = area.width as int;
    rows_len(frames, area, rows);
    rows_len(frames, area, (rows - 1) as nat);
    assert(row * w + col < rows * w && 0 <= row * w + col) by (nonlinear_arith)
        requires
            0 <= row < rows,
            0 <= col < w,
    ;
    if row < rows - 1 {
        a_cell_at(frames, area, (rows - 1) as nat, row, col);
    } else {
        assert(row * w == (rows - 1) * w) by (nonlinear_arith)
            requires
                row == rows - 1,
        ;
    }
}

proof fn rows_len(frames: Seq<FrameAxis>, area: Rect, rows: nat)
    ensures
        waterfall_rows(frames, area, rows).len() == rows * area.width,
    decreases rows,
{
    if rows > 0 {
        rows_len(frames, area, (rows - 1) as nat);
        assert((rows - 1) * area.width + area.width == rows * area.width) by (nonlinear_arith);
    } else {
        assert(0 * area.width == 0) by (nonlinear_arith);
    }
}

proof fn index_of_cell(i: int, w: int, rows: int)
    requires
        0 <= i < rows * w,
        w >= 0,
        rows >= 0,
    ensures
        w > 0,
        0 <= i / w < rows,
        0 <= i % w < w,
        i == (i / w) * w + i % w,
{
    assert(w > 0) by (nonlinear_arith)
        requires
            0 <= i < rows * w,
            w >= 0,
    ;
    vstd::arithmetic::div_mod::lemma_fundamental_div_mod(i, w);
    assert(w * (i / w) == (i / w) * w) by (nonlinear_arith);
    assert(0 <= i / w < rows) by (nonlinear_arith)
        requires
            0 <= i < rows * w,
            w > 0,
            i == (i / w) * w + i % w,
            0 <= i % w < w,
    ;
}

/// The waterfall fills its own area and nothing else: every cell lies inside
/// it, and every position of it is covered by exactly one cell. A cell shows
/// two frames one above the other, counted from the top of the area: where the
/// upper half shows anything it is a bin of the frame twice as many rows down,
/// and the lower half of the frame after it.
pub proof fn the_waterfall_fills_its_area_once(
    frames: Seq<FrameAxis>,
    area: Rect,
    x: int,
    y: int,
)
    requires
        area.fits(),
    ensures
        ({
            let cells = waterfall_rows(frames, area, area.height as nat);
            &&& forall|i: int|
                0 <= i < cells.len() ==> {
                    let c = #[trigger] cells[i];
                    &&& area.x <= c.x < area.x + area.width
                    &&& area.y <= c.y < area.y + area.height
                    &&& c.top matches Some(s) ==> s.frame == 2 * (c.y - area.y) && s.frame
                        < frames.len()
                    &&& c.bottom matches Some(s) ==> s.frame == 2 * (c.y - area.y) + 1 && s.frame
                        < frames.len()
                }
            &&& area.x <= x < area.x + area.width && area.y <= y < area.y + area.height
                ==> exists|i: int|
                {
                    &&& 0 <= i < cells.len()
                    &&& (#[trigger] cells[i]).x == x
                    &&& cells[i].y == y
                }
            &&& forall|i: int, j: int|
                0 <= i < cells.len() && 0 <= j < cells.len() && (#[trigger] cells[i]).x == (
                #[trigger] cells[j]).x && cells[i].y == cells[j].y ==> i == j
        }),
{
    let cells = waterfall_rows(frames, area, area.height as nat);
    let w = area.width as int;
    let h = area.height as int;
    rows_len(frames, area, area.height as nat);
    assert forall|i: int| 0 <= i < cells.len() implies {
        let c = #[trigger] cells[i];
        &&& area.x <= c.x < area.x + area.width
        &&& area.y <= c.y < area.y + area.height
        &&& c.x - area.x == i % w
        &&& c.y - area.y == i / w
        &&& c.top matches Some(s) ==> s.frame == 2 * (c.y - area.y) && s.frame < frames.len()
        &&& c.bottom matches Some(s) ==> s.frame == 2 * (c.y - area.y) + 1 && s.frame
            < frames.len()
    } by {
        index_of_cell(i, w, h);
        a_cell_at(frames, area, area.height as nat, i / w, i % w);
    }
    if area.x <= x < area.x + area.width && area.y <= y < area.y + area.height {
        a_cell_at(frames, area, area.height as nat, y - area.y, x - area.x);
        let i = (y - area.y) * w + (x - area.x);
        assert(cells[i].x == x && cells[i].y == y);
    }
    assert forall|i: int, j: int|
        0 <= i < cells.len() && 0 <= j < cells.len() && (#[trigger] cells[i]).x == (
        #[trigger] cells[j]).x && cells[i].y == cells[j].y implies i == j by {
        index_of_cell(i, w, h);
        index_of_cell(j, w, h);
    }
}

/// A shaded waterfall has the same places: a cell is coloured where it is. Its
/// halves have colours of the ramp, or the colour of what was never captured;
/// below the last frame there is nothing but that.
pub proof fn shading_moves_no_cell(
    frames: Seq<SpectrumFrame>,
    area: Rect,
    stops: Seq<Colour>,
    absent: Colour,
    i: int,
)
    requires
        area.fits(),
        0 <= i < waterfall_rows(axes(frames), area, area.height as nat).len(),
        stops.len() > 0,
    ensures
        ({
            let cell = waterfall_rows(axes(frames), area, area.height as nat)[i];
            let s = shaded(frames, cell, stops, absent);
            &&& s.x == cell.x
            &&& s.y == cell.y
            &&& cell.top is None ==> s.upper == absent
            &&& cell.bottom is None ==> s.lower == absent
            &&& cell.top is Some ==> stops.contains(s.upper)
            &&& cell.bottom is Some ==> stops.contains(s.lower)
            &&& 2 * (s.y - area.y) >= frames.len() ==> s.upper == absent && s.lower == absent
            &&& 2 * (s.y - area.y) + 1 >= frames.len() ==> s.lower == absent
        }),
{
    let cell = waterfall_rows(axes(frames), area, area.height as nat)[i];
    the_waterfall_fills_its_area_once(axes(frames), area, 0, 0);
    if let Some(s) = cell.top {
        a_ramp_spans_its_stops(stops, frames[s.frame as int].levels@[s.bin as int] as int);
    }
    if let Some(s) = cell.bottom {
        a_ramp_spans_its_stops(stops, frames[s.frame as int].levels@[s.bin as int] as int);
    }
}

/// The newest frame is shown on its own axis: with a column for each bin, the
/// first row of the waterfall shows bin `col` in column `col`, all across.
pub proof fn the_newest_frame_is_the_top_row(frames: Seq<FrameAxis>, area: Rect, col: int)
    requires
        area.fits(),
        area.height > 0,
        frames.len() > 0,
        area.width > 1,
        frames[0].bins == area.width,
        frames[0].span_hz > 0,
        0 <= col < area.width,
    ensures
        ({
            let cell = waterfall_rows(frames, area, area.height as nat)[col];
            &&& cell.x == area.x + col
            &&& cell.y == area.y
            &&& cell.top matches Some(s) && s.frame == 0 && s.bin == col
        }),
{
    a_cell_at(frames, area, area.height as nat, 0, col);
    assert((frames[0].center_hz - frames[0].center_hz) * area.width == 0 * frames[0].span_hz)
        by (nonlinear_arith);
    a_stationary_signal_holds_its_column(frames[0], frames[0], area.width, 0, col);
}

/// An older row is shifted by the whole number of columns that is nearest to
/// where its centre lies: off by no more than half a column, unless that is
/// further than a shift can say.
pub proof fn a_shift_is_off_by_half_a_column_at_most(
    center: u64,
    reference: FrameAxis,
    width: u16,
)
    requires
        reference.span_hz > 0,
        width > 0,
        i32::MIN < offset_columns(center, reference, width) < i32::MAX,
    ensures
        -(reference.span_hz as int) <= 2 * (offset_columns(center, reference, width)
            * reference.span_hz - (center - reference.center_hz) * width) <= reference.span_hz,
{
    let n = (center - reference.center_hz) * width;
    let d = reference.span_hz as int;
    let q = rounded(n, d);
    assert(-d <= 2 * (q * d - n) <= d) by {
        if n >= 0 {
            let e = (2 * n + d) / (2 * d);
            assert(-d <= 2 * (e * d - n) <= d) by (nonlinear_arith)
                requires
                    e == (2 * n + d) / (2 * d),
                    d > 0,
            ;
        } else {
            let e = (2 * (-n) + d) / (2 * d);
            assert(-d <= 2 * (e * d - (-n)) <= d) by (nonlinear_arith)
                requires
                    e == (2 * (-n) + d) / (2 * d),
                    d > 0,
            ;
            assert((-e) * d == -(e * d)) by (nonlinear_arith);
        }
    }
}

/// A column shows the bin nearest to it once the frame is shifted into place,
/// and shows nothing exactly where the shifted frame does not reach, or has no
/// bins: never a bin of another place.
pub proof fn a_column_shows_what_was_captured_there(
    frame: FrameAxis,
    reference: FrameAxis,
    col: int,
    width: u16,
    other: int,
)
    requires
        width > 1,
        0 <= col < width,
        0 <= other < frame.bins,
    ensures
        ({
            let at = col - offset_columns(frame.center_hz, reference, width);
            &&& sampled_bin(frame, reference, col, width) is None <==> at < 0 || at >= width
            &&& sampled_bin(frame, reference, col, width) matches Some(b) ==> {
                let near = b * (width - 1) - at * (frame.bins - 1);
                let far = other * (width - 1) - at * (frame.bins - 1);
                0 <= b < frame.bins && (if near < 0 {
                    -near
                } else {
                    near
                }) <= (if far < 0 {
                    -far
                } else {
                    far
                })
            }
        }),
{
    let at = col - offset_columns(frame.center_hz, reference, width);
    if 0 <= at < width {
        the_nearest_bin_is_sampled(frame.bins as int, at, width as int, other);
        let b = nearest_bin(frame.bins as int, at, width as int);
        assert(0 <= b) by {
            assert((2 * at * (frame.bins - 1) + (width - 1)) / (2 * (width - 1)) >= 0)
                by (nonlinear_arith)
                requires
                    at >= 0,
                    frame.bins >= 1,
                    width > 1,
            ;
        }
    }
}

/// A column of a trace stays in its place and shows exactly as much as it is
/// filled: its cells lie above each other in the column's place inside the
/// area, no two in one row, and a row has a cell exactly where the filling
/// reaches it.
pub proof fn a_column_shows_what_it_is_filled(
    filled: int,
    col: int,
    area: Rect,
    fg: Colour,
    row: int,
)
    requires
        area.fits(),
        0 <= col < area.width,
        0 <= row < area.height,
        filled >= 0,
    ensures
        ({
            let cells = column_cells(filled, col, area, fg, area.height as nat);
            let under = 8 * (area.height - 1 - row);
            &&& forall|i: int|
                0 <= i < cells.len() ==> {
                    let c = #[trigger] cells[i];
                    &&& c.x == area.x + col
                    &&& area.y <= c.y < area.y + area.height
                    &&& c.fg == fg
                }
            &&& (exists|i: int| 0 <= i < cells.len() && (#[trigger] cells[i]).y == area.y + row)
                <==> filled > under
            &&& forall|i: int|
                0 <= i < cells.len() && (#[trigger] cells[i]).y == area.y + row ==> cells[i].ch
                    == low_block(if filled - under > 8 {
                    8
                } else {
                    filled - under
                })
            &&& forall|i: int, j: int|
                0 <= i < j < cells.len() ==> (#[trigger] cells[i]).y < (#[trigger] cells[j]).y
        }),
{
    column_up_to(filled, col, area, fg, area.height as nat, row);
}

proof fn column_up_to(filled: int, col: int, area: Rect, fg: Colour, rows: nat, row: int)
    requires
        area.fits(),
        0 <= col < area.width,
        rows <= area.height,
        0 <= row < area.height,
        filled >= 0,
    ensures
        ({
            let cells = column_cells(filled, col, area, fg, rows);
            let under = 8 * (area.height - 1 - row);
            &&& forall|i: int|
                0 <= i < cells.len() ==> {
                    let c = #[trigger] cells[i];
                    &&& c.x == area.x + col
                    &&& area.y <= c.y < area.y + rows
                    &&& c.fg == fg
                }
            &&& (exists|i: int| 0 <= i < cells.len() && (#[trigger] cells[i]).y == area.y + row)
                <==> row < rows && filled > under
            &&& forall|i: int|
                0 <= i < cells.len() && (#[trigger] cells[i]).y == area.y + row ==> cells[i].ch
                    == low_block(if filled - under > 8 {
                    8
                } else {
                    filled - under
                })
            &&& forall|i: int, j: int|
                0 <= i < j < cells.len() ==> (#[trigger] cells[i]).y < (#[trigger] cells[j]).y
        }),
    decreases rows,
{
    if rows > 0 {
        column_up_to(filled, col, area, fg, (rows - 1) as nat, row);
        let before = column_cells(filled, col, area, fg, (rows - 1) as nat);
        let cells = column_cells(filled, col, area, fg, rows);
        let last = rows - 1;
        let level = column_level(filled, area.height as int, last);
        if level > 0 {
            assert(cells.last().y == area.y + last);
            assert forall|i: int| 0 <= i < before.len() implies cells[i] == before[i] by {}
            if row == last {
                assert(cells[cells.len() - 1].y == area.y + row);
            } else if row < last && filled > 8 * (area.height - 1 - row) {
                let i = choose|i: int|
                    0 <= i < before.len() && (#[trigger] before[i]).y == area.y + row;
                assert(cells[i].y == area.y + row);
            }
        }
    }
}

/// A block stands for its eighths: no two heights look alike, an empty one is
/// blank, and from one eighth to eight the blocks stand in the order of their
/// characters.
pub proof fn blocks_are_told_apart(a: int, b: int)
    requires
        0 <= a < b <= 8,
    ensures
        low_block(a) != low_block(b),
        low_block(0) == ' ',
        1 <= a ==> low_block(b) as int - low_block(a) as int == b - a,
        low_block(8) == '█',
{
}

/// The trace is drawn column by column: in column `col` of the area it shows
/// the intensity of the bin that the column samples, in eighths of the area's
/// height, and nothing of any other bin.
pub proof fn a_trace_column_shows_its_bin(levels: Seq<i64>, area: Rect, fg: Colour, col: int)
    requires
        area.fits(),
        levels.len() > 0,
        0 <= col < area.width,
        levels.len() == area.width,
        area.width > 1,
    ensures
        ({
            let cells = trace_cells(fills(levels, area), area, fg, area.width as nat);
            let filled = steps_of(levels[col] as int, area.height * 8);
            &&& forall|i: int|
                0 <= i < cells.len() ==> area.x <= (#[trigger] cells[i]).x < area.x + area.width
                    && area.y <= cells[i].y < area.y + area.height
            &&& forall|row: int|
                #![trigger row * 8]
                0 <= row < area.height ==> ((exists|i: int|
                    0 <= i < cells.len() && (#[trigger] cells[i]).x == area.x + col && cells[i].y
                        == area.y + row) <==> filled > 8 * (area.height - 1) - row * 8)
        }),
{
    let w = area.width as int;
    let cells = trace_cells(fills(levels, area), area, fg, area.width as nat);
    let filled = steps_of(levels[col] as int, area.height * 8);
    assert(nearest_bin(w, col, w) == col) by {
        assert((2 * col * (w - 1) + (w - 1)) / (2 * (w - 1)) == col) by (nonlinear_arith)
            requires
                w > 1,
                col >= 0,
        ;
    }
    steps_follow_the_intensity(levels[col] as int, levels[col] as int, area.height * 8);
    assert forall|c: int| 0 <= c < w implies 0 <= #[trigger] fills(levels, area)[c] by {}
    trace_up_to(fills(levels, area), area, fg, area.width as nat, col);
    assert(fills(levels, area)[col] == filled);
    assert forall|row: int|
        #![trigger row * 8]
        0 <= row < area.height implies ((exists|i: int|
            0 <= i < cells.len() && (#[trigger] cells[i]).x == area.x + col && cells[i].y == area.y
                + row) <==> filled > 8 * (area.height - 1) - row * 8) by {
        a_column_shows_what_it_is_filled(filled, col, area, fg, row);
        let own = column_cells(filled, col, area, fg, area.height as nat);
        if filled > 8 * (area.height - 1) - row * 8 {
            let k = choose|k: int| 0 <= k < own.len() && (#[trigger] own[k]).y == area.y + row;
            assert(own[k].x == area.x + col);
            assert(own.contains(own[k]));
            assert(cells.contains(own[k]));
            let i = choose|i: int| 0 <= i < cells.len() && cells[i] == own[k];
            assert(cells[i].x == area.x + col && cells[i].y == area.y + row);
        }
        if exists|i: int|
            0 <= i < cells.len() && (#[trigger] cells[i]).x == area.x + col && cells[i].y == area.y
                + row {
            let i = choose|i: int|
                0 <= i < cells.len() && (#[trigger] cells[i]).x == area.x + col && cells[i].y
                    == area.y + row;
            assert(own.contains(cells[i]));
            let k = choose|k: int| 0 <= k < own.len() && own[k] == cells[i];
            assert(own[k].y == area.y + row);
        }
    }
}

/// The cells of a trace: all inside the area, and those in the place of one
/// column are that column's.
proof fn trace_up_to(filled: Seq<u32>, area: Rect, fg: Colour, cols: nat, col: int)
    requires
        area.fits(),
        cols <= area.width,
        0 <= col < area.width,
        filled.len() == area.width,
    ensures
        ({
            let cells = trace_cells(filled, area, fg, cols);
            let own = column_cells(filled[col] as int, col, area, fg, area.height as nat);
            &&& forall|i: int|
                0 <= i < cells.len() ==> area.x <= (#[trigger] cells[i]).x < area.x + cols
                    && area.y <= cells[i].y < area.y + area.height
            &&& forall|i: int|
                0 <= i < cells.len() && (#[trigger] cells[i]).x == area.x + col ==> own.contains(
                    cells[i],
                )
            &&& col < cols ==> forall|c: Cell| #[trigger] own.contains(c) ==> cells.contains(c)
        }),
    decreases cols,
{
    if cols > 0 {
        trace_up_to(filled, area, fg, (cols - 1) as nat, col);
        let before = trace_cells(filled, area, fg, (cols - 1) as nat);
        let more = column_cells(filled[cols - 1] as int, cols - 1, area, fg, area.height as nat);
        let cells = trace_cells(filled, area, fg, cols);
        let own = column_cells(filled[col] as int, col, area, fg, area.height as nat);
        if area.height > 0 {
            a_column_shows_what_it_is_filled(filled[cols - 1] as int, cols - 1, area, fg, 0);
        }
        assert forall|i: int| 0 <= i < cells.len() implies area.x <= (#[trigger] cells[i]).x
            < area.x + cols && area.y <= cells[i].y < area.y + area.height by {
            if i < before.len() {
                assert(cells[i] == before[i]);
            } else {
                assert(cells[i] == more[i - before.len()]);
            }
        }
        assert forall|i: int|
            0 <= i < cells.len() && (#[trigger] cells[i]).x == area.x + col implies own.contains(
            cells[i],
        ) by {
            if i < before.len() {
                assert(cells[i] == before[i]);
            } else {
                assert(cells[i] == more[i - before.len()]);
                assert(more.contains(cells[i]));
            }
        }
        if col < cols {
            assert forall|c: Cell| #[trigger] own.contains(c) implies cells.contains(c) by {
                if col == cols - 1 {
                    let k = choose|k: int| 0 <= k < own.len() && own[k] == c;
                    assert(cells[before.len() + k] == c);
                } else {
                    assert(before.contains(c));
                    let k = choose|k: int| 0 <= k < before.len() && before[k] == c;
                    assert(cells[k] == c);
                }
            }
        }
    }
}

/// A panel of one column, or none, shows the first bin.
pub proof fn a_single_column_shows_the_first_bin(bins: int, col: int, width: int)
    requires
        width <= 1,
    ensures
        nearest_bin(bins, col, width) == 0,
{
}

/// A sample is one that there is: of one of the frames, and of one of its bins.
pub proof fn a_sample_names_a_bin_of_a_frame(s: Sample, frames: Seq<FrameAxis>)
    ensures
        is_bin_of(Some(s), frames) <==> !(s.frame >= frames.len()) && !(s.bin
            >= frames[s.frame as int].bins),
        is_bin_of(None, frames),
{
}

} // verus!
