//! Meter bars and the meter rail.
//!
//! A bar is filled to a level counted in eighths of a cell.

use crate::text::decimal;
use crate::text::push_decimal;
use crate::text::push_text;
use crate::text::repeated;
use crate::text::text;
use crate::ui::geometry::Rect;
use crate::ui::intensity::steps;
use crate::ui::intensity::steps_of;
use crate::ui::style::spans_view;
use crate::ui::style::Colour;
use crate::ui::style::Line;
use crate::ui::style::Span;
use crate::ui::style::Style;
use vstd::prelude::*;
use vstd::string::*;

verus! {

/// A block that fills its cell from the left, in eighths.
pub open spec fn left_block(level: int) -> char {
    if level == 1 {
        '▏'
    } else if level == 2 {
        '▎'
    } else if level == 3 {
        '▍'
    } else if level == 4 {
        '▌'
    } else if level == 5 {
        '▋'
    } else if level == 6 {
        '▊'
    } else if level == 7 {
        '▉'
    } else {
        '█'
    }
}

/// A block that fills its cell from the left, in eighths.
pub fn horizontal_block(level: usize) -> (r: char)
    ensures
        r == left_block(level as int),
{
    match level {
        1 => '▏',
        2 => '▎',
        3 => '▍',
        4 => '▌',
        5 => '▋',
        6 => '▊',
        7 => '▉',
        _ => '█',
    }
}

/// How many eighths of a cell are filled that begins `base` eighths into a
/// column of which `filled` are.
pub open spec fn cell_level(filled: int, base: int) -> int {
    if filled <= base {
        0
    } else if filled - base >= 8 {
        8
    } else {
        filled - base
    }
}

/// How many eighths of a cell are filled.
pub fn level_in_cell(filled: u32, base: u32) -> (r: usize)
    ensures
        r == cell_level(filled as int, base as int),
{
    if filled <= base {
        0
    } else if filled - base >= 8 {
        8
    } else {
        (filled - base) as usize
    }
}

/// How many cells of a bar are filled at least in part.
pub open spec fn drawn_cells(filled: int, width: int) -> int {
    if filled >= width * 8 {
        width
    } else {
        (filled + 7) / 8
    }
}

/// The filled part of a bar.
pub open spec fn drawn_text(filled: int, width: int) -> Seq<char> {
    Seq::new(
        drawn_cells(filled, width) as nat,
        |col: int| left_block(cell_level(filled, col * 8)),
    )
}

/// The empty part of a bar.
pub open spec fn trough_text(filled: int, width: int) -> Seq<char> {
    repeated('░', width - drawn_cells(filled, width))
}

/// The two parts of a bar: what is filled, then the trough. Together they are
/// always as wide as asked for.
pub fn bar_halves(filled: u32, width: u16) -> (r: (String, String))
    ensures
        r.0@ == drawn_text(filled as int, width as int),
        r.1@ == trough_text(filled as int, width as int),
{
    let mut drawn = String::new();
    let mut trough = String::new();
    let ghost full = drawn_text(filled as int, width as int);
    let ghost count = drawn_cells(filled as int, width as int);
    let mut col: u16 = 0;
    while col < width
        invariant
            col <= width,
            count == drawn_cells(filled as int, width as int),
            full == drawn_text(filled as int, width as int),
            drawn@ == full.take(
                if (col as int) < count {
                    col as int
                } else {
                    count
                },
            ),
            trough@ == repeated('░', col - count),
        decreases width - col,
    {
        let level: usize = level_in_cell(filled, col as u32 * 8);
        if level == 0 {
            trough.push('░');
        } else {
            drawn.push(horizontal_block(level));
        }
        col += 1;
        assert(trough@ =~= repeated('░', col - count));
        assert(drawn@ =~= full.take(
            if (col as int) < count {
                col as int
            } else {
                count
            },
        ));
    }
    assert(full.take(count) =~= full);
    (drawn, trough)
}

/// The two halves of a bar are exactly as wide as the bar, and no trough
/// stands before a filled cell.
pub proof fn a_bar_is_as_wide_as_asked(filled: nat, width: nat)
    ensures
        drawn_text(filled as int, width as int).len() + trough_text(
            filled as int,
            width as int,
        ).len() == width,
        forall|col: int|
            0 <= col < drawn_text(filled as int, width as int).len() ==> drawn_text(
                filled as int,
                width as int,
            )[col] != '░',
{
}

/// A character to be written at a cell.
#[derive(Debug, Clone, Copy, PartialEq, Eq, Structural)]
pub struct Cell {
    pub x: u16,
    pub y: u16,
    pub ch: char,
    pub fg: Colour,
}

/// The cell of a bar at a column.
pub open spec fn bar_cell(
    filled: int,
    area: Rect,
    fill: Colour,
    empty: Colour,
    col: int,
) -> Cell {
    let level = cell_level(filled, col * 8);
    Cell {
        x: (area.x + col) as u16,
        y: area.y,
        ch: if level == 0 {
            '░'
        } else {
            left_block(level)
        },
        fg: if level == 0 {
            empty
        } else {
            fill
        },
    }
}

/// A reading of a meter, with the range it is in.
#[derive(Debug, Clone, Copy, PartialEq, Eq, Structural)]
pub struct MeterReading {
    pub raw: u16,
    pub min: u16,
    pub max: u16,
}

/// A reading, held within its range.
pub open spec fn held_raw(r: MeterReading) -> int {
    if r.raw < r.min {
        r.min as int
    } else if r.raw > r.max {
        r.max as int
    } else {
        r.raw as int
    }
}

/// How many eighths of a cell a reading fills of a bar: its share of its own
/// range, to the nearest eighth. A range without extent fills nothing.
pub open spec fn filled_eighths(r: MeterReading, width: int) -> int {
    if r.max <= r.min {
        0
    } else {
        let span = r.max - r.min;
        (2 * ((held_raw(r) - r.min) * (8 * width)) + span) / (2 * span)
    }
}

/// How many eighths of a cell a reading fills of a bar. The range travels with
/// the reading, so that the same raw value fills differently on radios with
/// different meters.
pub fn bar_fill(reading: MeterReading, width: u16) -> (r: u32)
    ensures
        r == filled_eighths(reading, width as int),
        r <= 8 * width,
{
    if reading.max <= reading.min {
        return 0;
    }
    let raw: u64 = if reading.raw < reading.min {
        reading.min as u64
    } else if reading.raw > reading.max {
        reading.max as u64
    } else {
        reading.raw as u64
    };
    let span: u64 = (reading.max - reading.min) as u64;
    let above: u64 = raw - reading.min as u64;
    let eighths: u64 = 8 * (width as u64);
    proof {
        assert(0 <= above * eighths <= span * eighths) by (nonlinear_arith)
            requires
                0 <= above <= span,
                0 <= eighths,
        ;
        assert(span * eighths <= 0xffff * (8 * 0xffff)) by (nonlinear_arith)
            requires
                0 <= span <= 0xffff,
                0 <= eighths <= 8 * 0xffff,
        ;
        assert((2 * (above * eighths) + span) / (2 * span) <= eighths) by (nonlinear_arith)
            requires
                0 <= above * eighths <= span * eighths,
                0 < span,
        ;
    }
    ((2 * (above * eighths) + span) / (2 * span)) as u32
}

/// A reading at the bottom of its range fills nothing, one at or above the top
/// fills the bar, and a higher reading never fills less.
pub proof fn a_bar_follows_its_reading(low: MeterReading, high: MeterReading, width: int)
    requires
        low.min == high.min,
        low.max == high.max,
        low.min < low.max,
        low.raw <= high.raw,
        0 <= width,
    ensures
        low.raw <= low.min ==> filled_eighths(low, width) == 0,
        high.raw >= high.max ==> filled_eighths(high, width) == 8 * width,
        filled_eighths(low, width) <= filled_eighths(high, width),
{
    let span = low.max - low.min;
    let a = (held_raw(low) - low.min) * (8 * width);
    let b = (held_raw(high) - high.min) * (8 * width);
    assert(a <= b) by (nonlinear_arith)
        requires
            a == (held_raw(low) - low.min) * (8 * width),
            b == (held_raw(high) - high.min) * (8 * width),
            held_raw(low) <= held_raw(high),
            low.min == high.min,
            0 <= width,
    ;
    assert((2 * a + span) / (2 * span) <= (2 * b + span) / (2 * span)) by (nonlinear_arith)
        requires
            a <= b,
            0 < span,
    ;
    if low.raw <= low.min {
        assert(a == 0) by (nonlinear_arith)
            requires
                a == (held_raw(low) - low.min) * (8 * width),
                held_raw(low) == low.min,
        ;
        assert(span / (2 * span) == 0) by (nonlinear_arith)
            requires
                0 < span,
        ;
    }
    if high.raw >= high.max {
        assert(b == span * (8 * width));
        assert((2 * (span * (8 * width)) + span) / (2 * span) == 8 * width) by (nonlinear_arith)
            requires
                0 < span,
        ;
    }
}

/// The spans of a bar.
pub open spec fn bar_of(filled: int, width: int, fill: Style, empty: Style) -> Seq<
    (Seq<char>, Style),
> {
    seq![(drawn_text(filled, width), fill), (trough_text(filled, width), empty)]
}

fn filled_spans(filled: u32, width: u16, fill: Style, empty: Style) -> (r: Vec<Span>)
    ensures
        spans_view(r@) == bar_of(filled as int, width as int, fill, empty),
{
    let (drawn, trough) = bar_halves(filled, width);
    let mut r: Vec<Span> = Vec::new();
    r.push(Span::styled(drawn, fill));
    r.push(Span::styled(trough, empty));
    assert(spans_view(r@) =~= bar_of(filled as int, width as int, fill, empty));
    r
}

/// A bar as two styled spans: `fraction` of it, an intensity, is filled. Not
/// every bar is a meter; a meter's bar is [`meter_spans`].
pub fn bar_spans(fraction: i64, width: u16, fill: Style, empty: Style) -> (r: Vec<Span>)
    ensures
        spans_view(r@) == bar_of(
            steps_of(fraction as int, 8 * width as int),
            width as int,
            fill,
            empty,
        ),
{
    filled_spans(steps(fraction, 8 * width as u32), width, fill, empty)
}

/// A meter's bar as two styled spans: the reading's own range does the scaling.
pub fn meter_spans(reading: MeterReading, width: u16, fill: Style, empty: Style) -> (r: Vec<Span>)
    ensures
        spans_view(r@) == bar_of(filled_eighths(reading, width as int), width as int, fill, empty),
{
    filled_spans(bar_fill(reading, width), width, fill, empty)
}

/// A meter as a bar of cells, along the top row of its area. An empty area has
/// none. The range travels with the reading, so that the same raw value fills
/// differently on radios with different meters.
pub fn meter_bar(reading: MeterReading, area: Rect, fill: Colour, empty: Colour) -> (r: Vec<Cell>)
    requires
        area.fits(),
    ensures
        area.height == 0 ==> r@.len() == 0,
        area.height > 0 ==> r@ == Seq::new(
            area.width as nat,
            |col: int|
                bar_cell(
                    filled_eighths(reading, area.width as int),
                    area,
                    fill,
                    empty,
                    col,
                ),
        ),
{
    let mut cells: Vec<Cell> = Vec::new();
    let filled: u32 = bar_fill(reading, area.width);
    if area.width == 0 || area.height == 0 {
        assert(cells@ =~= Seq::new(
            0,
            |col: int| bar_cell(filled as int, area, fill, empty, col),
        ));
        return cells;
    }
    let mut col: u16 = 0;
    while col < area.width
        invariant
            col <= area.width,
            area.fits(),
            filled == filled_eighths(reading, area.width as int),
            cells@ == Seq::new(
                col as nat,
                |col: int|
                    bar_cell(
                        filled_eighths(reading, area.width as int),
                        area,
                        fill,
                        empty,
                        col,
                    ),
            ),
        decreases area.width - col,
    {
        let level: usize = level_in_cell(filled, col as u32 * 8);
        let cell = if level == 0 {
            Cell { x: area.x + col, y: area.y, ch: '░', fg: empty }
        } else {
            Cell { x: area.x + col, y: area.y, ch: horizontal_block(level), fg: fill }
        };
        cells.push(cell);
        col += 1;
        assert(cells@ =~= Seq::new(
            col as nat,
            |col: int|
                bar_cell(
                    filled_eighths(reading, area.width as int),
                    area,
                    fill,
                    empty,
                    col,
                ),
        ));
    }
    cells
}

/// A bar drawn into cells and one built as spans show the same characters.
pub proof fn both_bars_are_the_same_bar(
    filled: nat,
    area: Rect,
    fill: Colour,
    empty: Colour,
    col: int,
)
    requires
        0 <= col < area.width,
    ensures
        bar_cell(filled as int, area, fill, empty, col).ch == (drawn_text(
            filled as int,
            area.width as int,
        ) + trough_text(filled as int, area.width as int))[col],
{
}

/// The spans of an S-meter readout: its label, and the raw value beside it.
pub open spec fn smeter_spans(
    reading: Option<(Seq<char>, MeterReading)>,
    label_style: Style,
    dim: Style,
) -> Seq<(Seq<char>, Style)> {
    match reading {
        None => seq![("—"@, dim), ("  no reading yet"@, dim)],
        Some((label, r)) => seq![
            (label, label_style),
            ("  "@ + decimal(r.raw as nat) + "/"@ + decimal(r.max as nat), dim),
        ],
    }
}

/// A one-line S-meter readout. The raw value stands beside the label: that is
/// what makes a miscalibrated meter diagnosable rather than merely wrong.
pub fn smeter_line(
    reading: Option<(String, MeterReading)>,
    label_style: Style,
    dim: Style,
) -> (r: Line)
    ensures
        r@ == smeter_spans(
            match reading {
                Some((label, m)) => Some((label@, m)),
                None => None,
            },
            label_style,
            dim,
        ),
{
    match reading {
        None => Line::two(Span::of("—", dim), Span::of("  no reading yet", dim)),
        Some((label, r)) => {
            let mut value = text("  ");
            push_decimal(&mut value, r.raw as u64);
            push_text(&mut value, "/");
            push_decimal(&mut value, r.max as u64);
            Line::two(Span::styled(label, label_style), Span::styled(value, dim))
        },
    }
}

/// The styles a meter rail picks from.
#[derive(Debug, Clone, Copy, PartialEq, Eq, Structural)]
pub struct MeterStyles {
    /// A meter that is reading now.
    pub active: Style,
    /// A meter the radio has, that is inert in this state. It keeps its row.
    pub inactive: Style,
    pub fill: Colour,
    pub empty: Colour,
}

/// A meter of the rail.
#[derive(Debug, PartialEq, Eq)]
pub struct RailMeter {
    pub name: String,
    pub reading: Option<MeterReading>,
    pub active: bool,
}

/// A bar of the rail: where it is, and what it shows.
#[derive(Debug, Clone, Copy, PartialEq, Eq, Structural)]
pub struct RailBar {
    pub area: Rect,
    pub reading: MeterReading,
    pub fill: Colour,
    pub empty: Colour,
}

/// A row of the rail: a name and, where there is room, a bar.
#[derive(Debug, PartialEq, Eq)]
pub struct RailRow {
    pub x: u16,
    pub y: u16,
    pub name: String,
    pub style: Style,
    pub bar: Option<RailBar>,
}

impl RailBar {
    /// The cells of the bar.
    pub fn cells(&self) -> (r: Vec<Cell>)
        requires
            self.area.fits(),
        ensures
            self.area.height == 0 ==> r@.len() == 0,
            self.area.height > 0 ==> r@ == Seq::new(
                self.area.width as nat,
                |col: int|
                    bar_cell(
                        filled_eighths(self.reading, self.area.width as int),
                        self.area,
                        self.fill,
                        self.empty,
                        col,
                    ),
            ),
    {
        meter_bar(self.reading, self.area, self.fill, self.empty)
    }
}

/// What an inert meter shows: nothing of a range.
pub open spec fn inert_reading() -> MeterReading {
    MeterReading { raw: 0, min: 0, max: 1 }
}

/// The bar of a meter in a row: its reading where it is active, else an empty
/// trough, so that the row still reads as a meter.
pub open spec fn rail_bar(
    reading: Option<MeterReading>,
    active: bool,
    area: Rect,
    y: int,
    label_width: u16,
    styles: MeterStyles,
) -> Option<RailBar> {
    if label_width >= area.width {
        None
    } else {
        let reads = reading is Some && active;
        Some(
            RailBar {
                area: Rect {
                    x: (area.x + label_width) as u16,
                    y: y as u16,
                    width: (area.width - label_width) as u16,
                    height: 1,
                },
                reading: if reads {
                    reading->0
                } else {
                    inert_reading()
                },
                fill: if reads {
                    styles.fill
                } else {
                    styles.empty
                },
                empty: styles.empty,
            },
        )
    }
}

/// Whether `row` is the row of a meter.
pub open spec fn is_rail_row(
    row: RailRow,
    meter: RailMeter,
    i: int,
    area: Rect,
    label_width: u16,
    styles: MeterStyles,
) -> bool {
    &&& row.x == area.x
    &&& row.y == area.y + i
    &&& row.name@ == meter.name@
    &&& row.style == (if meter.active {
        styles.active
    } else {
        styles.inactive
    })
    &&& row.bar == rail_bar(meter.reading, meter.active, area, area.y + i, label_width, styles)
}

/// How many rows of a rail have room.
pub open spec fn rail_rows(len: nat, height: u16) -> nat {
    if len <= height {
        len
    } else {
        height as nat
    }
}

/// A stack of meters, one per row. An inert meter keeps its row, dimmed, so
/// that the panel does not jump when the radio is keyed.
pub fn meter_rail(
    meters: &Vec<RailMeter>,
    area: Rect,
    label_width: u16,
    styles: MeterStyles,
) -> (r: Vec<RailRow>)
    requires
        area.fits(),
    ensures
        r@.len() == rail_rows(meters@.len(), area.height),
        forall|i: int|
            0 <= i < r@.len() ==> is_rail_row(
                #[trigger] r@[i],
                meters@[i],
                i,
                area,
                label_width,
                styles,
            ),
{
    let mut rows: Vec<RailRow> = Vec::new();
    let mut i: u16 = 0;
    while (i as usize) < meters.len() && i < area.height
        invariant
            i <= meters@.len(),
            i <= area.height,
            area.fits(),
            rows@.len() == i,
            forall|j: int|
                0 <= j < rows@.len() ==> is_rail_row(
                    #[trigger] rows@[j],
                    meters@[j],
                    j,
                    area,
                    label_width,
                    styles,
                ),
        decreases area.height - i,
    {
        let meter = &meters[i as usize];
        let y: u16 = area.y + i;
        let bar: Option<RailBar> = if label_width >= area.width {
            None
        } else {
            let place = Rect {
                x: area.x + label_width,
                y,
                width: area.width - label_width,
                height: 1,
            };
            match (meter.reading, meter.active) {
                (Some(reading), true) => Some(
                    RailBar { area: place, reading, fill: styles.fill, empty: styles.empty },
                ),
                _ => Some(
                    RailBar {
                        area: place,
                        reading: MeterReading { raw: 0, min: 0, max: 1 },
                        fill: styles.empty,
                        empty: styles.empty,
                    },
                ),
            }
        };
        let style = if meter.active {
            styles.active
        } else {
            styles.inactive
        };
        rows.push(RailRow { x: area.x, y, name: meter.name.clone(), style, bar });
        i += 1;
    }
    rows
}

/// A reading fills its own share of the bar, to the nearest eighth of a cell:
/// off by no more than half an eighth.
pub proof fn a_bar_shows_its_share(reading: MeterReading, width: int)
    requires
        reading.min < reading.max,
        reading.min <= reading.raw <= reading.max,
        0 <= width,
    ensures
        ({
            let span = reading.max - reading.min;
            let off = filled_eighths(reading, width) * span - (reading.raw - reading.min) * (8
                * width);
            -span <= 2 * off <= span
        }),
{
    let span = reading.max - reading.min;
    let n = (reading.raw - reading.min) * (8 * width);
    let q = (2 * n + span) / (2 * span);
    assert(-span <= 2 * (q * span - n) <= span) by (nonlinear_arith)
        requires
            q == (2 * n + span) / (2 * span),
            span > 0,
    ;
}

/// A bar is filled from the left: a cell that the filling covers is full, one
/// that it does not reach is trough, and the one where it ends shows how far.
/// Cell `col` stands in column `col` of the bar's row.
pub proof fn a_bar_fills_from_the_left(
    filled: int,
    area: Rect,
    fill: Colour,
    empty: Colour,
    col: int,
)
    requires
        area.fits(),
        0 <= filled,
        0 <= col < area.width,
    ensures
        ({
            let cell = bar_cell(filled, area, fill, empty, col);
            &&& cell.x == area.x + col
            &&& cell.y == area.y
            &&& filled >= 8 * col + 8 ==> cell.ch == '█' && cell.fg == fill
            &&& filled <= 8 * col ==> cell.ch == '░' && cell.fg == empty
            &&& 8 * col < filled < 8 * col + 8 ==> cell.ch as int == 0x2590 - (filled - 8 * col)
                && cell.fg == fill
        }),
{
}

/// As text, a bar is filled the same way: as many full blocks as the filling
/// covers cells, then the one it ends in, then nothing but trough.
pub proof fn a_bar_of_text_fills_from_the_left(filled: int, width: int, col: int)
    requires
        0 <= filled <= 8 * width,
        0 <= col < width,
    ensures
        ({
            let text = drawn_text(filled, width) + trough_text(filled, width);
            &&& text.len() == width
            &&& filled >= 8 * col + 8 ==> text[col] == '█'
            &&& filled <= 8 * col ==> text[col] == '░'
            &&& 8 * col < filled < 8 * col + 8 ==> text[col] as int == 0x2590 - (filled - 8 * col)
            &&& col < drawn_text(filled, width).len() <==> filled > 8 * col
        }),
{
}

/// The row of a meter lies in the rail, its bar behind the label and up to the
/// rail's right edge, or there is none where the label leaves no room. It shows
/// the meter's own reading while the meter is active, and nothing but trough
/// otherwise.
pub proof fn a_rail_row_stays_in_the_rail(
    row: RailRow,
    meter: RailMeter,
    i: int,
    area: Rect,
    label_width: u16,
    styles: MeterStyles,
    width: int,
)
    requires
        area.fits(),
        0 <= i < area.height,
        is_rail_row(row, meter, i, area, label_width, styles),
        0 <= width,
    ensures
        row.x == area.x,
        area.y <= row.y < area.y + area.height,
        row.y - area.y == i,
        row.name@ == meter.name@,
        row.bar is None <==> label_width >= area.width,
        row.bar matches Some(bar) ==> {
            &&& bar.area.y == row.y
            &&& bar.area.height == 1
            &&& bar.area.x == area.x + label_width
            &&& bar.area.x + bar.area.width == area.x + area.width
            &&& meter.active && meter.reading is Some ==> bar.reading == meter.reading->0
                && bar.fill == styles.fill
            &&& !meter.active || meter.reading is None ==> filled_eighths(bar.reading, width) == 0
            &&& bar.empty == styles.empty
        },
        meter.active ==> row.style == styles.active,
        !meter.active ==> row.style == styles.inactive,
{
    assert((2 * ((0 - 0) * (8 * width)) + 1) / 2 == 0) by (nonlinear_arith);
}

/// A readout without a reading has no number in it, and one with a reading
/// shows its label and, behind it, the raw value before the slash and the top
/// of its range after it.
pub proof fn a_raw_value_stands_beside_its_label(
    label: Seq<char>,
    reading: MeterReading,
    label_style: Style,
    dim: Style,
)
    ensures
        ({
            let r = smeter_spans(Some((label, reading)), label_style, dim);
            let raw = decimal(reading.raw as nat);
            &&& r.len() == 2
            &&& r[0] == (label, label_style)
            &&& r[1].1 == dim
            &&& r[1].0.subrange(2, 2 + raw.len() as int) == raw
            &&& r[1].0[2 + raw.len() as int] == '/'
            &&& r[1].0.skip(3 + raw.len() as int) == decimal(reading.max as nat)
        }),
        crate::text::no_digits(smeter_spans(None, label_style, dim)[0].0),
        crate::text::no_digits(smeter_spans(None, label_style, dim)[1].0),
{
    reveal_strlit("—");
    reveal_strlit("  no reading yet");
    reveal_strlit("  ");
    reveal_strlit("/");
    let raw = decimal(reading.raw as nat);
    let r = smeter_spans(Some((label, reading)), label_style, dim);
    assert(r[1].0.subrange(2, 2 + raw.len() as int) =~= raw);
    assert(r[1].0.skip(3 + raw.len() as int) =~= decimal(reading.max as nat));
}

/// A rail has a row for every meter, as far as it is high.
pub proof fn a_rail_has_a_row_for_every_meter(len: nat, height: u16)
    ensures
        len < height ==> rail_rows(len, height) == len,
        len >= height ==> rail_rows(len, height) == height,
{
}

/// A reading outside its range fills nothing below it and the whole bar above
/// it; a range without extent fills nothing.
pub proof fn a_bar_stops_at_its_ends(reading: MeterReading, width: int)
    requires
        0 <= width,
    ensures
        reading.max <= reading.min ==> filled_eighths(reading, width) == 0,
        reading.min < reading.max && reading.raw <= reading.min ==> filled_eighths(reading, width)
            == 0,
        reading.min < reading.max && reading.raw >= reading.max ==> filled_eighths(reading, width)
            == 8 * width,
{
    if reading.min < reading.max {
        let span = reading.max - reading.min;
        if reading.raw <= reading.min {
            assert((2 * (0 * (8 * width)) + span) / (2 * span) == 0) by (nonlinear_arith)
                requires
                    span > 0,
            ;
        }
        if reading.raw >= reading.max {
            assert((2 * (span * (8 * width)) + span) / (2 * span) == 8 * width)
                by (nonlinear_arith)
                requires
                    span > 0,
                    width >= 0,
            ;
        }
    }
}

} // verus!
