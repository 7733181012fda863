//! The monitoring rail: meters, requests in flight, audio.

use crate::text::a_written_number_reads_back;
use crate::text::decimal;
use crate::text::no_digits;
use crate::text::number_behind;
use crate::text::push_decimal;
use crate::text::read_number;
use crate::text::text;
use crate::tui::af::af_header;
use crate::tui::af::header_spans;
use crate::tui::af::AudioState;
use crate::tui::console::facts::DIM;
use crate::tui::console::facts::SETTING;
use crate::tui::console::model::read_s_meter;
use crate::tui::console::model::s_reading;
use crate::tui::console::model::Capabilities;
use crate::tui::console::model::ConsoleView;
use crate::tui::console::model::RadioDisplay;
use crate::tui::console::regions::two_parts;
use crate::tui::draw::draws;
use crate::tui::draw::push_draw;
use crate::tui::draw::push_line_in;
use crate::tui::draw::push_text_at;
use crate::tui::draw::Draw;
use crate::tui::draw::DrawView;
use crate::tui::meter::meter_rail;
use crate::tui::meter::rail_bar;
use crate::tui::meter::MeterReading;
use crate::tui::meter::MeterStyles;
use crate::tui::meter::RailMeter;
use crate::ui::geometry::extent;
use crate::ui::geometry::holds_cell;
use crate::ui::geometry::lies_in;
use crate::ui::geometry::split_area;
use crate::ui::geometry::splits;
use crate::ui::geometry::start;
use crate::ui::geometry::Constraint;
use crate::ui::geometry::Direction;
use crate::ui::geometry::Rect;
use crate::ui::geometry::total_amount;
use crate::ui::style::bold_ink;
use crate::ui::style::inked;
use crate::ui::style::Colour;
use crate::ui::style::Line;
use crate::ui::style::Span;
use crate::ui::style::Style;
use vstd::prelude::*;
use vstd::string::*;

verus! {

/// The ink of audio panels: radio frequency is in colour, audio is not.
pub const AF_INK: Colour = Colour::White;

/// Columns before a meter's bar.
pub const METER_LABEL_W: u16 = 4;

/// Rows the meter bars take, one per meter.
pub const METER_ROWS: u16 = 4;

/// The four meters: name, reading, whether it is active. A transmit meter
/// during reception keeps its row.
pub open spec fn meter_of(radio: RadioDisplay, caps: Capabilities, i: int) -> (
    Seq<char>,
    Option<MeterReading>,
    bool,
) {
    if i == 0 {
        ("S"@, s_reading(caps, radio.smeter), !radio.tx)
    } else if i == 1 {
        ("PO"@, None, radio.tx)
    } else if i == 2 {
        ("SWR"@, None, radio.tx)
    } else {
        ("ALC"@, None, radio.tx)
    }
}

pub open spec fn rail_styles() -> MeterStyles {
    MeterStyles {
        active: inked(Colour::White),
        inactive: inked(DIM),
        fill: Colour::Green,
        empty: DIM,
    }
}

/// The pieces of one meter: its name, and its bar where there is room.
pub open spec fn meter_draws(radio: RadioDisplay, caps: Capabilities, area: Rect, i: int) -> Seq<
    DrawView,
> {
    let (name, reading, active) = meter_of(radio, caps, i);
    let label = seq![
        DrawView::Text(
            area.x,
            (area.y + i) as u16,
            name,
            if active {
                rail_styles().active
            } else {
                rail_styles().inactive
            },
        ),
    ];
    match rail_bar(reading, active, area, area.y + i, METER_LABEL_W, rail_styles()) {
        Some(bar) => label.push(DrawView::Bar(bar)),
        None => label,
    }
}

/// The pieces of the first `count` meters.
pub open spec fn meters_draws(
    radio: RadioDisplay,
    caps: Capabilities,
    area: Rect,
    count: nat,
) -> Seq<DrawView>
    decreases count,
{
    if count == 0 {
        seq![]
    } else {
        meters_draws(radio, caps, area, (count - 1) as nat) + meter_draws(
            radio,
            caps,
            area,
            count - 1,
        )
    }
}

/// The pieces of the meter bars: as many as there is room for.
pub open spec fn bars_draws(radio: RadioDisplay, caps: Capabilities, area: Rect) -> Seq<DrawView> {
    meters_draws(
        radio,
        caps,
        area,
        if area.height < 4 {
            area.height as nat
        } else {
            4
        },
    )
}

/// The meter bars. Their scale is the one this radio declares.
pub fn draw_meter_bars(
    out: &mut Vec<Draw>,
    area: Rect,
    radio: &RadioDisplay,
    caps: &Capabilities,
)
    requires
        area.fits(),
    ensures
        draws(final(out)@) == draws(old(out)@) + bars_draws(*radio, *caps, area),
{
    let ghost before = draws(out@);
    let mut meters: Vec<RailMeter> = Vec::new();
    meters.push(
        RailMeter {
            name: text("S"),
            reading: read_s_meter(caps, radio.smeter),
            active: !radio.tx,
        },
    );
    meters.push(RailMeter { name: text("PO"), reading: None, active: radio.tx });
    meters.push(RailMeter { name: text("SWR"), reading: None, active: radio.tx });
    meters.push(RailMeter { name: text("ALC"), reading: None, active: radio.tx });
    assert(forall|i: int|
        0 <= i < 4 ==> {
            let m = #[trigger] meters@[i];
            (m.name@, m.reading, m.active) == meter_of(*radio, *caps, i)
        });
    let styles = MeterStyles {
        active: Style::ink(Colour::White),
        inactive: Style::ink(DIM),
        fill: Colour::Green,
        empty: DIM,
    };
    let mut rows = meter_rail(&meters, area, METER_LABEL_W, styles);
    let count: usize = rows.len();
    let mut i: usize = 0;
    assert(draws(out@) =~= before + meters_draws(*radio, *caps, area, 0));
    while i < count
        invariant
            i <= count,
            count == rows@.len(),
            count <= 4,
            count <= area.height,
            area.fits(),
            meters@.len() == 4,
            styles == rail_styles(),
            forall|i: int|
                0 <= i < 4 ==> {
                    let m = #[trigger] meters@[i];
                    (m.name@, m.reading, m.active) == meter_of(*radio, *caps, i)
                },
            forall|j: int|
                0 <= j < count ==> crate::tui::meter::is_rail_row(
                    #[trigger] rows@[j],
                    meters@[j],
                    j,
                    area,
                    METER_LABEL_W,
                    styles,
                ),
            draws(out@) == before + meters_draws(*radio, *caps, area, i as nat),
        decreases count - i,
    {
        let ghost so_far = draws(out@);
        let row = &rows[i];
        assert(crate::tui::meter::is_rail_row(
            rows@[i as int],
            meters@[i as int],
            i as int,
            area,
            METER_LABEL_W,
            styles,
        ));
        push_text_at(out, row.x, row.y, row.name.clone(), row.style);
        match row.bar {
            Some(bar) => {
                push_draw(out, Draw::Bar(bar));
            },
            None => {},
        }
        assert(draws(out@) =~= so_far + meter_draws(*radio, *caps, area, i as int));
        i += 1;
        assert(draws(out@) =~= before + meters_draws(*radio, *caps, area, i as nat));
    }
}

/// The spans that say how many requests are in flight.
pub open spec fn pending_spans(cat_pending: usize) -> Seq<(Seq<char>, Style)> {
    if cat_pending == 0 {
        seq![("CAT idle"@, inked(DIM))]
    } else {
        seq![("CAT BUSY "@ + decimal(cat_pending as nat), bold_ink(SETTING))]
    }
}

fn pending_line(cat_pending: usize) -> (r: Line)
    ensures
        r@ == pending_spans(cat_pending),
{
    if cat_pending == 0 {
        Line::one(Span::of("CAT idle", Style::ink(DIM)))
    } else {
        let mut busy = text("CAT BUSY ");
        push_decimal(&mut busy, cat_pending as u64);
        Line::one(Span::styled(busy, Style::bold(SETTING)))
    }
}

/// The rows of the rail: meters, requests, and two audio panels under their
/// headers.
pub open spec fn rail_rows() -> Seq<Constraint> {
    seq![
        Constraint::Length(4),
        Constraint::Length(1),
        Constraint::Length(1),
        Constraint::Length(5),
        Constraint::Length(1),
        Constraint::Length(5),
        Constraint::Min(0),
    ]
}

/// An area without its last column: the gutter between a full bar and the next
/// panel.
pub open spec fn without_gutter(area: Rect) -> Rect {
    Rect {
        width: if area.width == 0 {
            0
        } else {
            (area.width - 1) as u16
        },
        ..area
    }
}

/// All pieces of a rail whose rows are `rows`.
pub open spec fn rail_draws(
    rows: Seq<Rect>,
    radio: RadioDisplay,
    view: ConsoleView,
    caps: Capabilities,
) -> Seq<DrawView> {
    bars_draws(radio, caps, rows[0]) + seq![
        DrawView::Lines(rows[1], seq![pending_spans(view.cat_pending)], false),
        DrawView::Lines(rows[2], seq![header_spans("AF SCOPE"@, view.audio, AF_INK, DIM)], false),
        DrawView::AfScope(rows[3]),
        DrawView::Lines(rows[4], seq![header_spans("AF FFT"@, view.audio, AF_INK, DIM)], false),
        DrawView::AfFft(rows[5]),
    ]
}

/// Whether `ds` are the pieces of a rail in `area`.
pub open spec fn rail_drawn(
    area: Rect,
    radio: RadioDisplay,
    view: ConsoleView,
    caps: Capabilities,
    ds: Seq<DrawView>,
) -> bool {
    if area.width <= 1 || area.height == 0 {
        ds.len() == 0
    } else {
        exists|rows: Seq<Rect>| #[trigger]
            splits(Direction::Vertical, rail_rows(), without_gutter(area), rows) && ds
                == rail_draws(rows, radio, view, caps)
    }
}

/// The monitoring rail.
pub fn draw_rail(
    out: &mut Vec<Draw>,
    area: Rect,
    radio: &RadioDisplay,
    view: &ConsoleView,
    caps: &Capabilities,
)
    requires
        area.fits(),
    ensures
        exists|ds: Seq<DrawView>| #[trigger]
            rail_drawn(area, *radio, *view, *caps, ds) && draws(final(out)@) == draws(old(out)@)
                + ds,
{
    let ghost before = draws(out@);
    if area.width <= 1 || area.height == 0 {
        proof {
            assert(rail_drawn(area, *radio, *view, *caps, Seq::<DrawView>::empty()));
            assert(draws(out@) =~= before + Seq::<DrawView>::empty());
        }
        return;
    }
    let inner = Rect { x: area.x, y: area.y, width: area.width - 1, height: area.height };
    let mut sizes: Vec<Constraint> = Vec::new();
    sizes.push(Constraint::Length(4));
    sizes.push(Constraint::Length(1));
    sizes.push(Constraint::Length(1));
    sizes.push(Constraint::Length(5));
    sizes.push(Constraint::Length(1));
    sizes.push(Constraint::Length(5));
    sizes.push(Constraint::Min(0));
    assert(sizes@ =~= rail_rows());
    let rows = split_area(Direction::Vertical, &sizes, inner);
    assert(lies_in(rows@[0], inner, Direction::Vertical));
    draw_meter_bars(out, rows[0], radio, caps);
    push_line_in(out, rows[1], pending_line(view.cat_pending));
    push_line_in(out, rows[2], af_header("AF SCOPE", view.audio, AF_INK, DIM));
    push_draw(out, Draw::AfScope(rows[3]));
    push_line_in(out, rows[4], af_header("AF FFT", view.audio, AF_INK, DIM));
    push_draw(out, Draw::AfFft(rows[5]));
    proof {
        let ds = rail_draws(rows@, *radio, *view, *caps);
        assert(draws(out@) =~= before + ds);
        assert(splits(Direction::Vertical, rail_rows(), without_gutter(area), rows@));
        assert(rail_drawn(area, *radio, *view, *caps, ds));
    }
}

/// The rows of a meter panel: the bars, the link line directly under them,
/// then whatever is left.
pub open spec fn meter_rows() -> Seq<Constraint> {
    seq![Constraint::Length(METER_ROWS), Constraint::Length(1), Constraint::Min(0)]
}

/// The spans of the link line.
pub open spec fn link_line_spans(radio: RadioDisplay) -> Seq<(Seq<char>, Style)> {
    if radio.connected {
        seq![("CAT idle"@, inked(DIM))]
    } else {
        seq![("LINK LOST"@, inked(Colour::Red))]
    }
}

/// Whether `ds` are the pieces of a meter panel in `area`.
pub open spec fn meters_drawn(
    area: Rect,
    radio: RadioDisplay,
    caps: Capabilities,
    ds: Seq<DrawView>,
) -> bool {
    if area.width <= 1 || area.height == 0 {
        ds.len() == 0
    } else {
        exists|rows: Seq<Rect>| #[trigger]
            splits(Direction::Vertical, meter_rows(), without_gutter(area), rows) && ds
                == bars_draws(radio, caps, rows[0]).push(
                DrawView::Lines(rows[1], seq![link_line_spans(radio)], false),
            )
    }
}

/// The meters on their own, for a layout that puts them somewhere else.
pub fn draw_meters(out: &mut Vec<Draw>, area: Rect, radio: &RadioDisplay, caps: &Capabilities)
    requires
        area.fits(),
    ensures
        exists|ds: Seq<DrawView>| #[trigger]
            meters_drawn(area, *radio, *caps, ds) && draws(final(out)@) == draws(old(out)@) + ds,
{
    let ghost before = draws(out@);
    if area.width <= 1 || area.height == 0 {
        proof {
            assert(meters_drawn(area, *radio, *caps, Seq::<DrawView>::empty()));
            assert(draws(out@) =~= before + Seq::<DrawView>::empty());
        }
        return;
    }
    let inner = Rect { x: area.x, y: area.y, width: area.width - 1, height: area.height };
    let mut sizes: Vec<Constraint> = Vec::new();
    sizes.push(Constraint::Length(METER_ROWS));
    sizes.push(Constraint::Length(1));
    sizes.push(Constraint::Min(0));
    assert(sizes@ =~= meter_rows());
    let rows = split_area(Direction::Vertical, &sizes, inner);
    assert(lies_in(rows@[0], inner, Direction::Vertical));
    draw_meter_bars(out, rows[0], radio, caps);
    let line = if radio.connected {
        Line::one(Span::of("CAT idle", Style::ink(DIM)))
    } else {
        Line::one(Span::of("LINK LOST", Style::ink(Colour::Red)))
    };
    push_line_in(out, rows[1], line);
    proof {
        let ds = bars_draws(*radio, *caps, rows@[0]).push(
            DrawView::Lines(rows@[1], seq![link_line_spans(*radio)], false),
        );
        assert(draws(out@) =~= before + ds);
        assert(splits(Direction::Vertical, meter_rows(), without_gutter(area), rows@));
        assert(meters_drawn(area, *radio, *caps, ds));
    }
}

/// A panel under its one-line header.
pub open spec fn headed_rows() -> Seq<Constraint> {
    seq![Constraint::Length(1), Constraint::Min(1)]
}

/// The first row of an area, and the rest.
pub open spec fn head_row(area: Rect) -> Rect {
    Rect { height: 1, ..area }
}

pub open spec fn below_head(area: Rect) -> Rect {
    Rect { y: (area.y + 1) as u16, height: (area.height - 1) as u16, ..area }
}

/// Take the first row off an area that has at least two.
pub fn split_head(area: Rect) -> (r: (Rect, Rect))
    requires
        area.fits(),
        area.height >= 2,
    ensures
        r == (head_row(area), below_head(area)),
{
    let mut sizes: Vec<Constraint> = Vec::new();
    sizes.push(Constraint::Length(1));
    sizes.push(Constraint::Min(1));
    assert(sizes@ =~= headed_rows());
    let rows = split_area(Direction::Vertical, &sizes, area);
    proof {
        two_parts(sizes@);
        assert(lies_in(rows@[0], area, Direction::Vertical));
        assert(lies_in(rows@[1], area, Direction::Vertical));
        assert(extent(rows@[0], Direction::Vertical) == 1);
        assert(extent(rows@[1], Direction::Vertical) == area.height - 1);
        assert(start(rows@[1], Direction::Vertical) == start(rows@[0], Direction::Vertical)
            + extent(rows@[0], Direction::Vertical));
    }
    (rows[0], rows[1])
}

/// The pieces of an audio panel: nothing where there is no room for it under
/// its header.
pub open spec fn af_panel(name: Seq<char>, state: AudioState, area: Rect, body: DrawView) -> Seq<
    DrawView,
> {
    if area.height < 2 {
        seq![]
    } else {
        seq![
            DrawView::Lines(head_row(area), seq![header_spans(name, state, AF_INK, DIM)], false),
            body,
        ]
    }
}

/// The audio waveform under its header.
pub fn draw_af_scope(out: &mut Vec<Draw>, area: Rect, view: &ConsoleView)
    requires
        area.fits(),
    ensures
        draws(final(out)@) == draws(old(out)@) + af_panel(
            "AF SCOPE"@,
            view.audio,
            area,
            DrawView::AfScope(below_head(area)),
        ),
{
    let ghost before = draws(out@);
    if area.height >= 2 {
        let (head, body) = split_head(area);
        push_line_in(out, head, af_header("AF SCOPE", view.audio, AF_INK, DIM));
        push_draw(out, Draw::AfScope(body));
    }
    assert(draws(out@) =~= before + af_panel(
        "AF SCOPE"@,
        view.audio,
        area,
        DrawView::AfScope(below_head(area)),
    ));
}

/// The audio spectrum under its header.
pub fn draw_af_fft(out: &mut Vec<Draw>, area: Rect, view: &ConsoleView)
    requires
        area.fits(),
    ensures
        draws(final(out)@) == draws(old(out)@) + af_panel(
            "AF FFT"@,
            view.audio,
            area,
            DrawView::AfFft(below_head(area)),
        ),
{
    let ghost before = draws(out@);
    if area.height >= 2 {
        let (head, body) = split_head(area);
        push_line_in(out, head, af_header("AF FFT", view.audio, AF_INK, DIM));
        push_draw(out, Draw::AfFft(body));
    }
    assert(draws(out@) =~= before + af_panel(
        "AF FFT"@,
        view.audio,
        area,
        DrawView::AfFft(below_head(area)),
    ));
}

/// A bar never reaches into the last column of its panel: the gutter keeps it
/// from touching the next one.
pub proof fn bars_stop_before_the_gutter(
    radio: RadioDisplay,
    caps: Capabilities,
    area: Rect,
    row: Rect,
    i: int,
)
    requires
        area.fits(),
        area.width > 1,
        lies_in(row, without_gutter(area), Direction::Vertical),
        0 <= i < row.height,
        i < 4,
    ensures
        ({
            let (name, reading, active) = meter_of(radio, caps, i);
            rail_bar(reading, active, row, row.y + i, METER_LABEL_W, rail_styles()) matches Some(
                bar,
            ) ==> bar.area.x + bar.area.width <= area.x + area.width - 1
        }),
{
}

/// Meter `i` is drawn in row `i` of its area, by its name in the first column.
/// The S meter is the live one during reception and the others during a
/// transmission.
pub proof fn a_meter_stands_in_its_row(radio: RadioDisplay, caps: Capabilities, area: Rect, i: int)
    requires
        area.fits(),
        0 <= i < 4,
        i < area.height,
    ensures
        ({
            let ds = meter_draws(radio, caps, area, i);
            let live = if i == 0 {
                !radio.tx
            } else {
                radio.tx
            };
            &&& ds[0] matches DrawView::Text(x, y, name, style) && x == area.x && y == area.y + i
                && name == seq!["S"@, "PO"@, "SWR"@, "ALC"@][i] && (style.fg == Some(Colour::White)
                <==> live)
            &&& ds.len() == 2 <==> area.width > 4
            &&& ds.len() == 2 ==> (ds[1] matches DrawView::Bar(bar) && bar.area.x == area.x + 4
                && bar.area.y == area.y + i && bar.area.width == area.width - 4 && bar.area.height
                == 1)
            &&& ds.len() == 2 && i == 0 && !radio.tx ==> (ds[1] matches DrawView::Bar(bar) && (
            caps.s_meter matches Some(range) ==> bar.reading.raw == radio.smeter
                && bar.reading.min == range.0 && bar.reading.max == range.1 && bar.fill
                == Colour::Green))
            &&& ds.len() == 2 && (i > 0 || radio.tx || caps.s_meter is None) ==> (
            ds[1] matches DrawView::Bar(bar) && bar.fill == bar.empty)
        }),
{
}

/// Every meter that has a row is drawn.
pub proof fn every_meter_with_a_row_is_drawn(
    radio: RadioDisplay,
    caps: Capabilities,
    area: Rect,
    i: int,
)
    requires
        0 <= i < 4,
        i < area.height,
    ensures
        exists|k: int|
            0 <= k && k + meter_draws(radio, caps, area, i).len() <= bars_draws(
                radio,
                caps,
                area,
            ).len() && #[trigger] bars_draws(radio, caps, area).subrange(
                k,
                k + meter_draws(radio, caps, area, i).len(),
            ) == meter_draws(radio, caps, area, i),
{
    let count = if area.height < 4 {
        area.height as nat
    } else {
        4
    };
    let k = meters_draws(radio, caps, area, i as nat).len() as int;
    meters_before(radio, caps, area, i as nat, count);
    assert(bars_draws(radio, caps, area).subrange(
        k,
        k + meter_draws(radio, caps, area, i).len(),
    ) == meter_draws(radio, caps, area, i));
}

/// The pieces of meter `i` stand behind those of the meters before it.
proof fn meters_before(radio: RadioDisplay, caps: Capabilities, area: Rect, i: nat, count: nat)
    requires
        i < count,
    ensures
        ({
            let k = meters_draws(radio, caps, area, i).len() as int;
            let own = meter_draws(radio, caps, area, i as int);
            let all = meters_draws(radio, caps, area, count);
            k + own.len() <= all.len() && all.subrange(k, k + own.len()) == own
        }),
    decreases count,
{
    let k = meters_draws(radio, caps, area, i).len() as int;
    let own = meter_draws(radio, caps, area, i as int);
    let all = meters_draws(radio, caps, area, count);
    if i + 1 < count {
        meters_before(radio, caps, area, i, (count - 1) as nat);
        let less = meters_draws(radio, caps, area, (count - 1) as nat);
        assert(all.subrange(k, k + own.len()) =~= less.subrange(k, k + own.len()));
    } else {
        assert(all.subrange(k, k + own.len()) =~= own);
    }
}

/// How many requests are in flight is said by their number; none in flight is
/// said without one, and never in bold.
pub proof fn requests_in_flight_are_counted(cat_pending: usize)
    ensures
        pending_spans(cat_pending).len() == 1,
        cat_pending > 0 ==> read_number(pending_spans(cat_pending)[0].0) == cat_pending,
        cat_pending == 0 ==> no_digits(pending_spans(cat_pending)[0].0),
        pending_spans(cat_pending)[0].1.bold <==> cat_pending > 0,
{
    reveal_strlit("CAT idle");
    reveal_strlit("CAT BUSY ");
    a_written_number_reads_back(cat_pending as nat);
    assert(no_digits("CAT BUSY "@));
    number_behind("CAT BUSY "@, decimal(cat_pending as nat));
}

/// The rail of a screen with room: four rows of meters, the requests in flight,
/// and twice a header over an audio panel of five rows, from top to bottom and
/// a column short of the area's right edge.
pub proof fn a_rail_with_room_is_exact(
    area: Rect,
    radio: RadioDisplay,
    view: ConsoleView,
    caps: Capabilities,
    ds: Seq<DrawView>,
)
    requires
        area.fits(),
        area.width > 1,
        area.height >= 17,
        rail_drawn(area, radio, view, caps, ds),
    ensures
        ({
            let w = (area.width - 1) as u16;
            let n = ds.len();
            &&& n >= 5
            &&& ds.take(n - 5) == bars_draws(
                radio,
                caps,
                Rect { x: area.x, y: area.y, width: w, height: 4 },
            )
            &&& ds[n - 5] matches DrawView::Lines(r, lines, _) && r == (Rect {
                x: area.x,
                y: (area.y + 4) as u16,
                width: w,
                height: 1,
            }) && lines == seq![pending_spans(view.cat_pending)]
            &&& ds[n - 4] matches DrawView::Lines(r, _, _) && r == (Rect {
                x: area.x,
                y: (area.y + 5) as u16,
                width: w,
                height: 1,
            })
            &&& ds[n - 3] == DrawView::AfScope(
                Rect { x: area.x, y: (area.y + 6) as u16, width: w, height: 5 },
            )
            &&& ds[n - 2] matches DrawView::Lines(r, _, _) && r == (Rect {
                x: area.x,
                y: (area.y + 11) as u16,
                width: w,
                height: 1,
            })
            &&& ds[n - 1] == DrawView::AfFft(
                Rect { x: area.x, y: (area.y + 12) as u16, width: w, height: 5 },
            )
        }),
{
    let inner = without_gutter(area);
    let rows = choose|rows: Seq<Rect>| #[trigger]
        splits(Direction::Vertical, rail_rows(), without_gutter(area), rows) && ds == rail_draws(
            rows,
            radio,
            view,
            caps,
        );
    let cs = rail_rows();
    reveal_with_fuel(total_amount, 8);
    assert(total_amount(cs) == 17);
    let d = Direction::Vertical;
    assert(rows.len() == 7);
    assert(lies_in(rows[0], inner, d));
    assert(lies_in(rows[1], inner, d));
    assert(lies_in(rows[2], inner, d));
    assert(lies_in(rows[3], inner, d));
    assert(lies_in(rows[4], inner, d));
    assert(lies_in(rows[5], inner, d));
    assert(extent(rows[0], d) == 4);
    assert(extent(rows[1], d) == 1);
    assert(extent(rows[2], d) == 1);
    assert(extent(rows[3], d) == 5);
    assert(extent(rows[4], d) == 1);
    assert(extent(rows[5], d) == 5);
    assert(start(rows[1], d) == start(rows[0], d) + extent(rows[0], d));
    assert(start(rows[2], d) == start(rows[1], d) + extent(rows[1], d));
    assert(start(rows[3], d) == start(rows[2], d) + extent(rows[2], d));
    assert(start(rows[4], d) == start(rows[3], d) + extent(rows[3], d));
    assert(start(rows[5], d) == start(rows[4], d) + extent(rows[4], d));
    assert(ds.take(ds.len() - 5) =~= bars_draws(radio, caps, rows[0]));
}

/// The meters of a panel with room: the bars in its first four rows and the
/// link directly under them, which says so where it is lost.
pub proof fn a_meter_panel_with_room_is_exact(
    area: Rect,
    radio: RadioDisplay,
    caps: Capabilities,
    ds: Seq<DrawView>,
)
    requires
        area.fits(),
        area.width > 1,
        area.height >= 5,
        meters_drawn(area, radio, caps, ds),
    ensures
        ({
            let w = (area.width - 1) as u16;
            &&& ds.len() > 0
            &&& ds.drop_last() == bars_draws(
                radio,
                caps,
                Rect { x: area.x, y: area.y, width: w, height: 4 },
            )
            &&& ds.last() matches DrawView::Lines(r, lines, _) && r == (Rect {
                x: area.x,
                y: (area.y + 4) as u16,
                width: w,
                height: 1,
            }) && (lines[0][0].1.fg == Some(Colour::Red) <==> !radio.connected)
        }),
{
    let inner = without_gutter(area);
    let rows = choose|rows: Seq<Rect>| #[trigger]
        splits(Direction::Vertical, meter_rows(), without_gutter(area), rows) && ds == bars_draws(
            radio,
            caps,
            rows[0],
        ).push(DrawView::Lines(rows[1], seq![link_line_spans(radio)], false));
    let cs = meter_rows();
    reveal_with_fuel(total_amount, 4);
    assert(total_amount(cs) == 5);
    let d = Direction::Vertical;
    assert(lies_in(rows[0], inner, d));
    assert(lies_in(rows[1], inner, d));
    assert(extent(rows[0], d) == 4);
    assert(extent(rows[1], d) == 1);
    assert(start(rows[1], d) == start(rows[0], d) + extent(rows[0], d));
    assert(ds.drop_last() =~= bars_draws(radio, caps, rows[0]));
}

/// A header takes the first row of its area and leaves the rest, so that the
/// two together are the area.
pub proof fn a_header_takes_one_row(area: Rect, x: int, y: int)
    requires
        area.fits(),
        area.height >= 1,
    ensures
        holds_cell(head_row(area), x, y) || holds_cell(below_head(area), x, y) <==> holds_cell(
            area,
            x,
            y,
        ),
        holds_cell(head_row(area), x, y) <==> holds_cell(area, x, y) && y == area.y,
{
}

/// An audio panel has its header in its first row and its body in the rest,
/// and is not drawn where it has only one row.
pub proof fn an_audio_panel_has_a_header(
    name: Seq<char>,
    state: AudioState,
    area: Rect,
    body: DrawView,
)
    ensures
        area.height < 2 ==> af_panel(name, state, area, body).len() == 0,
        area.height >= 2 ==> af_panel(name, state, area, body).len() == 2 && af_panel(
            name,
            state,
            area,
            body,
        )[1] == body && (af_panel(name, state, area, body)[0] matches DrawView::Lines(r, lines, _)
            && r.x == area.x && r.y == area.y && r.width == area.width && r.height == 1
            && lines.len() == 1 && lines[0][0].0 == name),
{
}

/// A rail or a meter panel of one column, or without a row, is not there: its
/// only column would be the gutter. Any wider one is.
pub proof fn a_rail_needs_more_than_its_gutter(
    area: Rect,
    radio: RadioDisplay,
    view: ConsoleView,
    caps: Capabilities,
    rail: Seq<DrawView>,
    meters: Seq<DrawView>,
)
    requires
        rail_drawn(area, radio, view, caps, rail),
        meters_drawn(area, radio, caps, meters),
    ensures
        area.width <= 1 || area.height == 0 ==> rail.len() == 0 && meters.len() == 0,
        area.width > 1 && area.height > 0 ==> rail.len() >= 5 && meters.len() >= 1,
{
}

} // verus!
