//! The readout: the dial in large digits, and the line under it.

use crate::text::push_repeated;
use crate::text::repeated;
use crate::text::text;
use crate::tui::bigdigits::render;
use crate::tui::bigdigits::text_row;
use crate::tui::console::facts::DIM;
use crate::tui::console::facts::SETTING;
use crate::tui::console::model::ConsoleView;
use crate::tui::console::model::RadioDisplay;
use crate::tui::console::regions::two_parts;
use crate::tui::draw::draws;
use crate::tui::draw::push_line_in;
use crate::tui::draw::push_text_at;
use crate::tui::draw::Draw;
use crate::tui::draw::DrawView;
use crate::tui::vfo::readout_spans;
use crate::tui::vfo::vfo_readout;
use crate::ui::format::format_digits;
use crate::ui::format::hz_digits;
use crate::ui::format::hz_text;
use crate::ui::geometry::extent;
use crate::ui::geometry::lies_in;
use crate::ui::geometry::split_area;
use crate::ui::geometry::splits;
use crate::ui::geometry::start;
use crate::ui::geometry::Constraint;
use crate::ui::geometry::Direction;
use crate::ui::geometry::Rect;
use crate::ui::style::bold_ink;
use crate::ui::style::bold_on;
use crate::ui::style::inked;
use crate::ui::style::unstyled;
use crate::ui::style::Colour;
use crate::ui::style::Line;
use crate::ui::style::Span;
use crate::ui::style::Style;
use vstd::prelude::*;
use vstd::string::*;

verus! {

/// The style of a readout on the air.
pub open spec fn alarm() -> Style {
    bold_on(Colour::White, Colour::Red)
}

/// The first `rows` rows of an area, painted in the colour of a transmission.
pub open spec fn alarm_rows(area: Rect, rows: nat) -> Seq<DrawView> {
    Seq::new(
        rows,
        |i: int|
            DrawView::Text(
                area.x,
                (area.y + i) as u16,
                repeated(' ', area.width as int),
                alarm(),
            ),
    )
}

/// Whether there is room for the large digits and the line under them.
pub open spec fn is_big(area: Rect) -> bool {
    area.height >= 4
}

/// The rows of a readout.
pub open spec fn readout_rows(area: Rect) -> Seq<Constraint> {
    if is_big(area) {
        seq![Constraint::Length(3), Constraint::Length(1)]
    } else {
        seq![Constraint::Length(1), Constraint::Length(1)]
    }
}

/// The frequency to show: none at all while the link is down, rather than a
/// stale one.
pub open spec fn shown_hz(radio: RadioDisplay) -> Option<u64> {
    if radio.connected {
        Some(radio.vfo_a_hz)
    } else {
        None
    }
}

/// The style of a confirmed frequency.
pub open spec fn confirmed_style(radio: RadioDisplay) -> Style {
    if radio.tx {
        alarm()
    } else {
        bold_ink(Colour::White)
    }
}

/// Whether the dial is shown in large digits: there is room, a frequency is
/// known, and none is requested.
pub open spec fn shows_big_dial(area: Rect, radio: RadioDisplay, view: ConsoleView) -> bool {
    is_big(area) && shown_hz(radio) is Some && view.pending_vfo_hz is None
}

/// The column of the unit behind large digits.
pub open spec fn unit_column(dial: Rect, hz: u64) -> int {
    dial.x + hz_digits(hz).len() * 4 + 1
}

/// A frequency in large digits, and its unit, small, where it has room.
pub open spec fn big_dial(dial: Rect, radio: RadioDisplay, hz: u64) -> Seq<DrawView> {
    let digits = seq![
        DrawView::Text(dial.x, dial.y, text_row(hz_digits(hz), 0), confirmed_style(radio)),
        DrawView::Text(
            dial.x,
            (dial.y + 1) as u16,
            text_row(hz_digits(hz), 1),
            confirmed_style(radio),
        ),
        DrawView::Text(
            dial.x,
            (dial.y + 2) as u16,
            text_row(hz_digits(hz), 2),
            confirmed_style(radio),
        ),
    ];
    if unit_column(dial, hz) < dial.x + dial.width {
        digits.push(
            DrawView::Text(
                unit_column(dial, hz) as u16,
                (dial.y + 2) as u16,
                "MHz"@,
                if radio.tx {
                    alarm()
                } else {
                    inked(DIM)
                },
            ),
        )
    } else {
        digits
    }
}

/// The spans of the line under the dial.
pub open spec fn readout_status(radio: RadioDisplay) -> Seq<(Seq<char>, Style)> {
    seq![
        (radio.mode@, inked(SETTING)),
        ("   "@, unstyled()),
        (
            if radio.split {
                "SPLIT"@
            } else {
                "VFO A"@
            },
            inked(Colour::White),
        ),
        ("   "@, unstyled()),
        if radio.tx {
            ("◆ TRANSMITTING ◆"@, Style { blink: true, ..alarm() })
        } else {
            ("RX"@, inked(Colour::Green))
        },
    ]
}

/// The dial in its row: large digits, or one line.
pub open spec fn dial_draws(
    area: Rect,
    dial: Rect,
    radio: RadioDisplay,
    view: ConsoleView,
) -> Seq<DrawView> {
    if shows_big_dial(area, radio, view) {
        big_dial(dial, radio, radio.vfo_a_hz)
    } else {
        seq![
            DrawView::Lines(
                dial,
                seq![
                    readout_spans(
                        shown_hz(radio),
                        view.pending_vfo_hz,
                        confirmed_style(radio),
                        inked(Colour::Cyan),
                        inked(DIM),
                    ),
                ],
                false,
            ),
        ]
    }
}

/// All pieces of a readout whose two rows are `rows`.
pub open spec fn readout_draws(
    area: Rect,
    rows: Seq<Rect>,
    radio: RadioDisplay,
    view: ConsoleView,
) -> Seq<DrawView> {
    (if radio.tx {
        alarm_rows(area, area.height as nat)
    } else {
        seq![]
    }) + dial_draws(area, rows[0], radio, view) + seq![
        DrawView::Lines(rows[1], seq![readout_status(radio)], false),
    ]
}

/// Whether `ds` are the pieces of a readout in `area`.
pub open spec fn readout_drawn(
    area: Rect,
    radio: RadioDisplay,
    view: ConsoleView,
    ds: Seq<DrawView>,
) -> bool {
    exists|rows: Seq<Rect>| #[trigger]
        splits(Direction::Vertical, readout_rows(area), area, rows) && ds == readout_draws(
            area,
            rows,
            radio,
            view,
        )
}

fn alarm_style() -> (r: Style)
    ensures
        r == alarm(),
{
    Style::bold_on(Colour::White, Colour::Red)
}

fn push_alarm(out: &mut Vec<Draw>, area: Rect)
    requires
        area.fits(),
    ensures
        draws(final(out)@) == draws(old(out)@) + alarm_rows(area, area.height as nat),
{
    let ghost before = draws(out@);
    let mut i: u16 = 0;
    assert(draws(out@) =~= before + alarm_rows(area, 0));
    while i < area.height
        invariant
            i <= area.height,
            area.fits(),
            draws(out@) == before + alarm_rows(area, i as nat),
        decreases area.height - i,
    {
        let mut blank = String::new();
        push_repeated(&mut blank, ' ', area.width as usize);
        assert(blank@ =~= repeated(' ', area.width as int));
        push_text_at(out, area.x, area.y + i, blank, alarm_style());
        i += 1;
        assert(draws(out@) =~= before + alarm_rows(area, i as nat));
    }
}

fn push_big_dial(out: &mut Vec<Draw>, dial: Rect, radio: &RadioDisplay, hz: u64)
    requires
        dial.fits(),
        dial.height >= 3,
    ensures
        draws(final(out)@) == draws(old(out)@) + big_dial(dial, *radio, hz),
{
    let ghost before = draws(out@);
    let digits = format_digits(hz);
    let confirmed = if radio.tx {
        alarm_style()
    } else {
        Style::bold(Colour::White)
    };
    let glyphs = render(digits.as_str());
    push_text_at(out, dial.x, dial.y, glyphs[0].clone(), confirmed);
    push_text_at(out, dial.x, dial.y + 1, glyphs[1].clone(), confirmed);
    push_text_at(out, dial.x, dial.y + 2, glyphs[2].clone(), confirmed);
    let len: usize = digits.as_str().unicode_len();
    let room: usize = dial.width as usize;
    // The unit never changes, so it stays small.
    if len < room && len * 4 + 1 < room {
        let unit_x: u16 = dial.x + (len as u16) * 4 + 1;
        push_text_at(
            out,
            unit_x,
            dial.y + 2,
            text("MHz"),
            if radio.tx {
                alarm_style()
            } else {
                Style::ink(DIM)
            },
        );
    }
    assert(draws(out@) =~= before + big_dial(dial, *radio, hz));
}

fn status_under_dial(radio: &RadioDisplay) -> (r: Line)
    ensures
        r@ == readout_status(*radio),
{
    let mut line = Line::two(Span::of(radio.mode.as_str(), Style::ink(SETTING)), Span::raw("   "));
    line.push(
        Span::of(
            if radio.split {
                "SPLIT"
            } else {
                "VFO A"
            },
            Style::ink(Colour::White),
        ),
    );
    line.push(Span::raw("   "));
    if radio.tx {
        let loud = Style {
            fg: Some(Colour::White),
            bg: Some(Colour::Red),
            bold: true,
            blink: true,
            reversed: false,
        };
        line.push(Span::of("◆ TRANSMITTING ◆", loud));
    } else {
        line.push(Span::of("RX", Style::ink(Colour::Green)));
    }
    assert(line@ =~= readout_status(*radio));
    line
}

/// The readout: the dial, the largest thing on the panel, and the line under
/// it. A transmission is painted across all of it.
pub fn draw_readout(out: &mut Vec<Draw>, area: Rect, radio: &RadioDisplay, view: &ConsoleView)
    requires
        area.fits(),
    ensures
        exists|ds: Seq<DrawView>| #[trigger]
            readout_drawn(area, *radio, *view, ds) && draws(final(out)@) == draws(old(out)@) + ds,
{
    let ghost before = draws(out@);
    let ghost mut painted: Seq<DrawView> = seq![];
    if radio.tx {
        push_alarm(out, area);
        proof {
            painted = alarm_rows(area, area.height as nat);
        }
    } else {
        assert(draws(out@) =~= before + painted);
    }
    let big: bool = area.height >= 4;
    let mut sizes: Vec<Constraint> = Vec::new();
    if big {
        sizes.push(Constraint::Length(3));
    } else {
        sizes.push(Constraint::Length(1));
    }
    sizes.push(Constraint::Length(1));
    assert(sizes@ =~= readout_rows(area));
    let rows = split_area(Direction::Vertical, &sizes, area);
    assert(lies_in(rows@[0], area, Direction::Vertical));
    assert(lies_in(rows@[1], area, Direction::Vertical));
    proof {
        two_parts(sizes@);
        if big {
            assert(extent(rows@[0], Direction::Vertical) == 3);
        }
    }
    if big && radio.connected && view.pending_vfo_hz.is_none() {
        push_big_dial(out, rows[0], radio, radio.vfo_a_hz);
    } else {
        let hz: Option<u64> = if radio.connected {
            Some(radio.vfo_a_hz)
        } else {
            None
        };
        let confirmed = if radio.tx {
            alarm_style()
        } else {
            Style::bold(Colour::White)
        };
        push_line_in(
            out,
            rows[0],
            vfo_readout(
                hz,
                view.pending_vfo_hz,
                confirmed,
                Style::ink(Colour::Cyan),
                Style::ink(DIM),
            ),
        );
    }
    assert(draws(out@) =~= before + painted + dial_draws(area, rows@[0], *radio, *view));
    push_line_in(out, rows[1], status_under_dial(radio));
    proof {
        let ds = readout_draws(area, rows@, *radio, *view);
        assert(draws(out@) =~= before + ds);
        assert(readout_drawn(area, *radio, *view, ds));
    }
}

/// In an area with room, a readout is exactly one thing: its dial stands in the
/// first three rows (or the first), the line under it in the next.
pub proof fn a_readout_with_room_is_exact(
    area: Rect,
    radio: RadioDisplay,
    view: ConsoleView,
    ds: Seq<DrawView>,
)
    requires
        area.fits(),
        area.height >= 2,
        readout_drawn(area, radio, view, ds),
    ensures
        ({
            let dial = Rect {
                height: if is_big(area) {
                    3
                } else {
                    1
                },
                ..area
            };
            let under = Rect { y: (area.y + dial.height) as u16, height: 1, ..area };
            ds == readout_draws(area, seq![dial, under], radio, view)
        }),
{
    let rows = choose|rows: Seq<Rect>| #[trigger]
        splits(Direction::Vertical, readout_rows(area), area, rows) && ds == readout_draws(
            area,
            rows,
            radio,
            view,
        );
    two_parts(readout_rows(area));
    assert(lies_in(rows[0], area, Direction::Vertical));
    assert(lies_in(rows[1], area, Direction::Vertical));
    assert(extent(rows[0], Direction::Vertical) == (if is_big(area) {
        3int
    } else {
        1
    }));
    assert(extent(rows[1], Direction::Vertical) == 1);
    assert(start(rows[1], Direction::Vertical) == start(rows[0], Direction::Vertical) + extent(
        rows[0],
        Direction::Vertical,
    ));
}

/// A radio that is not connected shows no frequency: neither zero nor a stale
/// one.
pub proof fn a_lost_link_shows_no_frequency(
    area: Rect,
    dial: Rect,
    radio: RadioDisplay,
    view: ConsoleView,
)
    requires
        !radio.connected,
    ensures
        dial_draws(area, dial, radio, view)[0] matches DrawView::Lines(_, lines, _)
            && lines[0][0].0 == "—.———.——— MHz"@,
{
}

/// While the radio transmits every row of the readout is painted, over its
/// whole width and before anything else; while it receives none is.
pub proof fn a_transmission_is_painted_all_over(
    area: Rect,
    radio: RadioDisplay,
    view: ConsoleView,
    ds: Seq<DrawView>,
)
    requires
        area.fits(),
        readout_drawn(area, radio, view, ds),
    ensures
        radio.tx ==> ds.len() > area.height && forall|i: int|
            0 <= i < area.height ==> (#[trigger] ds[i] matches DrawView::Text(x, y, text, style) && x
                == area.x && y == area.y + i && text.len() == area.width && style.bg == Some(
                Colour::Red,
            )),
        ds.last() matches DrawView::Lines(_, lines, _) && lines.len() == 1 && lines[0].len() == 5
            && lines[0][0].0 == radio.mode@ && (lines[0][2].0 == "SPLIT"@ <==> radio.split) && (
        lines[0][4].0 == "RX"@ <==> !radio.tx) && (lines[0][4].1.blink <==> radio.tx),
{
    reveal_strlit("SPLIT");
    reveal_strlit("VFO A");
    reveal_strlit("RX");
    reveal_strlit("◆ TRANSMITTING ◆");
    assert("SPLIT"@[0] != "VFO A"@[0]);
    assert("RX"@.len() != "◆ TRANSMITTING ◆"@.len());
}

/// The dial shows the radio's frequency: in large digits, three rows of them
/// from the dial's corner on, with the unit one column behind where it has
/// room; or on one line, with what is asked for behind it.
pub proof fn the_dial_shows_the_frequency(
    area: Rect,
    dial: Rect,
    radio: RadioDisplay,
    view: ConsoleView,
)
    requires
        dial.fits(),
        radio.connected,
        dial.height >= 3,
    ensures
        ({
            let ds = dial_draws(area, dial, radio, view);
            let digits = hz_digits(radio.vfo_a_hz);
            &&& area.height >= 4 && view.pending_vfo_hz is None ==> {
                &&& ds.len() >= 3
                &&& forall|r: int|
                    0 <= r < 3 ==> (#[trigger] ds[r] matches DrawView::Text(x, y, text, style) && x
                        == dial.x && y == dial.y + r && text == text_row(digits, r) && (style.bg
                        is Some <==> radio.tx))
                &&& ds.len() == 4 <==> 4 * digits.len() + 1 < dial.width
                &&& ds.len() == 4 ==> (ds[3] matches DrawView::Text(x, y, text, _) && x == dial.x + 4
                    * digits.len() + 1 && y == dial.y + 2 && text == "MHz"@)
            }
            &&& area.height < 4 || view.pending_vfo_hz is Some ==> ds.len() == 1 && (
            ds[0] matches DrawView::Lines(r, lines, _) && r == dial && lines[0][0].0 == hz_text(
                radio.vfo_a_hz,
            ) && (lines[0].len() == 2 <==> view.pending_vfo_hz is Some))
        }),
{
}

/// The colours of a dial: bold and bright while the radio receives, bold and
/// bright on red while it transmits.
pub proof fn a_dial_on_the_air_is_on_red(radio: RadioDisplay)
    ensures
        confirmed_style(radio).fg == Some(Colour::White),
        confirmed_style(radio).bold,
        radio.tx ==> confirmed_style(radio).bg == Some(Colour::Red),
        !radio.tx ==> confirmed_style(radio).bg is None,
{
}

} // verus!
