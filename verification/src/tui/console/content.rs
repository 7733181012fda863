//! The content pane: tab bar, readout, quick settings and the open tab.

use crate::tui::console::facts::band_row;
use crate::tui::console::facts::band_spans;
use crate::tui::console::facts::memory_lines;
use crate::tui::console::facts::memory_tab;
use crate::tui::console::facts::menu_tab;
use crate::tui::console::facts::menu_tab_lines;
use crate::tui::console::facts::mode_row;
use crate::tui::console::facts::mode_spans;
use crate::tui::console::facts::ribbon_cells;
use crate::tui::console::facts::ribbon_line;
use crate::tui::console::facts::ribbon_spans;
use crate::tui::console::facts::ribbon_view;
use crate::tui::console::facts::tab_bar;
use crate::tui::console::facts::tab_spans;
use crate::tui::console::facts::DIM;
use crate::tui::console::model::Capabilities;
use crate::tui::console::model::ConsoleView;
use crate::tui::console::model::RadioDisplay;
use crate::tui::console::model::Tab;
use crate::tui::console::readout::draw_readout;
use crate::tui::console::readout::readout_drawn;
use crate::tui::console::regions::two_parts;
use crate::tui::console::source::source_lines;
use crate::tui::console::source::source_tab;
use crate::tui::draw::draws;
use crate::tui::draw::push_draw;
use crate::tui::draw::push_line_in;
use crate::tui::draw::push_lines_in;
use crate::tui::draw::Draw;
use crate::tui::draw::DrawView;
use crate::ui::geometry::extent;
use crate::ui::geometry::holds_cell;
use crate::ui::geometry::lies_in;
use crate::ui::geometry::split_area;
use crate::ui::geometry::splits;
use crate::ui::geometry::start;
use crate::ui::geometry::Constraint;
use crate::ui::geometry::Direction;
use crate::ui::geometry::Rect;
use crate::ui::geometry::total_amount;
use crate::ui::geometry::total_length;
use crate::ui::style::inked;
use crate::ui::style::Line;
use crate::ui::style::Span;
use crate::ui::style::Style;
use vstd::prelude::*;
use vstd::string::*;

verus! {

/// Which rows the quick bar draws itself. A layout that places one of them on
/// its own has drawn it already.
#[derive(Debug, Clone, Copy, PartialEq, Eq, Structural)]
pub struct QuickRows {
    pub band: bool,
    pub mode: bool,
}

impl Default for QuickRows {
    fn default() -> (r: Self)
        ensures
            r.band,
            r.mode,
    {
        QuickRows { band: true, mode: true }
    }
}

/// One row each for bands and modes, and four for the ribbon.
pub open spec fn quick_rows() -> Seq<Constraint> {
    seq![
        Constraint::Length(1),
        Constraint::Length(1),
        Constraint::Length(1),
        Constraint::Length(1),
        Constraint::Length(1),
        Constraint::Length(1),
    ]
}

/// The band row of the quick bar, where it draws it.
pub open spec fn quick_band(area: Rect, radio: RadioDisplay, caps: Capabilities, wanted: QuickRows) -> Seq<
    DrawView,
> {
    if wanted.band {
        seq![
            DrawView::Lines(
                area,
                seq![band_spans(radio.vfo_a_hz, caps, caps.bands@.len())],
                false,
            ),
        ]
    } else {
        seq![]
    }
}

/// The mode row of the quick bar, where it draws it.
pub open spec fn quick_mode(area: Rect, radio: RadioDisplay, caps: Capabilities, wanted: QuickRows) -> Seq<
    DrawView,
> {
    if wanted.mode {
        seq![
            DrawView::Lines(
                area,
                seq![mode_spans(radio.mode@, caps.modes@, caps.modes@.len())],
                false,
            ),
        ]
    } else {
        seq![]
    }
}

/// The ribbon: two rows of four cells, labels above values.
pub open spec fn ribbon_draws(rows: Seq<Rect>, radio: RadioDisplay) -> Seq<DrawView> {
    seq![
        DrawView::Lines(rows[2], seq![ribbon_spans(ribbon_view(radio), 0, 4, true)], false),
        DrawView::Lines(rows[3], seq![ribbon_spans(ribbon_view(radio), 0, 4, false)], false),
        DrawView::Lines(rows[4], seq![ribbon_spans(ribbon_view(radio), 4, 8, true)], false),
        DrawView::Lines(rows[5], seq![ribbon_spans(ribbon_view(radio), 4, 8, false)], false),
    ]
}

/// Whether `ds` are the pieces of the quick settings in `area`.
pub open spec fn quick_drawn(
    area: Rect,
    radio: RadioDisplay,
    caps: Capabilities,
    wanted: QuickRows,
    ds: Seq<DrawView>,
) -> bool {
    exists|rows: Seq<Rect>| #[trigger]
        splits(Direction::Vertical, quick_rows(), area, rows) && ds == quick_band(
            rows[0],
            radio,
            caps,
            wanted,
        ) + quick_mode(rows[1], radio, caps, wanted) + ribbon_draws(rows, radio)
}

/// The quick settings: what an operator changes without looking away.
pub fn draw_quick_settings(
    out: &mut Vec<Draw>,
    area: Rect,
    radio: &RadioDisplay,
    caps: &Capabilities,
    rows_wanted: QuickRows,
)
    requires
        area.fits(),
    ensures
        exists|ds: Seq<DrawView>| #[trigger]
            quick_drawn(area, *radio, *caps, rows_wanted, ds) && draws(final(out)@) == draws(
                old(out)@,
            ) + ds,
{
    let ghost before = draws(out@);
    let mut sizes: Vec<Constraint> = Vec::new();
    sizes.push(Constraint::Length(1));
    sizes.push(Constraint::Length(1));
    sizes.push(Constraint::Length(1));
    sizes.push(Constraint::Length(1));
    sizes.push(Constraint::Length(1));
    sizes.push(Constraint::Length(1));
    assert(sizes@ =~= quick_rows());
    let rows = split_area(Direction::Vertical, &sizes, area);
    if rows_wanted.band {
        push_line_in(out, rows[0], band_row(radio.vfo_a_hz, caps));
    }
    assert(draws(out@) =~= before + quick_band(rows@[0], *radio, *caps, rows_wanted));
    if rows_wanted.mode {
        push_line_in(out, rows[1], mode_row(&radio.mode, caps));
    }
    assert(draws(out@) =~= before + quick_band(rows@[0], *radio, *caps, rows_wanted)
        + quick_mode(rows@[1], *radio, *caps, rows_wanted));
    let cells = ribbon_cells(radio);
    push_line_in(out, rows[2], ribbon_line(&cells, 0, 4, true));
    push_line_in(out, rows[3], ribbon_line(&cells, 0, 4, false));
    push_line_in(out, rows[4], ribbon_line(&cells, 4, 8, true));
    push_line_in(out, rows[5], ribbon_line(&cells, 4, 8, false));
    proof {
        let ds = quick_band(rows@[0], *radio, *caps, rows_wanted) + quick_mode(
            rows@[1],
            *radio,
            *caps,
            rows_wanted,
        ) + ribbon_draws(rows@, *radio);
        assert(draws(out@) =~= before + ds);
        assert(quick_drawn(area, *radio, *caps, rows_wanted, ds));
    }
}

/// The upper third of an area, and the rest.
pub open spec fn upper_third(area: Rect) -> Rect {
    Rect { height: area.height / 3, ..area }
}

pub open spec fn lower_part(area: Rect) -> Rect {
    Rect {
        y: (area.y + area.height / 3) as u16,
        height: (area.height - area.height / 3) as u16,
        ..area
    }
}

/// The pieces of the panorama: the newest frame above, the history below.
/// Without a source it says so; without room it is not there.
pub open spec fn spectrum_draws(area: Rect, view: ConsoleView) -> Seq<DrawView> {
    if area.height < 3 {
        seq![]
    } else if view.spectrum@.len() == 0 {
        seq![
            DrawView::Lines(
                area,
                seq![seq![("NO SPECTRUM SOURCE — attach one with --if-out"@, inked(DIM))]],
                false,
            ),
        ]
    } else {
        seq![DrawView::Trace(upper_third(area)), DrawView::Waterfall(lower_part(area))]
    }
}

/// The panorama.
pub fn draw_spectrum(out: &mut Vec<Draw>, area: Rect, view: &ConsoleView)
    requires
        area.fits(),
    ensures
        draws(final(out)@) == draws(old(out)@) + spectrum_draws(area, *view),
{
    let ghost before = draws(out@);
    if area.height < 3 {
        assert(draws(out@) =~= before + spectrum_draws(area, *view));
        return;
    }
    if view.spectrum.len() == 0 {
        push_line_in(
            out,
            area,
            Line::one(
                Span::of("NO SPECTRUM SOURCE — attach one with --if-out", Style::ink(DIM)),
            ),
        );
        assert(draws(out@) =~= before + spectrum_draws(area, *view));
        return;
    }
    let mut sizes: Vec<Constraint> = Vec::new();
    sizes.push(Constraint::Length(area.height / 3));
    sizes.push(Constraint::Min(1));
    let rows = split_area(Direction::Vertical, &sizes, area);
    proof {
        two_parts(sizes@);
        assert(lies_in(rows@[0], area, Direction::Vertical));
        assert(lies_in(rows@[1], area, Direction::Vertical));
        assert(extent(rows@[0], Direction::Vertical) == area.height / 3);
        assert(extent(rows@[1], Direction::Vertical) == area.height - area.height / 3);
        assert(start(rows@[1], Direction::Vertical) == start(rows@[0], Direction::Vertical)
            + extent(rows@[0], Direction::Vertical));
    }
    push_draw(out, Draw::Trace(rows[0]));
    push_draw(out, Draw::Waterfall(rows[1]));
    assert(draws(out@) =~= before + spectrum_draws(area, *view));
}

/// The pieces of the open tab.
pub open spec fn tab_draws(area: Rect, radio: RadioDisplay, view: ConsoleView) -> Seq<DrawView> {
    match view.tab {
        Tab::Spectrum => spectrum_draws(area, view),
        Tab::Memory => seq![DrawView::Lines(area, memory_lines(radio, view), false)],
        Tab::Menu => seq![DrawView::Lines(area, menu_tab_lines(view), false)],
        Tab::Source => seq![DrawView::Lines(area, source_lines(view), false)],
    }
}

/// The open tab.
pub fn draw_tab_content(out: &mut Vec<Draw>, area: Rect, radio: &RadioDisplay, view: &ConsoleView)
    requires
        area.fits(),
    ensures
        draws(final(out)@) == draws(old(out)@) + tab_draws(area, *radio, *view),
{
    let ghost before = draws(out@);
    match view.tab {
        Tab::Spectrum => draw_spectrum(out, area, view),
        Tab::Memory => push_lines_in(out, area, memory_tab(radio, view), false),
        Tab::Menu => push_lines_in(out, area, menu_tab(view), false),
        Tab::Source => push_lines_in(out, area, source_tab(view), false),
    }
    assert(draws(out@) =~= before + tab_draws(area, *radio, *view));
}

/// The rows of the content pane.
pub open spec fn content_rows() -> Seq<Constraint> {
    seq![
        Constraint::Length(1),
        Constraint::Length(4),
        Constraint::Length(6),
        Constraint::Min(0),
    ]
}

/// The tab bar in its row.
pub open spec fn tab_bar_draw(area: Rect, view: ConsoleView) -> DrawView {
    DrawView::Lines(area, seq![tab_spans(view.tabs@, view.tab, view.tabs@.len())], false)
}

/// Whether `ds` are the pieces of a content pane whose rows are `rows`.
pub open spec fn content_in_rows(
    rows: Seq<Rect>,
    radio: RadioDisplay,
    view: ConsoleView,
    caps: Capabilities,
    ds: Seq<DrawView>,
) -> bool {
    exists|readout: Seq<DrawView>, quick: Seq<DrawView>| #[trigger]
        readout_drawn(rows[1], radio, view, readout) && #[trigger] quick_drawn(
            rows[2],
            radio,
            caps,
            QuickRows { band: true, mode: true },
            quick,
        ) && ds == seq![tab_bar_draw(rows[0], view)] + readout + quick + tab_draws(
            rows[3],
            radio,
            view,
        )
}

/// Whether `ds` are the pieces of the content pane in `area`, and `body` is
/// where the open tab stands.
pub open spec fn content_drawn(
    area: Rect,
    radio: RadioDisplay,
    view: ConsoleView,
    caps: Capabilities,
    ds: Seq<DrawView>,
    body: Rect,
) -> bool {
    if area.width == 0 || area.height == 0 {
        ds.len() == 0 && body == area
    } else {
        exists|rows: Seq<Rect>| #[trigger]
            splits(Direction::Vertical, content_rows(), area, rows) && content_in_rows(
                rows,
                radio,
                view,
                caps,
                ds,
            ) && body == rows[3]
    }
}

/// The content pane. Says where the open tab stands.
pub fn draw_content(
    out: &mut Vec<Draw>,
    area: Rect,
    radio: &RadioDisplay,
    view: &ConsoleView,
    caps: &Capabilities,
) -> (r: Rect)
    requires
        area.fits(),
    ensures
        exists|ds: Seq<DrawView>| #[trigger]
            content_drawn(area, *radio, *view, *caps, ds, r) && draws(final(out)@) == draws(
                old(out)@,
            ) + ds,
        r.fits(),
{
    let ghost before = draws(out@);
    if area.width == 0 || area.height == 0 {
        proof {
            let none = Seq::<DrawView>::empty();
            assert(content_drawn(area, *radio, *view, *caps, none, area));
            assert(draws(out@) =~= before + none);
        }
        return area;
    }
    let mut sizes: Vec<Constraint> = Vec::new();
    sizes.push(Constraint::Length(1));
    sizes.push(Constraint::Length(4));
    sizes.push(Constraint::Length(6));
    sizes.push(Constraint::Min(0));
    assert(sizes@ =~= content_rows());
    let rows = split_area(Direction::Vertical, &sizes, area);
    assert(lies_in(rows@[1], area, Direction::Vertical));
    assert(lies_in(rows@[2], area, Direction::Vertical));
    assert(lies_in(rows@[3], area, Direction::Vertical));
    push_line_in(out, rows[0], tab_bar(view));
    let ghost barred = draws(out@);
    draw_readout(out, rows[1], radio, view);
    let ghost readout = choose|ds: Seq<DrawView>| #[trigger]
        readout_drawn(rows@[1], *radio, *view, ds) && draws(out@) == barred + ds;
    let ghost read = draws(out@);
    let wanted = QuickRows { band: true, mode: true };
    draw_quick_settings(out, rows[2], radio, caps, wanted);
    let ghost quick = choose|ds: Seq<DrawView>| #[trigger]
        quick_drawn(rows@[2], *radio, *caps, wanted, ds) && draws(out@) == read + ds;
    draw_tab_content(out, rows[3], radio, view);
    proof {
        let ds = seq![tab_bar_draw(rows@[0], *view)] + readout + quick + tab_draws(
            rows@[3],
            *radio,
            *view,
        );
        assert(draws(out@) =~= before + ds);
        assert(content_in_rows(rows@, *radio, *view, *caps, ds));
        assert(content_drawn(area, *radio, *view, *caps, ds, rows@[3]));
    }
    rows[3]
}

/// A panorama with room and a source stands in two parts that together are its
/// area: the newest frame in the upper third, the history below it.
pub proof fn a_panorama_fills_its_area(area: Rect, view: ConsoleView, x: int, y: int)
    requires
        area.fits(),
        area.height >= 3,
        view.spectrum@.len() > 0,
    ensures
        ({
            let ds = spectrum_draws(area, view);
            &&& ds.len() == 2
            &&& ds[0] is Trace
            &&& ds[1] is Waterfall
            &&& {
                let upper = ds[0]->Trace_0;
                let lower = ds[1]->Waterfall_0;
                &&& holds_cell(upper, x, y) || holds_cell(lower, x, y) <==> holds_cell(area, x, y)
                &&& !(holds_cell(upper, x, y) && holds_cell(lower, x, y))
                &&& upper.y == area.y
                &&& lower.y > upper.y
                &&& 3 * upper.height <= area.height < 3 * (upper.height + 1)
            }
        }),
{
}

/// A panorama without room is not there, and one without a source says so in
/// its place.
pub proof fn a_panorama_without_a_source_says_so(area: Rect, view: ConsoleView)
    ensures
        area.height < 3 ==> spectrum_draws(area, view).len() == 0,
        area.height >= 3 && view.spectrum@.len() == 0 ==> spectrum_draws(area, view).len() == 1 && (
        spectrum_draws(area, view)[0] matches DrawView::Lines(r, lines, _) && r == area
            && lines.len() == 1 && lines[0][0].0
            == "NO SPECTRUM SOURCE — attach one with --if-out"@),
{
}

/// The quick settings with room: bands and modes in the first two rows, unless
/// they stand elsewhere, and under them the ribbon, labels over values, four
/// cells to a line.
pub proof fn quick_settings_with_room_are_exact(
    area: Rect,
    radio: RadioDisplay,
    caps: Capabilities,
    wanted: QuickRows,
    ds: Seq<DrawView>,
)
    requires
        area.fits(),
        area.height >= 6,
        quick_drawn(area, radio, caps, wanted, ds),
    ensures
        ({
            let n = ds.len();
            &&& n == 4 + (if wanted.band {
                1int
            } else {
                0
            }) + (if wanted.mode {
                1int
            } else {
                0
            })
            &&& wanted.band ==> ds[0] == DrawView::Lines(
                Rect { height: 1, ..area },
                seq![band_spans(radio.vfo_a_hz, caps, caps.bands@.len())],
                false,
            )
            &&& wanted.mode ==> ds[n - 5] == DrawView::Lines(
                Rect { y: (area.y + 1) as u16, height: 1, ..area },
                seq![mode_spans(radio.mode@, caps.modes@, caps.modes@.len())],
                false,
            )
            &&& forall|k: int|
                0 <= k < 4 ==> (#[trigger] ds[n - 4 + k] matches DrawView::Lines(r, lines, _) && r
                    == (Rect { y: (area.y + 2 + k) as u16, height: 1, ..area }) && lines.len() == 1
                    && lines[0] == ribbon_spans(
                    ribbon_view(radio),
                    if k < 2 {
                        0
                    } else {
                        4
                    },
                    if k < 2 {
                        4
                    } else {
                        8
                    },
                    k == 0 || k == 2,
                ))
        }),
{
    let rows = choose|rows: Seq<Rect>| #[trigger]
        splits(Direction::Vertical, quick_rows(), area, rows) && ds == quick_band(
            rows[0],
            radio,
            caps,
            wanted,
        ) + quick_mode(rows[1], radio, caps, wanted) + ribbon_draws(rows, radio);
    let cs = quick_rows();
    reveal_with_fuel(total_amount, 7);
    assert(total_amount(cs) == 6);
    let d = Direction::Vertical;
    assert(rows.len() == 6);
    assert forall|i: int| 0 <= i < 6 implies #[trigger] rows[i] == (Rect {
        y: (area.y + i) as u16,
        height: 1,
        ..area
    }) by {
        assert(lies_in(rows[i], area, d));
        assert(extent(rows[i], d) == 1);
        assert(start(rows[0], d) == area.y);
        assert(extent(rows[0], d) == 1);
        assert(extent(rows[1], d) == 1);
        assert(extent(rows[2], d) == 1);
        assert(extent(rows[3], d) == 1);
        assert(extent(rows[4], d) == 1);
        assert(start(rows[1], d) == start(rows[0], d) + extent(rows[0], d));
        assert(start(rows[2], d) == start(rows[1], d) + extent(rows[1], d));
        assert(start(rows[3], d) == start(rows[2], d) + extent(rows[2], d));
        assert(start(rows[4], d) == start(rows[3], d) + extent(rows[3], d));
        assert(start(rows[5], d) == start(rows[4], d) + extent(rows[4], d));
    }
    let n = ds.len();
    let ribbon = ribbon_draws(rows, radio);
    assert forall|k: int| 0 <= k < 4 implies #[trigger] ds[n - 4 + k] == ribbon[k] by {}
    assert(rows[0] == Rect { height: 1, ..area });
}

/// The content pane with room: the tab bar in its first row, the readout in
/// the next four, the quick settings in the six after these, and the open tab
/// in all that is left.
pub proof fn a_content_pane_with_room_is_exact(
    area: Rect,
    radio: RadioDisplay,
    view: ConsoleView,
    caps: Capabilities,
    ds: Seq<DrawView>,
    body: Rect,
)
    requires
        area.fits(),
        area.width > 0,
        area.height >= 11,
        content_drawn(area, radio, view, caps, ds, body),
    ensures
        body == (Rect { y: (area.y + 11) as u16, height: (area.height - 11) as u16, ..area }),
        content_in_rows(
            seq![
                Rect { height: 1, ..area },
                Rect { y: (area.y + 1) as u16, height: 4, ..area },
                Rect { y: (area.y + 5) as u16, height: 6, ..area },
                body,
            ],
            radio,
            view,
            caps,
            ds,
        ),
        ds.len() > 0,
        ds[0] == DrawView::Lines(
            Rect { height: 1, ..area },
            seq![tab_spans(view.tabs@, view.tab, view.tabs@.len())],
            false,
        ),
        exists|readout: Seq<DrawView>, quick: Seq<DrawView>| #[trigger]
            readout_drawn(
                Rect { y: (area.y + 1) as u16, height: 4, ..area },
                radio,
                view,
                readout,
            ) && #[trigger] quick_drawn(
                Rect { y: (area.y + 5) as u16, height: 6, ..area },
                radio,
                caps,
                QuickRows { band: true, mode: true },
                quick,
            ) && ds.skip(1) == readout + quick + tab_draws(body, radio, view),
{
    let rows = choose|rows: Seq<Rect>| #[trigger]
        splits(Direction::Vertical, content_rows(), area, rows) && content_in_rows(
            rows,
            radio,
            view,
            caps,
            ds,
        ) && body == rows[3];
    let cs = content_rows();
    reveal_with_fuel(total_amount, 5);
    reveal_with_fuel(total_length, 5);
    assert(total_amount(cs) == 11);
    assert(total_length(cs) == 11);
    let d = Direction::Vertical;
    assert(rows.len() == 4);
    assert(lies_in(rows[0], area, d));
    assert(lies_in(rows[1], area, d));
    assert(lies_in(rows[2], area, d));
    assert(lies_in(rows[3], area, d));
    assert(extent(rows[0], d) == 1);
    assert(extent(rows[1], d) == 4);
    assert(extent(rows[2], d) == 6);
    assert(extent(rows[3], d) == area.height - 11);
    assert(start(rows[1], d) == start(rows[0], d) + extent(rows[0], d));
    assert(start(rows[2], d) == start(rows[1], d) + extent(rows[1], d));
    assert(start(rows[3], d) == start(rows[2], d) + extent(rows[2], d));
    assert(rows =~= seq![
        Rect { height: 1, ..area },
        Rect { y: (area.y + 1) as u16, height: 4, ..area },
        Rect { y: (area.y + 5) as u16, height: 6, ..area },
        body,
    ]);
    let (readout, quick): (Seq<DrawView>, Seq<DrawView>) = choose|
        readout: Seq<DrawView>,
        quick: Seq<DrawView>,
    | #[trigger]
        readout_drawn(rows[1], radio, view, readout) && #[trigger] quick_drawn(
            rows[2],
            radio,
            caps,
            QuickRows { band: true, mode: true },
            quick,
        ) && ds == seq![tab_bar_draw(rows[0], view)] + readout + quick + tab_draws(
            rows[3],
            radio,
            view,
        );
    assert(ds[0] == tab_bar_draw(rows[0], view));
    assert(ds.skip(1) =~= readout + quick + tab_draws(body, radio, view));
    assert(rows[1] == Rect { y: (area.y + 1) as u16, height: 4, ..area });
    assert(rows[2] == Rect { y: (area.y + 5) as u16, height: 6, ..area });
}

/// The open tab is the one that is drawn.
pub proof fn the_open_tab_is_drawn(area: Rect, radio: RadioDisplay, view: ConsoleView)
    ensures
        view.tab == Tab::Spectrum ==> tab_draws(area, radio, view) == spectrum_draws(area, view),
        view.tab != Tab::Spectrum ==> tab_draws(area, radio, view).len() == 1 && (tab_draws(
            area,
            radio,
            view,
        )[0] matches DrawView::Lines(r, lines, _) && r == area && lines == (match view.tab {
            Tab::Memory => memory_lines(radio, view),
            Tab::Menu => menu_tab_lines(view),
            _ => source_lines(view),
        })),
{
}

} // verus!
