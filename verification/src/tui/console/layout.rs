//! The whole screen: the banner of a transmission, then the arrangement the
//! radio's own server asked for, or the console's own.

use crate::text::push_repeated;
use crate::text::push_text;
use crate::text::repeated;
use crate::tui::console::content::content_drawn;
use crate::tui::console::content::draw_content;
use crate::tui::console::content::draw_quick_settings;
use crate::tui::console::content::draw_spectrum;
use crate::tui::console::content::draw_tab_content;
use crate::tui::console::content::quick_drawn;
use crate::tui::console::content::spectrum_draws;
use crate::tui::console::content::tab_bar_draw;
use crate::tui::console::content::tab_draws;
use crate::tui::console::content::QuickRows;
use crate::tui::console::facts::band_row;
use crate::tui::console::facts::band_spans;
use crate::tui::console::facts::command_line;
use crate::tui::console::facts::command_spans;
use crate::tui::console::facts::mode_row;
use crate::tui::console::facts::mode_spans;
use crate::tui::console::facts::reference_lines;
use crate::tui::console::facts::reference_rail;
use crate::tui::console::facts::status_line;
use crate::tui::console::facts::status_spans;
use crate::tui::console::facts::tab_bar;
use crate::tui::console::model::Capabilities;
use crate::tui::console::model::ConsoleView;
use crate::tui::console::model::RadioDisplay;
use crate::tui::console::model::Tab;
use crate::tui::console::rail::af_panel;
use crate::tui::console::rail::below_head;
use crate::tui::console::rail::draw_af_fft;
use crate::tui::console::rail::draw_af_scope;
use crate::tui::console::rail::draw_meters;
use crate::tui::console::rail::draw_rail;
use crate::tui::console::rail::head_row;
use crate::tui::console::rail::headed_rows;
use crate::tui::console::rail::meters_drawn;
use crate::tui::console::rail::rail_drawn;
use crate::tui::console::rail::split_head;
use crate::tui::console::readout::alarm;
use crate::tui::console::readout::draw_readout;
use crate::tui::console::readout::readout_drawn;
use crate::tui::console::regions::is_split;
use crate::tui::console::regions::split;
use crate::tui::console::regions::Regions;
use crate::tui::console::regions::two_parts;
use crate::tui::draw::draws;
use crate::tui::draw::push_line_in;
use crate::tui::draw::push_lines_in;
use crate::tui::draw::Draw;
use crate::tui::draw::DrawView;
use crate::ui::geometry::extent;
use crate::ui::geometry::lies_in;
use crate::ui::geometry::split_area;
use crate::ui::geometry::splits;
use crate::ui::geometry::start;
use crate::ui::geometry::union;
use crate::ui::geometry::union_spec;
use crate::ui::geometry::Constraint;
use crate::ui::geometry::Direction;
use crate::ui::geometry::Rect;
use crate::ui::style::Colour;
use crate::ui::style::Line;
use crate::ui::style::Span;
use crate::ui::style::Style;
use vstd::prelude::*;
use vstd::string::*;

verus! {

/// What the banner of a transmission says.
pub open spec fn banner_label() -> Seq<char> {
    "  ◆ ◆ ◆   T R A N S M I T T I N G   ◆ ◆ ◆  "@
}

/// The columns before the banner's label.
pub open spec fn banner_pad(width: int) -> int {
    if width < banner_label().len() {
        0
    } else {
        (width - banner_label().len()) / 2
    }
}

/// The banner's text: its label in the middle, padded so that the colour runs
/// the whole width.
pub open spec fn banner_text(width: int) -> Seq<char> {
    let pad = banner_pad(width);
    repeated(' ', pad) + banner_label() + repeated(' ', width - pad - banner_label().len())
}

/// A banner as wide as the screen, wherever its label fits, and never
/// narrower than its label.
pub proof fn the_banner_runs_the_whole_width(width: nat)
    ensures
        width >= banner_label().len() ==> banner_text(width as int).len() == width,
        width < banner_label().len() ==> banner_text(width as int) =~= banner_label(),
{
}

fn banner(width: u16) -> (r: String)
    ensures
        r@ == banner_text(width as int),
{
    let label = "  ◆ ◆ ◆   T R A N S M I T T I N G   ◆ ◆ ◆  ";
    let len: usize = label.unicode_len();
    let w: usize = width as usize;
    let pad: usize = if w < len {
        0
    } else {
        (w - len) / 2
    };
    let mut out = String::new();
    push_repeated(&mut out, ' ', pad);
    push_text(&mut out, label);
    if w > len {
        push_repeated(&mut out, ' ', w - len - pad);
    }
    assert(out@ =~= banner_text(width as int));
    out
}

/// Whether the screen gives its first row to the banner: only while the radio
/// is keyed, and only where there are rows to spare.
pub open spec fn has_banner(area: Rect, radio: RadioDisplay) -> bool {
    radio.tx && area.height >= 3
}

/// The pieces of the banner.
pub open spec fn banner_draws(area: Rect, radio: RadioDisplay) -> Seq<DrawView> {
    if has_banner(area, radio) {
        seq![
            DrawView::Lines(
                head_row(area),
                seq![seq![(banner_text(area.width as int), alarm())]],
                false,
            ),
        ]
    } else {
        seq![]
    }
}

/// What is left of the screen under the banner.
pub open spec fn under_banner(area: Rect, radio: RadioDisplay) -> Rect {
    if has_banner(area, radio) {
        below_head(area)
    } else {
        area
    }
}

/// A full-width bar while the radio is keyed, and nothing when it is not. Says
/// what is left for everything else. It takes a row rather than covering one:
/// what it would cover are the meters one transmits in order to watch.
pub fn tx_banner(out: &mut Vec<Draw>, area: Rect, radio: &RadioDisplay) -> (r: Rect)
    requires
        area.fits(),
    ensures
        r == under_banner(area, *radio),
        r.fits(),
        draws(final(out)@) == draws(old(out)@) + banner_draws(area, *radio),
{
    let ghost before = draws(out@);
    if !radio.tx || area.height < 3 {
        assert(draws(out@) =~= before + banner_draws(area, *radio));
        return area;
    }
    let (head, rest) = split_head(area);
    push_line_in(
        out,
        head,
        Line::one(Span::styled(banner(head.width), Style::bold_on(Colour::White, Colour::Red))),
    );
    assert(draws(out@) =~= before + banner_draws(area, *radio));
    rest
}

/// A panel a layout can place.
#[derive(Debug, Clone, Copy, PartialEq, Eq, Structural)]
pub enum PanelKind {
    Readout,
    QuickBar,
    MeterRail,
    LevelsRail,
    Spectrum,
    AfScope,
    AfFft,
    Workspace,
    Status,
    CommandLine,
    BandBar,
    ModeBar,
    Blank,
    /// A panel this console does not know. It stays a gap: drawing something
    /// else there would be worse.
    Unknown,
}

/// A panel and where it is placed.
#[derive(Debug, Clone, Copy, PartialEq, Eq, Structural)]
pub struct Placement {
    pub kind: PanelKind,
    pub area: Rect,
}

/// An arrangement that a server asked for, resolved to the screen.
#[derive(Debug, PartialEq, Eq)]
pub struct Arrangement {
    pub placements: Vec<Placement>,
    /// Whether the arrangement places the bands on their own.
    pub places_band_bar: bool,
    /// Whether the arrangement places the modes on their own.
    pub places_mode_bar: bool,
}

/// The first placement of a kind.
pub open spec fn first_of(placements: Seq<Placement>, kind: PanelKind) -> Option<Rect>
    decreases placements.len(),
{
    if placements.len() == 0 {
        None
    } else if placements[0].kind == kind {
        Some(placements[0].area)
    } else {
        first_of(placements.skip(1), kind)
    }
}

fn find_first(placements: &Vec<Placement>, kind: PanelKind) -> (r: Option<Rect>)
    requires
        forall|i: int|
            0 <= i < placements@.len() ==> (#[trigger] placements@[i]).area.fits(),
    ensures
        r == first_of(placements@, kind),
        r matches Some(area) ==> area.fits(),
{
    let mut i: usize = 0;
    assert(placements@.skip(0) =~= placements@);
    while i < placements.len()
        invariant
            i <= placements@.len(),
            forall|i: int|
                0 <= i < placements@.len() ==> (#[trigger] placements@[i]).area.fits(),
            first_of(placements@, kind) == first_of(placements@.skip(i as int), kind),
        decreases placements@.len() - i,
    {
        assert(placements@.skip(i as int)[0] == placements@[i as int]);
        if placements[i].kind == kind {
            return Some(placements[i].area);
        }
        assert(placements@.skip(i as int).skip(1) =~= placements@.skip(i + 1));
        i += 1;
    }
    None
}

/// The area the spectrum takes where it would else be drawn twice: as a panel,
/// and as the open tab. It gets both places.
pub open spec fn merged_spectrum(placements: Seq<Placement>, tab: Tab) -> Option<Rect> {
    match (
        tab,
        first_of(placements, PanelKind::Spectrum),
        first_of(placements, PanelKind::Workspace),
    ) {
        (Tab::Spectrum, Some(sp), Some(ws)) => Some(union_spec(sp, ws)),
        _ => None,
    }
}

/// Whether `ds` are the pieces of the tab bar and, under it, the readout.
pub open spec fn headed_readout_drawn(
    area: Rect,
    radio: RadioDisplay,
    view: ConsoleView,
    ds: Seq<DrawView>,
) -> bool {
    exists|rows: Seq<Rect>, readout: Seq<DrawView>| #[trigger]
        splits(Direction::Vertical, headed_rows(), area, rows) && #[trigger] readout_drawn(
            rows[1],
            radio,
            view,
            readout,
        ) && ds == seq![tab_bar_draw(rows[0], view)] + readout
}

/// Whether `ds` are the pieces of one placed panel.
pub open spec fn panel_drawn(
    p: Placement,
    arrangement: Arrangement,
    radio: RadioDisplay,
    view: ConsoleView,
    caps: Capabilities,
    ds: Seq<DrawView>,
) -> bool {
    let merged = merged_spectrum(arrangement.placements@, view.tab);
    match p.kind {
        // The tab bar rides with the readout: they are read as one.
        PanelKind::Readout => headed_readout_drawn(p.area, radio, view, ds),
        PanelKind::QuickBar => quick_drawn(
            p.area,
            radio,
            caps,
            QuickRows { band: !arrangement.places_band_bar, mode: !arrangement.places_mode_bar },
            ds,
        ),
        PanelKind::MeterRail => meters_drawn(p.area, radio, caps, ds),
        PanelKind::LevelsRail => ds == reference_draws(p.area, radio),
        PanelKind::Spectrum => ds == spectrum_draws(
            match merged {
                Some(both) => both,
                None => p.area,
            },
            view,
        ),
        PanelKind::AfScope => ds == af_panel(
            "AF SCOPE"@,
            view.audio,
            p.area,
            DrawView::AfScope(below_head(p.area)),
        ),
        PanelKind::AfFft => ds == af_panel(
            "AF FFT"@,
            view.audio,
            p.area,
            DrawView::AfFft(below_head(p.area)),
        ),
        PanelKind::Workspace => if merged is Some {
            ds.len() == 0
        } else {
            ds == tab_draws(p.area, radio, view)
        },
        PanelKind::Status => ds == status_draws(p.area, radio, view),
        PanelKind::CommandLine => ds == command_draws(p.area, view),
        PanelKind::BandBar => ds == band_bar_draws(p.area, radio, caps),
        PanelKind::ModeBar => ds == mode_bar_draws(p.area, radio, caps),
        PanelKind::Blank | PanelKind::Unknown => ds.len() == 0,
    }
}

pub open spec fn reference_draws(area: Rect, radio: RadioDisplay) -> Seq<DrawView> {
    if area.width == 0 {
        seq![]
    } else {
        seq![DrawView::Lines(area, reference_lines(radio), false)]
    }
}

pub open spec fn status_draws(area: Rect, radio: RadioDisplay, view: ConsoleView) -> Seq<DrawView> {
    seq![DrawView::Lines(area, seq![status_spans(radio, view)], false)]
}

pub open spec fn command_draws(area: Rect, view: ConsoleView) -> Seq<DrawView> {
    seq![DrawView::Lines(area, seq![command_spans(view)], false)]
}

/// The bands as a panel of their own.
pub open spec fn band_bar_draws(area: Rect, radio: RadioDisplay, caps: Capabilities) -> Seq<
    DrawView,
> {
    if area.height == 0 {
        seq![]
    } else {
        seq![
            DrawView::Lines(
                area,
                seq![band_spans(radio.vfo_a_hz, caps, caps.bands@.len())],
                false,
            ),
        ]
    }
}

/// The modes as a panel of their own, wrapped: a radio may have more than fit
/// on one row of a rail.
pub open spec fn mode_bar_draws(area: Rect, radio: RadioDisplay, caps: Capabilities) -> Seq<
    DrawView,
> {
    if area.height == 0 {
        seq![]
    } else {
        seq![
            DrawView::Lines(
                area,
                seq![mode_spans(radio.mode@, caps.modes@, caps.modes@.len())],
                true,
            ),
        ]
    }
}

/// The reference rail.
pub fn draw_reference(out: &mut Vec<Draw>, area: Rect, radio: &RadioDisplay)
    ensures
        draws(final(out)@) == draws(old(out)@) + reference_draws(area, *radio),
{
    let ghost before = draws(out@);
    if area.width > 0 {
        push_lines_in(out, area, reference_rail(radio), false);
    }
    assert(draws(out@) =~= before + reference_draws(area, *radio));
}

/// The status strip.
pub fn draw_status(out: &mut Vec<Draw>, area: Rect, radio: &RadioDisplay, view: &ConsoleView)
    ensures
        draws(final(out)@) == draws(old(out)@) + status_draws(area, *radio, *view),
{
    let ghost before = draws(out@);
    push_line_in(out, area, status_line(radio, view));
    assert(draws(out@) =~= before + status_draws(area, *radio, *view));
}

/// The command line.
pub fn draw_command(out: &mut Vec<Draw>, area: Rect, view: &ConsoleView)
    ensures
        draws(final(out)@) == draws(old(out)@) + command_draws(area, *view),
{
    let ghost before = draws(out@);
    push_line_in(out, area, command_line(view));
    assert(draws(out@) =~= before + command_draws(area, *view));
}

/// The bands as a panel of their own.
pub fn draw_band_bar(out: &mut Vec<Draw>, area: Rect, radio: &RadioDisplay, caps: &Capabilities)
    ensures
        draws(final(out)@) == draws(old(out)@) + band_bar_draws(area, *radio, *caps),
{
    let ghost before = draws(out@);
    if area.height > 0 {
        push_line_in(out, area, band_row(radio.vfo_a_hz, caps));
    }
    assert(draws(out@) =~= before + band_bar_draws(area, *radio, *caps));
}

/// The modes as a panel of their own.
pub fn draw_mode_bar(out: &mut Vec<Draw>, area: Rect, radio: &RadioDisplay, caps: &Capabilities)
    ensures
        draws(final(out)@) == draws(old(out)@) + mode_bar_draws(area, *radio, *caps),
{
    let ghost before = draws(out@);
    if area.height > 0 {
        let mut lines: Vec<Line> = Vec::new();
        crate::ui::style::push_line(&mut lines, mode_row(&radio.mode, caps));
        assert(crate::ui::style::lines_view(lines@) =~= seq![
            mode_spans(radio.mode@, caps.modes@, caps.modes@.len()),
        ]);
        push_lines_in(out, area, lines, true);
    }
    assert(draws(out@) =~= before + mode_bar_draws(area, *radio, *caps));
}

fn draw_headed_readout(
    out: &mut Vec<Draw>,
    area: Rect,
    radio: &RadioDisplay,
    view: &ConsoleView,
)
    requires
        area.fits(),
    ensures
        exists|ds: Seq<DrawView>| #[trigger]
            headed_readout_drawn(area, *radio, *view, ds) && draws(final(out)@) == draws(old(out)@)
                + ds,
{
    let ghost before = draws(out@);
    let mut sizes: Vec<Constraint> = Vec::new();
    sizes.push(Constraint::Length(1));
    sizes.push(Constraint::Min(1));
    assert(sizes@ =~= headed_rows());
    let rows = split_area(Direction::Vertical, &sizes, area);
    assert(lies_in(rows@[1], area, Direction::Vertical));
    push_line_in(out, rows[0], tab_bar(view));
    let ghost barred = draws(out@);
    draw_readout(out, rows[1], radio, view);
    proof {
        let readout = choose|ds: Seq<DrawView>| #[trigger]
            readout_drawn(rows@[1], *radio, *view, ds) && draws(out@) == barred + ds;
        let ds = seq![tab_bar_draw(rows@[0], *view)] + readout;
        assert(draws(out@) =~= before + ds);
        assert(headed_readout_drawn(area, *radio, *view, ds));
    }
}

fn draw_panel(
    out: &mut Vec<Draw>,
    p: Placement,
    arrangement: &Arrangement,
    merged: Option<Rect>,
    radio: &RadioDisplay,
    view: &ConsoleView,
    caps: &Capabilities,
)
    requires
        p.area.fits(),
        merged == merged_spectrum(arrangement.placements@, view.tab),
        merged matches Some(both) ==> both.fits(),
    ensures
        exists|ds: Seq<DrawView>| #[trigger]
            panel_drawn(p, *arrangement, *radio, *view, *caps, ds) && draws(final(out)@) == draws(
                old(out)@,
            ) + ds,
{
    let ghost before = draws(out@);
    let r = p.area;
    match p.kind {
        PanelKind::Readout => {
            draw_headed_readout(out, r, radio, view);
            proof {
                let ds = choose|ds: Seq<DrawView>| #[trigger]
                    headed_readout_drawn(r, *radio, *view, ds) && draws(out@) == before + ds;
                assert(panel_drawn(p, *arrangement, *radio, *view, *caps, ds));
            }
        },
        PanelKind::QuickBar => {
            let wanted = QuickRows {
                band: !arrangement.places_band_bar,
                mode: !arrangement.places_mode_bar,
            };
            draw_quick_settings(out, r, radio, caps, wanted);
            proof {
                let ds = choose|ds: Seq<DrawView>| #[trigger]
                    quick_drawn(r, *radio, *caps, wanted, ds) && draws(out@) == before + ds;
                assert(panel_drawn(p, *arrangement, *radio, *view, *caps, ds));
            }
        },
        PanelKind::MeterRail => {
            draw_meters(out, r, radio, caps);
            proof {
                let ds = choose|ds: Seq<DrawView>| #[trigger]
                    meters_drawn(r, *radio, *caps, ds) && draws(out@) == before + ds;
                assert(panel_drawn(p, *arrangement, *radio, *view, *caps, ds));
            }
        },
        PanelKind::LevelsRail => {
            draw_reference(out, r, radio);
            assert(panel_drawn(
                p,
                *arrangement,
                *radio,
                *view,
                *caps,
                reference_draws(r, *radio),
            ));
        },
        PanelKind::Spectrum => {
            let place = match merged {
                Some(both) => both,
                None => r,
            };
            draw_spectrum(out, place, view);
            assert(panel_drawn(
                p,
                *arrangement,
                *radio,
                *view,
                *caps,
                spectrum_draws(place, *view),
            ));
        },
        PanelKind::AfScope => {
            draw_af_scope(out, r, view);
            assert(panel_drawn(
                p,
                *arrangement,
                *radio,
                *view,
                *caps,
                af_panel("AF SCOPE"@, view.audio, r, DrawView::AfScope(below_head(r))),
            ));
        },
        PanelKind::AfFft => {
            draw_af_fft(out, r, view);
            assert(panel_drawn(
                p,
                *arrangement,
                *radio,
                *view,
                *caps,
                af_panel("AF FFT"@, view.audio, r, DrawView::AfFft(below_head(r))),
            ));
        },
        PanelKind::Workspace => {
            if merged.is_none() {
                draw_tab_content(out, r, radio, view);
                assert(panel_drawn(
                    p,
                    *arrangement,
                    *radio,
                    *view,
                    *caps,
                    tab_draws(r, *radio, *view),
                ));
            } else {
                let ghost none = Seq::<DrawView>::empty();
                assert(panel_drawn(p, *arrangement, *radio, *view, *caps, none));
                assert(draws(out@) =~= before + none);
            }
        },
        PanelKind::Status => {
            draw_status(out, r, radio, view);
            assert(panel_drawn(
                p,
                *arrangement,
                *radio,
                *view,
                *caps,
                status_draws(r, *radio, *view),
            ));
        },
        PanelKind::CommandLine => {
            draw_command(out, r, view);
            assert(panel_drawn(p, *arrangement, *radio, *view, *caps, command_draws(r, *view)));
        },
        PanelKind::BandBar => {
            draw_band_bar(out, r, radio, caps);
            assert(panel_drawn(
                p,
                *arrangement,
                *radio,
                *view,
                *caps,
                band_bar_draws(r, *radio, *caps),
            ));
        },
        PanelKind::ModeBar => {
            draw_mode_bar(out, r, radio, caps);
            assert(panel_drawn(
                p,
                *arrangement,
                *radio,
                *view,
                *caps,
                mode_bar_draws(r, *radio, *caps),
            ));
        },
        PanelKind::Blank | PanelKind::Unknown => {
            let ghost none = Seq::<DrawView>::empty();
            assert(panel_drawn(p, *arrangement, *radio, *view, *caps, none));
            assert(draws(out@) =~= before + none);
        },
    }
}

/// Several lists of pieces, one after another.
pub open spec fn joined(parts: Seq<Seq<DrawView>>) -> Seq<DrawView>
    decreases parts.len(),
{
    if parts.len() == 0 {
        seq![]
    } else {
        joined(parts.drop_last()) + parts.last()
    }
}

/// Whether `parts` are the pieces of the first placed panels, each with its
/// own.
pub open spec fn parts_drawn(
    arrangement: Arrangement,
    radio: RadioDisplay,
    view: ConsoleView,
    caps: Capabilities,
    parts: Seq<Seq<DrawView>>,
) -> bool {
    &&& parts.len() <= arrangement.placements@.len()
    &&& forall|i: int|
        0 <= i < parts.len() ==> panel_drawn(
            arrangement.placements@[i],
            arrangement,
            radio,
            view,
            caps,
            #[trigger] parts[i],
        )
}

/// Whether `ds` are the pieces of all placed panels, in order.
pub open spec fn panels_drawn(
    arrangement: Arrangement,
    radio: RadioDisplay,
    view: ConsoleView,
    caps: Capabilities,
    ds: Seq<DrawView>,
) -> bool {
    exists|parts: Seq<Seq<DrawView>>| #[trigger]
        parts_drawn(arrangement, radio, view, caps, parts) && parts.len()
            == arrangement.placements@.len() && ds == joined(parts)
}

/// The place of the open tab among the first `count` panels: the last
/// workspace, or the whole area where there is none.
pub open spec fn workspace_of(placements: Seq<Placement>, area: Rect, count: nat) -> Rect
    decreases count,
{
    if count == 0 {
        area
    } else if placements[count - 1].kind == PanelKind::Workspace {
        placements[count - 1].area
    } else {
        workspace_of(placements, area, (count - 1) as nat)
    }
}

/// Every placed panel lies on the screen.
pub open spec fn on_screen(arrangement: Arrangement) -> bool {
    forall|i: int|
        0 <= i < arrangement.placements@.len() ==> (
        #[trigger] arrangement.placements@[i]).area.fits()
}

/// The arrangement a server asked for. The panels are this console's and the
/// arrangement is the radio's. Says where the open tab stands.
pub fn draw_layout(
    out: &mut Vec<Draw>,
    area: Rect,
    radio: &RadioDisplay,
    view: &ConsoleView,
    caps: &Capabilities,
    arrangement: &Arrangement,
) -> (r: Rect)
    requires
        area.fits(),
        on_screen(*arrangement),
    ensures
        exists|ds: Seq<DrawView>| #[trigger]
            panels_drawn(*arrangement, *radio, *view, *caps, ds) && draws(final(out)@) == draws(old(out)@) + ds,
        r == workspace_of(arrangement.placements@, area, arrangement.placements@.len()),
{
    let ghost before = draws(out@);
    let spectrum_rect = find_first(&arrangement.placements, PanelKind::Spectrum);
    let workspace_rect = find_first(&arrangement.placements, PanelKind::Workspace);
    let merged: Option<Rect> = match (view.tab, spectrum_rect, workspace_rect) {
        (Tab::Spectrum, Some(sp), Some(ws)) => Some(union(sp, ws)),
        _ => None,
    };
    let mut body = area;
    let mut i: usize = 0;
    let ghost mut parts = Seq::<Seq<DrawView>>::empty();
    proof {
        assert(draws(out@) =~= before + joined(parts));
    }
    while i < arrangement.placements.len()
        invariant
            i <= arrangement.placements@.len(),
            on_screen(*arrangement),
            merged == merged_spectrum(arrangement.placements@, view.tab),
            merged matches Some(both) ==> both.fits(),
            parts.len() == i,
            parts_drawn(*arrangement, *radio, *view, *caps, parts),
            draws(out@) == before + joined(parts),
            body == workspace_of(arrangement.placements@, area, i as nat),
        decreases arrangement.placements@.len() - i,
    {
        let p = arrangement.placements[i];
        let ghost so_far = draws(out@);
        draw_panel(out, p, arrangement, merged, radio, view, caps);
        match p.kind {
            PanelKind::Workspace => {
                body = p.area;
            },
            _ => {},
        }
        proof {
            let last = choose|ds: Seq<DrawView>| #[trigger]
                panel_drawn(p, *arrangement, *radio, *view, *caps, ds) && draws(out@) == so_far
                    + ds;
            let earlier = parts;
            parts = earlier.push(last);
            assert(parts.drop_last() =~= earlier);
            assert(draws(out@) =~= before + joined(parts));
        }
        i += 1;
    }
    proof {
        assert(panels_drawn(*arrangement, *radio, *view, *caps, joined(parts)));
    }
    body
}

/// Whether `ds` are the pieces of the console's own arrangement in its
/// regions.
pub open spec fn regions_drawn(
    g: Regions,
    radio: RadioDisplay,
    view: ConsoleView,
    caps: Capabilities,
    ds: Seq<DrawView>,
    body: Rect,
) -> bool {
    exists|rail: Seq<DrawView>, content: Seq<DrawView>| #[trigger]
        rail_drawn(g.rail, radio, view, caps, rail) && #[trigger] content_drawn(
            g.content,
            radio,
            view,
            caps,
            content,
            body,
        ) && ds == rail + content + reference_draws(g.reference, radio) + status_draws(
            g.status,
            radio,
            view,
        ) + command_draws(g.command, view)
}

/// Whether `ds` are the pieces of the screen under the banner.
pub open spec fn console_drawn(
    area: Rect,
    radio: RadioDisplay,
    view: ConsoleView,
    caps: Capabilities,
    arrangement: Option<Arrangement>,
    ds: Seq<DrawView>,
    body: Rect,
) -> bool {
    match arrangement {
        Some(a) => panels_drawn(a, radio, view, caps, ds) && body
            == workspace_of(a.placements@, area, a.placements@.len()),
        None => exists|g: Regions| #[trigger]
            is_split(area, g) && regions_drawn(g, radio, view, caps, ds, body),
    }
}

fn draw_regions(
    out: &mut Vec<Draw>,
    g: Regions,
    radio: &RadioDisplay,
    view: &ConsoleView,
    caps: &Capabilities,
) -> (r: Rect)
    requires
        g.rail.fits(),
        g.content.fits(),
    ensures
        exists|ds: Seq<DrawView>| #[trigger]
            regions_drawn(g, *radio, *view, *caps, ds, r) && draws(final(out)@) == draws(old(out)@)
                + ds,
{
    let ghost before = draws(out@);
    draw_rail(out, g.rail, radio, view, caps);
    let ghost rail = choose|ds: Seq<DrawView>| #[trigger]
        rail_drawn(g.rail, *radio, *view, *caps, ds) && draws(out@) == before + ds;
    let ghost railed = draws(out@);
    let body = draw_content(out, g.content, radio, view, caps);
    let ghost content = choose|ds: Seq<DrawView>| #[trigger]
        content_drawn(g.content, *radio, *view, *caps, ds, body) && draws(out@) == railed + ds;
    draw_reference(out, g.reference, radio);
    draw_status(out, g.status, radio, view);
    draw_command(out, g.command, view);
    proof {
        let ds = rail + content + reference_draws(g.reference, *radio) + status_draws(
            g.status,
            *radio,
            *view,
        ) + command_draws(g.command, *view);
        assert(draws(out@) =~= before + ds);
        assert(regions_drawn(g, *radio, *view, *caps, ds, body));
    }
    body
}

/// Whether `ds` are the pieces of the whole screen.
pub open spec fn screen_drawn(
    area: Rect,
    radio: RadioDisplay,
    view: ConsoleView,
    caps: Capabilities,
    arrangement: Option<Arrangement>,
    ds: Seq<DrawView>,
    body: Rect,
) -> bool {
    exists|rest: Seq<DrawView>| #[trigger]
        console_drawn(under_banner(area, radio), radio, view, caps, arrangement, rest, body) && ds
            == banner_draws(area, radio) + rest
}

/// The whole screen, and the place of the open tab, which is where other
/// screens go while they are up.
///
/// `arrangement` is what the server asked for, resolved to what
/// [`under_banner`] leaves. A server that never published one gets the
/// console's own.
pub fn draw(
    area: Rect,
    radio: &RadioDisplay,
    view: &ConsoleView,
    caps: &Capabilities,
    arrangement: Option<&Arrangement>,
) -> (r: (Vec<Draw>, Rect))
    requires
        area.fits(),
        arrangement matches Some(a) ==> on_screen(*a),
    ensures
        screen_drawn(
            area,
            *radio,
            *view,
            *caps,
            match arrangement {
                Some(a) => Some(*a),
                None => None,
            },
            draws(r.0@),
            r.1,
        ),
{
    let mut out: Vec<Draw> = Vec::new();
    assert(draws(out@) =~= Seq::<DrawView>::empty());
    let under = tx_banner(&mut out, area, radio);
    let ghost above = draws(out@);
    assert(above =~= banner_draws(area, *radio));
    let ghost wanted: Option<Arrangement> = match arrangement {
        Some(a) => Some(*a),
        None => None,
    };
    let ghost mut rest = Seq::<DrawView>::empty();
    let body = match arrangement {
        Some(a) => {
            let body = draw_layout(&mut out, under, radio, view, caps, a);
            proof {
                rest = choose|ds: Seq<DrawView>| #[trigger]
                    panels_drawn(*a, *radio, *view, *caps, ds) && draws(out@)
                        == above + ds;
                assert(console_drawn(under, *radio, *view, *caps, wanted, rest, body));
            }
            body
        },
        None => {
            let g = split(under);
            let body = draw_regions(&mut out, g, radio, view, caps);
            proof {
                rest = choose|ds: Seq<DrawView>| #[trigger]
                    regions_drawn(g, *radio, *view, *caps, ds, body) && draws(out@) == above + ds;
                assert(is_split(under, g));
                assert(console_drawn(under, *radio, *view, *caps, wanted, rest, body));
            }
            body
        },
    };
    assert(draws(out@) =~= banner_draws(area, *radio) + rest);
    (out, body)
}

/// A radio that receives gives up no row, and neither does a screen too short
/// for it; a keyed one on a taller screen says so across its first row before
/// anything else is drawn.
pub proof fn the_banner_is_shown_exactly_while_keyed(
    area: Rect,
    radio: RadioDisplay,
    view: ConsoleView,
    caps: Capabilities,
    arrangement: Option<Arrangement>,
    ds: Seq<DrawView>,
    body: Rect,
)
    requires
        screen_drawn(area, radio, view, caps, arrangement, ds, body),
    ensures
        radio.tx && area.height >= 3 ==> ds.len() > 0 && ds[0] == DrawView::Lines(
            head_row(area),
            seq![seq![(banner_text(area.width as int), alarm())]],
            false,
        ),
        !radio.tx || area.height < 3 ==> console_drawn(
            area,
            radio,
            view,
            caps,
            arrangement,
            ds,
            body,
        ),
{
    let rest = choose|rest: Seq<DrawView>| #[trigger]
        console_drawn(under_banner(area, radio), radio, view, caps, arrangement, rest, body) && ds
            == banner_draws(area, radio) + rest;
    if !has_banner(area, radio) {
        assert(banner_draws(area, radio) + rest =~= rest);
    }
}

/// The banner's label stands in the middle: as many columns before it as
/// behind it, or one fewer.
pub proof fn the_banner_stands_in_the_middle(width: nat, left: int)
    requires
        width - banner_label().len() == 2 * left || width - banner_label().len() == 2 * left + 1,
        left >= 0,
    ensures
        banner_text(width as int).subrange(left, left + banner_label().len()) == banner_label(),
{
    assert(banner_text(width as int).subrange(left, left + banner_label().len())
        =~= banner_label());
}

/// The banner takes the first row of the screen and leaves the rest.
pub proof fn the_banner_takes_one_row(area: Rect, radio: RadioDisplay)
    requires
        area.fits(),
    ensures
        radio.tx && area.height >= 3 ==> under_banner(area, radio) == (Rect {
            x: area.x,
            y: (area.y + 1) as u16,
            width: area.width,
            height: (area.height - 1) as u16,
        }) && banner_draws(area, radio).len() == 1,
        !radio.tx || area.height < 3 ==> under_banner(area, radio) == area && banner_draws(
            area,
            radio,
        ).len() == 0,
{
}

/// The first placement of a kind is the one before which there is none.
pub proof fn the_first_of_a_kind_counts(placements: Seq<Placement>, kind: PanelKind, i: int)
    requires
        0 <= i <= placements.len(),
        forall|j: int| 0 <= j < i ==> (#[trigger] placements[j]).kind != kind,
        i < placements.len() ==> placements[i].kind == kind,
    ensures
        i < placements.len() ==> first_of(placements, kind) == Some(placements[i].area),
        i == placements.len() ==> first_of(placements, kind) is None,
    decreases placements.len(),
{
    if i > 0 {
        assert(placements[0].kind != kind);
        the_first_of_a_kind_counts(placements.skip(1), kind, i - 1);
    }
}

/// The open tab stands in the last workspace, or in the whole area where there
/// is none.
pub proof fn the_last_workspace_counts(placements: Seq<Placement>, area: Rect, count: nat, i: int)
    requires
        count <= placements.len(),
        -1 <= i < count,
        forall|j: int|
            i < j < count ==> (#[trigger] placements[j]).kind != PanelKind::Workspace,
        i >= 0 ==> placements[i].kind == PanelKind::Workspace,
    ensures
        i >= 0 ==> workspace_of(placements, area, count) == placements[i].area,
        i < 0 ==> workspace_of(placements, area, count) == area,
    decreases count,
{
    if i + 1 < count {
        assert(placements[count - 1].kind != PanelKind::Workspace);
        the_last_workspace_counts(placements, area, (count - 1) as nat, i);
    }
}

/// The spectrum is not drawn twice: where it is both a panel and the open tab,
/// the panel has the cells of both places and the workspace draws nothing.
/// Otherwise each has its own place.
pub proof fn the_spectrum_is_drawn_once(
    p: Placement,
    arrangement: Arrangement,
    radio: RadioDisplay,
    view: ConsoleView,
    caps: Capabilities,
    ds: Seq<DrawView>,
)
    requires
        panel_drawn(p, arrangement, radio, view, caps, ds),
    ensures
        ({
            let panel = first_of(arrangement.placements@, PanelKind::Spectrum);
            let workspace = first_of(arrangement.placements@, PanelKind::Workspace);
            let both = view.tab == Tab::Spectrum && panel is Some && workspace is Some;
            &&& p.kind == PanelKind::Workspace && both ==> ds.len() == 0
            &&& p.kind == PanelKind::Workspace && !both ==> ds == tab_draws(p.area, radio, view)
            &&& p.kind == PanelKind::Spectrum && both ==> ds == spectrum_draws(
                union_spec(panel->0, workspace->0),
                view,
            )
            &&& p.kind == PanelKind::Spectrum && !both ==> ds == spectrum_draws(p.area, view)
        }),
{
}

/// What a panel shows is what it is placed for, inside its own area. One that
/// is not known, or blank, draws nothing at all.
pub proof fn a_panel_shows_what_it_is_placed_for(
    p: Placement,
    arrangement: Arrangement,
    radio: RadioDisplay,
    view: ConsoleView,
    caps: Capabilities,
    ds: Seq<DrawView>,
)
    requires
        p.area.fits(),
        panel_drawn(p, arrangement, radio, view, caps, ds),
    ensures
        p.kind == PanelKind::Unknown || p.kind == PanelKind::Blank ==> ds.len() == 0,
        p.kind == PanelKind::Status ==> ds.len() == 1 && (ds[0] matches DrawView::Lines(r, lines, _)
            && r == p.area && lines[0] == status_spans(radio, view)),
        p.kind == PanelKind::CommandLine ==> ds.len() == 1 && (ds[0] matches DrawView::Lines(
            r,
            lines,
            _,
        ) && r == p.area && lines[0] == command_spans(view)),
        p.kind == PanelKind::LevelsRail && p.area.width > 0 ==> ds.len() == 1 && (
        ds[0] matches DrawView::Lines(r, lines, _) && r == p.area && lines == reference_lines(
            radio,
        )),
        p.kind == PanelKind::BandBar && p.area.height > 0 ==> ds.len() == 1 && (
        ds[0] matches DrawView::Lines(r, lines, _) && r == p.area && lines[0] == band_spans(
            radio.vfo_a_hz,
            caps,
            caps.bands@.len(),
        )),
        p.kind == PanelKind::ModeBar && p.area.height > 0 ==> ds.len() == 1 && (
        ds[0] matches DrawView::Lines(r, lines, wrapped) && r == p.area && lines[0] == mode_spans(
            radio.mode@,
            caps.modes@,
            caps.modes@.len(),
        ) && wrapped),
        p.kind == PanelKind::AfScope && p.area.height >= 2 ==> ds.len() == 2 && (
        ds[1] matches DrawView::AfScope(r) && r.x == p.area.x && r.width == p.area.width && r.y
            == p.area.y + 1 && r.y + r.height == p.area.y + p.area.height),
        p.kind == PanelKind::AfFft && p.area.height >= 2 ==> ds.len() == 2 && (
        ds[1] matches DrawView::AfFft(r) && r.x == p.area.x && r.width == p.area.width && r.y
            == p.area.y + 1 && r.y + r.height == p.area.y + p.area.height),
        p.kind == PanelKind::QuickBar ==> quick_drawn(
            p.area,
            radio,
            caps,
            QuickRows { band: !arrangement.places_band_bar, mode: !arrangement.places_mode_bar },
            ds,
        ),
        p.kind == PanelKind::MeterRail ==> meters_drawn(p.area, radio, caps, ds),
        p.kind == PanelKind::Readout ==> headed_readout_drawn(p.area, radio, view, ds),
{
}

/// The pieces of several panels are drawn in the order of the panels: those of
/// panel `i` stand whole behind those of the panels before it.
pub proof fn panels_are_drawn_in_order(parts: Seq<Seq<DrawView>>, i: int)
    requires
        0 <= i < parts.len(),
    ensures
        ({
            let k = joined(parts.take(i)).len() as int;
            &&& k + parts[i].len() <= joined(parts).len()
            &&& joined(parts).subrange(k, k + parts[i].len()) == parts[i]
            &&& joined(parts.take(i + 1)).len() == k + parts[i].len()
        }),
    decreases parts.len(),
{
    let k = joined(parts.take(i)).len() as int;
    assert(parts.take(i + 1).drop_last() =~= parts.take(i));
    assert(parts.take(i + 1).last() == parts[i]);
    if i + 1 < parts.len() {
        let less = parts.drop_last();
        panels_are_drawn_in_order(less, i);
        assert(less.take(i) =~= parts.take(i));
        assert(joined(parts).subrange(k, k + parts[i].len()) =~= joined(less).subrange(
            k,
            k + parts[i].len(),
        ));
    } else {
        assert(parts.drop_last() =~= parts.take(i));
        assert(joined(parts).subrange(k, k + parts[i].len()) =~= parts[i]);
    }
}

/// Every placed panel is drawn, in the order of the arrangement, and nothing
/// else is.
pub proof fn every_placed_panel_is_drawn(
    arrangement: Arrangement,
    radio: RadioDisplay,
    view: ConsoleView,
    caps: Capabilities,
    ds: Seq<DrawView>,
)
    requires
        panels_drawn(arrangement, radio, view, caps, ds),
    ensures
        exists|parts: Seq<Seq<DrawView>>|
            #![trigger joined(parts)]
            parts.len() == arrangement.placements@.len() && ds == joined(parts) && forall|i: int|
                0 <= i < parts.len() ==> panel_drawn(
                    arrangement.placements@[i],
                    arrangement,
                    radio,
                    view,
                    caps,
                    #[trigger] parts[i],
                ),
{
    let parts = choose|parts: Seq<Seq<DrawView>>| #[trigger]
        parts_drawn(arrangement, radio, view, caps, parts) && parts.len()
            == arrangement.placements@.len() && ds == joined(parts);
    assert(ds == joined(parts));
}

/// The console's own arrangement ends with the status strip and the command
/// line, each in its row, behind the rail, the content pane and the levels.
pub proof fn the_own_arrangement_is_drawn_in_order(
    g: Regions,
    radio: RadioDisplay,
    view: ConsoleView,
    caps: Capabilities,
    ds: Seq<DrawView>,
    body: Rect,
)
    requires
        regions_drawn(g, radio, view, caps, ds, body),
    ensures
        ds.len() >= 2,
        ds[ds.len() - 1] == DrawView::Lines(g.command, seq![command_spans(view)], false),
        ds[ds.len() - 2] == DrawView::Lines(g.status, seq![status_spans(radio, view)], false),
        g.reference.width > 0 ==> ds.len() >= 3 && ds[ds.len() - 3] == DrawView::Lines(
            g.reference,
            reference_lines(radio),
            false,
        ),
        exists|n: int|
            0 <= n <= ds.len() && #[trigger] rail_drawn(g.rail, radio, view, caps, ds.take(n)),
        exists|content: Seq<DrawView>| #[trigger]
            content_drawn(g.content, radio, view, caps, content, body),
{
    let (rail, content): (Seq<DrawView>, Seq<DrawView>) = choose|
        rail: Seq<DrawView>,
        content: Seq<DrawView>,
    | #[trigger]
        rail_drawn(g.rail, radio, view, caps, rail) && #[trigger] content_drawn(
            g.content,
            radio,
            view,
            caps,
            content,
            body,
        ) && ds == rail + content + reference_draws(g.reference, radio) + status_draws(
            g.status,
            radio,
            view,
        ) + command_draws(g.command, view);
    assert(ds.take(rail.len() as int) =~= rail);
    assert(rail_drawn(g.rail, radio, view, caps, ds.take(rail.len() as int)));
    assert(content_drawn(g.content, radio, view, caps, content, body));
}

/// A server's arrangement is drawn where there is one, and the open tab stands
/// where that puts it; else the console's own is.
pub proof fn a_servers_arrangement_is_followed(
    area: Rect,
    radio: RadioDisplay,
    view: ConsoleView,
    caps: Capabilities,
    arrangement: Option<Arrangement>,
    ds: Seq<DrawView>,
    body: Rect,
)
    requires
        console_drawn(area, radio, view, caps, arrangement, ds, body),
    ensures
        arrangement matches Some(a) ==> panels_drawn(a, radio, view, caps, ds) && body
            == workspace_of(a.placements@, area, a.placements@.len()),
        arrangement is None ==> exists|g: Regions| #[trigger]
            is_split(area, g) && regions_drawn(g, radio, view, caps, ds, body),
{
}

/// A readout with room that is placed on its own has the tab bar in its first
/// row and the dial and its line in the rest.
pub proof fn the_tab_bar_rides_with_the_readout(
    area: Rect,
    radio: RadioDisplay,
    view: ConsoleView,
    ds: Seq<DrawView>,
)
    requires
        area.fits(),
        area.height >= 2,
        headed_readout_drawn(area, radio, view, ds),
    ensures
        ds.len() > 0,
        ds[0] == tab_bar_draw(Rect { height: 1, ..area }, view),
        readout_drawn(
            Rect { y: (area.y + 1) as u16, height: (area.height - 1) as u16, ..area },
            radio,
            view,
            ds.skip(1),
        ),
{
    let (rows, readout): (Seq<Rect>, Seq<DrawView>) = choose|
        rows: Seq<Rect>,
        readout: Seq<DrawView>,
    | #[trigger]
        splits(Direction::Vertical, headed_rows(), area, rows) && #[trigger] readout_drawn(
            rows[1],
            radio,
            view,
            readout,
        ) && ds == seq![tab_bar_draw(rows[0], view)] + readout;
    let d = Direction::Vertical;
    two_parts(headed_rows());
    assert(lies_in(rows[0], area, d));
    assert(lies_in(rows[1], area, d));
    assert(extent(rows[0], d) == 1);
    assert(extent(rows[1], d) == area.height - 1);
    assert(start(rows[1], d) == start(rows[0], d) + extent(rows[0], d));
    assert(ds.skip(1) =~= readout);
}

} // verus!
