//! The rows of text the console shows: bands, modes, the ribbon, the
//! reference rail, the status strip, the command line, the tab bar.

use crate::text::a_signed_number_reads_back;
use crate::text::a_written_number_reads_back;
use crate::text::decimal;
use crate::text::leading_zeros_change_no_number;
use crate::text::no_digits;
use crate::text::number_before;
use crate::text::number_behind;
use crate::text::pad_end;
use crate::text::padding_keeps_the_text;
use crate::text::plus_decimal;
use crate::text::push_decimal;
use crate::text::push_padded;
use crate::text::push_plus_signed;
use crate::text::push_text;
use crate::text::push_zero_padded;
use crate::text::read_number;
use crate::text::text;
use crate::text::zero_padded;
use crate::tui::console::model::Band;
use crate::tui::console::model::Capabilities;
use crate::tui::console::model::ConsoleView;
use crate::tui::console::model::RadioDisplay;
use crate::tui::console::model::Tab;
use crate::tui::console::model::TabEntry;
use crate::tui::session::menu_column;
use crate::ui::style::bold_ink;
use crate::ui::style::bold_on;
use crate::ui::style::inked;
use crate::ui::style::lines_view;
use crate::ui::style::push_line;
use crate::ui::style::push_lines;
use crate::ui::style::unstyled;
use crate::ui::style::Colour;
use crate::ui::style::Line;
use crate::ui::style::Span;
use crate::ui::style::Style;
use vstd::prelude::*;
use vstd::string::*;

verus! {

/// The ink of a radio setting, in every panel.
pub const SETTING: Colour = Colour::Yellow;

/// The ink of what is there and says nothing.
pub const DIM: Colour = Colour::DarkGray;

/// Whether an operator can pick a band: the radio receives where it begins.
pub open spec fn reached(band: Band, caps: Capabilities) -> bool {
    caps.rx_range.holds(band.range.min_hz)
}

/// The style of a choice: the one the radio is on stands out.
pub open spec fn choice_style(here: bool) -> Style {
    if here {
        bold_on(Colour::Black, SETTING)
    } else {
        inked(Colour::White)
    }
}

fn style_of_choice(here: bool) -> (r: Style)
    ensures
        r == choice_style(here),
{
    if here {
        Style::bold_on(Colour::Black, SETTING)
    } else {
        Style::ink(Colour::White)
    }
}

/// A choice with a space on either side.
pub open spec fn spaced(label: Seq<char>) -> Seq<char> {
    " "@ + label + " "@
}

fn spaced_text(label: &str) -> (r: String)
    ensures
        r@ == spaced(label@),
{
    let mut out = text(" ");
    push_text(&mut out, label);
    push_text(&mut out, " ");
    out
}

/// The spans of the bands among the first `count` that the radio reaches.
pub open spec fn band_spans(hz: u64, caps: Capabilities, count: nat) -> Seq<(Seq<char>, Style)>
    decreases count,
{
    if count == 0 {
        seq![("BAND "@, inked(DIM))]
    } else {
        let before = band_spans(hz, caps, (count - 1) as nat);
        let band = caps.bands@[count - 1];
        if reached(band, caps) {
            before.push((spaced(band.label@), choice_style(band.range.holds(hz))))
        } else {
            before
        }
    }
}

/// The indices of the bands among the first `count` that the radio reaches.
pub open spec fn reached_bands(caps: Capabilities, count: nat) -> Seq<int>
    decreases count,
{
    if count == 0 {
        seq![]
    } else {
        let before = reached_bands(caps, (count - 1) as nat);
        if reached(caps.bands@[count - 1], caps) {
            before.push(count - 1)
        } else {
            before
        }
    }
}

/// The bands this radio reaches, in order.
pub fn bands_for<'a>(caps: &'a Capabilities) -> (r: Vec<&'a Band>)
    ensures
        r@.len() == reached_bands(*caps, caps.bands@.len()).len(),
        forall|i: int|
            0 <= i < r@.len() ==> *(#[trigger] r@[i]) == caps.bands@[reached_bands(
                *caps,
                caps.bands@.len(),
            )[i]],
{
    let mut out: Vec<&'a Band> = Vec::new();
    let mut i: usize = 0;
    while i < caps.bands.len()
        invariant
            i <= caps.bands@.len(),
            out@.len() == reached_bands(*caps, i as nat).len(),
            forall|j: int|
                0 <= j < out@.len() ==> *(#[trigger] out@[j]) == caps.bands@[reached_bands(
                    *caps,
                    i as nat,
                )[j]],
        decreases caps.bands@.len() - i,
    {
        let band = &caps.bands[i];
        if caps.rx_range.contains(band.range.min_hz) {
            out.push(band);
        }
        i += 1;
    }
    out
}

/// Every band the radio reaches, the one the dial is in marked. A dial outside
/// all of them marks none.
pub fn band_row(hz: u64, caps: &Capabilities) -> (r: Line)
    ensures
        r@ == band_spans(hz, *caps, caps.bands@.len()),
{
    let mut line = Line::one(Span::of("BAND ", Style::ink(DIM)));
    let mut i: usize = 0;
    assert(line@ =~= band_spans(hz, *caps, 0));
    while i < caps.bands.len()
        invariant
            i <= caps.bands@.len(),
            line@ == band_spans(hz, *caps, i as nat),
        decreases caps.bands@.len() - i,
    {
        let band = &caps.bands[i];
        if caps.rx_range.contains(band.range.min_hz) {
            let here: bool = band.range.contains(hz);
            line.push(Span::styled(spaced_text(band.label.as_str()), style_of_choice(here)));
        }
        i += 1;
    }
    line
}

/// The spans of the first `count` modes.
pub open spec fn mode_spans(current: Seq<char>, modes: Seq<String>, count: nat) -> Seq<
    (Seq<char>, Style),
>
    decreases count,
{
    if count == 0 {
        seq![("MODE "@, inked(DIM))]
    } else {
        mode_spans(current, modes, (count - 1) as nat).push(
            (spaced(modes[count - 1]@), choice_style(modes[count - 1]@ == current)),
        )
    }
}

/// The modes this radio has, in its own words, the current one marked.
pub fn mode_row(current: &String, caps: &Capabilities) -> (r: Line)
    ensures
        r@ == mode_spans(current@, caps.modes@, caps.modes@.len()),
{
    let mut line = Line::one(Span::of("MODE ", Style::ink(DIM)));
    let mut i: usize = 0;
    assert(line@ =~= mode_spans(current@, caps.modes@, 0));
    while i < caps.modes.len()
        invariant
            i <= caps.modes@.len(),
            line@ == mode_spans(current@, caps.modes@, i as nat),
        decreases caps.modes@.len() - i,
    {
        let mode = &caps.modes[i];
        let here: bool = *mode == *current;
        line.push(Span::styled(spaced_text(mode.as_str()), style_of_choice(here)));
        i += 1;
    }
    line
}

/// A dial outside every band marks none of them.
pub proof fn a_dial_outside_every_band_marks_none(hz: u64, caps: Capabilities, count: nat, i: int)
    requires
        count <= caps.bands@.len(),
        forall|j: int|
            0 <= j < caps.bands@.len() ==> !(#[trigger] caps.bands@[j]).range.holds(hz),
        0 <= i < band_spans(hz, caps, count).len(),
    ensures
        band_spans(hz, caps, count)[i].1.bg is None,
    decreases count,
{
    if count > 0 {
        if i < band_spans(hz, caps, (count - 1) as nat).len() {
            a_dial_outside_every_band_marks_none(hz, caps, (count - 1) as nat, i);
        }
    }
}

pub open spec fn on_off_text(v: bool) -> Seq<char> {
    if v {
        "on"@
    } else {
        "off"@
    }
}

pub fn on_off(v: bool) -> (r: String)
    ensures
        r@ == on_off_text(v),
{
    if v {
        text("on")
    } else {
        text("off")
    }
}

/// An offset with its sign, or that it is off.
pub open spec fn offset_text(active: bool, hz: int) -> Seq<char> {
    if active {
        plus_decimal(hz)
    } else {
        "off"@
    }
}

/// An offset with its sign, or that it is off.
pub fn offset_or_off(active: bool, hz: i32) -> (r: String)
    ensures
        r@ == offset_text(active, hz as int),
{
    if active {
        let mut out = String::new();
        push_plus_signed(&mut out, hz as i64);
        assert(out@ =~= plus_decimal(hz as int));
        out
    } else {
        text("off")
    }
}

/// A cell of the ribbon: a label, a value, and whether the value is known.
#[derive(Debug, PartialEq, Eq)]
pub struct RibbonCell {
    pub label: String,
    pub value: String,
    pub known: bool,
}

impl View for RibbonCell {
    type V = (Seq<char>, Seq<char>, bool);

    open spec fn view(&self) -> (Seq<char>, Seq<char>, bool) {
        (self.label@, self.value@, self.known)
    }
}

/// A value the radio has told, or a dash where it would be.
pub open spec fn known_cell(label: Seq<char>, value: Option<Seq<char>>) -> (
    Seq<char>,
    Seq<char>,
    bool,
) {
    match value {
        Some(v) => (label, v, true),
        None => (label, "—"@, false),
    }
}

/// A value the radio has told, or a dash where it would be.
pub fn known_or_dash(label: &str, value: Option<String>) -> (r: RibbonCell)
    ensures
        r@ == known_cell(
            label@,
            match value {
                Some(v) => Some(v@),
                None => None,
            },
        ),
{
    match value {
        Some(v) => RibbonCell { label: text(label), value: v, known: true },
        None => RibbonCell { label: text(label), value: text("—"), known: false },
    }
}

fn known_cell_of(label: &str, value: String) -> (r: RibbonCell)
    ensures
        r@ == (label@, value@, true),
{
    RibbonCell { label: text(label), value, known: true }
}

/// The eight cells of the ribbon. A capability the radio lacks keeps its cell.
pub open spec fn ribbon_view(radio: RadioDisplay) -> Seq<(Seq<char>, Seq<char>, bool)> {
    seq![
        (
            "VFO"@,
            if radio.rx_vfo == 0 {
                "A"@
            } else {
                "B"@
            },
            true,
        ),
        ("SPLIT"@, on_off_text(radio.split), true),
        (
            "STEP"@,
            if radio.fine_step {
                "fine"@
            } else {
                "10 Hz"@
            },
            true,
        ),
        known_cell(
            "FILTER"@,
            match radio.filter_width_hz {
                Some(hz) => Some(decimal(hz as nat) + " Hz"@),
                None => None,
            },
        ),
        known_cell(
            "SHIFT"@,
            match radio.if_shift_hz {
                Some(hz) => Some(plus_decimal(hz as int) + " Hz"@),
                None => None,
            },
        ),
        known_cell(
            "NOTCH"@,
            match radio.notch {
                Some(v) => Some(on_off_text(v)),
                None => None,
            },
        ),
        ("RIT"@, offset_text(radio.rit, radio.rit_xit_offset_hz as int), true),
        ("XIT"@, offset_text(radio.xit, radio.rit_xit_offset_hz as int), true),
    ]
}

/// The models of several cells.
pub open spec fn cells_view(cells: Seq<RibbonCell>) -> Seq<(Seq<char>, Seq<char>, bool)> {
    cells.map_values(|c: RibbonCell| c@)
}

/// The eight cells of the ribbon.
pub fn ribbon_cells(radio: &RadioDisplay) -> (r: Vec<RibbonCell>)
    ensures
        cells_view(r@) == ribbon_view(*radio),
        r@.len() == 8,
{
    let filter: Option<String> = match radio.filter_width_hz {
        Some(hz) => {
            let mut out = String::new();
            push_decimal(&mut out, hz as u64);
            assert(out@ =~= decimal(hz as nat));
            push_text(&mut out, " Hz");
            Some(out)
        },
        None => None,
    };
    let shift: Option<String> = match radio.if_shift_hz {
        Some(hz) => {
            let mut out = String::new();
            push_plus_signed(&mut out, hz as i64);
            assert(out@ =~= plus_decimal(hz as int));
            push_text(&mut out, " Hz");
            Some(out)
        },
        None => None,
    };
    let notch: Option<String> = match radio.notch {
        Some(v) => Some(on_off(v)),
        None => None,
    };
    let mut cells: Vec<RibbonCell> = Vec::new();
    cells.push(
        known_cell_of(
            "VFO",
            text(
                if radio.rx_vfo == 0 {
                    "A"
                } else {
                    "B"
                },
            ),
        ),
    );
    cells.push(known_cell_of("SPLIT", on_off(radio.split)));
    cells.push(
        known_cell_of(
            "STEP",
            text(
                if radio.fine_step {
                    "fine"
                } else {
                    "10 Hz"
                },
            ),
        ),
    );
    cells.push(known_or_dash("FILTER", filter));
    cells.push(known_or_dash("SHIFT", shift));
    cells.push(known_or_dash("NOTCH", notch));
    cells.push(known_cell_of("RIT", offset_or_off(radio.rit, radio.rit_xit_offset_hz)));
    cells.push(known_cell_of("XIT", offset_or_off(radio.xit, radio.rit_xit_offset_hz)));
    assert(cells_view(cells@) =~= ribbon_view(*radio));
    cells
}

/// The width of a ribbon cell.
pub const CELL_W: usize = 9;

/// One span of a ribbon line: a label, or a value that is dimmed where it is
/// not known.
pub open spec fn ribbon_span(cell: (Seq<char>, Seq<char>, bool), labels: bool) -> (
    Seq<char>,
    Style,
) {
    if labels {
        (pad_end(cell.0, CELL_W as int), inked(DIM))
    } else if cell.2 {
        (pad_end(cell.1, CELL_W as int), inked(Colour::White))
    } else {
        (pad_end(cell.1, CELL_W as int), inked(DIM))
    }
}

/// The spans of the cells from `from` to before `to`.
pub open spec fn ribbon_spans(
    cells: Seq<(Seq<char>, Seq<char>, bool)>,
    from: int,
    to: int,
    labels: bool,
) -> Seq<(Seq<char>, Style)> {
    Seq::new((to - from) as nat, |i: int| ribbon_span(cells[from + i], labels))
}

/// One line of the ribbon: the labels of some cells, or their values.
pub fn ribbon_line(cells: &Vec<RibbonCell>, from: usize, to: usize, labels: bool) -> (r: Line)
    requires
        from <= to <= cells@.len(),
    ensures
        r@ == ribbon_spans(cells_view(cells@), from as int, to as int, labels),
{
    let mut line = Line { spans: Vec::new() };
    let mut i: usize = from;
    assert(line@ =~= ribbon_spans(cells_view(cells@), from as int, from as int, labels));
    while i < to
        invariant
            from <= i <= to <= cells@.len(),
            line@ == ribbon_spans(cells_view(cells@), from as int, i as int, labels),
        decreases to - i,
    {
        let cell = &cells[i];
        let mut shown = String::new();
        if labels {
            push_padded(&mut shown, cell.label.as_str(), CELL_W);
        } else {
            push_padded(&mut shown, cell.value.as_str(), CELL_W);
        }
        let style = if labels || !cell.known {
            Style::ink(DIM)
        } else {
            Style::ink(Colour::White)
        };
        assert(shown@ =~= ribbon_span(cell@, labels).0);
        assert(cells_view(cells@)[i as int] == cell@);
        line.push(Span::styled(shown, style));
        i += 1;
        assert(line@ =~= ribbon_spans(cells_view(cells@), from as int, i as int, labels));
    }
    line
}

/// A fact of the reference rail.
#[derive(Debug, PartialEq, Eq)]
pub struct Fact {
    pub name: String,
    pub value: String,
}

impl View for Fact {
    type V = (Seq<char>, Seq<char>);

    open spec fn view(&self) -> (Seq<char>, Seq<char>) {
        (self.name@, self.value@)
    }
}

/// A value that was read, or a dash.
pub open spec fn read_or_dash(known: bool, value: Seq<char>) -> Seq<char> {
    if known {
        value
    } else {
        "—"@
    }
}

/// The fourteen facts of the reference rail. Where the levels were never read
/// every one of them is a dash.
pub open spec fn facts_view(radio: RadioDisplay) -> Seq<(Seq<char>, Seq<char>)> {
    let k = radio.levels_known;
    seq![
        ("ANT"@, read_or_dash(k, decimal(radio.antenna as nat))),
        ("AF"@, read_or_dash(k, decimal(radio.af_gain as nat))),
        ("RF"@, read_or_dash(k, decimal(radio.rf_gain as nat))),
        ("SQL"@, read_or_dash(k, decimal(radio.squelch as nat))),
        ("MIC"@, read_or_dash(k, decimal(radio.mic_gain as nat))),
        ("PWR"@, read_or_dash(k, decimal(radio.power_pct as nat) + "W"@)),
        ("AGC"@, read_or_dash(k, decimal(radio.agc as nat))),
        ("NB"@, read_or_dash(k, on_off_text(radio.noise_blanker))),
        ("NR"@, read_or_dash(k, decimal(radio.noise_reduction as nat))),
        ("PRE"@, read_or_dash(k, on_off_text(radio.preamp))),
        ("ATT"@, read_or_dash(k, on_off_text(radio.attenuator))),
        ("PROC"@, read_or_dash(k, on_off_text(radio.speech_processor))),
        ("VOX"@, read_or_dash(k, on_off_text(radio.vox))),
        ("LOCK"@, read_or_dash(k, on_off_text(radio.freq_lock))),
    ]
}

fn number_fact(name: &str, known: bool, value: u16, unit: &str) -> (r: Fact)
    ensures
        r@ == (name@, read_or_dash(known, decimal(value as nat) + unit@)),
{
    if known {
        let mut out = String::new();
        push_decimal(&mut out, value as u64);
        assert(out@ =~= decimal(value as nat));
        push_text(&mut out, unit);
        Fact { name: text(name), value: out }
    } else {
        Fact { name: text(name), value: text("—") }
    }
}

fn plain_fact(name: &str, known: bool, value: u16) -> (r: Fact)
    ensures
        r@ == (name@, read_or_dash(known, decimal(value as nat))),
{
    let r = number_fact(name, known, value, "");
    proof {
        reveal_strlit("");
        assert(decimal(value as nat) + ""@ =~= decimal(value as nat));
    }
    r
}

fn flag_fact(name: &str, known: bool, value: bool) -> (r: Fact)
    ensures
        r@ == (name@, read_or_dash(known, on_off_text(value))),
{
    Fact {
        name: text(name),
        value: if known {
            on_off(value)
        } else {
            text("—")
        },
    }
}

/// The models of several facts.
pub open spec fn fact_views(facts: Seq<Fact>) -> Seq<(Seq<char>, Seq<char>)> {
    facts.map_values(|f: Fact| f@)
}

/// The rows of the reference rail.
pub fn reference_facts(radio: &RadioDisplay) -> (r: Vec<Fact>)
    ensures
        fact_views(r@) == facts_view(*radio),
{
    let k: bool = radio.levels_known;
    let mut facts: Vec<Fact> = Vec::new();
    facts.push(plain_fact("ANT", k, radio.antenna));
    facts.push(plain_fact("AF", k, radio.af_gain));
    facts.push(plain_fact("RF", k, radio.rf_gain));
    facts.push(plain_fact("SQL", k, radio.squelch));
    facts.push(plain_fact("MIC", k, radio.mic_gain));
    facts.push(number_fact("PWR", k, radio.power_pct, "W"));
    facts.push(plain_fact("AGC", k, radio.agc));
    facts.push(flag_fact("NB", k, radio.noise_blanker));
    facts.push(plain_fact("NR", k, radio.noise_reduction));
    facts.push(flag_fact("PRE", k, radio.preamp));
    facts.push(flag_fact("ATT", k, radio.attenuator));
    facts.push(flag_fact("PROC", k, radio.speech_processor));
    facts.push(flag_fact("VOX", k, radio.vox));
    facts.push(flag_fact("LOCK", k, radio.freq_lock));
    assert(fact_views(facts@) =~= facts_view(*radio));
    facts
}

/// A rail of which nothing was read shows no value at all.
pub proof fn what_was_not_read_is_a_dash(radio: RadioDisplay, i: int)
    requires
        !radio.levels_known,
        0 <= i < 14,
    ensures
        facts_view(radio).len() == 14,
        facts_view(radio)[i].1 == "—"@,
{
}

/// The lines of the reference rail.
pub open spec fn reference_lines(radio: RadioDisplay) -> Seq<Seq<(Seq<char>, Style)>> {
    facts_view(radio).map_values(
        |f: (Seq<char>, Seq<char>)|
            seq![(pad_end(f.0, 5), inked(DIM)), (f.1, inked(Colour::White))],
    )
}

/// The lines of the reference rail.
pub fn reference_rail(radio: &RadioDisplay) -> (r: Vec<Line>)
    ensures
        lines_view(r@) == reference_lines(*radio),
{
    let facts = reference_facts(radio);
    let ghost all = reference_lines(*radio);
    let mut lines: Vec<Line> = Vec::new();
    let mut i: usize = 0;
    assert(lines_view(lines@) =~= all.take(0));
    assert(fact_views(facts@).len() == facts@.len());
    while i < facts.len()
        invariant
            i <= facts@.len(),
            all == reference_lines(*radio),
            fact_views(facts@) == facts_view(*radio),
            all.len() == facts@.len(),
            lines_view(lines@) == all.take(i as int),
        decreases facts@.len() - i,
    {
        let fact = &facts[i];
        let mut name = String::new();
        push_padded(&mut name, fact.name.as_str(), 5);
        assert(name@ =~= pad_end(fact.name@, 5));
        assert(fact_views(facts@)[i as int] == fact@);
        push_line(
            &mut lines,
            Line::two(
                Span::styled(name, Style::ink(DIM)),
                Span::of(fact.value.as_str(), Style::ink(Colour::White)),
            ),
        );
        i += 1;
        assert(lines_view(lines@) =~= all.take(i as int));
    }
    assert(all.take(all.len() as int) =~= all);
    lines
}

/// What the status strip says of the link, before anything else.
pub open spec fn link_span(radio: RadioDisplay) -> (Seq<char>, Style) {
    if radio.initializing {
        ("connecting"@, inked(SETTING))
    } else if radio.connected {
        ("linked"@, inked(Colour::Green))
    } else {
        ("LINK LOST"@, bold_ink(Colour::Red))
    }
}

/// What the status strip says after the link: the console's own message, else
/// the first error of the last poll and how many more there are, else the
/// keys.
pub open spec fn status_rest(radio: RadioDisplay, view: ConsoleView) -> Seq<(Seq<char>, Style)> {
    match view.message {
        Some(msg) => seq![(msg@, inked(Colour::White))],
        None => if radio.poll_errors@.len() == 0 {
            seq![("1-4 tabs   : command   f n m r t c o s d menus   q quit"@, inked(DIM))]
        } else if radio.poll_errors@.len() == 1 {
            seq![(radio.poll_errors@[0]@, inked(Colour::Red))]
        } else {
            seq![
                (radio.poll_errors@[0]@, inked(Colour::Red)),
                (
                    "  (+"@ + decimal((radio.poll_errors@.len() - 1) as nat) + " more)"@,
                    inked(SETTING),
                ),
            ]
        },
    }
}

/// The spans of the status strip.
pub open spec fn status_spans(radio: RadioDisplay, view: ConsoleView) -> Seq<(Seq<char>, Style)> {
    seq![link_span(radio), ("  "@, unstyled())] + status_rest(radio, view)
}

/// The status strip.
pub fn status_line(radio: &RadioDisplay, view: &ConsoleView) -> (r: Line)
    ensures
        r@ == status_spans(*radio, *view),
{
    let link = if radio.initializing {
        Span::of("connecting", Style::ink(SETTING))
    } else if radio.connected {
        Span::of("linked", Style::ink(Colour::Green))
    } else {
        Span::of("LINK LOST", Style::bold(Colour::Red))
    };
    let mut line = Line::two(link, Span::raw("  "));
    match &view.message {
        Some(msg) => {
            line.push(Span::of(msg.as_str(), Style::ink(Colour::White)));
        },
        None => {
            if radio.poll_errors.len() == 0 {
                line.push(
                    Span::of(
                        "1-4 tabs   : command   f n m r t c o s d menus   q quit",
                        Style::ink(DIM),
                    ),
                );
            } else {
                line.push(Span::of(radio.poll_errors[0].as_str(), Style::ink(Colour::Red)));
                if radio.poll_errors.len() > 1 {
                    let mut more = text("  (+");
                    push_decimal(&mut more, (radio.poll_errors.len() - 1) as u64);
                    push_text(&mut more, " more)");
                    line.push(Span::styled(more, Style::ink(SETTING)));
                }
            }
        },
    }
    assert(line@ =~= status_spans(*radio, *view));
    line
}

/// The spans of the command line: what was typed and a cursor, or nothing.
pub open spec fn command_spans(view: ConsoleView) -> Seq<(Seq<char>, Style)> {
    match view.command {
        Some(typed) => seq![
            (":"@, inked(Colour::White)),
            (typed@, inked(Colour::White)),
            ("_"@, inked(SETTING)),
        ],
        None => seq![(""@, unstyled())],
    }
}

/// The command line.
pub fn command_line(view: &ConsoleView) -> (r: Line)
    ensures
        r@ == command_spans(*view),
{
    match &view.command {
        Some(typed) => {
            let mut line = Line::two(
                Span::of(":", Style::ink(Colour::White)),
                Span::of(typed.as_str(), Style::ink(Colour::White)),
            );
            line.push(Span::of("_", Style::ink(SETTING)));
            assert(line@ =~= command_spans(*view));
            line
        },
        None => Line::blank(),
    }
}

/// A tab's label behind the digit that opens it.
pub open spec fn tab_label(i: int, label: Seq<char>) -> Seq<char> {
    " "@ + decimal((i + 1) as nat) + " "@ + label + " "@
}

/// The spans of the first `count` tabs: each label and a gap, the open one
/// standing out.
pub open spec fn tab_spans(tabs: Seq<TabEntry>, tab: Tab, count: nat) -> Seq<(Seq<char>, Style)>
    decreases count,
{
    if count == 0 {
        seq![]
    } else {
        let i = count - 1;
        tab_spans(tabs, tab, i as nat) + seq![
            (
                tab_label(i, tabs[i].label@),
                if tabs[i].tab == tab {
                    bold_on(Colour::Black, Colour::White)
                } else {
                    inked(DIM)
                },
            ),
            (" "@, unstyled()),
        ]
    }
}

/// The tab bar. The digit is part of the label: a terminal has no tab to
/// click.
pub fn tab_bar(view: &ConsoleView) -> (r: Line)
    ensures
        r@ == tab_spans(view.tabs@, view.tab, view.tabs@.len()),
{
    let mut line = Line { spans: Vec::new() };
    let mut i: usize = 0;
    assert(line@ =~= tab_spans(view.tabs@, view.tab, 0));
    while i < view.tabs.len()
        invariant
            i <= view.tabs@.len(),
            line@ == tab_spans(view.tabs@, view.tab, i as nat),
        decreases view.tabs@.len() - i,
    {
        let entry = &view.tabs[i];
        let style = if entry.tab == view.tab {
            Style::bold_on(Colour::Black, Colour::White)
        } else {
            Style::ink(DIM)
        };
        let mut label = text(" ");
        push_decimal(&mut label, i as u64 + 1);
        push_text(&mut label, " ");
        push_text(&mut label, entry.label.as_str());
        push_text(&mut label, " ");
        let ghost before = line@;
        line.push(Span::styled(label, style));
        line.push(Span::raw(" "));
        i += 1;
        assert(line@ =~= tab_spans(view.tabs@, view.tab, i as nat));
    }
    line
}

/// The label of the first such tab, or a stand-in.
pub open spec fn label_of(tabs: Seq<TabEntry>, tab: Tab, otherwise: Seq<char>) -> Seq<char>
    decreases tabs.len(),
{
    if tabs.len() == 0 {
        otherwise
    } else if tabs[0].tab == tab {
        tabs[0].label@
    } else {
        label_of(tabs.skip(1), tab, otherwise)
    }
}

fn find_label(tabs: &Vec<TabEntry>, tab: Tab, otherwise: &str) -> (r: String)
    ensures
        r@ == label_of(tabs@, tab, otherwise@),
{
    let mut i: usize = 0;
    assert(tabs@.skip(0) =~= tabs@);
    while i < tabs.len()
        invariant
            i <= tabs@.len(),
            label_of(tabs@, tab, otherwise@) == label_of(tabs@.skip(i as int), tab, otherwise@),
        decreases tabs@.len() - i,
    {
        assert(tabs@.skip(i as int)[0] == tabs@[i as int]);
        if tabs[i].tab == tab {
            return tabs[i].label.clone();
        }
        assert(tabs@.skip(i as int).skip(1) =~= tabs@.skip(i + 1));
        i += 1;
    }
    text(otherwise)
}

/// The lines of the memory tab: the channel the radio is on, the channels
/// there are, and how to move.
pub open spec fn memory_lines(radio: RadioDisplay, view: ConsoleView) -> Seq<
    Seq<(Seq<char>, Style)>,
> {
    seq![
        seq![
            ("channel  "@, inked(DIM)),
            (zero_padded(radio.memory_channel as nat, 2), bold_ink(Colour::White)),
            ("   "@, unstyled()),
            (
                if radio.memory_mode {
                    "MEM"@
                } else {
                    "VFO"@
                },
                inked(
                    if radio.memory_mode {
                        SETTING
                    } else {
                        DIM
                    },
                ),
            ),
        ],
        seq![(label_of(view.tabs@, Tab::Memory, "MEMORY"@), inked(DIM))],
        seq![(""@, unstyled())],
        seq![("["@ + ":mem <n>"@ + "] "@, inked(SETTING)), ("recall a channel"@, inked(Colour::White))],
        seq![
            ("["@ + "[N]"@ + "] "@, inked(SETTING)),
            ("the memory menu: read, write, clear"@, inked(Colour::White)),
        ],
    ]
}

/// The memory tab.
pub fn memory_tab(radio: &RadioDisplay, view: &ConsoleView) -> (r: Vec<Line>)
    ensures
        lines_view(r@) == memory_lines(*radio, *view),
{
    let mut channel = String::new();
    push_zero_padded(&mut channel, radio.memory_channel as u64, 2);
    assert(channel@ =~= zero_padded(radio.memory_channel as nat, 2));
    let mut first = Line::two(
        Span::of("channel  ", Style::ink(DIM)),
        Span::styled(channel, Style::bold(Colour::White)),
    );
    first.push(Span::raw("   "));
    if radio.memory_mode {
        first.push(Span::of("MEM", Style::ink(SETTING)));
    } else {
        first.push(Span::of("VFO", Style::ink(DIM)));
    }
    let ghost first_view = first@;
    let mut lines: Vec<Line> = Vec::new();
    push_line(&mut lines, first);
    push_line(
        &mut lines,
        Line::one(
            Span::styled(find_label(&view.tabs, Tab::Memory, "MEMORY"), Style::ink(DIM)),
        ),
    );
    push_line(&mut lines, Line::blank());
    let mut items: Vec<(String, String)> = Vec::new();
    items.push((text(":mem <n>"), text("recall a channel")));
    items.push((text("[N]"), text("the memory menu: read, write, clear")));
    push_lines(
        &mut lines,
        menu_column(&items, Style::ink(SETTING), Style::ink(Colour::White)),
    );
    assert(first_view =~= memory_lines(*radio, *view)[0]);
    assert(lines_view(lines@) =~= memory_lines(*radio, *view));
    lines
}

/// The lines of the menu tab: how many items there are, why they are not
/// shown, and how to reach one.
pub open spec fn menu_tab_lines(view: ConsoleView) -> Seq<Seq<(Seq<char>, Style)>> {
    seq![
        seq![(label_of(view.tabs@, Tab::Menu, "MENU"@), inked(Colour::White))],
        seq![("not polled: EX is one round trip per item"@, inked(DIM))],
        seq![(""@, unstyled())],
        seq![
            ("["@ + "[S]"@ + "] "@, inked(SETTING)),
            ("system menu: read and write an item"@, inked(Colour::White)),
        ],
    ]
}

/// The menu tab.
pub fn menu_tab(view: &ConsoleView) -> (r: Vec<Line>)
    ensures
        lines_view(r@) == menu_tab_lines(*view),
{
    let mut lines: Vec<Line> = Vec::new();
    push_line(
        &mut lines,
        Line::one(
            Span::styled(find_label(&view.tabs, Tab::Menu, "MENU"), Style::ink(Colour::White)),
        ),
    );
    push_line(
        &mut lines,
        Line::one(Span::of("not polled: EX is one round trip per item", Style::ink(DIM))),
    );
    push_line(&mut lines, Line::blank());
    let mut items: Vec<(String, String)> = Vec::new();
    items.push((text("[S]"), text("system menu: read and write an item")));
    push_lines(
        &mut lines,
        menu_column(&items, Style::ink(SETTING), Style::ink(Colour::White)),
    );
    assert(lines_view(lines@) =~= menu_tab_lines(*view));
    lines
}

/// The bands a radio reaches are those that begin between the ends of its
/// range, the ends in it: each is there once, in the order of the list.
pub proof fn every_reached_band_is_there_once(caps: Capabilities, count: nat)
    requires
        count <= caps.bands@.len(),
    ensures
        ({
            let r = reached_bands(caps, count);
            &&& forall|i: int| 0 <= i < r.len() ==> 0 <= #[trigger] r[i] < count
            &&& forall|i: int, j: int| 0 <= i < j < r.len() ==> #[trigger] r[i] < #[trigger] r[j]
            &&& forall|k: int|
                0 <= k < count ==> (r.contains(k) <==> caps.rx_range.min_hz
                    <= (#[trigger] caps.bands@[k]).range.min_hz <= caps.rx_range.max_hz)
        }),
    decreases count,
{
    if count > 0 {
        let before = reached_bands(caps, (count - 1) as nat);
        let r = reached_bands(caps, count);
        every_reached_band_is_there_once(caps, (count - 1) as nat);
        assert forall|k: int| 0 <= k < count implies (r.contains(k) <==> caps.rx_range.min_hz
            <= (#[trigger] caps.bands@[k]).range.min_hz <= caps.rx_range.max_hz) by {
            if before.contains(k) {
                let i = choose|i: int| 0 <= i < before.len() && before[i] == k;
                assert(r[i] == k);
            }
            if r.contains(k) {
                let i = choose|i: int| 0 <= i < r.len() && r[i] == k;
                if i < before.len() {
                    assert(before[i] == k);
                }
            }
            if r.len() > before.len() && k == count - 1 {
                assert(r[before.len() as int] == k);
            }
        }
    }
}

/// The band row shows every band that is reached, in order behind the heading,
/// by its label, and marks exactly those that the dial is in: at one of their
/// ends or between them.
pub proof fn the_dial_marks_its_band(hz: u64, caps: Capabilities, count: nat, i: int)
    requires
        count <= caps.bands@.len(),
        0 <= i < reached_bands(caps, count).len(),
    ensures
        band_spans(hz, caps, count).len() == reached_bands(caps, count).len() + 1,
        ({
            let band = caps.bands@[reached_bands(caps, count)[i]];
            let span = band_spans(hz, caps, count)[i + 1];
            &&& span.0.len() == band.label@.len() + 2
            &&& span.0.subrange(1, 1 + band.label@.len() as int) == band.label@
            &&& span.1.bg is Some <==> band.range.min_hz <= hz <= band.range.max_hz
        }),
    decreases count,
{
    band_row_len(hz, caps, count);
    band_row_len(hz, caps, (count - 1) as nat);
    let before = reached_bands(caps, (count - 1) as nat);
    if i < before.len() {
        the_dial_marks_its_band(hz, caps, (count - 1) as nat, i);
    } else {
        reveal_strlit(" ");
        let band = caps.bands@[count - 1];
        assert(spaced(band.label@).subrange(1, 1 + band.label@.len() as int) =~= band.label@);
    }
}

/// A band row has a heading and one span for each band that is reached.
proof fn band_row_len(hz: u64, caps: Capabilities, count: nat)
    ensures
        band_spans(hz, caps, count).len() == reached_bands(caps, count).len() + 1,
    decreases count,
{
    if count > 0 {
        band_row_len(hz, caps, (count - 1) as nat);
    }
}

/// The mode row shows every mode, in order behind the heading, and marks
/// exactly those that read like the current one.
pub proof fn the_current_mode_is_marked(current: Seq<char>, modes: Seq<String>, count: nat, i: int)
    requires
        count <= modes.len(),
        0 <= i < count,
    ensures
        mode_spans(current, modes, count).len() == count + 1,
        ({
            let span = mode_spans(current, modes, count)[i + 1];
            &&& span.0.len() == modes[i]@.len() + 2
            &&& span.0.subrange(1, 1 + modes[i]@.len() as int) == modes[i]@
            &&& span.1.bg is Some <==> modes[i]@ == current
        }),
    decreases count,
{
    mode_row_len(current, modes, count);
    mode_row_len(current, modes, (count - 1) as nat);
    if i < count - 1 {
        the_current_mode_is_marked(current, modes, (count - 1) as nat, i);
    } else {
        reveal_strlit(" ");
        assert(spaced(modes[i]@).subrange(1, 1 + modes[i]@.len() as int) =~= modes[i]@);
    }
}

/// A mode row has a heading and one span for each mode.
proof fn mode_row_len(current: Seq<char>, modes: Seq<String>, count: nat)
    ensures
        mode_spans(current, modes, count).len() == count + 1,
    decreases count,
{
    if count > 0 {
        mode_row_len(current, modes, (count - 1) as nat);
    }
}

/// A flag that is on does not read like one that is off, and an offset reads as
/// its number, with the sign in front, exactly where it is active.
pub proof fn an_offset_reads_as_its_number(active: bool, hz: int)
    ensures
        on_off_text(true)[1] == 'n',
        on_off_text(false)[1] == 'f',
        on_off_text(true).len() == 2,
        on_off_text(false).len() == 3,
        active ==> (offset_text(active, hz)[0] == (if hz < 0 {
            '-'
        } else {
            '+'
        })) && read_number(offset_text(active, hz)) == (if hz < 0 {
            -hz
        } else {
            hz
        }),
        !active ==> offset_text(active, hz) == on_off_text(false),
{
    reveal_strlit("on");
    reveal_strlit("off");
    a_signed_number_reads_back(hz);
}

/// The cells of the ribbon, by their labels: each shows its own part of what
/// the radio reports, and one that the radio has not told is not known.
pub proof fn a_ribbon_cell_shows_its_setting(radio: RadioDisplay, i: int)
    requires
        0 <= i < 8,
    ensures
        ribbon_view(radio).len() == 8,
        ({
            let cell = ribbon_view(radio)[i];
            &&& cell.0 == "VFO"@ ==> cell.2 && (cell.1 == "A"@ <==> radio.rx_vfo == 0)
            &&& cell.0 == "SPLIT"@ ==> cell.2 && (cell.1 == "on"@ <==> radio.split)
            &&& cell.0 == "STEP"@ ==> cell.2 && (cell.1 == "fine"@ <==> radio.fine_step)
            &&& cell.0 == "FILTER"@ ==> (cell.2 <==> radio.filter_width_hz is Some) && (
            radio.filter_width_hz matches Some(hz) ==> read_number(cell.1) == hz)
            &&& cell.0 == "SHIFT"@ ==> (cell.2 <==> radio.if_shift_hz is Some) && (
            radio.if_shift_hz matches Some(hz) ==> {
                &&& cell.1[0] == (if hz < 0 {
                    '-'
                } else {
                    '+'
                })
                &&& read_number(cell.1) == (if hz < 0 {
                    -(hz as int)
                } else {
                    hz as int
                })
            })
            &&& cell.0 == "NOTCH"@ ==> (cell.2 <==> radio.notch is Some) && (
            radio.notch matches Some(on) ==> (cell.1 == "on"@ <==> on))
            &&& cell.0 == "RIT"@ ==> cell.2 && cell.1 == offset_text(
                radio.rit,
                radio.rit_xit_offset_hz as int,
            )
            &&& cell.0 == "XIT"@ ==> cell.2 && cell.1 == offset_text(
                radio.xit,
                radio.rit_xit_offset_hz as int,
            )
            &&& cell.0 == seq![
                "VFO"@,
                "SPLIT"@,
                "STEP"@,
                "FILTER"@,
                "SHIFT"@,
                "NOTCH"@,
                "RIT"@,
                "XIT"@,
            ][i]
        }),
{
    reveal_strlit("VFO");
    reveal_strlit("SPLIT");
    reveal_strlit("STEP");
    reveal_strlit("FILTER");
    reveal_strlit("SHIFT");
    reveal_strlit("NOTCH");
    reveal_strlit("RIT");
    reveal_strlit("XIT");
    reveal_strlit("A");
    reveal_strlit("B");
    reveal_strlit("on");
    reveal_strlit("off");
    reveal_strlit("fine");
    reveal_strlit("10 Hz");
    reveal_strlit(" Hz");
    let names = seq![
        "VFO"@,
        "SPLIT"@,
        "STEP"@,
        "FILTER"@,
        "SHIFT"@,
        "NOTCH"@,
        "RIT"@,
        "XIT"@,
    ];
    assert(names[0].len() == 3 && names[0][0] == 'V');
    assert(names[1].len() == 5 && names[1][1] == 'P');
    assert(names[2].len() == 4);
    assert(names[3].len() == 6);
    assert(names[4].len() == 5 && names[4][1] == 'H');
    assert(names[5].len() == 5 && names[5][0] == 'N');
    assert(names[6].len() == 3 && names[6][0] == 'R');
    assert(names[7].len() == 3 && names[7][0] == 'X');
    assert("A"@[0] != "B"@[0]);
    assert("on"@.len() != "off"@.len());
    assert("fine"@.len() != "10 Hz"@.len());
    assert(no_digits(" Hz"@));
    if let Some(hz) = radio.filter_width_hz {
        a_written_number_reads_back(hz as nat);
        number_before(decimal(hz as nat), " Hz"@);
    }
    if let Some(hz) = radio.if_shift_hz {
        a_signed_number_reads_back(hz as int);
        number_before(plus_decimal(hz as int), " Hz"@);
    }
}

/// A line of the ribbon shows its cells in order, each in a column of at least
/// nine characters, and dims what is a label or not known.
pub proof fn a_ribbon_line_shows_its_cells(
    cells: Seq<(Seq<char>, Seq<char>, bool)>,
    from: int,
    to: int,
    labels: bool,
    i: int,
)
    requires
        0 <= from <= i < to <= cells.len(),
    ensures
        ({
            let span = ribbon_spans(cells, from, to, labels)[i - from];
            let shown = if labels {
                cells[i].0
            } else {
                cells[i].1
            };
            &&& ribbon_spans(cells, from, to, labels).len() == to - from
            &&& span.0.take(shown.len() as int) == shown
            &&& span.0.len() >= 9
            &&& shown.len() <= 9 ==> span.0.len() == 9
            &&& (span.1.fg == Some(Colour::White)) <==> !labels && cells[i].2
        }),
{
    let shown = if labels {
        cells[i].0
    } else {
        cells[i].1
    };
    padding_keeps_the_text(shown, 9);
}

/// The rows of the reference rail, by their names: each shows its own level, a
/// number that reads back or whether something is on.
pub proof fn a_fact_shows_its_level(radio: RadioDisplay, i: int)
    requires
        radio.levels_known,
        0 <= i < 14,
    ensures
        facts_view(radio).len() == 14,
        ({
            let fact = facts_view(radio)[i];
            &&& fact.0 == "ANT"@ ==> read_number(fact.1) == radio.antenna
            &&& fact.0 == "AF"@ ==> read_number(fact.1) == radio.af_gain
            &&& fact.0 == "RF"@ ==> read_number(fact.1) == radio.rf_gain
            &&& fact.0 == "SQL"@ ==> read_number(fact.1) == radio.squelch
            &&& fact.0 == "MIC"@ ==> read_number(fact.1) == radio.mic_gain
            &&& fact.0 == "PWR"@ ==> read_number(fact.1) == radio.power_pct && fact.1.last() == 'W'
            &&& fact.0 == "AGC"@ ==> read_number(fact.1) == radio.agc
            &&& fact.0 == "NB"@ ==> (fact.1 == "on"@ <==> radio.noise_blanker)
            &&& fact.0 == "NR"@ ==> read_number(fact.1) == radio.noise_reduction
            &&& fact.0 == "PRE"@ ==> (fact.1 == "on"@ <==> radio.preamp)
            &&& fact.0 == "ATT"@ ==> (fact.1 == "on"@ <==> radio.attenuator)
            &&& fact.0 == "PROC"@ ==> (fact.1 == "on"@ <==> radio.speech_processor)
            &&& fact.0 == "VOX"@ ==> (fact.1 == "on"@ <==> radio.vox)
            &&& fact.0 == "LOCK"@ ==> (fact.1 == "on"@ <==> radio.freq_lock)
            &&& fact.0 == fact_names()[i]
        }),
{
    reveal_strlit("ANT");
    reveal_strlit("AF");
    reveal_strlit("RF");
    reveal_strlit("SQL");
    reveal_strlit("MIC");
    reveal_strlit("PWR");
    reveal_strlit("AGC");
    reveal_strlit("NB");
    reveal_strlit("NR");
    reveal_strlit("PRE");
    reveal_strlit("ATT");
    reveal_strlit("PROC");
    reveal_strlit("VOX");
    reveal_strlit("LOCK");
    reveal_strlit("W");
    reveal_strlit("on");
    reveal_strlit("off");
    assert("on"@.len() != "off"@.len());
    let names = fact_names();
    assert forall|a: int, b: int| 0 <= a < b < 14 implies #[trigger] names[a] != #[trigger] names[b] by {
        assert(names[a].len() != names[b].len() || names[a][0] != names[b][0] || names[a][1]
            != names[b][1]);
    }
    assert(facts_view(radio)[i].0 == names[i]);
    a_written_number_reads_back(radio.antenna as nat);
    a_written_number_reads_back(radio.af_gain as nat);
    a_written_number_reads_back(radio.rf_gain as nat);
    a_written_number_reads_back(radio.squelch as nat);
    a_written_number_reads_back(radio.mic_gain as nat);
    a_written_number_reads_back(radio.power_pct as nat);
    a_written_number_reads_back(radio.agc as nat);
    a_written_number_reads_back(radio.noise_reduction as nat);
    assert(no_digits("W"@));
    number_before(decimal(radio.power_pct as nat), "W"@);
}

/// The names of the reference rail, from top to bottom.
pub open spec fn fact_names() -> Seq<Seq<char>> {
    seq![
        "ANT"@,
        "AF"@,
        "RF"@,
        "SQL"@,
        "MIC"@,
        "PWR"@,
        "AGC"@,
        "NB"@,
        "NR"@,
        "PRE"@,
        "ATT"@,
        "PROC"@,
        "VOX"@,
        "LOCK"@,
    ]
}

/// The status strip leads with the link: a lost one stands out in red, and
/// neither a link that is up nor one that is being made does.
pub proof fn a_lost_link_stands_out(radio: RadioDisplay, view: ConsoleView)
    ensures
        status_spans(radio, view).len() >= 3,
        ({
            let link = status_spans(radio, view)[0];
            &&& link.1.bold && link.1.fg == Some(Colour::Red) <==> !radio.initializing
                && !radio.connected
            &&& link.1.fg == Some(Colour::Green) <==> !radio.initializing && radio.connected
        }),
        view.message matches Some(msg) ==> status_spans(radio, view).len() == 3 && status_spans(
            radio,
            view,
        )[2].0 == msg@,
        view.message is None && radio.poll_errors@.len() > 0 ==> status_spans(radio, view)[2].0
            == radio.poll_errors@[0]@ && status_spans(radio, view)[2].1.fg == Some(Colour::Red),
        view.message is None && radio.poll_errors@.len() == 1 ==> status_spans(radio, view).len()
            == 3,
        view.message is None && radio.poll_errors@.len() > 1 ==> status_spans(radio, view).len()
            == 4 && read_number(status_spans(radio, view)[3].0) == radio.poll_errors@.len() - 1,
{
    if view.message is None && radio.poll_errors@.len() > 1 {
        reveal_strlit("  (+");
        reveal_strlit(" more)");
        let n = (radio.poll_errors@.len() - 1) as nat;
        a_written_number_reads_back(n);
        assert(no_digits("  (+"@));
        assert(no_digits(" more)"@));
        number_behind("  (+"@, decimal(n));
        number_before("  (+"@ + decimal(n), " more)"@);
    }
}

/// The command line shows what was typed between its colon and its cursor, and
/// nothing where it is not open.
pub proof fn what_was_typed_is_shown(view: ConsoleView)
    ensures
        view.command matches Some(typed) ==> command_spans(view).len() == 3 && command_spans(
            view,
        )[1].0 == typed@,
        view.command is None ==> command_spans(view).len() == 1 && command_spans(view)[0].0.len()
            == 0,
{
    reveal_strlit("");
}

/// The tab bar shows every tab in order, by the digit that opens it and its
/// label, and exactly the open one stands out.
pub proof fn the_open_tab_stands_out(tabs: Seq<TabEntry>, tab: Tab, count: nat, i: int)
    requires
        count <= tabs.len(),
        0 <= i < count,
    ensures
        tab_spans(tabs, tab, count).len() == 2 * count,
        ({
            let span = tab_spans(tabs, tab, count)[2 * i];
            let label = tabs[i].label@;
            &&& span.0.len() > label.len() + 2
            &&& span.0.subrange(span.0.len() - 1 - label.len(), span.0.len() - 1) == label
            &&& read_number(span.0.take(span.0.len() - 1 - label.len())) == i + 1
            &&& span.1.bg is Some <==> tabs[i].tab == tab
        }),
    decreases count,
{
    tab_bar_len(tabs, tab, count);
    tab_bar_len(tabs, tab, (count - 1) as nat);
    if i < count - 1 {
        the_open_tab_stands_out(tabs, tab, (count - 1) as nat, i);
    } else {
        reveal_strlit(" ");
        let label = tabs[i].label@;
        let number = decimal((i + 1) as nat);
        let text = tab_label(i, label);
        a_written_number_reads_back((i + 1) as nat);
        assert(text.subrange(text.len() - 1 - label.len(), text.len() - 1) =~= label);
        assert(text.take(text.len() - 1 - label.len()) =~= (" "@ + number) + " "@);
        assert(no_digits(" "@));
        number_behind(" "@, number);
        number_before(" "@ + number, " "@);
        assert(tab_spans(tabs, tab, count)[2 * i] == (
            text,
            if tabs[i].tab == tab {
                bold_on(Colour::Black, Colour::White)
            } else {
                inked(DIM)
            },
        ));
    }
}

/// A tab bar has a label and a gap for each tab.
proof fn tab_bar_len(tabs: Seq<TabEntry>, tab: Tab, count: nat)
    ensures
        tab_spans(tabs, tab, count).len() == 2 * count,
    decreases count,
{
    if count > 0 {
        tab_bar_len(tabs, tab, (count - 1) as nat);
    }
}

/// A tab is called by the label it has among the tabs of this radio: that of
/// the first such tab. One that is not among them has its stand-in.
pub proof fn a_tab_is_called_by_its_own_label(
    tabs: Seq<TabEntry>,
    tab: Tab,
    otherwise: Seq<char>,
    i: int,
)
    requires
        0 <= i <= tabs.len(),
        forall|j: int| 0 <= j < i ==> (#[trigger] tabs[j]).tab != tab,
        i < tabs.len() ==> tabs[i].tab == tab,
    ensures
        i < tabs.len() ==> label_of(tabs, tab, otherwise) == tabs[i].label@,
        i == tabs.len() ==> label_of(tabs, tab, otherwise) == otherwise,
    decreases tabs.len(),
{
    if i > 0 {
        assert(tabs[0].tab != tab);
        a_tab_is_called_by_its_own_label(tabs.skip(1), tab, otherwise, i - 1);
    }
}

/// The memory tab leads with the channel's number, in two digits at least, and
/// says whether the radio is on it.
pub proof fn the_memory_tab_names_its_channel(radio: RadioDisplay, view: ConsoleView)
    ensures
        read_number(memory_lines(radio, view)[0][1].0) == radio.memory_channel,
        memory_lines(radio, view)[0][1].0.len() >= 2,
        memory_lines(radio, view)[0][3].0 == "MEM"@ <==> radio.memory_mode,
        memory_lines(radio, view)[1][0].0 == label_of(view.tabs@, Tab::Memory, "MEMORY"@),
        menu_tab_lines(view)[0][0].0 == label_of(view.tabs@, Tab::Menu, "MENU"@),
{
    reveal_strlit("MEM");
    reveal_strlit("VFO");
    assert("MEM"@[0] != "VFO"@[0]);
    leading_zeros_change_no_number(radio.memory_channel as nat, 2);
}

/// A line of the reference rail names its fact in five columns, dimmed, and
/// has its value beside it, bright.
pub proof fn a_rail_line_names_its_fact(radio: RadioDisplay, i: int)
    requires
        0 <= i < 14,
    ensures
        reference_lines(radio).len() == 14,
        ({
            let line = reference_lines(radio)[i];
            let fact = facts_view(radio)[i];
            &&& line.len() == 2
            &&& line[0].0.len() >= 5
            &&& fact.0.len() <= 5 ==> line[0].0.len() == 5
            &&& line[0].0.subrange(0, fact.0.len() as int) == fact.0
            &&& line[1].0 == fact.1
            &&& line[1].1.fg == Some(Colour::White)
            &&& line[0].1.fg != line[1].1.fg
        }),
{
    let fact = facts_view(radio)[i];
    padding_keeps_the_text(fact.0, 5);
    assert(pad_end(fact.0, 5).subrange(0, fact.0.len() as int) =~= pad_end(fact.0, 5).take(
        fact.0.len() as int,
    ));
}

/// A choice the radio is on is dark on the colour of a setting and bold; any
/// other is bright on no ground.
pub proof fn a_choice_stands_out_where_it_is_taken()
    ensures
        choice_style(true).fg == Some(Colour::Black) && choice_style(true).bg == Some(
            Colour::Yellow,
        ) && choice_style(true).bold,
        choice_style(false).fg == Some(Colour::White) && choice_style(false).bg is None
            && !choice_style(false).bold,
{
}

/// What was typed is as bright as the colon before it, and the cursor behind it
/// is not.
pub proof fn the_cursor_is_told_from_the_line(view: ConsoleView)
    requires
        view.command is Some,
    ensures
        command_spans(view)[0].1.fg == Some(Colour::White),
        command_spans(view)[1].1.fg == Some(Colour::White),
        command_spans(view)[2].1.fg == Some(Colour::Yellow),
{
}

} // verus!
