//! What the console's panels say.

use crate::gui::console::live;
use crate::gui::console::Console;
use crate::gui::console::Link;
use crate::gui::devices::absent_line;
use crate::gui::devices::absent_text;
use crate::gui::devices::empty_line;
use crate::gui::devices::empty_text;
use crate::gui::devices::Offer;
use crate::gui::layout::Panel;
use crate::gui::meter::reading_text;
use crate::gui::meter::smeter_text;
use crate::gui::model::mode_label;
use crate::gui::model::mode_text;
use crate::gui::model::s_range;
use crate::gui::model::s_range_from;
use crate::gui::model::Capabilities;
use crate::gui::model::Control;
use crate::gui::model::Meter;
use crate::gui::model::SignalSupport;
use crate::gui::model::Source;
use crate::gui::readout::RadioLevels;
use crate::gui::theme::Role;
use crate::gui::widgets::Widgets;
use crate::text::a_signed_number_reads_back;
use crate::text::a_written_number_reads_back;
use crate::text::decimal;
use crate::text::decimal_text;
use crate::text::no_digits;
use crate::text::number_before;
use crate::text::number_behind;
use crate::text::pad_end;
use crate::text::padding_keeps_the_text;
use crate::text::plus_decimal;
use crate::text::push_decimal;
use crate::text::push_padded;
use crate::text::push_plus_signed;
use crate::text::push_repeated;
use crate::text::push_text;
use crate::text::read_number;
use crate::text::repeated;
use crate::text::text;
use crate::tui::console::facts::on_off;
use crate::tui::console::facts::on_off_text;
use crate::tui::console::model::Tab;
use crate::tui::meter::MeterReading;
use crate::ui::device::flag_text;
use crate::ui::device::heading_text;
use crate::ui::device::DeviceInfo;
use crate::ui::device::DeviceKind;
use crate::ui::device::DeviceList;
use crate::ui::format::format_digits;
use crate::ui::format::hz_digits;
use vstd::prelude::*;
use vstd::string::*;

verus! {

/// One field of the strip: a key with a value under it.
#[derive(Debug, PartialEq, Eq)]
pub struct StripField {
    pub key: String,
    pub value: String,
    pub role: Role,
}

impl View for StripField {
    type V = (Seq<char>, Seq<char>, Role);

    open spec fn view(&self) -> (Seq<char>, Seq<char>, Role) {
        (self.key@, self.value@, self.role)
    }
}

fn strip_field(key: &str, value: &str, role: Role) -> (r: StripField)
    ensures
        r@ == (key@, value@, role),
{
    StripField { key: text(key), value: text(value), role }
}

/// The strip that is always there. `state` and `signal` stand at its right end.
#[derive(Debug, PartialEq, Eq)]
pub struct Strip {
    pub radio: StripField,
    pub link: StripField,
    /// The dial, which is drawn large.
    pub dial: StripField,
    pub split: StripField,
    pub s: StripField,
    pub state: StripField,
    pub signal: StripField,
}

/// The fields of the strip.
pub open spec fn strip_fields(s: Strip) -> Seq<(Seq<char>, Seq<char>, Role)> {
    seq![s.radio@, s.link@, s.dial@, s.split@, s.s@, s.state@, s.signal@]
}

/// The strip's text for a value that may be on or off.
pub open spec fn switch_field(
    key: Seq<char>,
    on: Option<bool>,
    yes: (Seq<char>, Role),
    no: (Seq<char>, Role),
) -> (Seq<char>, Seq<char>, Role) {
    match on {
        Some(true) => (key, yes.0, yes.1),
        Some(false) => (key, no.0, no.1),
        None => (key, "—"@, Role::Absent),
    }
}

impl<A> Console<A> {
    /// The S meter's reading, in the range the radio declares.
    pub open spec fn s_meter(self) -> Option<MeterReading> {
        match (self.caps(), self.readout.smeter_raw.shown()) {
            (Some(caps), Some(raw)) => match s_range_from(caps.meters@, 0) {
                Some((min, max)) => Some(MeterReading { raw, min, max }),
                None => None,
            },
            _ => None,
        }
    }

    /// The S meter's reading, in the range the radio declares.
    pub fn smeter_reading(&self) -> (r: Option<MeterReading>)
        ensures
            r == self.s_meter(),
    {
        let caps = match self.capabilities() {
            Some(c) => c,
            None => {
                return None;
            },
        };
        let raw: u16 = match self.readout.smeter_raw.value() {
            Some(v) => v,
            None => {
                return None;
            },
        };
        match s_range(caps) {
            Some((min, max)) => Some(MeterReading { raw, min, max }),
            None => None,
        }
    }

    pub open spec fn radio_field(self) -> (Seq<char>, Seq<char>, Role) {
        match self.caps() {
            Some(c) => ("radio"@, c.model@, Role::Accent),
            None => ("radio"@, "NO RADIO"@, Role::Warning),
        }
    }

    pub open spec fn link_field(self) -> (Seq<char>, Seq<char>, Role) {
        match self.link {
            Link::Up(_) => ("link"@, "◆ "@ + self.address@, Role::Signal),
            Link::Down(_) => ("link"@, "◇ "@ + self.address@, Role::Absent),
        }
    }

    pub open spec fn dial_field(self) -> (Seq<char>, Seq<char>, Role) {
        let key = "vfo a · "@ + mode_text(self.caps(), self.readout.mode.shown());
        match self.readout.vfo_a_hz.shown() {
            Some(hz) => (
                key,
                hz_digits(hz),
                if self.readout.vfo_a_hz is Pending {
                    Role::Accent
                } else {
                    Role::Text
                },
            ),
            None => (key, "—.———.———"@, Role::Absent),
        }
    }

    pub open spec fn s_field(self, s_unit: Seq<char>) -> (Seq<char>, Seq<char>, Role) {
        match self.s_meter() {
            Some(r) => ("s"@, reading_text(Some((s_unit, r))), Role::Text),
            None => ("s"@, "—"@, Role::Absent),
        }
    }

    pub open spec fn signal_field(self, now: u64) -> (Seq<char>, Seq<char>, Role) {
        match self.caps() {
            Some(c) => match c.signal {
                SignalSupport::IfTapPoint => (
                    "signal · rf"@,
                    "IF-TAP"@,
                    if live(self.last_spectrum_at, now) {
                        Role::Signal
                    } else {
                        Role::Absent
                    },
                ),
                SignalSupport::NoSignal => ("signal · rf"@, "NONE"@, Role::Absent),
                SignalSupport::Scope => ("signal · rf"@, "SCOPE"@, Role::Signal),
            },
            None => ("signal · rf"@, "—"@, Role::Absent),
        }
    }

    /// What the strip says.
    pub open spec fn strip_view(self, s_unit: Seq<char>, now: u64) -> Seq<
        (Seq<char>, Seq<char>, Role),
    > {
        seq![
            self.radio_field(),
            self.link_field(),
            self.dial_field(),
            switch_field(
                "split"@,
                self.readout.split.shown(),
                ("ON"@, Role::Accent),
                ("OFF"@, Role::Dim),
            ),
            self.s_field(s_unit),
            switch_field(
                "state"@,
                self.readout.tx.shown(),
                ("TX"@, Role::Warning),
                ("RX"@, Role::Signal),
            ),
            self.signal_field(now),
        ]
    }

    /// The strip. `s_unit` is what the S meter's reading is called on this
    /// radio's scale; it is used only where there is a reading.
    pub fn strip(&self, s_unit: &str, now: u64) -> (r: Strip)
        ensures
            strip_fields(r) == self.strip_view(s_unit@, now),
    {
        let caps = self.capabilities();
        let radio = match caps {
            Some(c) => strip_field("radio", c.model.as_str(), Role::Accent),
            None => strip_field("radio", "NO RADIO", Role::Warning),
        };
        let (mark, role) = match &self.link {
            Link::Up(_) => ("◆ ", Role::Signal),
            Link::Down(_) => ("◇ ", Role::Absent),
        };
        let mut address = text(mark);
        push_text(&mut address, self.address.as_str());
        let link = StripField { key: text("link"), value: address, role };
        let mut key = text("vfo a · ");
        push_text(&mut key, mode_label(caps, self.readout.mode.value()));
        let dial = match self.readout.vfo_a_hz.value() {
            Some(hz) => {
                let role = if self.readout.vfo_a_hz.is_pending() {
                    Role::Accent
                } else {
                    Role::Text
                };
                StripField { key, value: format_digits(hz), role }
            },
            None => StripField { key, value: text("—.———.———"), role: Role::Absent },
        };
        let split = match self.readout.split.value() {
            Some(true) => strip_field("split", "ON", Role::Accent),
            Some(false) => strip_field("split", "OFF", Role::Dim),
            None => strip_field("split", "—", Role::Absent),
        };
        let s = match self.smeter_reading() {
            Some(reading) => StripField {
                key: text("s"),
                value: smeter_text(Some((s_unit, reading))),
                role: Role::Text,
            },
            None => strip_field("s", "—", Role::Absent),
        };
        let state = match self.readout.tx.value() {
            Some(true) => strip_field("state", "TX", Role::Warning),
            Some(false) => strip_field("state", "RX", Role::Signal),
            None => strip_field("state", "—", Role::Absent),
        };
        let signal = match caps {
            Some(c) => match c.signal {
                SignalSupport::IfTapPoint => {
                    let role = if self.spectrum_is_live(now) {
                        Role::Signal
                    } else {
                        Role::Absent
                    };
                    strip_field("signal · rf", "IF-TAP", role)
                },
                SignalSupport::NoSignal => strip_field("signal · rf", "NONE", Role::Absent),
                SignalSupport::Scope => strip_field("signal · rf", "SCOPE", Role::Signal),
            },
            None => strip_field("signal · rf", "—", Role::Absent),
        };
        let strip = Strip { radio, link, dial, split, s, state, signal };
        proof {
            assert(strip.radio@ == self.radio_field());
            assert(strip.link@ == self.link_field());
            assert(strip.dial@ == self.dial_field());
            assert(strip.s@ == self.s_field(s_unit@));
            assert(strip.signal@ == self.signal_field(now));
            assert(strip_fields(strip) =~= self.strip_view(s_unit@, now));
        }
        strip
    }
}

/// One row of the levels: its name, and its value once it was read.
#[derive(Debug, PartialEq, Eq)]
pub struct LevelRow {
    pub label: &'static str,
    pub value: Option<String>,
}

impl View for LevelRow {
    type V = (Seq<char>, Option<Seq<char>>);

    open spec fn view(&self) -> (Seq<char>, Option<Seq<char>>) {
        (
            self.label@,
            match self.value {
                Some(v) => Some(v@),
                None => None,
            },
        )
    }
}

/// The names of the levels, in the order they are shown.
pub open spec fn level_names() -> Seq<Seq<char>> {
    seq![
        "ANT"@,
        "AF"@,
        "RF"@,
        "SQL"@,
        "MIC"@,
        "PWR"@,
        "AGC"@,
        "NR"@,
        "NB"@,
        "PRE"@,
        "ATT"@,
        "PROC"@,
        "VOX"@,
        "LOCK"@,
    ]
}

/// The values of the levels, in the same order.
pub open spec fn level_values(l: RadioLevels) -> Seq<Seq<char>> {
    seq![
        "ANT"@ + decimal(l.antenna as nat),
        decimal(l.af_gain as nat),
        decimal(l.rf_gain as nat),
        decimal(l.squelch as nat),
        decimal(l.mic_gain as nat),
        decimal(l.power_pct as nat) + "%"@,
        decimal(l.agc as nat),
        decimal(l.noise_reduction as nat),
        on_off_text(l.noise_blanker),
        on_off_text(l.preamp),
        on_off_text(l.attenuator),
        on_off_text(l.speech_processor),
        on_off_text(l.vox),
        on_off_text(l.freq_lock),
    ]
}

/// What the levels say.
pub open spec fn level_views(levels: Option<RadioLevels>) -> Seq<(Seq<char>, Option<Seq<char>>)> {
    Seq::new(
        14,
        |i: int|
            (
                level_names()[i],
                match levels {
                    Some(l) => Some(level_values(l)[i]),
                    None => None,
                },
            ),
    )
}

/// What a list of rows says.
pub open spec fn rows_view(rows: Seq<LevelRow>) -> Seq<(Seq<char>, Option<Seq<char>>)> {
    Seq::new(rows.len(), |i: int| rows[i]@)
}

fn level_row(label: &'static str, value: String) -> (r: LevelRow)
    ensures
        r@ == (label@, Some(value@)),
{
    LevelRow { label, value: Some(value) }
}

fn unread(label: &'static str) -> (r: LevelRow)
    ensures
        r@ == (label@, None::<Seq<char>>),
{
    LevelRow { label, value: None }
}

/// The levels. Until they were read every value is absent, which is not a
/// zero.
pub fn level_rows(levels: Option<RadioLevels>) -> (r: Vec<LevelRow>)
    ensures
        rows_view(r@) == level_views(levels),
{
    let mut rows: Vec<LevelRow> = Vec::new();
    match levels {
        Some(l) => {
            let mut antenna = text("ANT");
            push_decimal(&mut antenna, l.antenna as u64);
            let mut power = decimal_text(l.power_pct as u64);
            push_text(&mut power, "%");
            rows.push(level_row("ANT", antenna));
            rows.push(level_row("AF", decimal_text(l.af_gain as u64)));
            rows.push(level_row("RF", decimal_text(l.rf_gain as u64)));
            rows.push(level_row("SQL", decimal_text(l.squelch as u64)));
            rows.push(level_row("MIC", decimal_text(l.mic_gain as u64)));
            rows.push(level_row("PWR", power));
            rows.push(level_row("AGC", decimal_text(l.agc as u64)));
            rows.push(level_row("NR", decimal_text(l.noise_reduction as u64)));
            rows.push(level_row("NB", on_off(l.noise_blanker)));
            rows.push(level_row("PRE", on_off(l.preamp)));
            rows.push(level_row("ATT", on_off(l.attenuator)));
            rows.push(level_row("PROC", on_off(l.speech_processor)));
            rows.push(level_row("VOX", on_off(l.vox)));
            rows.push(level_row("LOCK", on_off(l.freq_lock)));
        },
        None => {
            rows.push(unread("ANT"));
            rows.push(unread("AF"));
            rows.push(unread("RF"));
            rows.push(unread("SQL"));
            rows.push(unread("MIC"));
            rows.push(unread("PWR"));
            rows.push(unread("AGC"));
            rows.push(unread("NR"));
            rows.push(unread("NB"));
            rows.push(unread("PRE"));
            rows.push(unread("ATT"));
            rows.push(unread("PROC"));
            rows.push(unread("VOX"));
            rows.push(unread("LOCK"));
        },
    }
    assert(rows_view(rows@) =~= level_views(levels));
    rows
}

/// A meter of the rail.
#[derive(Debug, PartialEq, Eq)]
pub struct MeterRow {
    pub name: String,
    pub value: String,
    pub role: Role,
    /// What its bar shows, where it was read.
    pub reading: Option<MeterReading>,
}

/// Whether a row shows a meter: only the S meter has a reading, and a meter
/// without one keeps its place, dimmed.
pub open spec fn shows_meter(row: MeterRow, meter: Meter, s: Option<MeterReading>) -> bool {
    let reading = if meter.is_s {
        s
    } else {
        None
    };
    &&& row.name@ == meter.name@
    &&& row.reading == reading
    &&& match reading {
        Some(r) => row.value@ == decimal(r.raw as nat) && row.role == Role::Text,
        None => row.value@ == "—"@ && row.role == Role::Absent,
    }
}

impl<A> Console<A> {
    /// Every meter the radio has, in its order. `None` where there is no
    /// radio.
    pub fn rail(&self) -> (r: Option<Vec<MeterRow>>)
        ensures
            match self.caps() {
                None => r is None,
                Some(caps) => r matches Some(rows) && rows@.len() == caps.meters@.len() && forall|
                    i: int,
                |
                    0 <= i < rows@.len() ==> shows_meter(
                        #[trigger] rows@[i],
                        caps.meters@[i],
                        self.s_meter(),
                    ),
            },
    {
        let caps = match self.capabilities() {
            Some(c) => c,
            None => {
                return None;
            },
        };
        let s = self.smeter_reading();
        let mut rows: Vec<MeterRow> = Vec::new();
        let mut i: usize = 0;
        while i < caps.meters.len()
            invariant
                i <= caps.meters@.len(),
                s == self.s_meter(),
                rows@.len() == i,
                forall|j: int|
                    0 <= j < i ==> shows_meter(#[trigger] rows@[j], caps.meters@[j], self.s_meter()),
            decreases caps.meters@.len() - i,
        {
            let reading = if caps.meters[i].is_s {
                s
            } else {
                None
            };
            let (value, role) = match reading {
                Some(r) => (decimal_text(r.raw as u64), Role::Text),
                None => (text("—"), Role::Absent),
            };
            rows.push(MeterRow { name: text(caps.meters[i].name.as_str()), value, role, reading });
            i += 1;
        }
        Some(rows)
    }
}

/// A tab of the tab bar: the digit that opens it, its name, and whether it is
/// open.
#[derive(Debug, PartialEq, Eq)]
pub struct TabCell {
    pub digit: String,
    pub label: String,
    pub tab: Tab,
    pub selected: bool,
    pub role: Role,
}

/// What stands at the end of the tab bar.
pub fn tab_hint() -> (r: &'static str)
    ensures
        r@ == "1–9 switch · : command"@,
{
    "1–9 switch · : command"
}

impl<A> Console<A> {
    /// The tabs, each with its digit.
    pub fn tab_bar(&self) -> (r: Vec<TabCell>)
        ensures
            r@.len() == self.tabs@.len(),
            forall|i: int|
                0 <= i < r@.len() ==> {
                    let cell = #[trigger] r@[i];
                    &&& cell.digit@ == decimal((i + 1) as nat)
                    &&& cell.label@ == self.tabs@[i].label@
                    &&& cell.tab == self.tabs@[i].tab
                    &&& cell.selected == (self.active == self.tabs@[i].tab)
                    &&& cell.role == (if self.active == self.tabs@[i].tab {
                        Role::Accent
                    } else {
                        Role::Dim
                    })
                },
    {
        let mut cells: Vec<TabCell> = Vec::new();
        let mut i: usize = 0;
        while i < self.tabs.len()
            invariant
                i <= self.tabs@.len(),
                cells@.len() == i,
                forall|j: int|
                    0 <= j < i ==> {
                        let cell = #[trigger] cells@[j];
                        &&& cell.digit@ == decimal((j + 1) as nat)
                        &&& cell.label@ == self.tabs@[j].label@
                        &&& cell.tab == self.tabs@[j].tab
                        &&& cell.selected == (self.active == self.tabs@[j].tab)
                        &&& cell.role == (if self.active == self.tabs@[j].tab {
                            Role::Accent
                        } else {
                            Role::Dim
                        })
                    },
            decreases self.tabs@.len() - i,
        {
            let tab = self.tabs[i].tab;
            let selected: bool = self.active == tab;
            let role = if selected {
                Role::Accent
            } else {
                Role::Dim
            };
            cells.push(
                TabCell {
                    digit: decimal_text(i as u64 + 1),
                    label: text(self.tabs[i].label.as_str()),
                    tab,
                    selected,
                    role,
                },
            );
            i += 1;
        }
        cells
    }
}

/// A choice of a filter width.
#[derive(Debug, PartialEq, Eq)]
pub struct WidthChoice {
    pub hz: u32,
    pub label: String,
    pub selected: bool,
}

/// What a control of the quick bar shows.
#[derive(Debug, PartialEq, Eq)]
pub enum QuickShown {
    /// A button with a text.
    Button { value: String, role: Role },
    /// The current width, and the widths to choose from.
    Widths { value: String, choices: Vec<WidthChoice> },
    /// The current shift, between two buttons, and how far it may go.
    Shift { value: String, limit_hz: i32 },
    Nothing,
}

/// A control of the quick bar, as it is shown.
#[derive(Debug, PartialEq, Eq)]
pub struct QuickCell {
    pub label: String,
    pub shown: QuickShown,
}

/// A width in words.
pub open spec fn width_text(hz: u32) -> Seq<char> {
    decimal(hz as nat) + " Hz"@
}

fn width_words(hz: u32) -> (r: String)
    ensures
        r@ == width_text(hz),
{
    let mut out = decimal_text(hz as u64);
    push_text(&mut out, " Hz");
    out
}

/// A shift in words: its sign, and five columns at least.
pub open spec fn shift_text(hz: int) -> Seq<char> {
    repeated(' ', 5 - plus_decimal(hz).len()) + plus_decimal(hz) + " Hz"@
}

fn shift_words(hz: i32) -> (r: String)
    ensures
        r@ == shift_text(hz as int),
{
    let mut digits = String::new();
    push_plus_signed(&mut digits, hz as i64);
    assert(digits@ =~= plus_decimal(hz as int));
    let len: usize = digits.as_str().unicode_len();
    let mut out = String::new();
    let pad: usize = if len < 5 {
        5 - len
    } else {
        0
    };
    push_repeated(&mut out, ' ', pad);
    assert(out@ =~= repeated(' ', 5 - plus_decimal(hz as int).len()));
    push_text(&mut out, digits.as_str());
    push_text(&mut out, " Hz");
    out
}

/// Whether a control is shown as it should be.
pub open spec fn shows_control<A>(
    shown: QuickShown,
    control: Control,
    caps: Capabilities,
    console: Console<A>,
) -> bool {
    match control {
        Control::Mode => shown matches QuickShown::Button { value, role } && value@ == pad_end(
            mode_text(Some(caps), console.readout.mode.shown()),
            8,
        ) && role == Role::Text,
        Control::FilterWidth { widths_hz } => shown matches QuickShown::Widths { value, choices }
            && value@ == (match console.readout.filter_width_hz.shown() {
            Some(hz) => width_text(hz),
            None => "—"@,
        }) && choices@.len() == widths_hz@.len() && forall|i: int|
            0 <= i < choices@.len() ==> {
                let c = #[trigger] choices@[i];
                &&& c.hz == widths_hz@[i]
                &&& c.label@ == width_text(widths_hz@[i])
                &&& c.selected == (console.readout.filter_width_hz.shown() == Some(widths_hz@[i]))
            },
        Control::IfShift { limit_hz } => shown matches QuickShown::Shift { value, limit_hz: limit }
            && limit == limit_hz && value@ == shift_text(
            match console.readout.if_shift_hz.shown() {
                Some(hz) => hz as int,
                None => 0,
            },
        ),
        Control::Notch => shown is Nothing,
        Control::Split => shown matches QuickShown::Button { value, role } && if console.readout.split.shown()
            == Some(true) {
            value@ == "ON "@ && role == Role::Accent
        } else {
            value@ == "OFF"@ && role == Role::Dim
        },
    }
}

fn width_choices(widths_hz: &Vec<u32>, current: Option<u32>) -> (r: Vec<WidthChoice>)
    ensures
        r@.len() == widths_hz@.len(),
        forall|i: int|
            0 <= i < r@.len() ==> {
                let c = #[trigger] r@[i];
                &&& c.hz == widths_hz@[i]
                &&& c.label@ == width_text(widths_hz@[i])
                &&& c.selected == (current == Some(widths_hz@[i]))
            },
{
    let mut choices: Vec<WidthChoice> = Vec::new();
    let mut i: usize = 0;
    while i < widths_hz.len()
        invariant
            i <= widths_hz@.len(),
            choices@.len() == i,
            forall|j: int|
                0 <= j < i ==> {
                    let c = #[trigger] choices@[j];
                    &&& c.hz == widths_hz@[j]
                    &&& c.label@ == width_text(widths_hz@[j])
                    &&& c.selected == (current == Some(widths_hz@[j]))
                },
        decreases widths_hz@.len() - i,
    {
        let hz: u32 = widths_hz[i];
        let selected: bool = match current {
            Some(c) => c == hz,
            None => false,
        };
        choices.push(WidthChoice { hz, label: width_words(hz), selected });
        i += 1;
    }
    choices
}

impl<A> Console<A> {
    fn control_shown(&self, control: &Control, caps: &Capabilities) -> (r: QuickShown)
        ensures
            shows_control(r, *control, *caps, *self),
    {
        match control {
            Control::Mode => {
                let label = mode_label(Some(caps), self.readout.mode.value());
                let mut value = String::new();
                push_padded(&mut value, label, 8);
                assert(value@ =~= pad_end(label@, 8));
                QuickShown::Button { value, role: Role::Text }
            },
            Control::FilterWidth { widths_hz } => {
                let current = self.readout.filter_width_hz.value();
                let value = match current {
                    Some(hz) => width_words(hz),
                    None => text("—"),
                };
                QuickShown::Widths { value, choices: width_choices(widths_hz, current) }
            },
            Control::IfShift { limit_hz } => {
                let current: i32 = match self.readout.if_shift_hz.value() {
                    Some(hz) => hz,
                    None => 0,
                };
                QuickShown::Shift { value: shift_words(current), limit_hz: *limit_hz }
            },
            Control::Notch => QuickShown::Nothing,
            Control::Split => {
                let on: bool = match self.readout.split.value() {
                    Some(v) => v,
                    None => false,
                };
                if on {
                    QuickShown::Button { value: text("ON "), role: Role::Accent }
                } else {
                    QuickShown::Button { value: text("OFF"), role: Role::Dim }
                }
            },
        }
    }

    /// The quick bar: the controls this radio has, in their order. Without a
    /// radio it is empty.
    pub fn quick_bar(&self) -> (r: Vec<QuickCell>)
        ensures
            match self.caps() {
                None => r@.len() == 0,
                Some(caps) => r@.len() == caps.controls@.len() && forall|i: int|
                    0 <= i < r@.len() ==> {
                        let cell = #[trigger] r@[i];
                        &&& cell.label@ == caps.controls@[i].label@
                        &&& shows_control(cell.shown, caps.controls@[i].control, caps, *self)
                    },
            },
    {
        let mut cells: Vec<QuickCell> = Vec::new();
        let caps = match self.capabilities() {
            Some(c) => c,
            None => {
                return cells;
            },
        };
        let mut i: usize = 0;
        while i < caps.controls.len()
            invariant
                i <= caps.controls@.len(),
                cells@.len() == i,
                forall|j: int|
                    0 <= j < i ==> {
                        let cell = #[trigger] cells@[j];
                        &&& cell.label@ == caps.controls@[j].label@
                        &&& shows_control(cell.shown, caps.controls@[j].control, *caps, *self)
                    },
            decreases caps.controls@.len() - i,
        {
            let quick = &caps.controls[i];
            let shown = self.control_shown(&quick.control, caps);
            cells.push(QuickCell { label: text(quick.label.as_str()), shown });
            i += 1;
        }
        cells
    }
}

/// A row of the source workspace.
#[derive(Debug, PartialEq, Eq)]
pub enum SourceRow {
    /// Said quietly.
    Dim(String),
    /// Said of something that is not there.
    Absent(String),
    /// A source that is attached.
    Attached(String),
    /// A caption with a button beside it that asks the host again.
    Refresh(String),
    /// The heading of a group.
    Heading(String),
    /// A device that can be picked.
    Device { label: String, kind: DeviceKind, spec: String, is_default: bool },
}

/// What a row says.
pub enum SourceRowView {
    Dim(Seq<char>),
    Absent(Seq<char>),
    Attached(Seq<char>),
    Refresh(Seq<char>),
    Heading(Seq<char>),
    Device(Seq<char>, DeviceKind, Seq<char>, bool),
}

impl View for SourceRow {
    type V = SourceRowView;

    open spec fn view(&self) -> SourceRowView {
        match self {
            SourceRow::Dim(s) => SourceRowView::Dim(s@),
            SourceRow::Absent(s) => SourceRowView::Absent(s@),
            SourceRow::Attached(s) => SourceRowView::Attached(s@),
            SourceRow::Refresh(s) => SourceRowView::Refresh(s@),
            SourceRow::Heading(s) => SourceRowView::Heading(s@),
            SourceRow::Device { label, kind, spec, is_default } => SourceRowView::Device(
                label@,
                *kind,
                spec@,
                *is_default,
            ),
        }
    }
}

/// What a list of rows says.
pub open spec fn source_views(rows: Seq<SourceRow>) -> Seq<SourceRowView> {
    Seq::new(rows.len(), |i: int| rows[i]@)
}

/// What is attached: the first `count` sources.
pub open spec fn attached_rows(sources: Seq<Source>, count: int) -> Seq<SourceRowView> {
    Seq::new(count as nat, |i: int| SourceRowView::Attached(sources[i].label@))
}

/// A device: its name, the flag that names it to the server, and its detail.
pub open spec fn device_rows(device: DeviceInfo) -> Seq<SourceRowView> {
    let named = seq![
        SourceRowView::Device(device.label@, device.kind, device.spec@, device.is_default),
        SourceRowView::Dim("    "@ + flag_text(device.kind) + " "@ + device.spec@),
    ];
    match device.detail {
        Some(detail) => named.push(SourceRowView::Dim("    "@ + detail@)),
        None => named,
    }
}

/// The first `count` devices of a list.
pub open spec fn devices_rows(devices: Seq<DeviceInfo>, count: int) -> Seq<SourceRowView>
    decreases count,
{
    if count <= 0 {
        Seq::empty()
    } else {
        devices_rows(devices, count - 1) + device_rows(devices[count - 1])
    }
}

/// A group: its heading, and its devices or the reason why there are none.
pub open spec fn list_rows(list: DeviceList) -> Seq<SourceRowView> {
    seq![SourceRowView::Heading(heading_text(list.kind))] + match empty_text(list) {
        Some(line) => seq![SourceRowView::Absent(line)],
        None => devices_rows(list.devices@, list.devices@.len() as int),
    }
}

/// The first `count` groups.
pub open spec fn lists_rows(lists: Seq<DeviceList>, count: int) -> Seq<SourceRowView>
    decreases count,
{
    if count <= 0 {
        Seq::empty()
    } else {
        lists_rows(lists, count - 1) + list_rows(lists[count - 1])
    }
}

/// What the radio's host offers.
pub open spec fn offer_rows(offer: Offer) -> Seq<SourceRowView> {
    match offer {
        Offer::Listed(lists) => lists_rows(lists@, lists@.len() as int),
        _ => seq![SourceRowView::Absent(absent_text(offer)->0)],
    }
}

fn push_device(rows: &mut Vec<SourceRow>, device: &DeviceInfo)
    ensures
        source_views(final(rows)@) == source_views(old(rows)@) + device_rows(*device),
{
    rows.push(
        SourceRow::Device {
            label: text(device.label.as_str()),
            kind: device.kind,
            spec: text(device.spec.as_str()),
            is_default: device.is_default,
        },
    );
    let mut named = text("    ");
    push_text(&mut named, device.kind.flag());
    push_text(&mut named, " ");
    push_text(&mut named, device.spec.as_str());
    rows.push(SourceRow::Dim(named));
    if let Some(detail) = &device.detail {
        let mut words = text("    ");
        push_text(&mut words, detail.as_str());
        rows.push(SourceRow::Dim(words));
    }
    assert(source_views(rows@) =~= source_views(old(rows)@) + device_rows(*device));
}

fn push_list(rows: &mut Vec<SourceRow>, list: &DeviceList)
    ensures
        source_views(final(rows)@) == source_views(old(rows)@) + list_rows(*list),
{
    let ghost before = source_views(rows@);
    rows.push(SourceRow::Heading(text(list.kind.heading())));
    let ghost heading = seq![SourceRowView::Heading(heading_text(list.kind))];
    assert(source_views(rows@) =~= before + heading);
    if let Some(line) = empty_line(list) {
        rows.push(SourceRow::Absent(line));
        assert(source_views(rows@) =~= before + list_rows(*list));
        return;
    }
    let mut i: usize = 0;
    assert(source_views(rows@) =~= before + heading + devices_rows(list.devices@, 0));
    while i < list.devices.len()
        invariant
            i <= list.devices@.len(),
            source_views(rows@) == before + heading + devices_rows(list.devices@, i as int),
        decreases list.devices@.len() - i,
    {
        push_device(rows, &list.devices[i]);
        i += 1;
        assert(source_views(rows@) =~= before + heading + devices_rows(list.devices@, i as int));
    }
    assert(source_views(rows@) =~= before + list_rows(*list));
}

impl<A> Console<A> {
    /// What is wired to the radio, as far as that is known.
    pub open spec fn wired(self) -> Seq<Source> {
        match self.caps() {
            Some(caps) => caps.sources@,
            None => Seq::empty(),
        }
    }

    /// What the source workspace says.
    pub open spec fn source_view(self) -> Seq<SourceRowView> {
        seq![SourceRowView::Dim("attached"@)] + (if self.wired().len() == 0 {
            seq![SourceRowView::Absent("nothing attached"@)]
        } else {
            attached_rows(self.wired(), self.wired().len() as int)
        }) + seq![SourceRowView::Refresh("available on the radio's host"@)] + offer_rows(
            self.devices,
        )
    }

    /// The source workspace: what is attached, and what could be. Every device
    /// here was named by the server.
    pub fn source(&self) -> (r: Vec<SourceRow>)
        ensures
            source_views(r@) == self.source_view(),
    {
        let mut rows: Vec<SourceRow> = Vec::new();
        rows.push(SourceRow::Dim(text("attached")));
        let ghost head = seq![SourceRowView::Dim("attached"@)];
        assert(source_views(rows@) =~= head);
        let ghost wired = self.wired();
        if let Some(caps) = self.capabilities() {
            let mut i: usize = 0;
            assert(source_views(rows@) =~= head + attached_rows(wired, 0));
            while i < caps.sources.len()
                invariant
                    i <= caps.sources@.len(),
                    wired == caps.sources@,
                    head.len() == 1,
                    source_views(rows@) == head + attached_rows(wired, i as int),
                decreases caps.sources@.len() - i,
            {
                let ghost prior = source_views(rows@);
                let label = text(caps.sources[i].label.as_str());
                let ghost words = label@;
                rows.push(SourceRow::Attached(label));
                proof {
                    assert(source_views(rows@) =~= prior.push(SourceRowView::Attached(words)));
                    assert(attached_rows(wired, i + 1) =~= attached_rows(wired, i as int).push(
                        SourceRowView::Attached(words),
                    ));
                }
                i += 1;
                assert(source_views(rows@) =~= head + attached_rows(wired, i as int));
            }
        }
        if rows.len() == 1 {
            rows.push(SourceRow::Absent(text("nothing attached")));
        }
        let ghost mid = if wired.len() == 0 {
            seq![SourceRowView::Absent("nothing attached"@)]
        } else {
            attached_rows(wired, wired.len() as int)
        };
        proof {
            assert(source_views(rows@).len() == rows@.len());
            assert(source_views(rows@) =~= head + mid);
        }
        rows.push(SourceRow::Refresh(text("available on the radio's host")));
        let ghost front = head + mid + seq![
            SourceRowView::Refresh("available on the radio's host"@),
        ];
        assert(source_views(rows@) =~= front);
        if let Some(line) = absent_line(&self.devices) {
            rows.push(SourceRow::Absent(text(line)));
            assert(source_views(rows@) =~= front + offer_rows(self.devices));
            return rows;
        }
        let lists = self.devices.lists();
        let mut i: usize = 0;
        assert(source_views(rows@) =~= front + lists_rows(lists@, 0));
        while i < lists.len()
            invariant
                i <= lists@.len(),
                source_views(rows@) == front + lists_rows(lists@, i as int),
            decreases lists@.len() - i,
        {
            push_list(&mut rows, &lists[i]);
            i += 1;
            assert(source_views(rows@) =~= front + lists_rows(lists@, i as int));
        }
        rows
    }
}

/// What a workspace shows.
#[derive(Debug, Clone, Copy, PartialEq, Eq)]
pub enum WorkspaceContent {
    Spectrum,
    Source,
    /// A caption, and under it why there is nothing to show.
    Explained(&'static str, &'static str),
}

impl<A> Console<A> {
    /// The workspace that is open. A spectrum that has a panel of its own is
    /// not drawn a second time.
    pub fn workspace(&self) -> (r: WorkspaceContent)
        ensures
            match self.active {
                Tab::Spectrum => if self.spectrum_has_its_own_panel {
                    r matches WorkspaceContent::Explained(a, b) && a@ == "spectrum"@ && b@
                        == "shown in its own panel — this radio's layout gives it one"@
                } else {
                    r is Spectrum
                },
                Tab::Memory => r matches WorkspaceContent::Explained(a, b) && a@
                    == "memory workspace"@ && b@
                    == "the protocol has no read side for memory contents yet"@,
                Tab::Menu => r matches WorkspaceContent::Explained(a, b) && a@ == "menu workspace"@
                    && b@ == "the protocol has no read side for menu contents yet"@,
                Tab::Source => r is Source,
            },
    {
        match self.active {
            Tab::Spectrum => {
                if self.spectrum_has_its_own_panel {
                    WorkspaceContent::Explained(
                        "spectrum",
                        "shown in its own panel — this radio's layout gives it one",
                    )
                } else {
                    WorkspaceContent::Spectrum
                }
            },
            Tab::Memory => WorkspaceContent::Explained(
                "memory workspace",
                "the protocol has no read side for memory contents yet",
            ),
            Tab::Menu => WorkspaceContent::Explained(
                "menu workspace",
                "the protocol has no read side for menu contents yet",
            ),
            Tab::Source => WorkspaceContent::Source,
        }
    }

    /// What the spectrum panel is headed with, where there is a radio.
    pub fn spectrum_header(&self) -> (r: Option<(&'static str, &'static str)>)
        ensures
            match self.caps() {
                None => r is None,
                Some(caps) => r matches Some((title, note)) && title@ == (if caps.signal
                    == SignalSupport::IfTapPoint {
                    "IF TAP · CN4 → RTL-SDR"@
                } else {
                    "SPECTRUM"@
                }) && note@ == "click to tune · snaps to the radio's finest step"@,
            },
    {
        match self.capabilities() {
            None => None,
            Some(caps) => {
                let title = match caps.signal {
                    SignalSupport::IfTapPoint => "IF TAP · CN4 → RTL-SDR",
                    _ => "SPECTRUM",
                };
                Some((title, "click to tune · snaps to the radio's finest step"))
            },
        }
    }

    /// What is said instead of a spectrum, where none ever arrived.
    pub fn no_stream(&self) -> (r: Option<&'static str>)
        ensures
            match self.latest {
                Some(_) => r is None,
                None => r matches Some(s) && s@ == "NO STREAM"@,
            },
    {
        match self.latest {
            Some(_) => None,
            None => Some("NO STREAM"),
        }
    }

    /// The bar across the console while the radio is keyed, and nothing while
    /// it is not, or is not known to be.
    pub fn tx_banner(&self) -> (r: Option<&'static str>)
        ensures
            if self.readout.tx.shown() == Some(true) {
                r matches Some(s) && s@ == "◆ ◆ ◆   T R A N S M I T T I N G   ◆ ◆ ◆"@
            } else {
                r is None
            },
    {
        match self.readout.tx.value() {
            Some(true) => Some("◆ ◆ ◆   T R A N S M I T T I N G   ◆ ◆ ◆"),
            _ => None,
        }
    }

    /// What is said in place of a console without a radio: the address, and
    /// why there is no connection.
    pub fn not_connected(&self) -> (r: Option<String>)
        ensures
            match self.caps() {
                Some(_) => r is None,
                None => r matches Some(s) && s@ == self.address@ + " — "@ + (match self.link {
                    Link::Down(why) => why@,
                    Link::Up(_) => ""@,
                }),
            },
    {
        if self.capabilities().is_some() {
            return None;
        }
        let mut out = text(self.address.as_str());
        push_text(&mut out, " — ");
        match &self.link {
            Link::Down(why) => push_text(&mut out, why.as_str()),
            Link::Up(_) => push_text(&mut out, ""),
        }
        Some(out)
    }

    /// What the command line says while it is closed.
    pub fn command_hint(&self) -> (r: Option<&'static str>)
        ensures
            if self.command_open {
                r is None
            } else {
                r matches Some(s) && s@ == "press :  for a command"@
            },
    {
        if self.command_open {
            None
        } else {
            Some("press :  for a command")
        }
    }
}

/// The bands a radio is offered, by their place: those of the first `count`
/// that begin in its range.
pub open spec fn offered(caps: Capabilities, count: int) -> Seq<int>
    decreases count,
{
    if count <= 0 {
        Seq::empty()
    } else if caps.rx_range.holds(caps.bands@[count - 1].range.min_hz) {
        offered(caps, count - 1).push(count - 1)
    } else {
        offered(caps, count - 1)
    }
}

/// The bands a radio is offered, by their place. One that the radio does not
/// reach is left out.
pub fn band_bar(caps: &Capabilities) -> (r: Vec<usize>)
    ensures
        r@.len() == offered(*caps, caps.bands@.len() as int).len(),
        forall|i: int|
            0 <= i < r@.len() ==> #[trigger] r@[i] == offered(
                *caps,
                caps.bands@.len() as int,
            )[i] && r@[i] < caps.bands@.len(),
{
    let mut out: Vec<usize> = Vec::new();
    let mut i: usize = 0;
    while i < caps.bands.len()
        invariant
            i <= caps.bands@.len(),
            out@.len() == offered(*caps, i as int).len(),
            forall|j: int|
                0 <= j < out@.len() ==> #[trigger] out@[j] == offered(*caps, i as int)[j]
                    && out@[j] < caps.bands@.len(),
        decreases caps.bands@.len() - i,
    {
        if caps.rx_range.contains(caps.bands[i].range.min_hz) {
            out.push(i);
        }
        i += 1;
    }
    out
}

/// The ground of a panel.
pub fn panel_fill(panel: Panel) -> (r: Role)
    ensures
        r == (match panel {
            Panel::Workspace => Role::Bg,
            Panel::Spectrum => Role::Bg,
            _ => Role::Panel,
        }),
{
    match panel {
        Panel::Workspace => Role::Bg,
        Panel::Spectrum => Role::Bg,
        _ => Role::Panel,
    }
}

/// What a panel that a radio brought with it shows.
#[derive(Debug, Clone, Copy, PartialEq, Eq, Structural)]
pub enum CustomContent {
    /// What its painter draws.
    Painted,
    /// Its name: this console does not have the painter.
    Named,
    /// Nothing, since there is no radio to draw.
    Blank,
}

/// What a panel that a radio brought with it shows. A console without the
/// painter says so rather than leaving the panel blank.
pub fn custom_panel<P>(widgets: &Widgets<P>, name: &str, connected: bool) -> (r: CustomContent)
    requires
        widgets.wf(),
    ensures
        r == (match widgets.found(name@) {
            Some(_) => if connected {
                CustomContent::Painted
            } else {
                CustomContent::Blank
            },
            None => CustomContent::Named,
        }),
{
    if widgets.has(name) {
        if connected {
            CustomContent::Painted
        } else {
            CustomContent::Blank
        }
    } else {
        CustomContent::Named
    }
}

/// A radio is not offered a band it does not reach.
pub proof fn only_bands_in_reach_are_offered(caps: Capabilities, count: int, i: int)
    requires
        0 <= count <= caps.bands@.len(),
        0 <= i < offered(caps, count).len(),
    ensures
        0 <= offered(caps, count)[i] < count,
        caps.rx_range.holds(caps.bands@[offered(caps, count)[i]].range.min_hz),
    decreases count,
{
    if count > 0 && i < offered(caps, count - 1).len() {
        only_bands_in_reach_are_offered(caps, count - 1, i);
    }
}

/// Levels that were never read are all absent, so that none of them passes for
/// a zero.
pub proof fn unread_levels_are_absent(i: int)
    requires
        0 <= i < 14,
    ensures
        level_views(None)[i].1 is None,
{
}

/// The bands that are offered are those that begin in the radio's range: each
/// once, in the order of the list.
pub proof fn every_band_in_reach_is_offered_once(caps: Capabilities, count: int)
    requires
        0 <= count <= caps.bands@.len(),
    ensures
        ({
            let r = offered(caps, count);
            &&& forall|i: int| 0 <= i < r.len() ==> 0 <= #[trigger] r[i] < count
            &&& forall|i: int, j: int| 0 <= i < j < r.len() ==> #[trigger] r[i] < #[trigger] r[j]
            &&& forall|k: int|
                0 <= k < count ==> (r.contains(k) <==> caps.rx_range.min_hz
                    <= (#[trigger] caps.bands@[k]).range.min_hz <= caps.rx_range.max_hz)
        }),
    decreases count,
{
    if count > 0 {
        let before = offered(caps, count - 1);
        let r = offered(caps, count);
        every_band_in_reach_is_offered_once(caps, count - 1);
        assert forall|k: int| 0 <= k < count implies (r.contains(k) <==> caps.rx_range.min_hz
            <= (#[trigger] caps.bands@[k]).range.min_hz <= caps.rx_range.max_hz) by {
            if before.contains(k) {
                let i = choose|i: int| 0 <= i < before.len() && before[i] == k;
                assert(r[i] == k);
            }
            if r.contains(k) {
                let i = choose|i: int| 0 <= i < r.len() && r[i] == k;
                if i < before.len() {
                    assert(before[i] == k);
                }
            }
            if r.len() > before.len() && k == count - 1 {
                assert(r[before.len() as int] == k);
            }
        }
    }
}

/// The strip shows the radio as it is: its model, or in the colour of a warning
/// that there is none; the address behind a mark for the link; the dial's
/// digits, in the colour of a request while one is open.
pub proof fn the_strip_shows_the_radio<A>(console: Console<A>, s_unit: Seq<char>, now: u64)
    ensures
        ({
            let fields = console.strip_view(s_unit, now);
            &&& fields.len() == 7
            &&& (console.caps() matches Some(caps) ==> fields[0].1 == caps.model@ && fields[0].2
                == Role::Accent)
            &&& fields[0].2 == Role::Warning <==> console.caps() is None
            &&& fields[1].1.skip(fields[1].1.len() - console.address@.len()) == console.address@
            &&& fields[1].2 == Role::Signal <==> console.link is Up
            &&& fields[1].2 == Role::Absent <==> console.link is Down
            &&& (console.readout.vfo_a_hz.shown() matches Some(hz) ==> fields[2].1 == hz_digits(hz)
                && fields[2].2 == (if console.readout.vfo_a_hz is Pending {
                Role::Accent
            } else {
                Role::Text
            }))
            &&& (console.readout.vfo_a_hz.shown() is None ==> no_digits(fields[2].1) && fields[2].2
                == Role::Absent)
        }),
{
    reveal_strlit("◆ ");
    reveal_strlit("◇ ");
    reveal_strlit("—.———.———");
    let fields = console.strip_view(s_unit, now);
    assert(fields[1].1.skip(fields[1].1.len() - console.address@.len()) =~= console.address@);
}

/// The strip's switches: on, off and not known read differently, and a keyed
/// radio has the colour of a warning.
pub proof fn the_strip_tells_on_from_off<A>(console: Console<A>, s_unit: Seq<char>, now: u64)
    ensures
        ({
            let split = console.strip_view(s_unit, now)[3];
            let state = console.strip_view(s_unit, now)[5];
            &&& split.1 == "ON"@ <==> console.readout.split.shown() == Some(true)
            &&& split.1 == "OFF"@ <==> console.readout.split.shown() == Some(false)
            &&& split.2 == Role::Absent <==> console.readout.split.shown() is None
            &&& state.1 == "TX"@ <==> console.readout.tx.shown() == Some(true)
            &&& state.1 == "RX"@ <==> console.readout.tx.shown() == Some(false)
            &&& state.2 == Role::Warning <==> console.readout.tx.shown() == Some(true)
            &&& state.2 == Role::Signal <==> console.readout.tx.shown() == Some(false)
            &&& split.2 == Role::Accent <==> console.readout.split.shown() == Some(true)
            &&& split.2 == Role::Dim <==> console.readout.split.shown() == Some(false)
            &&& state.2 == Role::Absent <==> console.readout.tx.shown() is None
        }),
{
    reveal_strlit("ON");
    reveal_strlit("OFF");
    reveal_strlit("TX");
    reveal_strlit("RX");
    reveal_strlit("—");
    assert("ON"@.len() == 2 && "OFF"@.len() == 3 && "—"@.len() == 1);
    assert("TX"@[0] != "RX"@[0]);
    assert("TX"@.len() == 2 && "RX"@.len() == 2);
}

/// The strip's signal: a tap is a live signal exactly while frames come in; a
/// radio without a signal, or no radio, has none.
pub proof fn the_strip_tells_a_live_signal<A>(console: Console<A>, s_unit: Seq<char>, now: u64)
    ensures
        ({
            let signal = console.strip_view(s_unit, now)[6];
            &&& signal.2 == Role::Signal <==> (console.caps() matches Some(caps) && (caps.signal
                == SignalSupport::Scope || caps.signal == SignalSupport::IfTapPoint && live(
                console.last_spectrum_at,
                now,
            )))
            &&& signal.2 == Role::Signal || signal.2 == Role::Absent
        }),
{
}

/// The S meter is read in the range that the radio declares for it, and not at
/// all without a radio, a range or a sample.
pub proof fn the_s_meter_is_read_in_its_range<A>(console: Console<A>, s_unit: Seq<char>)
    ensures
        console.s_meter() is Some <==> console.caps() is Some
            && console.readout.smeter_raw.shown() is Some && s_range_from(
            console.caps()->0.meters@,
            0,
        ) is Some,
        console.s_meter() matches Some(r) ==> Some(r.raw) == console.readout.smeter_raw.shown()
            && s_range_from(console.caps()->0.meters@, 0) == Some((r.min, r.max)),
        console.s_meter() matches Some(r) ==> console.s_field(s_unit).1 == reading_text(
            Some((s_unit, r)),
        ),
        console.s_field(s_unit).2 == (if console.s_meter() is Some {
            Role::Text
        } else {
            Role::Absent
        }),
{
}

/// The rows of the levels, by their names: each shows its own level, a number
/// that reads back or whether something is on.
pub proof fn a_level_row_shows_its_level(l: RadioLevels, i: int)
    requires
        0 <= i < 14,
    ensures
        level_views(Some(l)).len() == 14,
        level_views(Some(l))[i].1 is Some,
        ({
            let name = level_views(Some(l))[i].0;
            let value = level_views(Some(l))[i].1->0;
            &&& name == "ANT"@ ==> read_number(value) == l.antenna
            &&& name == "AF"@ ==> read_number(value) == l.af_gain
            &&& name == "RF"@ ==> read_number(value) == l.rf_gain
            &&& name == "SQL"@ ==> read_number(value) == l.squelch
            &&& name == "MIC"@ ==> read_number(value) == l.mic_gain
            &&& name == "PWR"@ ==> read_number(value) == l.power_pct && value.last() == '%'
            &&& name == "AGC"@ ==> read_number(value) == l.agc
            &&& name == "NR"@ ==> read_number(value) == l.noise_reduction
            &&& name == "NB"@ ==> (value == "on"@ <==> l.noise_blanker)
            &&& name == "PRE"@ ==> (value == "on"@ <==> l.preamp)
            &&& name == "ATT"@ ==> (value == "on"@ <==> l.attenuator)
            &&& name == "PROC"@ ==> (value == "on"@ <==> l.speech_processor)
            &&& name == "VOX"@ ==> (value == "on"@ <==> l.vox)
            &&& name == "LOCK"@ ==> (value == "on"@ <==> l.freq_lock)
        }),
{
    reveal_strlit("ANT");
    reveal_strlit("AF");
    reveal_strlit("RF");
    reveal_strlit("SQL");
    reveal_strlit("MIC");
    reveal_strlit("PWR");
    reveal_strlit("AGC");
    reveal_strlit("NB");
    reveal_strlit("NR");
    reveal_strlit("PRE");
    reveal_strlit("ATT");
    reveal_strlit("PROC");
    reveal_strlit("VOX");
    reveal_strlit("LOCK");
    reveal_strlit("%");
    reveal_strlit("on");
    reveal_strlit("off");
    assert("on"@.len() != "off"@.len());
    let names = level_names();
    assert forall|a: int, b: int| 0 <= a < b < 14 implies #[trigger] names[a] != #[trigger] names[b] by {
        assert(names[a].len() != names[b].len() || names[a][0] != names[b][0] || names[a][1]
            != names[b][1]);
    }
    assert(level_views(Some(l))[i].0 == names[i]);
    a_written_number_reads_back(l.antenna as nat);
    a_written_number_reads_back(l.af_gain as nat);
    a_written_number_reads_back(l.rf_gain as nat);
    a_written_number_reads_back(l.squelch as nat);
    a_written_number_reads_back(l.mic_gain as nat);
    a_written_number_reads_back(l.power_pct as nat);
    a_written_number_reads_back(l.agc as nat);
    a_written_number_reads_back(l.noise_reduction as nat);
    assert(no_digits("ANT"@));
    assert(no_digits("%"@));
    number_behind("ANT"@, decimal(l.antenna as nat));
    number_before(decimal(l.power_pct as nat), "%"@);
}

/// A width reads as its number of hertz, and a shift as its own with its sign
/// in front, filled up from the left so that its unit stays in place.
pub proof fn widths_and_shifts_read_back(hz: u32, shift: int)
    ensures
        read_number(width_text(hz)) == hz,
        read_number(shift_text(shift)) == (if shift < 0 {
            -shift
        } else {
            shift
        }),
        ({
            let words = shift_text(shift);
            let number = plus_decimal(shift);
            &&& words.len() == (if number.len() < 5 {
                8
            } else {
                number.len() + 3
            })
            &&& words.subrange(words.len() - 3 - number.len(), words.len() - 3) == number
            &&& number[0] == (if shift < 0 {
                '-'
            } else {
                '+'
            })
        }),
{
    reveal_strlit(" Hz");
    assert(no_digits(" Hz"@));
    a_written_number_reads_back(hz as nat);
    number_before(decimal(hz as nat), " Hz"@);
    a_signed_number_reads_back(shift);
    let number = plus_decimal(shift);
    let pad = repeated(' ', 5 - number.len());
    assert(no_digits(pad));
    number_behind(pad, number);
    number_before(pad + number, " Hz"@);
    let words = shift_text(shift);
    assert(words.subrange(words.len() - 3 - number.len(), words.len() - 3) =~= number);
}

/// A control of the quick bar shows what the radio is set to: the widths to
/// choose from with the current one selected, the shift from the middle where
/// it was never read, split as on only where it is known to be.
pub proof fn a_control_shows_its_setting<A>(
    shown: QuickShown,
    control: Control,
    caps: Capabilities,
    console: Console<A>,
    i: int,
)
    requires
        shows_control(shown, control, caps, console),
    ensures
        control matches Control::FilterWidth { widths_hz } ==> (
        shown matches QuickShown::Widths { value, choices } && choices@.len() == widths_hz@.len()
            && (0 <= i < choices@.len() ==> choices@[i].hz == widths_hz@[i] && read_number(
            choices@[i].label@,
        ) == widths_hz@[i] && (choices@[i].selected
            <==> console.readout.filter_width_hz.shown() == Some(widths_hz@[i]))) && (
        console.readout.filter_width_hz.shown() matches Some(hz) ==> read_number(value@) == hz)),
        control matches Control::IfShift { limit_hz } ==> (
        shown matches QuickShown::Shift { value, limit_hz: limit } && limit == limit_hz && (
        console.readout.if_shift_hz.shown() matches Some(hz) ==> value@ == shift_text(hz as int))
            && (console.readout.if_shift_hz.shown() is None ==> read_number(value@) == 0)),
        control is Split ==> (shown matches QuickShown::Button { value, role } && (role
            == Role::Accent <==> console.readout.split.shown() == Some(true))),
        control is Mode ==> (shown matches QuickShown::Button { value, role } && ({
            let name = mode_text(Some(caps), console.readout.mode.shown());
            value@.len() >= 8 && value@.subrange(0, name.len() as int) == name
        })),
{
    if let Control::FilterWidth { widths_hz } = control {
        if let Some(hz) = console.readout.filter_width_hz.shown() {
            widths_and_shifts_read_back(hz, 0);
        }
        if 0 <= i < widths_hz@.len() {
            widths_and_shifts_read_back(widths_hz@[i], 0);
        }
    }
    if control is IfShift {
        widths_and_shifts_read_back(0, 0);
    }
    if control is Mode {
        let name = mode_text(Some(caps), console.readout.mode.shown());
        padding_keeps_the_text(name, 8);
        assert(pad_end(name, 8).subrange(0, name.len() as int) =~= pad_end(name, 8).take(
            name.len() as int,
        ));
    }
}

/// A meter of the rail keeps its name; the S meter shows its raw value, and
/// every other meter, or one that was not read, is absent.
pub proof fn a_meter_row_shows_its_meter(row: MeterRow, meter: Meter, s: Option<MeterReading>)
    requires
        shows_meter(row, meter, s),
    ensures
        row.name@ == meter.name@,
        row.role == Role::Absent <==> !meter.is_s || s is None,
        meter.is_s ==> (s matches Some(r) ==> read_number(row.value@) == r.raw && row.reading
            == Some(r)),
        !meter.is_s ==> row.reading is None,
{
    if let Some(r) = s {
        a_written_number_reads_back(r.raw as nat);
    }
}

/// Every device of a list can be picked: it has a row with its name, its kind
/// and what names it to the server, in the order of the list.
pub proof fn every_device_can_be_picked(devices: Seq<DeviceInfo>, count: int, i: int)
    requires
        0 <= i < count <= devices.len(),
    ensures
        ({
            let k = devices_rows(devices, i).len() as int;
            let rows = devices_rows(devices, count);
            &&& k < rows.len()
            &&& rows[k] == SourceRowView::Device(
                devices[i].label@,
                devices[i].kind,
                devices[i].spec@,
                devices[i].is_default,
            )
        }),
    decreases count,
{
    if i < count - 1 {
        every_device_can_be_picked(devices, count - 1, i);
    }
}

/// What is shown of a device ends with its name for itself, behind the flag of
/// its kind, and its detail where it has one.
pub proof fn a_device_row_tells_the_flag(device: DeviceInfo)
    ensures
        ({
            let rows = device_rows(device);
            &&& rows.len() == (if device.detail is Some {
                3nat
            } else {
                2nat
            })
            &&& rows[1] matches SourceRowView::Dim(words) && words.len() >= device.spec@.len()
                && words.skip(words.len() - device.spec@.len()) == device.spec@ && words.subrange(
                4,
                4 + flag_text(device.kind).len() as int,
            ) == flag_text(device.kind)
            &&& device.detail matches Some(detail) ==> (rows[2] matches SourceRowView::Dim(words)
                && words.skip(4) == detail@)
        }),
{
    reveal_strlit("    ");
    reveal_strlit(" ");
    let words = "    "@ + flag_text(device.kind) + " "@ + device.spec@;
    assert(words.skip(words.len() - device.spec@.len()) =~= device.spec@);
    assert(words.subrange(4, 4 + flag_text(device.kind).len() as int) =~= flag_text(device.kind));
    if let Some(detail) = device.detail {
        assert(("    "@ + detail@).skip(4) =~= detail@);
    }
}

/// The groups of devices follow each other in the order of the lists, each
/// under the heading of its kind.
pub proof fn the_groups_follow_each_other(lists: Seq<DeviceList>, count: int, i: int)
    requires
        0 <= i < count <= lists.len(),
    ensures
        ({
            let k = lists_rows(lists, i).len() as int;
            let rows = lists_rows(lists, count);
            let own = list_rows(lists[i]);
            &&& own.len() > 0
            &&& own[0] == SourceRowView::Heading(heading_text(lists[i].kind))
            &&& k + own.len() <= rows.len()
            &&& rows.subrange(k, k + own.len()) == own
        }),
    decreases count,
{
    let k = lists_rows(lists, i).len() as int;
    let rows = lists_rows(lists, count);
    let own = list_rows(lists[i]);
    if i < count - 1 {
        the_groups_follow_each_other(lists, count - 1, i);
        let less = lists_rows(lists, count - 1);
        assert(rows.subrange(k, k + own.len()) =~= less.subrange(k, k + own.len()));
    } else {
        assert(rows.subrange(k, k + own.len()) =~= own);
    }
}

/// The source workspace lists what is wired to the radio, every source by its
/// label and in order, or says that nothing is; then what its host offers.
pub proof fn every_source_is_listed<A>(console: Console<A>, i: int)
    ensures
        ({
            let rows = console.source_view();
            let wired = console.wired();
            let n = if wired.len() == 0 {
                1int
            } else {
                wired.len() as int
            };
            &&& rows.len() >= n + 2
            &&& wired.len() == 0 ==> rows[1] is Absent
            &&& 0 <= i < wired.len() ==> rows[1 + i] == SourceRowView::Attached(wired[i].label@)
            &&& rows[n + 1] is Refresh
            &&& rows.skip(n + 2) == offer_rows(console.devices)
        }),
{
    let rows = console.source_view();
    let wired = console.wired();
    let n = if wired.len() == 0 {
        1int
    } else {
        wired.len() as int
    };
    assert(rows.skip(n + 2) =~= offer_rows(console.devices));
}

} // verus!
