//! What the radio reports, what the radio can do, and where the operator is.

use crate::tui::af::AudioState;
use crate::tui::devices::Selection;
use crate::tui::meter::MeterReading;
use crate::tui::spectrum::FrameAxis;
use crate::ui::device::DeviceList;
use vstd::prelude::*;
use vstd::string::*;

verus! {

/// A working surface.
#[derive(Debug, Clone, Copy, PartialEq, Eq, Structural)]
pub enum Tab {
    Spectrum,
    Memory,
    Menu,
    Source,
}

/// A tab this radio has, and its label.
#[derive(Debug, PartialEq, Eq)]
pub struct TabEntry {
    pub tab: Tab,
    pub label: String,
}

/// What the radio last reported.
#[derive(Debug, PartialEq, Eq)]
pub struct RadioDisplay {
    /// First contact has not completed yet.
    pub initializing: bool,
    pub connected: bool,
    pub tx: bool,
    pub vfo_a_hz: u64,
    pub split: bool,
    pub mode: String,
    /// The VFO that receives: zero for A.
    pub rx_vfo: u8,
    pub fine_step: bool,
    pub filter_width_hz: Option<u32>,
    pub if_shift_hz: Option<i32>,
    pub notch: Option<bool>,
    pub rit: bool,
    pub xit: bool,
    pub rit_xit_offset_hz: i32,
    pub smeter: u16,
    pub memory_channel: u16,
    pub memory_mode: bool,
    /// Whether the levels below were ever read. Where they were not, their
    /// values mean nothing.
    pub levels_known: bool,
    pub antenna: u16,
    pub af_gain: u16,
    pub rf_gain: u16,
    pub squelch: u16,
    pub mic_gain: u16,
    pub power_pct: u16,
    pub agc: u16,
    pub noise_blanker: bool,
    pub noise_reduction: u16,
    pub preamp: bool,
    pub attenuator: bool,
    pub speech_processor: bool,
    pub vox: bool,
    pub freq_lock: bool,
    /// What went wrong in the last poll, most important first.
    pub poll_errors: Vec<String>,
}

impl Default for RadioDisplay {
    /// Nothing has been read: the values say nothing of a radio, and none of the
    /// settings is to be shown.
    fn default() -> (r: Self)
        ensures
            r.initializing,
            !r.connected,
            !r.tx,
            r.vfo_a_hz == 0,
            !r.split,
            r.mode@.len() == 0,
            r.rx_vfo == 0,
            !r.fine_step,
            r.filter_width_hz is None,
            r.if_shift_hz is None,
            r.notch is None,
            !r.rit,
            !r.xit,
            r.rit_xit_offset_hz == 0,
            r.smeter == 0,
            r.memory_channel == 0,
            !r.memory_mode,
            !r.levels_known,
            r.antenna == 0,
            r.af_gain == 200,
            r.rf_gain == 0,
            r.squelch == 0,
            r.mic_gain == 0,
            r.power_pct == 0,
            r.agc == 0,
            !r.noise_blanker,
            r.noise_reduction == 0,
            !r.preamp,
            !r.attenuator,
            !r.speech_processor,
            !r.vox,
            !r.freq_lock,
            r.poll_errors@.len() == 0,
    {
        RadioDisplay {
            initializing: true,
            connected: false,
            tx: false,
            vfo_a_hz: 0,
            split: false,
            mode: String::new(),
            rx_vfo: 0,
            fine_step: false,
            filter_width_hz: None,
            if_shift_hz: None,
            notch: None,
            rit: false,
            xit: false,
            rit_xit_offset_hz: 0,
            smeter: 0,
            memory_channel: 0,
            memory_mode: false,
            levels_known: false,
            antenna: 0,
            af_gain: 200,
            rf_gain: 0,
            squelch: 0,
            mic_gain: 0,
            power_pct: 0,
            agc: 0,
            noise_blanker: false,
            noise_reduction: 0,
            preamp: false,
            attenuator: false,
            speech_processor: false,
            vox: false,
            freq_lock: false,
            poll_errors: Vec::new(),
        }
    }
}

/// A range of frequencies, both ends in it.
#[derive(Debug, Clone, Copy, PartialEq, Eq, Structural)]
pub struct FrequencyRange {
    pub min_hz: u64,
    pub max_hz: u64,
}

impl FrequencyRange {
    pub open spec fn holds(self, hz: u64) -> bool {
        self.min_hz <= hz <= self.max_hz
    }

    pub fn contains(&self, hz: u64) -> (r: bool)
        ensures
            r == self.holds(hz),
    {
        self.min_hz <= hz && hz <= self.max_hz
    }
}

/// An amateur band.
#[derive(Debug, PartialEq, Eq)]
pub struct Band {
    pub label: String,
    pub range: FrequencyRange,
}

/// What the radio can do.
#[derive(Debug, PartialEq, Eq)]
pub struct Capabilities {
    pub rx_range: FrequencyRange,
    /// Every band there is. The radio reaches those that begin in its range.
    pub bands: Vec<Band>,
    /// The radio's modes, in its own words.
    pub modes: Vec<String>,
    /// The range of the S meter's raw values, where the radio has one.
    pub s_meter: Option<(u16, u16)>,
}

/// The S meter's reading, in the range this radio declares.
pub open spec fn s_reading(caps: Capabilities, raw: u16) -> Option<MeterReading> {
    match caps.s_meter {
        Some((min, max)) => Some(MeterReading { raw, min, max }),
        None => None,
    }
}

/// The S meter's reading, in the range this radio declares.
pub fn read_s_meter(caps: &Capabilities, raw: u16) -> (r: Option<MeterReading>)
    ensures
        r == s_reading(*caps, raw),
{
    match caps.s_meter {
        Some((min, max)) => Some(MeterReading { raw, min, max }),
        None => None,
    }
}

/// A spectrum frame, as far as it is described: its centre is also given in
/// megahertz, written out to three decimals.
#[derive(Debug, PartialEq, Eq)]
pub struct FrameInfo {
    pub axis: FrameAxis,
    pub center_mhz: String,
}

/// What the console itself owns: where the operator is and what was typed. A
/// poll of the radio never overwrites any of it.
#[derive(Debug, PartialEq, Eq)]
pub struct ConsoleView {
    /// The tabs this radio has.
    pub tabs: Vec<TabEntry>,
    /// The one that is open.
    pub tab: Tab,
    /// What has been typed, while the command line is open.
    pub command: Option<String>,
    /// A frequency asked for and not yet confirmed.
    pub pending_vfo_hz: Option<u64>,
    /// How many requests are in flight.
    pub cat_pending: usize,
    /// Newest first. Empty until a source is attached.
    pub spectrum: Vec<FrameInfo>,
    pub audio: AudioState,
    /// The audio stream in words, where one is there.
    pub af_scope: Option<String>,
    /// The last thing the console did or failed to do.
    pub message: Option<String>,
    pub devices: Vec<DeviceList>,
    /// Where the picker's cursor is.
    pub device_selection: Selection,
}

impl ConsoleView {
    /// A view with these tabs and that one open, and nothing else in it: no
    /// command line, no frames, and an audio path without a stream.
    pub open spec fn fresh(self, tabs: Seq<TabEntry>, tab: Tab) -> bool {
        &&& self.tabs@ == tabs
        &&& self.tab == tab
        &&& self.command is None
        &&& self.pending_vfo_hz is None
        &&& self.cat_pending == 0
        &&& self.spectrum@.len() == 0
        &&& self.audio == AudioState::Configured
        &&& self.af_scope is None
        &&& self.message is None
        &&& self.devices@.len() == 0
        &&& self.device_selection.index == 0
    }

    fn with_tabs(tabs: Vec<TabEntry>, tab: Tab) -> (r: ConsoleView)
        ensures
            r.fresh(tabs@, tab),
    {
        ConsoleView {
            tabs,
            tab,
            command: None,
            pending_vfo_hz: None,
            cat_pending: 0,
            spectrum: Vec::new(),
            audio: AudioState::Configured,
            af_scope: None,
            message: None,
            devices: Vec::new(),
            device_selection: Selection::new(),
        }
    }

    /// The console of a radio with these tabs, the first one open. A radio
    /// with none opens on the tab that says so.
    pub fn for_capabilities(tabs: Vec<TabEntry>) -> (r: ConsoleView)
        ensures
            r.fresh(
                tabs@,
                if tabs@.len() > 0 {
                    tabs@[0].tab
                } else {
                    Tab::Source
                },
            ),
    {
        let tab = if tabs.len() > 0 {
            tabs[0].tab
        } else {
            Tab::Source
        };
        ConsoleView::with_tabs(tabs, tab)
    }
}

impl Default for ConsoleView {
    fn default() -> (r: Self)
        ensures
            r.fresh(Seq::empty(), Tab::Spectrum),
    {
        ConsoleView::with_tabs(Vec::new(), Tab::Spectrum)
    }
}

/// A range holds its ends and what lies between them, and nothing else.
pub proof fn a_range_holds_its_ends(range: FrequencyRange, hz: u64)
    ensures
        range.holds(hz) <==> !(hz < range.min_hz) && !(hz > range.max_hz),
        range.min_hz <= range.max_hz ==> range.holds(range.min_hz) && range.holds(range.max_hz),
{
}

/// A console that was just made has its tabs and nothing else: no line, no
/// request, no frame, no device, no message, and a cursor on the first row.
pub proof fn a_fresh_console_has_nothing_but_its_tabs(
    view: ConsoleView,
    tabs: Seq<TabEntry>,
    tab: Tab,
)
    requires
        view.fresh(tabs, tab),
    ensures
        view.tabs@ == tabs,
        view.tab == tab,
        view.command is None && view.pending_vfo_hz is None && view.message is None
            && view.af_scope is None,
        view.cat_pending == 0,
        view.spectrum@.len() == 0 && view.devices@.len() == 0,
        view.audio == AudioState::Configured,
        view.device_selection.index == 0,
{
}

/// The S meter is read as the radio reports it, in the range it declares.
pub proof fn the_s_meter_has_the_declared_range(caps: Capabilities, raw: u16)
    ensures
        s_reading(caps, raw) is Some <==> caps.s_meter is Some,
        caps.s_meter matches Some(range) ==> s_reading(caps, raw)->0.raw == raw && s_reading(
            caps,
            raw,
        )->0.min == range.0 && s_reading(caps, raw)->0.max == range.1,
{
}

} // verus!
