//! What the operator does, and what the console asks of the radio for it.
//!
//! A function that returns a command has noted what it asks for; the caller
//! sends it and says with [`Console::sent`] how that went.

use crate::gui::console::first_tab;
use crate::gui::console::Console;
use crate::gui::console::Link;
use crate::gui::console::STATE_INTERVAL_MS;
use crate::gui::devices::Offer;
use crate::gui::model::Capabilities;
use crate::gui::model::Frame;
use crate::gui::readout::requested_by;
use crate::gui::readout::Command;
use crate::gui::readout::Field;
use crate::gui::readout::ModeId;
use crate::gui::readout::RadioLevels;
use crate::gui::readout::Readout;
use crate::gui::waterfall::WaterfallImage;
use crate::text::decimal;
use crate::text::push_decimal;
use crate::text::push_text;
use crate::text::text;
use crate::tui::console::keys::tab_for;
use crate::tui::console::model::Tab;
use crate::tui::console::model::TabEntry;
use crate::ui::device::DeviceKind;
use crate::ui::format::format_hz;
use crate::ui::format::hz_text;
use vstd::prelude::*;
use vstd::string::*;

verus! {

/// What a line the operator typed asks for.
#[derive(Debug, PartialEq, Eq)]
pub enum LineAction {
    Quit,
    SelectTab(usize),
    Radio(Command),
}

/// What is to be done for it.
#[derive(Debug, PartialEq, Eq)]
pub enum LineStep {
    Quit,
    Send(Command),
    Nothing,
}

/// The tab the pressed digits lead to: that of the last one, up to `count`,
/// that has a tab.
pub open spec fn digit_tab(tabs: Seq<TabEntry>, pressed: Seq<bool>, count: int) -> Option<Tab>
    decreases count,
{
    if count <= 0 {
        None
    } else if pressed[count - 1] && tab_for(tabs, count) is Some {
        tab_for(tabs, count)
    } else {
        digit_tab(tabs, pressed, count - 1)
    }
}

/// A shift moved by a step, held within the radio's limit.
pub open spec fn shifted(current: Option<i32>, delta: i32, limit_hz: i32) -> int {
    let hz = (match current {
        Some(v) => v as int,
        None => 0,
    }) + delta;
    if hz < -limit_hz {
        -limit_hz
    } else if hz > limit_hz {
        limit_hz as int
    } else {
        hz
    }
}

/// The rows of an image after frames were pushed, one after another.
pub open spec fn stacked(image: WaterfallImage, frames: Seq<Frame>, count: int) -> Seq<Seq<u8>>
    decreases count,
{
    if count <= 0 {
        image.shown()
    } else {
        let frame = frames[count - 1];
        seq![
            image.drawn(frame.row@),
        ] + stacked(image, frames, count - 1).drop_last()
    }
}

/// The head of an image after that many rows were pushed.
pub open spec fn stacked_head(image: WaterfallImage, count: int) -> int {
    if count == 0 {
        image.head as int
    } else if image.rows_filled == 0 {
        (1 - count) % (image.height as int)
    } else {
        (image.head - count) % (image.height as int)
    }
}

proof fn one_row_up(x: int, height: int)
    requires
        height > 0,
    ensures
        (x % height + height - 1) % height == (x - 1) % height,
{
    let r = x % height;
    vstd::arithmetic::div_mod::lemma_fundamental_div_mod(x, height);
    vstd::arithmetic::div_mod::lemma_mod_multiples_vanish(x / height, r - 1, height);
    vstd::arithmetic::div_mod::lemma_mod_add_multiples_vanish(r - 1, height);
}

/// The settings a still shows.
pub open spec fn bench_levels() -> RadioLevels {
    RadioLevels {
        af_gain: 33,
        rf_gain: 255,
        squelch: 0,
        mic_gain: 50,
        power_pct: 100,
        agc: 4,
        noise_reduction: 0,
        antenna: 1,
        noise_blanker: false,
        preamp: true,
        attenuator: false,
        speech_processor: false,
        vox: false,
        freq_lock: false,
    }
}

impl<A> Console<A> {
    /// Whether the console is to ask the radio's host for its devices: once
    /// per connection, and not while the question is open.
    pub open spec fn wants_devices(self) -> bool {
        !self.devices_pending && self.devices is Unasked && self.link is Up
    }

    /// Whether the console is to ask the radio's host for its devices.
    pub fn ask_for_devices(&self) -> (r: bool)
        ensures
            r == self.wants_devices(),
    {
        let unasked: bool = match &self.devices {
            Offer::Unasked => true,
            _ => false,
        };
        let up: bool = match &self.link {
            Link::Up(_) => true,
            Link::Down(_) => false,
        };
        !self.devices_pending && unasked && up
    }

    /// The question for devices was sent, or could not be.
    pub fn devices_asked(&mut self, sent: bool)
        requires
            old(self).wf(),
        ensures
            final(self).wf(),
            *final(self) == (Console {
                devices_pending: old(self).devices_pending || sent,
                ..*old(self)
            }),
    {
        if sent {
            self.devices_pending = true;
        }
    }

    /// Forget the host's answer, for a device plugged in since. Says whether
    /// the question can be asked again now.
    pub fn refresh_devices(&mut self) -> (r: bool)
        requires
            old(self).wf(),
        ensures
            final(self).wf(),
            *final(self) == (Console {
                devices: Offer::Unasked,
                devices_pending: false,
                ..*old(self)
            }),
            r == (old(self).link is Up),
    {
        self.devices = Offer::Unasked;
        self.devices_pending = false;
        self.ask_for_devices()
    }

    /// Whether it is time to ask the radio for its state, at a rate a human
    /// can read.
    pub fn poll_state(&mut self, now: u64) -> (r: bool)
        requires
            old(self).wf(),
        ensures
            final(self).wf(),
            r == (now >= old(self).last_state_request + STATE_INTERVAL_MS),
            *final(self) == (if r {
                Console { last_state_request: now, ..*old(self) }
            } else {
                *old(self)
            }),
    {
        if now < self.last_state_request || now - self.last_state_request < STATE_INTERVAL_MS {
            return false;
        }
        self.last_state_request = now;
        true
    }

    /// A command was handed to the link. `ok` says whether the link took it;
    /// it means nothing where there is no link.
    pub fn sent(&mut self, ok: bool)
        requires
            old(self).wf(),
        ensures
            final(self).wf(),
            match old(self).link {
                Link::Up(_) => if ok {
                    *final(self) == *old(self)
                } else {
                    &&& *final(self) == (Console {
                        status: final(self).status,
                        link: final(self).link,
                        ..*old(self)
                    })
                    &&& final(self).status@ == "connection lost"@
                    &&& final(self).link matches Link::Down(why) && why@ == "send failed"@
                },
                Link::Down(_) => {
                    &&& *final(self) == (Console { status: final(self).status, ..*old(self) })
                    &&& final(self).status@ == "not connected"@
                },
            },
    {
        let up: bool = match &self.link {
            Link::Up(_) => true,
            Link::Down(_) => false,
        };
        if !up {
            self.status = text("not connected");
        } else if !ok {
            self.status = text("connection lost");
            self.link = Link::Down(text("send failed"));
        }
    }

    /// The operator ended the command line. It closes and empties; the line is
    /// handed back to be parsed, unless there is no radio it could be for.
    pub fn enter(&mut self) -> (r: Option<String>)
        requires
            old(self).wf(),
        ensures
            final(self).wf(),
            *final(self) == (Console {
                command_open: false,
                command_text: final(self).command_text,
                status: final(self).status,
                ..*old(self)
            }),
            final(self).command_text@.len() == 0,
            match old(self).caps() {
                Some(_) => r == Some(old(self).command_text) && final(self).status == old(
                    self,
                ).status,
                None => r is None && final(self).status@ == "not connected"@,
            },
    {
        let mut line = String::new();
        std::mem::swap(&mut line, &mut self.command_text);
        self.command_open = false;
        if self.capabilities().is_none() {
            self.status = text("not connected");
            return None;
        }
        Some(line)
    }

    /// The operator left the command line.
    pub fn escape(&mut self)
        requires
            old(self).wf(),
        ensures
            final(self).wf(),
            *final(self) == (Console {
                command_open: false,
                command_text: final(self).command_text,
                ..*old(self)
            }),
            final(self).command_text@.len() == 0,
    {
        self.command_open = false;
        self.command_text = String::new();
    }

    /// A line was parsed, or was refused with a reason.
    pub fn run_line(&mut self, parsed: Result<LineAction, String>) -> (r: LineStep)
        requires
            old(self).wf(),
        ensures
            final(self).wf(),
            match parsed {
                Ok(LineAction::Quit) => r is Quit && *final(self) == *old(self),
                Ok(LineAction::SelectTab(n)) => r is Nothing && match tab_for(
                    old(self).tabs@,
                    n as int,
                ) {
                    Some(tab) => *final(self) == (Console { active: tab, ..*old(self) }),
                    None => *final(self) == (Console { status: final(self).status, ..*old(self) })
                        && final(self).status@ == "no workspace "@ + decimal(n as nat),
                },
                Ok(LineAction::Radio(command)) => r == LineStep::Send(command) && *final(self) == (
                Console { readout: requested_by(old(self).readout, command), ..*old(self) }),
                Err(why) => r is Nothing && *final(self) == (Console { status: why, ..*old(self) }),
            },
    {
        match parsed {
            Ok(LineAction::Quit) => LineStep::Quit,
            Ok(LineAction::SelectTab(n)) => {
                if n >= 1 && n <= self.tabs.len() {
                    self.active = self.tabs[n - 1].tab;
                } else {
                    let mut status = text("no workspace ");
                    push_decimal(&mut status, n as u64);
                    self.status = status;
                }
                LineStep::Nothing
            },
            Ok(LineAction::Radio(command)) => {
                self.readout.note_request(&command);
                LineStep::Send(command)
            },
            Err(why) => {
                self.status = why;
                LineStep::Nothing
            },
        }
    }

    /// The keys of a frame: a colon opens the command line; a digit opens its
    /// workspace, unless the line is open.
    pub fn frame_input(&mut self, colon: bool, digits: &[bool; 5])
        requires
            old(self).wf(),
        ensures
            final(self).wf(),
            *final(self) == (Console {
                command_open: old(self).command_open || colon,
                active: final(self).active,
                ..*old(self)
            }),
            final(self).active == (if old(self).command_open || colon {
                old(self).active
            } else {
                match digit_tab(old(self).tabs@, digits@, 5) {
                    Some(tab) => tab,
                    None => old(self).active,
                }
            }),
    {
        if colon {
            self.command_open = true;
        }
        if self.command_open {
            return;
        }
        let ghost before = *self;
        let mut n: usize = 0;
        while n < 5
            invariant
                n <= 5,
                before.wf(),
                *self == (Console { active: self.active, ..before }),
                self.active == (match digit_tab(before.tabs@, digits@, n as int) {
                    Some(tab) => tab,
                    None => before.active,
                }),
            decreases 5 - n,
        {
            if digits[n] && n < self.tabs.len() {
                self.active = self.tabs[n].tab;
            }
            n += 1;
        }
    }

    /// A click on a tab.
    pub fn open_tab(&mut self, tab: Tab)
        requires
            old(self).wf(),
        ensures
            final(self).wf(),
            *final(self) == (Console { active: tab, ..*old(self) }),
    {
        self.active = tab;
    }

    /// A click on the spectrum, at a frequency the radio can be tuned to or
    /// outside its coverage.
    pub fn tune(&mut self, target: Option<u64>) -> (r: Option<Command>)
        requires
            old(self).wf(),
        ensures
            final(self).wf(),
            match target {
                Some(hz) => r == Some(Command::Retune { hz }) && *final(self) == (Console {
                    readout: Readout { vfo_a_hz: Field::Pending(hz), ..old(self).readout },
                    ..*old(self)
                }),
                None => r is None && *final(self) == (Console {
                    status: final(self).status,
                    ..*old(self)
                }) && final(self).status@ == "outside this radio's coverage"@,
            },
    {
        match target {
            Some(hz) => {
                self.readout.vfo_a_hz.request(hz);
                Some(Command::Retune { hz })
            },
            None => {
                self.status = text("outside this radio's coverage");
                None
            },
        }
    }

    /// Say where the radio is being tuned to.
    pub fn tuning(&mut self, hz: u64)
        requires
            old(self).wf(),
        ensures
            final(self).wf(),
            *final(self) == (Console { status: final(self).status, ..*old(self) }),
            final(self).status@ == "tuning "@ + hz_text(hz),
    {
        let mut status = text("tuning ");
        let hz_words = format_hz(hz);
        push_text(&mut status, hz_words.as_str());
        self.status = status;
    }

    /// A click on a band: go to where it begins.
    pub fn choose_band(&mut self, hz: u64) -> (r: Command)
        requires
            old(self).wf(),
        ensures
            final(self).wf(),
            r == (Command::Retune { hz }),
            *final(self) == (Console { readout: requested_by(old(self).readout, r), ..*old(self) }),
    {
        self.readout.vfo_a_hz.request(hz);
        Command::Retune { hz }
    }

    /// A click on a mode, or on the quick bar's mode, which goes to the next.
    pub fn choose_mode(&mut self, mode: ModeId) -> (r: Command)
        requires
            old(self).wf(),
        ensures
            final(self).wf(),
            r == (Command::SetMode { mode }),
            *final(self) == (Console { readout: requested_by(old(self).readout, r), ..*old(self) }),
    {
        self.readout.mode.request(mode);
        Command::SetMode { mode }
    }

    /// A click on a filter width.
    pub fn choose_width(&mut self, hz: u32) -> (r: Command)
        requires
            old(self).wf(),
        ensures
            final(self).wf(),
            r == (Command::SetFilterWidth { hz }),
            *final(self) == (Console { readout: requested_by(old(self).readout, r), ..*old(self) }),
    {
        self.readout.filter_width_hz.request(hz);
        Command::SetFilterWidth { hz }
    }

    /// Move the IF shift by a step, within the radio's limit.
    pub fn shift_by(&mut self, delta: i32, limit_hz: i32) -> (r: Command)
        requires
            old(self).wf(),
            limit_hz >= 0,
        ensures
            final(self).wf(),
            r == (Command::SetIfShift {
                hz: shifted(old(self).readout.if_shift_hz.shown(), delta, limit_hz) as i32,
            }),
            *final(self) == (Console { readout: requested_by(old(self).readout, r), ..*old(self) }),
    {
        let current: i64 = match self.readout.if_shift_hz.value() {
            Some(v) => v as i64,
            None => 0,
        };
        let moved: i64 = current + delta as i64;
        let hz: i32 = if moved < -(limit_hz as i64) {
            -limit_hz
        } else if moved > limit_hz as i64 {
            limit_hz
        } else {
            moved as i32
        };
        self.readout.if_shift_hz.request(hz);
        Command::SetIfShift { hz }
    }

    /// Switch split over. Split that was never read counts as off.
    pub fn toggle_split(&mut self) -> (r: Command)
        requires
            old(self).wf(),
        ensures
            final(self).wf(),
            r == (Command::SetSplit { enabled: old(self).readout.split.shown() != Some(true) }),
            *final(self) == (Console { readout: requested_by(old(self).readout, r), ..*old(self) }),
    {
        let on: bool = match self.readout.split.value() {
            Some(v) => v,
            None => false,
        };
        self.readout.split.request(!on);
        Command::SetSplit { enabled: !on }
    }

    /// The operator picked a device. Nothing is attached until the server says
    /// so.
    pub fn attach(&mut self, kind: DeviceKind, spec: String) -> (r: Command)
        requires
            old(self).wf(),
        ensures
            final(self).wf(),
            r == (Command::AttachDevice { kind, spec }),
            *final(self) == (Console { status: final(self).status, ..*old(self) }),
            final(self).status@ == "attaching "@ + spec@ + "…"@,
    {
        let mut status = text("attaching ");
        push_text(&mut status, spec.as_str());
        push_text(&mut status, "…");
        self.status = status;
        Command::AttachDevice { kind, spec }
    }

    /// Give a still the radio it shows.
    pub fn demo_capabilities(&mut self, caps: Capabilities, tabs: Vec<TabEntry>)
        requires
            old(self).wf(),
        ensures
            final(self).wf(),
            *final(self) == (Console {
                tabs,
                active: first_tab(tabs@),
                offline: Some(caps),
                ..*old(self)
            }),
    {
        self.active = if tabs.len() > 0 {
            tabs[0].tab
        } else {
            Tab::Source
        };
        self.tabs = tabs;
        self.offline = Some(caps);
    }

    /// Give a still a spectrum, oldest frame first. It counts as live.
    pub fn demo_spectrum(&mut self, frames: &Vec<Frame>, now: u64)
        requires
            old(self).wf(),
            forall|i: int|
                0 <= i < frames@.len() ==> (#[trigger] frames@[i]).row@.len()
                    == old(self).waterfall.width,
        ensures
            final(self).wf(),
            *final(self) == (Console {
                waterfall: final(self).waterfall,
                latest: final(self).latest,
                last_spectrum_at: final(self).last_spectrum_at,
                ..*old(self)
            }),
            final(self).waterfall.same_frame(old(self).waterfall),
            final(self).waterfall.shown() == stacked(
                old(self).waterfall,
                frames@,
                frames@.len() as int,
            ),
            final(self).waterfall.head == stacked_head(
                old(self).waterfall,
                frames@.len() as int,
            ),
            final(self).waterfall.rows_filled == old(self).waterfall.filled_after(
                frames@.len() as int,
            ),
            final(self).waterfall.reference == (if frames@.len() > 0 {
                Some(frames@.last().axis)
            } else {
                old(self).waterfall.reference
            }),
            final(self).waterfall.generation == old(self).waterfall.generation.wrapping_add(
                frames@.len() as u64,
            ),
            final(self).waterfall.rebuilds == old(self).waterfall.rebuilds,
            final(self).latest == (if frames@.len() > 0 {
                Some(frames@.last().axis)
            } else {
                None
            }),
            final(self).last_spectrum_at == (if frames@.len() > 0 {
                Some(now)
            } else {
                old(self).last_spectrum_at
            }),
    {
        let ghost before = *self;
        let mut i: usize = 0;
        while i < frames.len()
            invariant
                i <= frames@.len(),
                before.wf(),
                forall|i: int|
                    0 <= i < frames@.len() ==> (#[trigger] frames@[i]).row@.len()
                        == before.waterfall.width,
                *self == (Console { waterfall: self.waterfall, ..before }),
                self.waterfall.wf(),
                self.waterfall.same_frame(before.waterfall),
                self.waterfall.shown() == stacked(before.waterfall, frames@, i as int),
                self.waterfall.head == stacked_head(before.waterfall, i as int),
                self.waterfall.rows_filled == before.waterfall.filled_after(i as int),
                self.waterfall.reference == (if i > 0 {
                    Some(frames@[i - 1].axis)
                } else {
                    before.waterfall.reference
                }),
                self.waterfall.generation == before.waterfall.generation.wrapping_add(i as u64),
                self.waterfall.rebuilds == before.waterfall.rebuilds,
            decreases frames@.len() - i,
        {
            proof {
                let h = before.waterfall.height as int;
                let head = before.waterfall.head as int;
                one_row_up(1 - i, h);
                one_row_up(head - i, h);
                vstd::arithmetic::div_mod::lemma_small_mod(head as nat, h as nat);
            }
            assert(frames@[i as int].row@.len() == before.waterfall.width);
            self.waterfall.push(&frames[i].row, frames[i].axis);
            i += 1;
        }
        if frames.len() > 0 {
            self.latest = Some(frames[frames.len() - 1].axis);
            self.last_spectrum_at = Some(now);
        } else {
            self.latest = None;
        }
    }

    /// Give a still a block of audio. It counts as live.
    pub fn demo_audio(&mut self, frame: A, now: u64)
        requires
            old(self).wf(),
        ensures
            final(self).wf(),
            *final(self) == (Console {
                audio: Some(frame),
                last_audio_at: Some(now),
                ..*old(self)
            }),
    {
        self.accept_audio(frame, now);
    }

    /// Give a still the occasional settings.
    pub fn demo_levels(&mut self)
        requires
            old(self).wf(),
        ensures
            final(self).wf(),
            *final(self) == (Console { levels: Some(bench_levels()), ..*old(self) }),
    {
        self.levels = Some(
            RadioLevels {
                af_gain: 33,
                rf_gain: 255,
                squelch: 0,
                mic_gain: 50,
                power_pct: 100,
                agc: 4,
                noise_reduction: 0,
                antenna: 1,
                noise_blanker: false,
                preamp: true,
                attenuator: false,
                speech_processor: false,
                vox: false,
                freq_lock: false,
            },
        );
    }

    /// Give a still a readout, in upper sideband, which is `usb`. `tx` keys the
    /// radio.
    pub fn demo_state(&mut self, usb: ModeId, tx: bool)
        requires
            old(self).wf(),
        ensures
            final(self).wf(),
            *final(self) == (Console {
                readout: Readout {
                    vfo_a_hz: Field::Confirmed(14_074_000),
                    mode: Field::Confirmed(usb),
                    split: Field::Confirmed(false),
                    tx: Field::Confirmed(tx),
                    smeter_raw: Field::Confirmed(17),
                    if_shift_hz: Field::Confirmed(0),
                    ..old(self).readout
                },
                status: final(self).status,
                ..*old(self)
            }),
            final(self).status@ == (match old(self).caps() {
                Some(caps) => "connected to "@ + caps.model@,
                None => "connected"@,
            }),
    {
        self.readout.vfo_a_hz.confirm(14_074_000);
        self.readout.mode.confirm(usb);
        self.readout.split.confirm(false);
        self.readout.tx.confirm(tx);
        self.readout.smeter_raw.confirm(17);
        self.readout.if_shift_hz.confirm(0);
        let status = match self.capabilities() {
            Some(caps) => {
                let mut words = text("connected to ");
                push_text(&mut words, caps.model.as_str());
                words
            },
            None => text("connected"),
        };
        self.status = status;
    }
}

/// The console asks once: while the question is open, and once it was
/// answered, it does not ask again.
pub proof fn the_console_asks_once<A>(console: Console<A>)
    requires
        console.devices_pending || !(console.devices is Unasked),
    ensures
        !console.wants_devices(),
{
}

/// A shift never leaves the radio's limit, and a step within it is taken
/// whole.
pub proof fn a_shift_stays_within_its_limit(current: Option<i32>, delta: i32, limit_hz: i32)
    requires
        limit_hz >= 0,
    ensures
        -limit_hz <= shifted(current, delta, limit_hz) <= limit_hz,
        current matches Some(v) ==> (-limit_hz <= v + delta <= limit_hz ==> shifted(
            current,
            delta,
            limit_hz,
        ) == v + delta),
{
}

/// Of several digits that are pressed at once the highest one that has a tab
/// counts: digit one leads to the first tab, and so on.
pub proof fn the_highest_pressed_digit_counts(
    tabs: Seq<TabEntry>,
    pressed: Seq<bool>,
    count: int,
    i: int,
)
    requires
        0 <= count <= pressed.len(),
        -1 <= i < count,
        forall|j: int| i < j < count ==> !(#[trigger] pressed[j]) || j >= tabs.len(),
        i >= 0 ==> pressed[i] && i < tabs.len(),
    ensures
        i >= 0 ==> digit_tab(tabs, pressed, count) == Some(tabs[i].tab),
        i < 0 ==> digit_tab(tabs, pressed, count) is None,
    decreases count,
{
    if i + 1 < count {
        assert(!pressed[count - 1] || count - 1 >= tabs.len());
        the_highest_pressed_digit_counts(tabs, pressed, count - 1, i);
    }
}

/// A shift is moved by the step from where it was, or from the middle where it
/// was never read, and stops at the limit on either side.
pub proof fn a_shift_stops_at_its_limit(current: Option<i32>, delta: i32, limit_hz: i32)
    requires
        limit_hz >= 0,
    ensures
        ({
            let from = if current is Some {
                current->0 as int
            } else {
                0
            };
            let to = shifted(current, delta, limit_hz);
            &&& from + delta > limit_hz ==> to == limit_hz
            &&& from + delta < -limit_hz ==> to == -limit_hz
            &&& -limit_hz <= from + delta <= limit_hz ==> to == from + delta
        }),
{
}

/// Frames that are pushed one after another stand in an image newest first,
/// above what it showed before, as far as it is high.
pub proof fn the_newest_frames_stand_on_top(
    image: WaterfallImage,
    frames: Seq<Frame>,
    count: int,
    n: int,
)
    requires
        image.height > 0,
        0 <= count <= frames.len(),
        0 <= n < image.height,
    ensures
        stacked(image, frames, count).len() == image.height,
        n < count ==> stacked(image, frames, count)[n] == image.drawn(frames[count - 1 - n].row@),
        n >= count ==> stacked(image, frames, count)[n] == image.shown_row(n - count),
    decreases count,
{
    if count > 0 {
        let before = stacked(image, frames, count - 1);
        if n > 0 {
            the_newest_frames_stand_on_top(image, frames, count - 1, n - 1);
        } else {
            the_newest_frames_stand_on_top(image, frames, count - 1, 0);
        }
    }
}

/// Each frame that is pushed moves the newest row one up the ring. Where the
/// image held none, the first goes to the ring's first row.
pub proof fn the_head_goes_up_the_ring(image: WaterfallImage, count: int)
    requires
        image.wf(),
        0 <= count,
    ensures
        0 <= stacked_head(image, count) < image.height,
        count == 0 ==> stacked_head(image, count) == image.head,
        image.rows_filled == 0 ==> stacked_head(image, 1) == 0,
        image.rows_filled > 0 || count > 0 ==> (stacked_head(image, count + 1) + 1) % (
        image.height as int) == stacked_head(image, count),
{
    let h = image.height as int;
    let x = if image.rows_filled == 0 {
        1 - count
    } else {
        image.head - count
    };
    vstd::arithmetic::div_mod::lemma_mod_bound(x, h);
    vstd::arithmetic::div_mod::lemma_small_mod(0, h as nat);
    vstd::arithmetic::div_mod::lemma_small_mod(image.head as nat, h as nat);
    vstd::arithmetic::div_mod::lemma_add_mod_noop(x - 1, 1, h);
    if h > 1 {
        vstd::arithmetic::div_mod::lemma_small_mod(1, h as nat);
        assert(((x - 1) % h + 1) % h == x % h);
    } else {
        assert(h == 1);
    }
}

/// A console asks for devices exactly where it is connected, has not been
/// answered and is not waiting.
pub proof fn a_connected_console_asks<A>(console: Console<A>)
    ensures
        console.wants_devices() <==> console.link is Up && console.devices is Unasked
            && !console.devices_pending,
{
}

} // verus!
