//! What the console knows of the radio, and what it has merely asked for.

use vstd::prelude::*;

verus! {

/// One value of the readout.
#[derive(Debug, Clone, Copy, PartialEq, Eq)]
pub enum Field<T> {
    /// Never read. It is drawn as a dash, not as a zero.
    Unknown,
    /// The radio said so.
    Confirmed(T),
    /// The console asked for it, and the radio has not answered yet.
    Pending(T),
}

impl<T> Field<T> {
    /// The value to show.
    pub open spec fn shown(self) -> Option<T> {
        match self {
            Field::Unknown => None,
            Field::Confirmed(v) => Some(v),
            Field::Pending(v) => Some(v),
        }
    }
}

impl<T: Copy> Field<T> {
    /// The radio's own account. It wins over anything that was asked for.
    pub fn confirm(&mut self, v: T)
        ensures
            *final(self) == Field::Confirmed(v),
    {
        *self = Field::Confirmed(v);
    }

    /// Note what was asked for.
    pub fn request(&mut self, v: T)
        ensures
            *final(self) == Field::Pending(v),
    {
        *self = Field::Pending(v);
    }

    /// The value to show.
    pub fn value(&self) -> (r: Option<T>)
        ensures
            r == self.shown(),
    {
        match self {
            Field::Unknown => None,
            Field::Confirmed(v) => Some(*v),
            Field::Pending(v) => Some(*v),
        }
    }

    /// Whether the value is one that was asked for.
    pub fn is_pending(&self) -> (r: bool)
        ensures
            r == (self is Pending),
    {
        match self {
            Field::Pending(_) => true,
            _ => false,
        }
    }
}

/// A mode, by the number the radio's protocol gives it.
pub type ModeId = u16;

/// The values the console shows.
#[derive(Debug, Clone, Copy, PartialEq, Eq)]
pub struct Readout {
    pub vfo_a_hz: Field<u64>,
    pub mode: Field<ModeId>,
    pub split: Field<bool>,
    pub tx: Field<bool>,
    pub smeter_raw: Field<u16>,
    pub if_shift_hz: Field<i32>,
    pub filter_width_hz: Field<u32>,
    pub memory_channel: Field<u16>,
}

/// A readout of which nothing is known.
pub open spec fn nothing_known() -> Readout {
    Readout {
        vfo_a_hz: Field::Unknown,
        mode: Field::Unknown,
        split: Field::Unknown,
        tx: Field::Unknown,
        smeter_raw: Field::Unknown,
        if_shift_hz: Field::Unknown,
        filter_width_hz: Field::Unknown,
        memory_channel: Field::Unknown,
    }
}

impl Default for Readout {
    fn default() -> (r: Self)
        ensures
            r == nothing_known(),
    {
        Readout {
            vfo_a_hz: Field::Unknown,
            mode: Field::Unknown,
            split: Field::Unknown,
            tx: Field::Unknown,
            smeter_raw: Field::Unknown,
            if_shift_hz: Field::Unknown,
            filter_width_hz: Field::Unknown,
            memory_channel: Field::Unknown,
        }
    }
}

/// The settings that are read now and then.
#[derive(Debug, Clone, Copy, PartialEq, Eq, Structural)]
pub struct RadioLevels {
    pub af_gain: u16,
    pub rf_gain: u16,
    pub squelch: u16,
    pub mic_gain: u16,
    pub power_pct: u16,
    pub agc: u16,
    pub noise_reduction: u16,
    pub antenna: u16,
    pub noise_blanker: bool,
    pub preamp: bool,
    pub attenuator: bool,
    pub speech_processor: bool,
    pub vox: bool,
    pub freq_lock: bool,
}

/// The radio's account of itself.
#[derive(Debug, Clone, Copy, PartialEq, Eq)]
pub struct RadioState {
    pub vfo_a_hz: u64,
    pub mode: ModeId,
    pub split: bool,
    pub transmitting: bool,
    pub levels: Option<RadioLevels>,
    pub if_shift_hz: Option<i32>,
    pub filter_width_hz: Option<u32>,
    pub memory_channel: Option<u16>,
    /// The S meter's raw value, where the radio reports one.
    pub s_meter: Option<u16>,
}

/// A value the radio may have reported: what it says, or what was known.
pub open spec fn told<T>(reported: Option<T>, known: Field<T>) -> Field<T> {
    match reported {
        Some(v) => Field::Confirmed(v),
        None => known,
    }
}

/// The readout after the radio gave an account of itself.
pub open spec fn confirmed_by(readout: Readout, state: RadioState) -> Readout {
    Readout {
        vfo_a_hz: Field::Confirmed(state.vfo_a_hz),
        mode: Field::Confirmed(state.mode),
        split: Field::Confirmed(state.split),
        tx: Field::Confirmed(state.transmitting),
        smeter_raw: told(state.s_meter, readout.smeter_raw),
        if_shift_hz: told(state.if_shift_hz, readout.if_shift_hz),
        filter_width_hz: told(state.filter_width_hz, readout.filter_width_hz),
        memory_channel: told(state.memory_channel, readout.memory_channel),
    }
}

impl Readout {
    /// Take the radio's account of itself. What it does not report stays.
    pub fn confirm_state(&mut self, state: &RadioState)
        ensures
            *final(self) == confirmed_by(*old(self), *state),
    {
        self.vfo_a_hz.confirm(state.vfo_a_hz);
        self.mode.confirm(state.mode);
        self.split.confirm(state.split);
        self.tx.confirm(state.transmitting);
        if let Some(hz) = state.if_shift_hz {
            self.if_shift_hz.confirm(hz);
        }
        if let Some(hz) = state.filter_width_hz {
            self.filter_width_hz.confirm(hz);
        }
        if let Some(channel) = state.memory_channel {
            self.memory_channel.confirm(channel);
        }
        if let Some(raw) = state.s_meter {
            self.smeter_raw.confirm(raw);
        }
    }
}

/// What the console asks of the radio.
#[derive(Debug, PartialEq, Eq)]
pub enum Command {
    SetFrequency { hz: u64 },
    /// Move the dial, and the spectrum source with it.
    Retune { hz: u64 },
    SetMode { mode: ModeId },
    SetSplit { enabled: bool },
    SetIfShift { hz: i32 },
    SetFilterWidth { hz: u32 },
    SetMemoryChannel { channel: u16 },
    ReadMeter,
    ReadState,
    ReadDevices,
    AttachDevice { kind: crate::ui::device::DeviceKind, spec: String },
}

/// The readout after a command was sent: a change is shown as pending, and a
/// question changes nothing.
pub open spec fn requested_by(readout: Readout, command: Command) -> Readout {
    match command {
        Command::SetFrequency { hz } => Readout { vfo_a_hz: Field::Pending(hz), ..readout },
        Command::Retune { hz } => Readout { vfo_a_hz: Field::Pending(hz), ..readout },
        Command::SetMode { mode } => Readout { mode: Field::Pending(mode), ..readout },
        Command::SetSplit { enabled } => Readout { split: Field::Pending(enabled), ..readout },
        Command::SetIfShift { hz } => Readout { if_shift_hz: Field::Pending(hz), ..readout },
        Command::SetFilterWidth { hz } => Readout {
            filter_width_hz: Field::Pending(hz),
            ..readout
        },
        Command::SetMemoryChannel { channel } => Readout {
            memory_channel: Field::Pending(channel),
            ..readout
        },
        _ => readout,
    }
}

impl Readout {
    /// Note what a command asks for, so that it is shown as pending.
    pub fn note_request(&mut self, command: &Command)
        ensures
            *final(self) == requested_by(*old(self), *command),
    {
        match command {
            Command::SetFrequency { hz } => self.vfo_a_hz.request(*hz),
            Command::Retune { hz } => self.vfo_a_hz.request(*hz),
            Command::SetMode { mode } => self.mode.request(*mode),
            Command::SetSplit { enabled } => self.split.request(*enabled),
            Command::SetIfShift { hz } => self.if_shift_hz.request(*hz),
            Command::SetFilterWidth { hz } => self.filter_width_hz.request(*hz),
            Command::SetMemoryChannel { channel } => self.memory_channel.request(*channel),
            Command::ReadMeter => {},
            Command::ReadState => {},
            Command::ReadDevices => {},
            Command::AttachDevice { .. } => {},
        }
    }
}

/// The radio's account wins: whatever was asked for, after an account every
/// value the radio reports is confirmed, the dial among them.
pub proof fn the_radio_wins_over_requests(readout: Readout, command: Command, state: RadioState)
    ensures
        confirmed_by(requested_by(readout, command), state).vfo_a_hz == Field::Confirmed(
            state.vfo_a_hz,
        ),
        confirmed_by(requested_by(readout, command), state).mode == Field::Confirmed(state.mode),
        confirmed_by(requested_by(readout, command), state).split == Field::Confirmed(state.split),
        confirmed_by(requested_by(readout, command), state).tx == Field::Confirmed(
            state.transmitting,
        ),
        state.if_shift_hz matches Some(hz) ==> confirmed_by(
            requested_by(readout, command),
            state,
        ).if_shift_hz == Field::Confirmed(hz),
        state.filter_width_hz matches Some(hz) ==> confirmed_by(
            requested_by(readout, command),
            state,
        ).filter_width_hz == Field::Confirmed(hz),
        state.memory_channel matches Some(c) ==> confirmed_by(
            requested_by(readout, command),
            state,
        ).memory_channel == Field::Confirmed(c),
{
}

/// An account changes what it carries and nothing else: a value that the radio
/// does not report stays what it was, and the meter follows the account where
/// it has a sample.
pub proof fn what_is_not_reported_stays(readout: Readout, state: RadioState)
    ensures
        ({
            let after = confirmed_by(readout, state);
            &&& state.s_meter is None ==> after.smeter_raw == readout.smeter_raw
            &&& state.s_meter matches Some(v) ==> after.smeter_raw == Field::Confirmed(v)
            &&& state.if_shift_hz is None ==> after.if_shift_hz == readout.if_shift_hz
            &&& state.filter_width_hz is None ==> after.filter_width_hz == readout.filter_width_hz
            &&& state.memory_channel is None ==> after.memory_channel == readout.memory_channel
            &&& after.vfo_a_hz.shown() == Some(state.vfo_a_hz)
            &&& after.mode.shown() == Some(state.mode)
            &&& after.split.shown() == Some(state.split)
            &&& after.tx.shown() == Some(state.transmitting)
        }),
{
}

/// A command is shown as what it asks for, as pending, and in its own place
/// only.
pub proof fn a_request_is_shown_in_its_place(readout: Readout, command: Command)
    ensures
        ({
            let after = requested_by(readout, command);
            &&& command matches Command::SetFrequency { hz } ==> after.vfo_a_hz == Field::Pending(
                hz,
            )
            &&& command matches Command::Retune { hz } ==> after.vfo_a_hz == Field::Pending(hz)
            &&& command matches Command::SetMode { mode } ==> after.mode == Field::Pending(mode)
            &&& command matches Command::SetSplit { enabled } ==> after.split == Field::Pending(
                enabled,
            )
            &&& command matches Command::SetIfShift { hz } ==> after.if_shift_hz == Field::Pending(
                hz,
            )
            &&& command matches Command::SetFilterWidth { hz } ==> after.filter_width_hz
                == Field::Pending(hz)
            &&& command matches Command::SetMemoryChannel { channel } ==> after.memory_channel
                == Field::Pending(channel)
            &&& !(command is SetFrequency) && !(command is Retune) ==> after.vfo_a_hz
                == readout.vfo_a_hz
            &&& !(command is SetMode) ==> after.mode == readout.mode
            &&& !(command is SetSplit) ==> after.split == readout.split
            &&& !(command is SetIfShift) ==> after.if_shift_hz == readout.if_shift_hz
            &&& !(command is SetFilterWidth) ==> after.filter_width_hz == readout.filter_width_hz
            &&& !(command is SetMemoryChannel) ==> after.memory_channel == readout.memory_channel
        }),
{
}

/// No request passes for a reading: what was asked for is pending, and the
/// meter and the keyed state are never pending.
pub proof fn a_request_never_keys_the_readout(readout: Readout, command: Command)
    ensures
        requested_by(readout, command).tx == readout.tx,
        requested_by(readout, command).smeter_raw == readout.smeter_raw,
{
}

} // verus!
