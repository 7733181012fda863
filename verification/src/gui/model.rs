//! What a radio says it can do, as far as the graphical console shows it.

use crate::gui::readout::ModeId;
use crate::gui::theme::Theme;
use crate::tui::console::model::Band;
use crate::tui::console::model::FrequencyRange;
use crate::gui::waterfall::Shade;
use crate::tui::spectrum::FrameAxis;
use vstd::prelude::*;
use vstd::string::*;

verus! {

/// A mode, in the radio's own words.
#[derive(Debug, PartialEq, Eq)]
pub struct Mode {
    pub id: ModeId,
    pub label: String,
}

/// A meter and the range of its raw values.
#[derive(Debug, PartialEq, Eq)]
pub struct Meter {
    pub name: String,
    pub is_s: bool,
    pub min: u16,
    pub max: u16,
}

/// Where the radio's spectrum comes from.
#[derive(Debug, Clone, Copy, PartialEq, Eq, Structural)]
pub enum SignalSupport {
    /// A tap on the intermediate frequency.
    IfTapPoint,
    NoSignal,
    Scope,
}

/// A source that is wired to the radio.
#[derive(Debug, PartialEq, Eq)]
pub struct Source {
    pub label: String,
    pub audio: bool,
}

/// A control of the quick bar.
#[derive(Debug, PartialEq, Eq)]
pub enum Control {
    Mode,
    FilterWidth { widths_hz: Vec<u32> },
    IfShift { limit_hz: i32 },
    Notch,
    Split,
}

/// A control of the quick bar, and what it is called.
#[derive(Debug, PartialEq, Eq)]
pub struct QuickControl {
    pub label: String,
    pub control: Control,
}

/// What the radio can do.
#[derive(Debug, PartialEq, Eq)]
pub struct Capabilities {
    pub model: String,
    pub modes: Vec<Mode>,
    pub meters: Vec<Meter>,
    pub signal: SignalSupport,
    pub sources: Vec<Source>,
    pub rx_range: FrequencyRange,
    pub bands: Vec<Band>,
    pub controls: Vec<QuickControl>,
    /// The colours the radio is shown in, where it published any.
    pub theme: Option<Theme>,
}

/// Whether one of the first `count` sources carries audio.
pub open spec fn any_audio(sources: Seq<Source>, count: int) -> bool {
    exists|i: int| 0 <= i < count && (#[trigger] sources[i]).audio
}

/// Whether a source that carries audio is wired to the radio.
pub fn has_audio(caps: &Capabilities) -> (r: bool)
    ensures
        r == any_audio(caps.sources@, caps.sources@.len() as int),
{
    let mut i: usize = 0;
    while i < caps.sources.len()
        invariant
            i <= caps.sources@.len(),
            !any_audio(caps.sources@, i as int),
        decreases caps.sources@.len() - i,
    {
        if caps.sources[i].audio {
            return true;
        }
        i += 1;
    }
    false
}

/// The first of the modes from `from` on that has this number.
pub open spec fn mode_from(modes: Seq<Mode>, id: ModeId, from: int) -> Option<Seq<char>>
    decreases modes.len() - from,
{
    if from < 0 || from >= modes.len() {
        None
    } else if modes[from].id == id {
        Some(modes[from].label@)
    } else {
        mode_from(modes, id, from + 1)
    }
}

/// What a mode is called: the radio's label, or a dash.
pub open spec fn mode_text(caps: Option<Capabilities>, mode: Option<ModeId>) -> Seq<char> {
    match (caps, mode) {
        (Some(c), Some(id)) => match mode_from(c.modes@, id, 0) {
            Some(label) => label,
            None => "—"@,
        },
        _ => "—"@,
    }
}

/// What a mode is called: the radio's label, or a dash.
pub fn mode_label<'a>(caps: Option<&'a Capabilities>, mode: Option<ModeId>) -> (r: &'a str)
    ensures
        r@ == mode_text(
            match caps {
                Some(c) => Some(*c),
                None => None,
            },
            mode,
        ),
{
    if let (Some(c), Some(id)) = (caps, mode) {
        let mut i: usize = 0;
        while i < c.modes.len()
            invariant
                i <= c.modes@.len(),
                caps == Some(c),
                mode == Some(id),
                mode_from(c.modes@, id, 0) == mode_from(c.modes@, id, i as int),
            decreases c.modes@.len() - i,
        {
            if c.modes[i].id == id {
                return c.modes[i].label.as_str();
            }
            i += 1;
        }
    }
    "—"
}

/// The S meter's range: that of the first meter from `from` on that is one.
pub open spec fn s_range_from(meters: Seq<Meter>, from: int) -> Option<(u16, u16)>
    decreases meters.len() - from,
{
    if from < 0 || from >= meters.len() {
        None
    } else if meters[from].is_s {
        Some((meters[from].min, meters[from].max))
    } else {
        s_range_from(meters, from + 1)
    }
}

/// The S meter's range, where the radio has one.
pub fn s_range(caps: &Capabilities) -> (r: Option<(u16, u16)>)
    ensures
        r == s_range_from(caps.meters@, 0),
{
    let mut i: usize = 0;
    while i < caps.meters.len()
        invariant
            i <= caps.meters@.len(),
            s_range_from(caps.meters@, 0) == s_range_from(caps.meters@, i as int),
        decreases caps.meters@.len() - i,
    {
        if caps.meters[i].is_s {
            return Some((caps.meters[i].min, caps.meters[i].max));
        }
        i += 1;
    }
    None
}

/// A spectrum frame: its axis, the intensity of every bin, lowest frequency
/// first, and what the columns of the waterfall show of it on its own axis.
#[derive(Debug, PartialEq, Eq)]
pub struct Frame {
    pub axis: FrameAxis,
    pub levels: Vec<i64>,
    pub row: Vec<Shade>,
}

/// A mode is called by the label of the first mode of that number, and by a
/// dash where the radio has none of that number, or where nobody has read it.
pub proof fn a_mode_is_called_by_its_label(caps: Capabilities, id: ModeId, i: int)
    requires
        0 <= i <= caps.modes@.len(),
        i < caps.modes@.len() ==> caps.modes@[i].id == id,
        forall|j: int| 0 <= j < i ==> (#[trigger] caps.modes@[j]).id != id,
    ensures
        i < caps.modes@.len() ==> mode_text(Some(caps), Some(id)) == caps.modes@[i].label@,
        i == caps.modes@.len() ==> mode_text(Some(caps), Some(id)) == "—"@,
        mode_text(None, Some(id)) == "—"@,
        mode_text(Some(caps), None) == "—"@,
{
    found_from(caps.modes@, id, 0, i);
}

proof fn found_from(modes: Seq<Mode>, id: ModeId, from: int, i: int)
    requires
        0 <= from <= i <= modes.len(),
        i < modes.len() ==> modes[i].id == id,
        forall|j: int| 0 <= j < i ==> (#[trigger] modes[j]).id != id,
    ensures
        mode_from(modes, id, from) == (if i < modes.len() {
            Some(modes[i].label@)
        } else {
            None
        }),
    decreases i - from,
{
    if from < i {
        found_from(modes, id, from + 1, i);
    }
}

/// The S meter's range is that of the first meter that is one.
pub proof fn the_first_s_meter_has_the_range(meters: Seq<Meter>, i: int)
    requires
        0 <= i <= meters.len(),
        i < meters.len() ==> meters[i].is_s,
        forall|j: int| 0 <= j < i ==> !(#[trigger] meters[j]).is_s,
    ensures
        i < meters.len() ==> s_range_from(meters, 0) == Some((meters[i].min, meters[i].max)),
        i == meters.len() ==> s_range_from(meters, 0) is None,
{
    range_from(meters, 0, i);
}

proof fn range_from(meters: Seq<Meter>, from: int, i: int)
    requires
        0 <= from <= i <= meters.len(),
        i < meters.len() ==> meters[i].is_s,
        forall|j: int| 0 <= j < i ==> !(#[trigger] meters[j]).is_s,
    ensures
        s_range_from(meters, from) == (if i < meters.len() {
            Some((meters[i].min, meters[i].max))
        } else {
            None
        }),
    decreases i - from,
{
    if from < i {
        range_from(meters, from + 1, i);
    }
}

} // verus!
