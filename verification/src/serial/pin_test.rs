//! Null-modem cable pin tester: what each check does and concludes, and the
//! report.
//!
//! The ports' calls are made by whoever drives the checks. A failed call comes
//! in as the text its error is shown with.

use crate::serial::config::FlowControl;
use crate::serial::config::Parity;
use crate::serial::config::SerialConfig;
use crate::text::decimal;
use crate::text::hex_list;
use crate::text::hex_list_text;
use crate::text::pad_end;
use crate::text::padding_keeps_the_text;
use crate::text::push_decimal;
use crate::text::push_padded;
use crate::text::push_text;
use crate::text::text;
use vstd::prelude::*;
use vstd::string::*;

verus! {

/// What a check concluded.
#[derive(Debug, PartialEq, Eq)]
pub enum Outcome {
    Pass,
    Fail(String),
    Warn(String),
}

/// A check and what it concluded.
#[derive(Debug, PartialEq, Eq)]
pub struct TestResult {
    pub label: String,
    pub outcome: Outcome,
}

/// 9600 8N2 with both modem lines left low: the tester raises them one at a
/// time and needs a clear baseline.
pub open spec fn pin_test_settings() -> SerialConfig {
    SerialConfig {
        baud_rate: 9600,
        data_bits: 8,
        stop_bits: 2,
        parity: Parity::NoParity,
        flow_control: FlowControl::NoFlowControl,
        initial_rts: false,
        initial_dtr: false,
    }
}

/// The settings both ports are opened with.
pub fn pin_test_config() -> (r: SerialConfig)
    ensures
        r == pin_test_settings(),
{
    SerialConfig {
        baud_rate: 9600,
        data_bits: 8,
        stop_bits: 2,
        parity: Parity::NoParity,
        flow_control: FlowControl::NoFlowControl,
        initial_rts: false,
        initial_dtr: false,
    }
}

/// Whether `outcome` is a failure with this text, or only a warning where the
/// line is not one that every cable has.
pub open spec fn complaint(outcome: Outcome, warn_only: bool, why: Seq<char>) -> bool {
    if warn_only {
        outcome matches Outcome::Warn(w) && w@ == why
    } else {
        outcome matches Outcome::Fail(w) && w@ == why
    }
}

fn complain(warn_only: bool, why: String) -> (r: Outcome)
    ensures
        complaint(r, warn_only, why@),
{
    if warn_only {
        Outcome::Warn(why)
    } else {
        Outcome::Fail(why)
    }
}

fn complain_of(warn_only: bool, what: &str, error: &str) -> (r: Outcome)
    ensures
        complaint(r, warn_only, what@ + error@),
{
    let mut why = text(what);
    push_text(&mut why, error);
    complain(warn_only, why)
}

/// The bytes sent through the data lines.
pub open spec fn loopback_bytes() -> Seq<u8> {
    seq![0xAAu8, 0x55u8]
}

/// Where a check of the data lines stands.
#[derive(Debug, Clone, Copy, PartialEq, Eq, Structural)]
pub enum LoopbackPhase {
    Writing,
    Flushing,
    Reading,
    Done,
}

/// What the ports report to a check of the data lines.
#[derive(Debug, PartialEq, Eq)]
pub enum LoopbackEvent {
    Written,
    Flushed,
    Received(Vec<u8>),
    Failed(String),
}

/// What a check of the data lines asks for next.
#[derive(Debug, PartialEq, Eq)]
pub enum LoopbackAction {
    /// Write these bytes on the sending port.
    Write(Vec<u8>),
    Flush,
    /// Read at most so many bytes from the receiving port.
    Read(usize),
    Conclude(Outcome),
    Nothing,
}

/// A check that two known bytes arrive unchanged at the other end.
#[derive(Debug, PartialEq, Eq)]
pub struct Loopback {
    pub phase: LoopbackPhase,
    pub got: Vec<u8>,
}

/// What the check of the data lines concludes from the bytes it received.
pub open spec fn loopback_verdict(outcome: Outcome, got: Seq<u8>) -> bool {
    if got == loopback_bytes() {
        outcome is Pass
    } else {
        outcome matches Outcome::Fail(why) && why@ == "data mismatch: sent "@ + hex_list(
            loopback_bytes(),
        ) + ", got "@ + hex_list(got)
    }
}

/// The first two bytes of what was received so far and what came now.
pub open spec fn received(got: Seq<u8>, bytes: Seq<u8>) -> Seq<u8> {
    let all = got + bytes;
    if all.len() <= 2 {
        all
    } else {
        all.take(2)
    }
}

/// Whether `event` takes the check from `before` to `after` and asks for
/// `action`. An event that the check does not wait for changes nothing.
pub open spec fn loopback_stepped(
    before: Loopback,
    event: LoopbackEvent,
    after: Loopback,
    action: LoopbackAction,
) -> bool {
    match (before.phase, event) {
        (LoopbackPhase::Writing, LoopbackEvent::Written) => {
            &&& after.phase == LoopbackPhase::Flushing
            &&& after.got@ == before.got@
            &&& action == LoopbackAction::Flush
        },
        (LoopbackPhase::Writing, LoopbackEvent::Failed(e)) => {
            &&& after.phase == LoopbackPhase::Done
            &&& after.got@ == before.got@
            &&& action matches LoopbackAction::Conclude(o) && complaint(
                o,
                false,
                "write failed: "@ + e@,
            )
        },
        (LoopbackPhase::Flushing, LoopbackEvent::Flushed) => {
            &&& after.phase == LoopbackPhase::Reading
            &&& after.got@ == before.got@
            &&& action == LoopbackAction::Read((2 - before.got@.len()) as usize)
        },
        (LoopbackPhase::Flushing, LoopbackEvent::Failed(e)) => {
            &&& after.phase == LoopbackPhase::Done
            &&& after.got@ == before.got@
            &&& action matches LoopbackAction::Conclude(o) && complaint(
                o,
                false,
                "flush failed: "@ + e@,
            )
        },
        (LoopbackPhase::Reading, LoopbackEvent::Failed(e)) => {
            &&& after.phase == LoopbackPhase::Done
            &&& after.got@ == before.got@
            &&& action matches LoopbackAction::Conclude(o) && complaint(
                o,
                false,
                "read failed (timeout or error): "@ + e@,
            )
        },
        (LoopbackPhase::Reading, LoopbackEvent::Received(bytes)) => {
            &&& after.got@ == received(before.got@, bytes@)
            &&& if after.got@.len() < 2 {
                &&& after.phase == LoopbackPhase::Reading
                &&& action == LoopbackAction::Read((2 - after.got@.len()) as usize)
            } else {
                &&& after.phase == LoopbackPhase::Done
                &&& action matches LoopbackAction::Conclude(o) && loopback_verdict(o, after.got@)
            }
        },
        (LoopbackPhase::Writing, _) => after == before && (action matches LoopbackAction::Write(b)
            && b@ == loopback_bytes()),
        (LoopbackPhase::Flushing, _) => after == before && action == LoopbackAction::Flush,
        (LoopbackPhase::Reading, _) => after == before && action == LoopbackAction::Read(
            (2 - before.got@.len()) as usize,
        ),
        (LoopbackPhase::Done, _) => after == before && action == LoopbackAction::Nothing,
    }
}

fn loopback_request() -> (r: Vec<u8>)
    ensures
        r@ == loopback_bytes(),
{
    let r: Vec<u8> = vec![0xAA, 0x55];
    assert(r@ =~= loopback_bytes());
    r
}

impl Loopback {
    /// At most two bytes are ever kept.
    pub open spec fn wf(self) -> bool {
        self.got@.len() <= 2 && (self.phase != LoopbackPhase::Done ==> self.got@.len() < 2)
    }

    /// Start the check. The receive buffer of the receiving port has been
    /// discarded before.
    pub fn begin() -> (r: (Loopback, LoopbackAction))
        ensures
            r.0.wf(),
            r.0.phase == LoopbackPhase::Writing,
            r.0.got@.len() == 0,
            r.1 matches LoopbackAction::Write(b) && b@ == loopback_bytes(),
    {
        (
            Loopback { phase: LoopbackPhase::Writing, got: Vec::new() },
            LoopbackAction::Write(loopback_request()),
        )
    }

    fn conclude(&self) -> (r: Outcome)
        ensures
            loopback_verdict(r, self.got@),
    {
        let sent = loopback_request();
        if self.got.len() == 2 && self.got[0] == 0xAA && self.got[1] == 0x55 {
            assert(self.got@ =~= loopback_bytes());
            Outcome::Pass
        } else {
            assert(self.got@ != loopback_bytes());
            let mut why = text("data mismatch: sent ");
            push_text(&mut why, hex_list_text(sent.as_slice()).as_str());
            push_text(&mut why, ", got ");
            push_text(&mut why, hex_list_text(self.got.as_slice()).as_str());
            Outcome::Fail(why)
        }
    }

    /// Take in what the ports reported and say what is to be done next.
    pub fn step(&mut self, event: LoopbackEvent) -> (r: LoopbackAction)
        requires
            old(self).wf(),
        ensures
            final(self).wf(),
            loopback_stepped(*old(self), event, *final(self), r),
    {
        match (self.phase, event) {
            (LoopbackPhase::Writing, LoopbackEvent::Written) => {
                self.phase = LoopbackPhase::Flushing;
                LoopbackAction::Flush
            },
            (LoopbackPhase::Writing, LoopbackEvent::Failed(e)) => {
                self.phase = LoopbackPhase::Done;
                LoopbackAction::Conclude(complain_of(false, "write failed: ", e.as_str()))
            },
            (LoopbackPhase::Flushing, LoopbackEvent::Flushed) => {
                self.phase = LoopbackPhase::Reading;
                LoopbackAction::Read(2 - self.got.len())
            },
            (LoopbackPhase::Flushing, LoopbackEvent::Failed(e)) => {
                self.phase = LoopbackPhase::Done;
                LoopbackAction::Conclude(complain_of(false, "flush failed: ", e.as_str()))
            },
            (LoopbackPhase::Reading, LoopbackEvent::Failed(e)) => {
                self.phase = LoopbackPhase::Done;
                LoopbackAction::Conclude(
                    complain_of(false, "read failed (timeout or error): ", e.as_str()),
                )
            },
            (LoopbackPhase::Reading, LoopbackEvent::Received(bytes)) => {
                let ghost before = self.got@;
                let mut i: usize = 0;
                while i < bytes.len() && self.got.len() < 2
                    invariant
                        i <= bytes@.len(),
                        before.len() < 2,
                        self.got@.len() <= 2,
                        self.got@ == before + bytes@.take(i as int),
                        self.phase == LoopbackPhase::Reading,
                    decreases bytes@.len() - i,
                {
                    self.got.push(bytes[i]);
                    i += 1;
                    assert(self.got@ =~= before + bytes@.take(i as int));
                }
                assert(self.got@ =~= received(before, bytes@));
                if self.got.len() < 2 {
                    LoopbackAction::Read(2 - self.got.len())
                } else {
                    self.phase = LoopbackPhase::Done;
                    LoopbackAction::Conclude(self.conclude())
                }
            },
            (LoopbackPhase::Writing, _) => LoopbackAction::Write(loopback_request()),
            (LoopbackPhase::Flushing, _) => LoopbackAction::Flush,
            (LoopbackPhase::Reading, _) => LoopbackAction::Read(2 - self.got.len()),
            (LoopbackPhase::Done, _) => LoopbackAction::Nothing,
        }
    }
}

/// Where a check of a modem line stands: what it has asked for and waits to
/// hear of.
#[derive(Debug, Clone, Copy, PartialEq, Eq, Structural)]
pub enum ModemPhase {
    ClearBaseline,
    ReadBaseline,
    SetLine,
    ReadSet,
    ClearAfter,
    ReadAfter,
    Done,
}

/// What the ports report to a check of a modem line.
#[derive(Debug, PartialEq, Eq)]
pub enum ModemEvent {
    /// The line was driven as asked for.
    Driven,
    /// The other end was read.
    Level(bool),
    Failed(String),
}

/// What a check of a modem line asks for next. A line that was driven is given
/// time to settle before it is read.
#[derive(Debug, PartialEq, Eq)]
pub enum ModemAction {
    Drive(bool),
    ReadLevel,
    Conclude(Outcome),
    Nothing,
}

/// A check that the other end sees a line go up and down.
#[derive(Debug, Clone, Copy, PartialEq, Eq, Structural)]
pub struct ModemCheck {
    pub phase: ModemPhase,
    pub warn_only: bool,
}

/// What is said when the other end never saw the line go up.
pub open spec fn no_response(warn_only: bool) -> Seq<char> {
    "no response -- line not asserted after set"@ + (if warn_only {
        " -- not required by every radio's cabling convention"@
    } else {
        ""@
    })
}

/// What is asked for in a phase.
pub open spec fn modem_request(phase: ModemPhase) -> ModemAction {
    match phase {
        ModemPhase::ClearBaseline | ModemPhase::ClearAfter => ModemAction::Drive(false),
        ModemPhase::SetLine => ModemAction::Drive(true),
        ModemPhase::ReadBaseline | ModemPhase::ReadSet | ModemPhase::ReadAfter =>
            ModemAction::ReadLevel,
        ModemPhase::Done => ModemAction::Nothing,
    }
}

/// The phase after one that went as it should.
pub open spec fn modem_next(phase: ModemPhase) -> ModemPhase {
    match phase {
        ModemPhase::ClearBaseline => ModemPhase::ReadBaseline,
        ModemPhase::ReadBaseline => ModemPhase::SetLine,
        ModemPhase::SetLine => ModemPhase::ReadSet,
        ModemPhase::ReadSet => ModemPhase::ClearAfter,
        ModemPhase::ClearAfter => ModemPhase::ReadAfter,
        ModemPhase::ReadAfter | ModemPhase::Done => ModemPhase::Done,
    }
}

/// What an intact line reports in a phase.
pub open spec fn modem_expected(phase: ModemPhase) -> ModemEvent {
    match phase {
        ModemPhase::ReadBaseline | ModemPhase::ReadAfter => ModemEvent::Level(false),
        ModemPhase::ReadSet => ModemEvent::Level(true),
        _ => ModemEvent::Driven,
    }
}

/// Whether a phase waits for a level rather than for a line to be driven.
pub open spec fn modem_reads(phase: ModemPhase) -> bool {
    phase == ModemPhase::ReadBaseline || phase == ModemPhase::ReadSet || phase
        == ModemPhase::ReadAfter
}

/// What is said of an error in a phase, before the error itself.
pub open spec fn modem_error_text(phase: ModemPhase) -> Seq<char> {
    match phase {
        ModemPhase::ClearBaseline => "clear (baseline) failed: "@,
        ModemPhase::ReadBaseline => "read (baseline) failed: "@,
        ModemPhase::SetLine => "set failed: "@,
        ModemPhase::ReadSet => "read (after set) failed: "@,
        ModemPhase::ClearAfter => "clear (after test) failed: "@,
        ModemPhase::ReadAfter | ModemPhase::Done => "read (after clear) failed: "@,
    }
}

/// What is said of the wrong level in a phase.
pub open spec fn modem_level_text(phase: ModemPhase, warn_only: bool) -> Seq<char> {
    match phase {
        ModemPhase::ReadBaseline => "baseline check failed: line already asserted"@,
        ModemPhase::ReadSet => no_response(warn_only),
        _ => "line still asserted after clearing"@,
    }
}

/// Whether `event` takes the check from `before` to `after` and asks for
/// `action`.
///
/// What an intact line reports leads to the next phase, and to a pass after the
/// last. An error, or the wrong level, ends the check. Anything else is not
/// what the check waits for and changes nothing.
pub open spec fn modem_stepped(
    before: ModemCheck,
    event: ModemEvent,
    after: ModemCheck,
    action: ModemAction,
) -> bool {
    &&& after.warn_only == before.warn_only
    &&& if before.phase == ModemPhase::Done {
        after.phase == ModemPhase::Done && action == ModemAction::Nothing
    } else if event == modem_expected(before.phase) {
        &&& after.phase == modem_next(before.phase)
        &&& if before.phase == ModemPhase::ReadAfter {
            action == ModemAction::Conclude(Outcome::Pass)
        } else {
            action == modem_request(after.phase)
        }
    } else if event is Failed {
        &&& after.phase == ModemPhase::Done
        &&& action matches ModemAction::Conclude(o) && complaint(
            o,
            before.warn_only,
            modem_error_text(before.phase) + event->Failed_0@,
        )
    } else if event is Level && modem_reads(before.phase) {
        &&& after.phase == ModemPhase::Done
        &&& action matches ModemAction::Conclude(o) && complaint(
            o,
            before.warn_only,
            modem_level_text(before.phase, before.warn_only),
        )
    } else {
        after.phase == before.phase && action == modem_request(before.phase)
    }
}

impl ModemCheck {
    /// Start the check.
    pub fn begin(warn_only: bool) -> (r: (ModemCheck, ModemAction))
        ensures
            r.0.phase == ModemPhase::ClearBaseline,
            r.0.warn_only == warn_only,
            r.1 == ModemAction::Drive(false),
    {
        (ModemCheck { phase: ModemPhase::ClearBaseline, warn_only }, ModemAction::Drive(false))
    }

    fn fail(&mut self, what: &str, error: &str) -> (r: ModemAction)
        ensures
            final(self).phase == ModemPhase::Done,
            final(self).warn_only == old(self).warn_only,
            r matches ModemAction::Conclude(o) && complaint(
                o,
                old(self).warn_only,
                what@ + error@,
            ),
    {
        self.phase = ModemPhase::Done;
        ModemAction::Conclude(complain_of(self.warn_only, what, error))
    }

    fn wrong_level(&mut self, why: String) -> (r: ModemAction)
        ensures
            final(self).phase == ModemPhase::Done,
            final(self).warn_only == old(self).warn_only,
            r matches ModemAction::Conclude(o) && complaint(o, old(self).warn_only, why@),
    {
        self.phase = ModemPhase::Done;
        ModemAction::Conclude(complain(self.warn_only, why))
    }

    /// Take in what the ports reported and say what is to be done next.
    pub fn step(&mut self, event: ModemEvent) -> (r: ModemAction)
        ensures
            modem_stepped(*old(self), event, *final(self), r),
    {
        match (self.phase, event) {
            (ModemPhase::ClearBaseline, ModemEvent::Driven) => {
                self.phase = ModemPhase::ReadBaseline;
                ModemAction::ReadLevel
            },
            (ModemPhase::ClearBaseline, ModemEvent::Failed(e)) => self.fail(
                "clear (baseline) failed: ",
                e.as_str(),
            ),
            (ModemPhase::ClearBaseline, _) => ModemAction::Drive(false),
            (ModemPhase::ReadBaseline, ModemEvent::Level(false)) => {
                self.phase = ModemPhase::SetLine;
                ModemAction::Drive(true)
            },
            (ModemPhase::ReadBaseline, ModemEvent::Level(true)) => self.wrong_level(
                text("baseline check failed: line already asserted"),
            ),
            (ModemPhase::ReadBaseline, ModemEvent::Failed(e)) => self.fail(
                "read (baseline) failed: ",
                e.as_str(),
            ),
            (ModemPhase::ReadBaseline, _) => ModemAction::ReadLevel,
            (ModemPhase::SetLine, ModemEvent::Driven) => {
                self.phase = ModemPhase::ReadSet;
                ModemAction::ReadLevel
            },
            (ModemPhase::SetLine, ModemEvent::Failed(e)) => self.fail("set failed: ", e.as_str()),
            (ModemPhase::SetLine, _) => ModemAction::Drive(true),
            (ModemPhase::ReadSet, ModemEvent::Level(true)) => {
                self.phase = ModemPhase::ClearAfter;
                ModemAction::Drive(false)
            },
            (ModemPhase::ReadSet, ModemEvent::Level(false)) => {
                let mut why = text("no response -- line not asserted after set");
                if self.warn_only {
                    push_text(&mut why, " -- not required by every radio's cabling convention");
                } else {
                    push_text(&mut why, "");
                }
                self.wrong_level(why)
            },
            (ModemPhase::ReadSet, ModemEvent::Failed(e)) => self.fail(
                "read (after set) failed: ",
                e.as_str(),
            ),
            (ModemPhase::ReadSet, _) => ModemAction::ReadLevel,
            (ModemPhase::ClearAfter, ModemEvent::Driven) => {
                self.phase = ModemPhase::ReadAfter;
                ModemAction::ReadLevel
            },
            (ModemPhase::ClearAfter, ModemEvent::Failed(e)) => self.fail(
                "clear (after test) failed: ",
                e.as_str(),
            ),
            (ModemPhase::ClearAfter, _) => ModemAction::Drive(false),
            (ModemPhase::ReadAfter, ModemEvent::Level(false)) => {
                self.phase = ModemPhase::Done;
                ModemAction::Conclude(Outcome::Pass)
            },
            (ModemPhase::ReadAfter, ModemEvent::Level(true)) => self.wrong_level(
                text("line still asserted after clearing"),
            ),
            (ModemPhase::ReadAfter, ModemEvent::Failed(e)) => self.fail(
                "read (after clear) failed: ",
                e.as_str(),
            ),
            (ModemPhase::ReadAfter, _) => ModemAction::ReadLevel,
            (ModemPhase::Done, _) => ModemAction::Nothing,
        }
    }
}

/// A check of a modem line passes only at its last reading, and only where
/// the other end is low there.
pub proof fn a_line_passes_only_when_it_comes_down_again(
    before: ModemCheck,
    event: ModemEvent,
    after: ModemCheck,
    action: ModemAction,
)
    requires
        modem_stepped(before, event, after, action),
        action == ModemAction::Conclude(Outcome::Pass),
    ensures
        before.phase == ModemPhase::ReadAfter,
        event == ModemEvent::Level(false),
{
}

/// An intact line passes: a check that hears in every phase what such a line
/// reports concludes so after its six phases, and asks for the next one until
/// then.
pub proof fn an_intact_line_passes(checks: Seq<ModemCheck>, actions: Seq<ModemAction>)
    requires
        checks.len() == 7,
        actions.len() == 6,
        checks[0].phase == ModemPhase::ClearBaseline,
        forall|i: int|
            0 <= i < 6 ==> modem_stepped(
                #[trigger] checks[i],
                modem_expected(checks[i].phase),
                checks[i + 1],
                actions[i],
            ),
    ensures
        actions[0] == ModemAction::ReadLevel,
        actions[1] == ModemAction::Drive(true),
        actions[2] == ModemAction::ReadLevel,
        actions[3] == ModemAction::Drive(false),
        actions[4] == ModemAction::ReadLevel,
        actions[5] == ModemAction::Conclude(Outcome::Pass),
        checks[6].phase == ModemPhase::Done,
{
    assert(modem_stepped(checks[0], modem_expected(checks[0].phase), checks[1], actions[0]));
    assert(modem_stepped(checks[1], modem_expected(checks[1].phase), checks[2], actions[1]));
    assert(modem_stepped(checks[2], modem_expected(checks[2].phase), checks[3], actions[2]));
    assert(modem_stepped(checks[3], modem_expected(checks[3].phase), checks[4], actions[3]));
    assert(modem_stepped(checks[4], modem_expected(checks[4].phase), checks[5], actions[4]));
    assert(modem_stepped(checks[5], modem_expected(checks[5].phase), checks[6], actions[5]));
}

/// The last reading of a check is reached only through every earlier phase
/// with what an intact line reports.
pub proof fn phases_are_entered_in_order(
    before: ModemCheck,
    event: ModemEvent,
    after: ModemCheck,
    action: ModemAction,
)
    requires
        modem_stepped(before, event, after, action),
        after.phase != before.phase,
        after.phase != ModemPhase::Done,
    ensures
        after.phase == modem_next(before.phase),
        event == modem_expected(before.phase),
{
}

/// A line that not every cable has is never a failure, only a warning; one
/// that every cable has is never only a warning.
pub proof fn optional_lines_only_warn(
    before: ModemCheck,
    event: ModemEvent,
    after: ModemCheck,
    action: ModemAction,
)
    requires
        modem_stepped(before, event, after, action),
    ensures
        before.warn_only ==> !(action matches ModemAction::Conclude(Outcome::Fail(_))),
        !before.warn_only ==> !(action matches ModemAction::Conclude(Outcome::Warn(_))),
{
}

/// The lines a check is about.
#[derive(Debug, Clone, Copy, PartialEq, Eq, Structural)]
pub enum CheckKind {
    Data,
    RtsToCts,
    DtrToDsr,
    DtrToDcd,
}

/// One check of the run.
#[derive(Debug, PartialEq, Eq)]
pub struct Check {
    pub label: String,
    pub kind: CheckKind,
    /// From the first port to the second, or the other way round.
    pub forward: bool,
    pub warn_only: bool,
}

pub open spec fn is_check(
    check: Check,
    label: Seq<char>,
    kind: CheckKind,
    forward: bool,
    warn_only: bool,
) -> bool {
    check.label@ == label && check.kind == kind && check.forward == forward && check.warn_only
        == warn_only
}

/// The checks of a run, in order.
pub fn checks() -> (r: Vec<Check>)
    ensures
        r@.len() == 7,
        is_check(r@[0], "TXD->RXD (A->B)"@, CheckKind::Data, true, false),
        is_check(r@[1], "TXD->RXD (B->A)"@, CheckKind::Data, false, false),
        is_check(r@[2], "RTS->CTS (A->B)"@, CheckKind::RtsToCts, true, false),
        is_check(r@[3], "RTS->CTS (B->A)"@, CheckKind::RtsToCts, false, false),
        is_check(r@[4], "DTR->DSR (A->B)"@, CheckKind::DtrToDsr, true, true),
        is_check(r@[5], "DTR->DSR (B->A)"@, CheckKind::DtrToDsr, false, true),
        is_check(r@[6], "DTR->DCD (A->B)"@, CheckKind::DtrToDcd, true, true),
{
    let mut r: Vec<Check> = Vec::new();
    r.push(
        Check {
            label: text("TXD->RXD (A->B)"),
            kind: CheckKind::Data,
            forward: true,
            warn_only: false,
        },
    );
    r.push(
        Check {
            label: text("TXD->RXD (B->A)"),
            kind: CheckKind::Data,
            forward: false,
            warn_only: false,
        },
    );
    r.push(
        Check {
            label: text("RTS->CTS (A->B)"),
            kind: CheckKind::RtsToCts,
            forward: true,
            warn_only: false,
        },
    );
    r.push(
        Check {
            label: text("RTS->CTS (B->A)"),
            kind: CheckKind::RtsToCts,
            forward: false,
            warn_only: false,
        },
    );
    r.push(
        Check {
            label: text("DTR->DSR (A->B)"),
            kind: CheckKind::DtrToDsr,
            forward: true,
            warn_only: true,
        },
    );
    r.push(
        Check {
            label: text("DTR->DSR (B->A)"),
            kind: CheckKind::DtrToDsr,
            forward: false,
            warn_only: true,
        },
    );
    r.push(
        Check {
            label: text("DTR->DCD (A->B)"),
            kind: CheckKind::DtrToDcd,
            forward: true,
            warn_only: true,
        },
    );
    r
}

/// The column the verdicts stand in.
pub const LABEL_WIDTH: usize = 22;

/// A label, padded, and the dots before its verdict.
pub open spec fn result_head(label: Seq<char>) -> Seq<char> {
    "  "@ + pad_end(label, LABEL_WIDTH as int) + " ... "@
}

/// The lines that report one result.
pub open spec fn result_lines_spec(result: TestResult) -> Seq<Seq<char>> {
    match result.outcome {
        Outcome::Pass => seq![result_head(result.label@) + "PASS"@],
        Outcome::Fail(why) => seq![
            result_head(result.label@) + "FAIL"@,
            "      detail: "@ + why@,
        ],
        Outcome::Warn(why) => seq![result_head(result.label@) + "WARN  ("@ + why@ + ")"@],
    }
}

/// The characters of each of several lines.
pub open spec fn line_texts(lines: Seq<String>) -> Seq<Seq<char>> {
    lines.map_values(|line: String| line@)
}

/// The lines that report one result.
pub fn print_result(result: &TestResult) -> (r: Vec<String>)
    ensures
        line_texts(r@) == result_lines_spec(*result),
{
    let mut head = text("  ");
    push_padded(&mut head, result.label.as_str(), LABEL_WIDTH);
    push_text(&mut head, " ... ");
    let mut lines: Vec<String> = Vec::new();
    match &result.outcome {
        Outcome::Pass => {
            push_text(&mut head, "PASS");
            lines.push(head);
        },
        Outcome::Fail(why) => {
            push_text(&mut head, "FAIL");
            lines.push(head);
            let mut detail = text("      detail: ");
            push_text(&mut detail, why.as_str());
            lines.push(detail);
        },
        Outcome::Warn(why) => {
            push_text(&mut head, "WARN  (");
            push_text(&mut head, why.as_str());
            push_text(&mut head, ")");
            lines.push(head);
        },
    }
    assert(line_texts(lines@) =~= result_lines_spec(*result));
    lines
}

/// How many results of a run are passes, failures and warnings.
#[derive(Debug, Clone, Copy, PartialEq, Eq, Structural)]
pub struct Tally {
    pub passed: usize,
    pub failed: usize,
    pub warned: usize,
}

/// How many of `results` satisfy `p`.
pub open spec fn count_of(results: Seq<TestResult>, p: spec_fn(TestResult) -> bool) -> nat {
    results.filter(p).len()
}

/// The tally of a run.
pub fn tally(results: &Vec<TestResult>) -> (r: Tally)
    ensures
        r.passed == count_of(results@, |t: TestResult| t.outcome is Pass),
        r.failed == count_of(results@, |t: TestResult| t.outcome is Fail),
        r.warned == count_of(results@, |t: TestResult| t.outcome is Warn),
        r.passed + r.failed + r.warned == results@.len(),
{
    let mut r = Tally { passed: 0, failed: 0, warned: 0 };
    let ghost pass = |t: TestResult| t.outcome is Pass;
    let ghost fail = |t: TestResult| t.outcome is Fail;
    let ghost warn = |t: TestResult| t.outcome is Warn;
    let mut i: usize = 0;
    assert(results@.take(0).filter(pass) =~= seq![]) by {
        reveal(Seq::filter);
    }
    assert(results@.take(0).filter(fail) =~= seq![]) by {
        reveal(Seq::filter);
    }
    assert(results@.take(0).filter(warn) =~= seq![]) by {
        reveal(Seq::filter);
    }
    while i < results.len()
        invariant
            i <= results@.len(),
            pass == (|t: TestResult| t.outcome is Pass),
            fail == (|t: TestResult| t.outcome is Fail),
            warn == (|t: TestResult| t.outcome is Warn),
            r.passed == results@.take(i as int).filter(pass).len(),
            r.failed == results@.take(i as int).filter(fail).len(),
            r.warned == results@.take(i as int).filter(warn).len(),
            r.passed + r.failed + r.warned == i,
        decreases results@.len() - i,
    {
        proof {
            let next = results@.take(i + 1);
            assert(next.drop_last() =~= results@.take(i as int));
            assert(next.last() == results@[i as int]);
            reveal(Seq::filter);
        }
        match &results[i].outcome {
            Outcome::Pass => {
                r.passed = r.passed + 1;
            },
            Outcome::Fail(_) => {
                r.failed = r.failed + 1;
            },
            Outcome::Warn(_) => {
                r.warned = r.warned + 1;
            },
        }
        i += 1;
    }
    assert(results@.take(results@.len() as int) =~= results@);
    r
}

impl Tally {
    /// The last line of the report.
    pub open spec fn summary_spec(self) -> Seq<char> {
        "Result: "@ + decimal(self.passed as nat) + " passed, "@ + decimal(self.failed as nat)
            + " failed, "@ + decimal(self.warned as nat) + " warnings"@
    }

    /// The last line of the report.
    pub fn summary(&self) -> (r: String)
        ensures
            r@ == self.summary_spec(),
    {
        let mut out = text("Result: ");
        push_decimal(&mut out, self.passed as u64);
        push_text(&mut out, " passed, ");
        push_decimal(&mut out, self.failed as u64);
        push_text(&mut out, " failed, ");
        push_decimal(&mut out, self.warned as u64);
        push_text(&mut out, " warnings");
        out
    }

    /// The exit code of a run: one where anything failed. Warnings do not
    /// count.
    pub fn exit_code(&self) -> (r: i32)
        ensures
            r == (if self.failed > 0 {
                1int
            } else {
                0
            }),
    {
        if self.failed > 0 {
            1
        } else {
            0
        }
    }
}

/// The first line of the report.
pub fn run_title(port_a: &str, port_b: &str) -> (r: String)
    ensures
        r@ == "Pin test: "@ + port_a@ + " -> "@ + port_b@,
{
    let mut out = text("Pin test: ");
    push_text(&mut out, port_a);
    push_text(&mut out, " -> ");
    push_text(&mut out, port_b);
    out
}

/// What is said when a port cannot be opened. The run then ends with exit code
/// one.
pub fn open_failure(port: &str, error: &str) -> (r: String)
    ensures
        r@ == "error opening "@ + port@ + ": "@ + error@,
{
    let mut out = text("error opening ");
    push_text(&mut out, port);
    push_text(&mut out, ": ");
    push_text(&mut out, error);
    out
}

/// What the command line asks for.
#[derive(Debug, PartialEq, Eq)]
pub enum ParsedArgs {
    /// Run once on these two ports.
    Ports(String, String),
    /// Run on these two ports as often as the third argument says.
    PortsAndLoop(String, String, String),
}

/// Two ports, or two ports and a repeat count, behind the program's name.
pub fn parse_args(args: &Vec<String>) -> (r: Option<ParsedArgs>)
    ensures
        args@.len() == 3 ==> (r matches Some(ParsedArgs::Ports(a, b)) && a@ == args@[1]@ && b@
            == args@[2]@),
        args@.len() == 4 ==> (r matches Some(ParsedArgs::PortsAndLoop(a, b, n)) && a@
            == args@[1]@ && b@ == args@[2]@ && n@ == args@[3]@),
        args@.len() != 3 && args@.len() != 4 ==> r is None,
{
    if args.len() == 3 {
        Some(ParsedArgs::Ports(args[1].clone(), args[2].clone()))
    } else if args.len() == 4 {
        Some(ParsedArgs::PortsAndLoop(args[1].clone(), args[2].clone(), args[3].clone()))
    } else {
        None
    }
}

/// How the program is called.
pub fn usage(program: &str) -> (r: Vec<String>)
    ensures
        line_texts(r@) == seq![
            "Usage: "@ + program@ + " <source-port> <dest-port>"@,
            "Example: "@ + program@ + " /dev/ttyUSB0 /dev/ttyUSB1  (or COM3 COM4 on Windows)"@,
        ],
{
    let mut first = text("Usage: ");
    push_text(&mut first, program);
    push_text(&mut first, " <source-port> <dest-port>");
    let mut second = text("Example: ");
    push_text(&mut second, program);
    push_text(&mut second, " /dev/ttyUSB0 /dev/ttyUSB1  (or COM3 COM4 on Windows)");
    let mut lines: Vec<String> = Vec::new();
    lines.push(first);
    lines.push(second);
    assert(line_texts(lines@) =~= seq![
        "Usage: "@ + program@ + " <source-port> <dest-port>"@,
        "Example: "@ + program@ + " /dev/ttyUSB0 /dev/ttyUSB1  (or COM3 COM4 on Windows)"@,
    ]);
    lines
}

/// What follows one run of a repeated test.
#[derive(Debug, Clone, Copy, PartialEq, Eq, Structural)]
pub enum NextRun {
    Again(u32),
    Exit(i32),
}

/// What follows a run that ended with `code` while `remaining` more were asked
/// for: the first run that fails is the last.
pub fn after_run(code: i32, remaining: u32) -> (r: NextRun)
    ensures
        code != 0 ==> r == NextRun::Exit(code),
        code == 0 && remaining == 0 ==> r == NextRun::Exit(0),
        code == 0 && remaining > 0 ==> r == NextRun::Again((remaining - 1) as u32),
{
    if code != 0 {
        NextRun::Exit(code)
    } else if remaining == 0 {
        NextRun::Exit(0)
    } else {
        NextRun::Again(remaining - 1)
    }
}

/// A data check passes exactly where the two bytes that were sent came back, in
/// their order.
pub proof fn data_passes_only_unchanged(outcome: Outcome, got: Seq<u8>)
    requires
        loopback_verdict(outcome, got),
    ensures
        outcome is Pass <==> got.len() == 2 && got[0] == 0xAA && got[1] == 0x55,
        outcome is Pass || outcome is Fail,
{
    assert(got.len() == 2 && got[0] == 0xAA && got[1] == 0x55 ==> got =~= loopback_bytes());
}

/// A data check writes, then flushes, then reads until it has two bytes: never
/// more than are missing, and none that came is lost. An error ends it.
pub proof fn a_data_check_goes_in_order(
    before: Loopback,
    event: LoopbackEvent,
    after: Loopback,
    action: LoopbackAction,
)
    requires
        before.wf(),
        loopback_stepped(before, event, after, action),
    ensures
        before.phase == LoopbackPhase::Writing && event is Written ==> after.phase
            == LoopbackPhase::Flushing && action == LoopbackAction::Flush,
        before.phase == LoopbackPhase::Flushing && event is Flushed ==> after.phase
            == LoopbackPhase::Reading && action is Read,
        before.phase != LoopbackPhase::Done && event is Failed ==> after.phase
            == LoopbackPhase::Done && (action matches LoopbackAction::Conclude(o) && o is Fail),
        before.phase == LoopbackPhase::Reading ==> (event matches LoopbackEvent::Received(bytes)
            ==> {
            let all = before.got@ + bytes@;
            &&& all.len() <= 2 ==> after.got@ == all
            &&& all.len() > 2 ==> after.got@ == seq![all[0], all[1]]
            &&& all.len() >= 2 <==> action is Conclude
        }),
        action matches LoopbackAction::Read(n) ==> n as int + after.got@.len() == 2,
{
    if before.phase == LoopbackPhase::Reading && event is Received {
        let all = before.got@ + event->Received_0@;
        if all.len() > 2 {
            assert(all.take(2) =~= seq![all[0], all[1]]);
        }
    }
}

/// What a modem check asks of the line: it is down before the first reading,
/// up before the second and down again before the third. A check that reads
/// the wrong level, or cannot read or drive, is over and has not passed.
pub proof fn a_line_is_tried_both_ways(
    before: ModemCheck,
    event: ModemEvent,
    after: ModemCheck,
    action: ModemAction,
)
    requires
        modem_stepped(before, event, after, action),
    ensures
        before.phase == ModemPhase::ClearBaseline && event is Driven ==> after.phase
            == ModemPhase::ReadBaseline && action == ModemAction::ReadLevel,
        before.phase == ModemPhase::ReadBaseline && event == ModemEvent::Level(false)
            ==> after.phase == ModemPhase::SetLine && action == ModemAction::Drive(true),
        before.phase == ModemPhase::SetLine && event is Driven ==> after.phase
            == ModemPhase::ReadSet && action == ModemAction::ReadLevel,
        before.phase == ModemPhase::ReadSet && event == ModemEvent::Level(true) ==> after.phase
            == ModemPhase::ClearAfter && action == ModemAction::Drive(false),
        before.phase == ModemPhase::ClearAfter && event is Driven ==> after.phase
            == ModemPhase::ReadAfter && action == ModemAction::ReadLevel,
        before.phase == ModemPhase::ReadAfter && event == ModemEvent::Level(false) ==> after.phase
            == ModemPhase::Done && action == ModemAction::Conclude(Outcome::Pass),
        (before.phase == ModemPhase::ReadBaseline && event == ModemEvent::Level(true))
            || (before.phase == ModemPhase::ReadSet && event == ModemEvent::Level(false))
            || (before.phase == ModemPhase::ReadAfter && event == ModemEvent::Level(true))
            || (before.phase != ModemPhase::Done && event is Failed) ==> after.phase
            == ModemPhase::Done && (action matches ModemAction::Conclude(o) && !(o is Pass)),
{
}

/// A complaint about an error ends with the error.
pub proof fn a_complaint_quotes_the_error(
    before: ModemCheck,
    e: String,
    after: ModemCheck,
    action: ModemAction,
)
    requires
        before.phase != ModemPhase::Done,
        modem_stepped(before, ModemEvent::Failed(e), after, action),
    ensures
        action matches ModemAction::Conclude(o) && {
            let why = match o {
                Outcome::Fail(w) => w@,
                Outcome::Warn(w) => w@,
                Outcome::Pass => seq![],
            };
            &&& (o is Warn <==> before.warn_only)
            &&& (o is Fail <==> !before.warn_only)
            &&& why.len() >= e@.len()
            &&& why.skip(why.len() - e@.len()) == e@
        },
{
    let o = action->Conclude_0;
    let why = match o {
        Outcome::Fail(w) => w@,
        Outcome::Warn(w) => w@,
        Outcome::Pass => seq![],
    };
    assert(why.skip(why.len() - e@.len()) =~= e@);
}

/// A result is reported on a line with its label, two characters in, and its
/// verdict behind the label's column; the verdicts of labels that fit stand
/// below each other.
pub proof fn a_result_shows_its_label_and_verdict(result: TestResult)
    ensures
        ({
            let lines = result_lines_spec(result);
            let label = result.label@;
            let column = if label.len() <= 22 {
                29int
            } else {
                label.len() as int + 7
            };
            let verdict = match result.outcome {
                Outcome::Pass => "PASS"@,
                Outcome::Fail(_) => "FAIL"@,
                Outcome::Warn(_) => "WARN"@,
            };
            &&& lines.len() == (if result.outcome is Fail {
                2nat
            } else {
                1nat
            })
            &&& lines[0].len() >= column + 4
            &&& lines[0].subrange(2, 2 + label.len() as int) == label
            &&& lines[0].subrange(column, column + 4) == verdict
            &&& result.outcome matches Outcome::Fail(why) ==> lines[1].len() >= why@.len()
                && lines[1].skip(lines[1].len() - why@.len()) == why@
            &&& result.outcome matches Outcome::Warn(why) ==> lines[0].len() == column + why@.len()
                + 8 && lines[0].subrange(column + 7, column + 7 + why@.len()) == why@
        }),
{
    reveal_strlit("  ");
    reveal_strlit(" ... ");
    reveal_strlit("PASS");
    reveal_strlit("FAIL");
    reveal_strlit("WARN");
    reveal_strlit("WARN  (");
    reveal_strlit(")");
    let lines = result_lines_spec(result);
    let label = result.label@;
    let column = if label.len() <= 22 {
        29int
    } else {
        label.len() as int + 7
    };
    padding_keeps_the_text(label, LABEL_WIDTH as nat);
    let padded = pad_end(label, LABEL_WIDTH as int);
    assert(result_head(label).len() == column);
    assert(lines[0].subrange(2, 2 + label.len() as int) =~= label) by {
        assert forall|i: int| 0 <= i < label.len() implies lines[0][2 + i] == label[i] by {
            assert(padded[i] == label[i]);
        }
    }
    let verdict = match result.outcome {
        Outcome::Pass => "PASS"@,
        Outcome::Fail(_) => "FAIL"@,
        Outcome::Warn(_) => "WARN"@,
    };
    assert(lines[0].subrange(column, column + 4) =~= verdict);
    match result.outcome {
        Outcome::Pass => {},
        Outcome::Fail(why) => {
            assert(lines[1].skip(lines[1].len() - why@.len()) =~= why@);
        },
        Outcome::Warn(why) => {
            assert(lines[0].subrange(column + 7, column + 7 + why@.len()) =~= why@);
        },
    }
}

/// The tester starts with both modem lines low, on a line that is set like one
/// that nobody configured.
pub proof fn the_tester_starts_with_the_lines_low(config: SerialConfig)
    requires
        config == pin_test_settings(),
    ensures
        !config.initial_rts,
        !config.initial_dtr,
        (SerialConfig { initial_rts: true, ..config }) == SerialConfig::default_config(),
{
}

/// A check is described by its label, its lines, its direction and whether it
/// can only warn.
pub proof fn a_check_is_what_it_is_described_as(
    check: Check,
    label: Seq<char>,
    kind: CheckKind,
    forward: bool,
    warn_only: bool,
)
    requires
        is_check(check, label, kind, forward, warn_only),
    ensures
        check.label@ == label,
        check.kind == kind,
        check.forward == forward,
        check.warn_only == warn_only,
{
}

} // verus!
