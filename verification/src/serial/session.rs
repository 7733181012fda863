//! One request and its answer over a byte transport.
//!
//! The transport's calls are made by whoever drives an [`Exchange`]: it is told
//! what to do next, does it, and reports what happened.

use crate::serial::config::READ_TIMEOUT_MS;
use crate::serial::error::ResponseDisposition;
use crate::serial::error::TransportError;
use crate::text::text;
use vstd::prelude::*;
use vstd::string::*;

verus! {

/// Upper bound on one response frame, in bytes. A stream in which no
/// terminator comes would otherwise be read for ever.
pub const MAX_FRAME_LEN: usize = 64;

/// How a frame ends. A protocol brings its own.
pub trait FrameScanner {
    /// Whether these bytes are a whole frame.
    spec fn complete(&self, response: Seq<u8>) -> bool;

    /// Whether these bytes are a whole frame.
    fn frame_complete(&self, response: &[u8]) -> (r: bool)
        ensures
            r == self.complete(response@),
    ;
}

/// Frames of ASCII text that end with a semicolon.
#[derive(Debug, Clone, Copy, PartialEq, Eq, Structural)]
pub struct AsciiLineFormat;

impl FrameScanner for AsciiLineFormat {
    open spec fn complete(&self, response: Seq<u8>) -> bool {
        response.len() > 0 && response.last() == 0x3b
    }

    fn frame_complete(&self, response: &[u8]) -> (r: bool) {
        response.len() > 0 && response[response.len() - 1] == 0x3b
    }
}

/// Binary frames that end with a byte of their own, as those of CI-V do with
/// FD. A semicolon in them is a byte like any other.
#[derive(Debug, Clone, Copy, PartialEq, Eq, Structural)]
pub struct EndByteFormat {
    pub end: u8,
}

impl FrameScanner for EndByteFormat {
    open spec fn complete(&self, response: Seq<u8>) -> bool {
        response.len() > 0 && response.last() == self.end
    }

    fn frame_complete(&self, response: &[u8]) -> (r: bool) {
        response.len() > 0 && response[response.len() - 1] == self.end
    }
}

/// Where an exchange stands.
#[derive(Debug, Clone, Copy, PartialEq, Eq, Structural)]
pub enum Phase {
    Writing,
    Flushing,
    Reading,
    Done,
}

/// What the transport reports.
#[derive(Debug, PartialEq, Eq)]
pub enum Event {
    Written,
    Flushed,
    Byte(u8),
    /// A read that brought nothing: the stream has ended.
    Eof,
    Failed(TransportError),
}

/// What is to be done next.
#[derive(Debug, PartialEq, Eq)]
pub enum Action {
    /// Write the request.
    Write,
    Flush,
    /// Read one byte.
    Read,
    /// The exchange is over: the response holds the answer.
    Finish(ResponseDisposition),
    /// The exchange is over: nothing was read.
    Fail(TransportError),
    /// Discard what the receive buffer holds. The exchange is over.
    DiscardAndFail(TransportError),
    /// Nothing: the exchange was over before.
    Nothing,
}

/// One request in flight and the bytes of its answer so far.
#[derive(Debug, PartialEq, Eq)]
pub struct Exchange {
    pub phase: Phase,
    /// When the whole frame has to be there, in milliseconds. Set when reading
    /// starts.
    pub deadline_ms: u64,
    pub response: Vec<u8>,
}

/// Requests and answers over a serial line, framed by `format`. The session
/// owns its transport and leaves every call on it to its driver.
#[derive(Debug)]
pub struct SerialCatSession<T, F: FrameScanner = AsciiLineFormat> {
    pub transport: T,
    pub format: F,
}

/// What an exchange in a given phase waits for.
pub open spec fn pending_action(phase: Phase) -> Action {
    match phase {
        Phase::Writing => Action::Write,
        Phase::Flushing => Action::Flush,
        Phase::Reading => Action::Read,
        Phase::Done => Action::Nothing,
    }
}

/// The deadline of a frame whose reading starts at `now`.
pub open spec fn frame_deadline(now: u64) -> u64 {
    if now + READ_TIMEOUT_MS <= u64::MAX {
        (now + READ_TIMEOUT_MS) as u64
    } else {
        u64::MAX
    }
}

/// Whether `e` is the error of a frame that is too long.
pub open spec fn too_long(e: TransportError) -> bool {
    e matches TransportError::Other(why) && why@
        == "response exceeded 64 bytes with no terminator"@
}

/// Whether the exchange failed while it was reading: the receive buffer is to
/// be discarded, and no byte of the answer is kept.
pub open spec fn abandoned(after: Exchange, action: Action) -> bool {
    after.phase == Phase::Done && after.response@.len() == 0 && action is DiscardAndFail
}

/// Whether the exchange goes on reading at `now`, or fails because its frame
/// is overdue.
pub open spec fn awaited(after: Exchange, action: Action, response: Seq<u8>, now: u64) -> bool {
    if now >= after.deadline_ms {
        abandoned(after, action) && action->DiscardAndFail_0 == TransportError::ReadTimeout
    } else {
        after.phase == Phase::Reading && after.response@ == response && action == Action::Read
    }
}

/// Whether `event`, at `now`, takes the exchange from `before` to `after` and
/// asks for `action`, where `format` says how its frame ends. An event that the
/// exchange does not wait for changes nothing.
pub open spec fn stepped<F: FrameScanner>(
    format: F,
    before: Exchange,
    event: Event,
    now: u64,
    after: Exchange,
    action: Action,
) -> bool {
    match (before.phase, event) {
        (Phase::Writing, Event::Written) => {
            &&& after.phase == Phase::Flushing
            &&& after.response@ == before.response@
            &&& after.deadline_ms == before.deadline_ms
            &&& action == Action::Flush
        },
        (Phase::Writing, Event::Failed(e)) | (Phase::Flushing, Event::Failed(e)) => {
            &&& after.phase == Phase::Done
            &&& after.response@ == before.response@
            &&& after.deadline_ms == before.deadline_ms
            &&& action == Action::Fail(e)
        },
        (Phase::Flushing, Event::Flushed) => {
            &&& after.deadline_ms == frame_deadline(now)
            &&& awaited(after, action, before.response@, now)
        },
        (Phase::Reading, Event::Failed(e)) => {
            &&& abandoned(after, action)
            &&& after.deadline_ms == before.deadline_ms
            &&& action == Action::DiscardAndFail(e)
        },
        (Phase::Reading, Event::Eof) => {
            &&& after.phase == Phase::Done
            &&& after.response@ == before.response@
            &&& after.deadline_ms == before.deadline_ms
            &&& action == Action::Finish(ResponseDisposition::of_len(before.response@.len()))
        },
        (Phase::Reading, Event::Byte(b)) => {
            let response = before.response@.push(b);
            &&& after.deadline_ms == before.deadline_ms
            &&& if format.complete(response) {
                &&& after.phase == Phase::Done
                &&& after.response@ == response
                &&& action == Action::Finish(ResponseDisposition::ResponseWritten)
            } else if response.len() >= MAX_FRAME_LEN {
                abandoned(after, action) && too_long(action->DiscardAndFail_0)
            } else {
                awaited(after, action, response, now)
            }
        },
        _ => {
            &&& after.phase == before.phase
            &&& after.response@ == before.response@
            &&& after.deadline_ms == before.deadline_ms
            &&& action == pending_action(before.phase)
        },
    }
}

impl<T> SerialCatSession<T, AsciiLineFormat> {
    /// A session over `transport`, of frames that end with a semicolon.
    pub fn new(transport: T) -> (r: Self)
        ensures
            r.transport == transport,
            r.format == AsciiLineFormat,
    {
        SerialCatSession { transport, format: AsciiLineFormat }
    }
}

impl<T, F: FrameScanner> SerialCatSession<T, F> {
    /// A session over `transport`, of frames that end as `format` says.
    pub fn with_format(transport: T, format: F) -> (r: Self)
        ensures
            r.transport == transport,
            r.format == format,
    {
        SerialCatSession { transport, format }
    }

    /// Start an exchange whose answer is appended to `response`.
    pub fn execute(&self, response: Vec<u8>) -> (r: (Exchange, Action))
        ensures
            r.0.phase == Phase::Writing,
            r.0.response == response,
            r.1 == Action::Write,
    {
        (Exchange { phase: Phase::Writing, deadline_ms: 0, response }, Action::Write)
    }

    /// Start a command that has no answer.
    pub fn send(&self) -> (r: (Sending, SendAction))
        ensures
            r.0 == Sending::Writing,
            r.1 == SendAction::Write,
    {
        (Sending::Writing, SendAction::Write)
    }
}

impl Exchange {
    /// Whether the exchange goes on reading at `now`.
    fn await_byte(&mut self, now_ms: u64) -> (r: Action)
        ensures
            awaited(*final(self), r, old(self).response@, now_ms),
            final(self).deadline_ms == old(self).deadline_ms,
    {
        if now_ms >= self.deadline_ms {
            self.abandon(TransportError::ReadTimeout)
        } else {
            self.phase = Phase::Reading;
            Action::Read
        }
    }

    /// End the exchange with an error and keep nothing of its answer.
    fn abandon(&mut self, e: TransportError) -> (r: Action)
        ensures
            abandoned(*final(self), r),
            r == Action::DiscardAndFail(e),
            final(self).deadline_ms == old(self).deadline_ms,
    {
        self.phase = Phase::Done;
        self.response.clear();
        Action::DiscardAndFail(e)
    }

    /// Take in what the transport reported, at `now_ms`, and say what is to be
    /// done next. `format` says how the answer's frame ends.
    pub fn step<F: FrameScanner>(&mut self, format: &F, event: Event, now_ms: u64) -> (r: Action)
        ensures
            stepped(*format, *old(self), event, now_ms, *final(self), r),
    {
        match (self.phase, event) {
            (Phase::Writing, Event::Written) => {
                self.phase = Phase::Flushing;
                Action::Flush
            },
            (Phase::Writing, Event::Failed(e)) => {
                self.phase = Phase::Done;
                Action::Fail(e)
            },
            (Phase::Flushing, Event::Failed(e)) => {
                self.phase = Phase::Done;
                Action::Fail(e)
            },
            (Phase::Flushing, Event::Flushed) => {
                self.deadline_ms = now_ms.saturating_add(READ_TIMEOUT_MS);
                self.await_byte(now_ms)
            },
            (Phase::Reading, Event::Failed(e)) => self.abandon(e),
            (Phase::Reading, Event::Eof) => {
                self.phase = Phase::Done;
                Action::Finish(ResponseDisposition::of(self.response.as_slice()))
            },
            (Phase::Reading, Event::Byte(b)) => {
                self.response.push(b);
                if format.frame_complete(self.response.as_slice()) {
                    self.phase = Phase::Done;
                    Action::Finish(ResponseDisposition::ResponseWritten)
                } else if self.response.len() >= MAX_FRAME_LEN {
                    self.abandon(
                        TransportError::Other(
                            text("response exceeded 64 bytes with no terminator"),
                        ),
                    )
                } else {
                    self.await_byte(now_ms)
                }
            },
            (Phase::Writing, _) => Action::Write,
            (Phase::Flushing, _) => Action::Flush,
            (Phase::Reading, _) => Action::Read,
            (Phase::Done, _) => Action::Nothing,
        }
    }
}

/// Where a command without an answer stands.
#[derive(Debug, Clone, Copy, PartialEq, Eq, Structural)]
pub enum Sending {
    Writing,
    Flushing,
    Draining,
    Done,
}

/// What the transport reports of a command without an answer.
#[derive(Debug, PartialEq, Eq)]
pub enum SendEvent {
    Written,
    Flushed,
    Drained,
    Failed(TransportError),
}

/// What is to be done next for a command without an answer. Reading is not
/// among it: the radio owes no answer, and waiting for one would cost the whole
/// read timeout.
#[derive(Debug, PartialEq, Eq)]
pub enum SendAction {
    Write,
    Flush,
    /// Consume whatever the radio volunteers until the line is quiet.
    Drain,
    Finish,
    Fail(TransportError),
    Nothing,
}

/// Whether `event` takes a command from `before` to `after` and asks for
/// `action`. Once the command is flushed nothing can fail it any more.
pub open spec fn send_stepped(
    before: Sending,
    event: SendEvent,
    after: Sending,
    action: SendAction,
) -> bool {
    match (before, event) {
        (Sending::Writing, SendEvent::Written) => after == Sending::Flushing && action
            == SendAction::Flush,
        (Sending::Flushing, SendEvent::Flushed) => after == Sending::Draining && action
            == SendAction::Drain,
        (Sending::Draining, SendEvent::Drained) => after == Sending::Done && action
            == SendAction::Finish,
        (Sending::Writing, SendEvent::Failed(e)) | (Sending::Flushing, SendEvent::Failed(e)) =>
            after == Sending::Done && action == SendAction::Fail(e),
        (Sending::Writing, _) => after == before && action == SendAction::Write,
        (Sending::Flushing, _) => after == before && action == SendAction::Flush,
        (Sending::Draining, _) => after == before && action == SendAction::Drain,
        (Sending::Done, _) => after == before && action == SendAction::Nothing,
    }
}

impl Sending {
    /// Take in what the transport reported and say what is to be done next.
    pub fn step(&mut self, event: SendEvent) -> (r: SendAction)
        ensures
            send_stepped(*old(self), event, *final(self), r),
    {
        match (*self, event) {
            (Sending::Writing, SendEvent::Written) => {
                *self = Sending::Flushing;
                SendAction::Flush
            },
            (Sending::Flushing, SendEvent::Flushed) => {
                *self = Sending::Draining;
                SendAction::Drain
            },
            (Sending::Draining, SendEvent::Drained) => {
                *self = Sending::Done;
                SendAction::Finish
            },
            (Sending::Writing, SendEvent::Failed(e)) => {
                *self = Sending::Done;
                SendAction::Fail(e)
            },
            (Sending::Flushing, SendEvent::Failed(e)) => {
                *self = Sending::Done;
                SendAction::Fail(e)
            },
            (Sending::Writing, _) => SendAction::Write,
            (Sending::Flushing, _) => SendAction::Flush,
            (Sending::Draining, _) => SendAction::Drain,
            (Sending::Done, _) => SendAction::Nothing,
        }
    }
}

/// A frame that ends within the bound is read whole and nothing after it is:
/// fed, before the deadline, bytes of which only all together are a frame, an
/// exchange asks for one byte after another and finishes with exactly these
/// bytes.
pub proof fn a_frame_is_read_to_its_end<F: FrameScanner>(
    format: F,
    xs: Seq<Exchange>,
    bytes: Seq<u8>,
    nows: Seq<u64>,
    actions: Seq<Action>,
)
    requires
        0 < bytes.len() <= MAX_FRAME_LEN,
        xs.len() == bytes.len() + 1,
        nows.len() == bytes.len(),
        actions.len() == bytes.len(),
        xs[0].phase == Phase::Reading,
        xs[0].response@.len() == 0,
        format.complete(bytes),
        forall|k: int| 0 < k < bytes.len() ==> !format.complete(#[trigger] bytes.take(k)),
        forall|i: int| 0 <= i < bytes.len() ==> nows[i] < xs[0].deadline_ms,
        forall|i: int|
            0 <= i < bytes.len() ==> stepped(
                format,
                #[trigger] xs[i],
                Event::Byte(bytes[i]),
                nows[i],
                xs[i + 1],
                actions[i],
            ),
    ensures
        forall|i: int| 0 <= i < bytes.len() - 1 ==> actions[i] == Action::Read,
        actions.last() == Action::Finish(ResponseDisposition::ResponseWritten),
        xs.last().phase == Phase::Done,
        xs.last().response@ == bytes,
{
    let n = bytes.len() as int;
    reading_prefix(format, xs, bytes, nows, actions, n - 1);
    let x = xs[n - 1];
    assert(x.response@.push(bytes[n - 1]) =~= bytes);
    assert forall|i: int| 0 <= i < bytes.len() - 1 implies actions[i] == Action::Read by {
        reading_prefix(format, xs, bytes, nows, actions, i);
        assert(xs[i].response@.push(bytes[i]) =~= bytes.take(i + 1));
    }
}

/// After `k` bytes that are no frame yet the exchange still reads, and has kept
/// all of them.
proof fn reading_prefix<F: FrameScanner>(
    format: F,
    xs: Seq<Exchange>,
    bytes: Seq<u8>,
    nows: Seq<u64>,
    actions: Seq<Action>,
    k: int,
)
    requires
        0 <= k < bytes.len() <= MAX_FRAME_LEN,
        xs.len() == bytes.len() + 1,
        nows.len() == bytes.len(),
        actions.len() == bytes.len(),
        xs[0].phase == Phase::Reading,
        xs[0].response@.len() == 0,
        forall|k: int| 0 < k < bytes.len() ==> !format.complete(#[trigger] bytes.take(k)),
        forall|i: int| 0 <= i < bytes.len() ==> nows[i] < xs[0].deadline_ms,
        forall|i: int|
            0 <= i < bytes.len() ==> stepped(
                format,
                #[trigger] xs[i],
                Event::Byte(bytes[i]),
                nows[i],
                xs[i + 1],
                actions[i],
            ),
    ensures
        xs[k].phase == Phase::Reading,
        xs[k].response@ == bytes.take(k),
        xs[k].deadline_ms == xs[0].deadline_ms,
    decreases k,
{
    if k == 0 {
        assert(bytes.take(0) =~= xs[0].response@);
    } else {
        reading_prefix(format, xs, bytes, nows, actions, k - 1);
        assert(xs[k - 1].response@.push(bytes[k - 1]) =~= bytes.take(k));
    }
}

/// Of a stream of text, a session reads up to the first semicolon: no shorter
/// part of it is a frame, and the part up to there is one.
pub proof fn a_line_ends_at_its_first_semicolon(bytes: Seq<u8>, end: int)
    requires
        0 <= end < bytes.len(),
        bytes[end] == 0x3b,
        forall|i: int| 0 <= i < end ==> bytes[i] != 0x3b,
    ensures
        AsciiLineFormat.complete(bytes.take(end + 1)),
        forall|k: int| 0 <= k <= end ==> !AsciiLineFormat.complete(#[trigger] bytes.take(k)),
{
    assert forall|k: int| 0 <= k <= end implies !AsciiLineFormat.complete(
        #[trigger] bytes.take(k),
    ) by {
        if k > 0 {
            assert(bytes.take(k).last() == bytes[k - 1]);
        }
    }
}

/// An exchange that fails while it reads always discards the receive buffer
/// and its answer, so that no later request reads the rest of it; one that
/// succeeds discards nothing; and while it reads, its answer stays under the
/// bound.
pub proof fn a_failed_read_is_discarded<F: FrameScanner>(
    format: F,
    before: Exchange,
    event: Event,
    now: u64,
    after: Exchange,
    action: Action,
)
    requires
        stepped(format, before, event, now, after, action),
        before.phase == Phase::Reading || before.phase == Phase::Flushing && event is Flushed,
        before.response@.len() < MAX_FRAME_LEN,
    ensures
        !(action is Fail),
        action is DiscardAndFail ==> after.response@.len() == 0,
        after.phase == Phase::Done <==> action is Finish || action is DiscardAndFail,
        after.phase == Phase::Reading ==> after.response@.len() < MAX_FRAME_LEN,
        action matches Action::Finish(d) ==> d == ResponseDisposition::of_len(
            after.response@.len(),
        ),
{
}

/// A command without an answer is finished only once the line has been
/// drained after it.
pub proof fn a_command_is_drained_before_it_finishes(
    before: Sending,
    event: SendEvent,
    after: Sending,
    action: SendAction,
)
    requires
        send_stepped(before, event, after, action),
        action == SendAction::Finish,
    ensures
        before == Sending::Draining,
        event == SendEvent::Drained,
{
}

/// An exchange goes in order: the request is written, then flushed, and only
/// then is the first byte read. A failure before that is passed on as it is,
/// and nothing is discarded: no byte of an answer can have come.
pub proof fn an_exchange_goes_in_order<F: FrameScanner>(
    format: F,
    xs: Seq<Exchange>,
    now: u64,
    first: Action,
    second: Action,
    failure: TransportError,
    failed: Exchange,
    failing: Action,
)
    requires
        xs.len() == 3,
        xs[0].phase == Phase::Writing,
        stepped(format, xs[0], Event::Written, now, xs[1], first),
        stepped(format, xs[1], Event::Flushed, now, xs[2], second),
        stepped(format, xs[0], Event::Failed(failure), now, failed, failing) || stepped(
            format,
            xs[1],
            Event::Failed(failure),
            now,
            failed,
            failing,
        ),
        now < u64::MAX,
    ensures
        first == Action::Flush,
        second == Action::Read,
        xs[2].phase == Phase::Reading,
        xs[2].response@ == xs[0].response@,
        failing == Action::Fail(failure),
        failed.phase == Phase::Done,
        failed.response@ == xs[0].response@,
{
}

/// The whole frame has two seconds from when reading starts, however many bytes
/// come one after another: before they are over the exchange goes on reading,
/// and from then on it has timed out, whatever it has read so far.
pub proof fn a_frame_has_two_seconds<F: FrameScanner>(
    format: F,
    flushing: Exchange,
    started_ms: u64,
    reading: Exchange,
    first: Action,
    byte: u8,
    now_ms: u64,
    after: Exchange,
    action: Action,
)
    requires
        flushing.phase == Phase::Flushing,
        stepped(format, flushing, Event::Flushed, started_ms, reading, first),
        started_ms + 2000 <= u64::MAX,
        stepped(format, reading, Event::Byte(byte), now_ms, after, action),
        !format.complete(reading.response@.push(byte)),
        reading.response@.len() + 1 < MAX_FRAME_LEN,
    ensures
        now_ms < started_ms + 2000 ==> {
            &&& action == Action::Read
            &&& after.response@ == reading.response@.push(byte)
            &&& after.deadline_ms == reading.deadline_ms
        },
        now_ms >= started_ms + 2000 ==> {
            &&& action == Action::DiscardAndFail(TransportError::ReadTimeout)
            &&& after.response@.len() == 0
            &&& after.phase == Phase::Done
        },
{
}

/// How an exchange that reads ends: with the answer where its frame is whole,
/// with what there is where the stream ends, and without an answer where the
/// frame has 64 bytes and no end, or the read fails.
pub proof fn a_read_ends_in_one_of_four_ways<F: FrameScanner>(
    format: F,
    before: Exchange,
    event: Event,
    now: u64,
    after: Exchange,
    action: Action,
)
    requires
        before.phase == Phase::Reading,
        stepped(format, before, event, now, after, action),
    ensures
        event matches Event::Byte(b) ==> {
            let response = before.response@.push(b);
            &&& format.complete(response) ==> action == Action::Finish(
                ResponseDisposition::ResponseWritten,
            ) && after.response@ == response
            &&& !format.complete(response) && response.len() >= 64 ==> (
            action matches Action::DiscardAndFail(TransportError::Other(why)) && why@
                == "response exceeded 64 bytes with no terminator"@) && after.response@.len() == 0
        },
        event is Eof ==> after.response@ == before.response@ && (if before.response@.len() == 0 {
            action == Action::Finish(ResponseDisposition::NoResponse)
        } else {
            action == Action::Finish(ResponseDisposition::ResponseWritten)
        }),
        event matches Event::Failed(e) ==> action == Action::DiscardAndFail(e)
            && after.response@.len() == 0,
        action is Finish || action is DiscardAndFail <==> after.phase == Phase::Done,
{
}

/// A command without an answer is written, flushed and drained, in that order.
/// A failure to write or to flush is passed on, and draining cannot fail it.
pub proof fn a_command_goes_in_order(
    states: Seq<Sending>,
    actions: Seq<SendAction>,
    e: TransportError,
    failed: Sending,
    failing: SendAction,
)
    requires
        states.len() == 4,
        actions.len() == 3,
        states[0] == Sending::Writing,
        send_stepped(states[0], SendEvent::Written, states[1], actions[0]),
        send_stepped(states[1], SendEvent::Flushed, states[2], actions[1]),
        send_stepped(states[2], SendEvent::Drained, states[3], actions[2]),
        send_stepped(states[0], SendEvent::Failed(e), failed, failing) || send_stepped(
            states[1],
            SendEvent::Failed(e),
            failed,
            failing,
        ),
    ensures
        actions[0] == SendAction::Flush,
        actions[1] == SendAction::Drain,
        actions[2] == SendAction::Finish,
        states[3] == Sending::Done,
        failing == SendAction::Fail(e),
        failed == Sending::Done,
{
}

/// A binary frame ends with its own byte and with no other.
pub proof fn a_frame_ends_with_its_own_byte(format: EndByteFormat, bytes: Seq<u8>, last: u8)
    ensures
        format.complete(bytes.push(last)) <==> last == format.end,
        AsciiLineFormat.complete(bytes.push(last)) <==> last == ';' as u8,
        !format.complete(Seq::<u8>::empty()),
        !AsciiLineFormat.complete(Seq::<u8>::empty()),
{
}

} // verus!
