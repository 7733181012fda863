//! One request and its answer over a socket that may bring anything from
//! anyone.
//!
//! The socket's calls are made by whoever drives a session: it is handed the
//! datagram to send, and hands back every datagram that arrives until one of
//! them is the answer.

use crate::bytes::be_bounds;
use crate::bytes::be_value;
use crate::bytes::be_value_fits;
use crate::bytes::push_bytes;
use crate::serial::error::io_failure;
use crate::serial::error::IoFailure;
use crate::serial::error::IoKind;
use crate::serial::error::ResponseDisposition;
use crate::udp::codec::an_envelope_is_read_back;
use crate::udp::codec::decode_envelope;
use crate::udp::codec::encode_envelope;
use crate::udp::codec::envelope_bytes;
use crate::udp::codec::envelope_of;
use crate::udp::codec::remembered;
use crate::udp::codec::PeerAddr;
use crate::udp::codec::RequestIdCache;
use crate::udp::codec::the_session_id_comes_first;
use crate::udp::codec::UdpSessionError;
use crate::udp::codec::MAX_PAYLOAD_SIZE;
use vstd::prelude::*;
use vstd::slice::*;

verus! {

/// A session with one peer.
#[derive(Debug)]
pub struct UdpCatSession {
    pub peer_addr: PeerAddr,
    pub session_id: u64,
    pub next_request_id: u64,
    pub dedup_cache: RequestIdCache,
    pub response_timeout_ns: u64,
    /// When the answer to the request in flight is overdue, in nanoseconds.
    pub deadline_ns: u64,
}

/// What one wait for a datagram brought.
#[derive(Debug, PartialEq, Eq)]
pub enum Incoming {
    Datagram {
        from: PeerAddr,
        bytes: Vec<u8>,
    },
    /// The time given to the wait has passed.
    TimedOut,
    Failed(IoFailure),
}

/// What becomes of a datagram.
#[derive(Debug, PartialEq, Eq)]
pub enum Received {
    /// It is the answer: its payload.
    Answer(Vec<u8>),
    /// It is not ours, or it is noise: wait on.
    Ignored(Reason),
    Failed(UdpSessionError),
}

/// Why a datagram is not the answer.
#[derive(Debug, Clone, Copy, PartialEq, Eq, Structural)]
pub enum Reason {
    OtherSender,
    TooShort,
    OtherSession,
    /// The answer to a request that was already completed.
    Duplicate,
    OtherRequest,
}

/// One step of a session, with what came of it.
#[derive(Debug)]
pub enum Step {
    Begin {
        request: Vec<u8>,
        result: Result<Vec<u8>, UdpSessionError>,
    },
    Sent {
        now_ns: u64,
    },
    Receive {
        incoming: Incoming,
        received: Received,
    },
}

/// Where the local socket is bound: any address of the peer's family, any
/// port.
#[derive(Debug, Clone, Copy, PartialEq, Eq, Structural)]
pub enum BindAddr {
    AnyV4,
    AnyV6,
}

/// The local address for talking to a peer.
pub fn bind_addr(peer: PeerAddr) -> (r: BindAddr)
    ensures
        r == (if peer is V6 {
            BindAddr::AnyV6
        } else {
            BindAddr::AnyV4
        }),
{
    match peer {
        PeerAddr::V6 { .. } => BindAddr::AnyV6,
        PeerAddr::V4 { .. } => BindAddr::AnyV4,
    }
}

/// What a datagram from `from` is to a session that waits for the answer to
/// `request_id`: its payload, or why it is not the answer.
pub open spec fn classified(
    peer: PeerAddr,
    session_id: u64,
    request_id: u64,
    completed: Seq<u64>,
    from: PeerAddr,
    bytes: Seq<u8>,
) -> Result<Seq<u8>, Reason> {
    if from != peer {
        Err(Reason::OtherSender)
    } else {
        match envelope_of(bytes) {
            None => Err(Reason::TooShort),
            Some((session, request, payload)) => if session != session_id {
                Err(Reason::OtherSession)
            } else if request != request_id {
                if completed.contains(request) {
                    Err(Reason::Duplicate)
                } else {
                    Err(Reason::OtherRequest)
                }
            } else {
                Ok(payload)
            },
        }
    }
}

/// The id after `id`, wrapping around at the end.
pub open spec fn id_after(id: u64) -> u64 {
    if id == u64::MAX {
        0
    } else {
        (id + 1) as u64
    }
}

/// Whether starting `request` takes a session from `before` to `after` with
/// this result: the request has the next id, and its envelope is to be sent
/// unless it is too long.
pub open spec fn begun(
    before: UdpCatSession,
    request: Seq<u8>,
    after: UdpCatSession,
    r: Result<Vec<u8>, UdpSessionError>,
) -> bool {
    &&& after == (UdpCatSession { next_request_id: id_after(before.next_request_id), ..before })
    &&& request.len() <= MAX_PAYLOAD_SIZE ==> (r matches Ok(datagram) && datagram@
        == envelope_bytes(before.session_id, after.next_request_id, request))
    &&& request.len() > MAX_PAYLOAD_SIZE ==> r == Err::<Vec<u8>, UdpSessionError>(
        UdpSessionError::PayloadTooLarge { len: request.len() as usize, max: MAX_PAYLOAD_SIZE },
    )
}

/// Whether a request that went out at `now_ns` takes a session from `before`
/// to `after`: its answer has a deadline.
pub open spec fn dated(before: UdpCatSession, now_ns: u64, after: UdpCatSession) -> bool {
    after == (UdpCatSession {
        deadline_ns: if now_ns + before.response_timeout_ns <= u64::MAX {
            (now_ns + before.response_timeout_ns) as u64
        } else {
            u64::MAX
        },
        ..before
    })
}

/// How long the next wait of a session may last at `now_ns`.
pub open spec fn wait_left(session: UdpCatSession, now_ns: u64) -> Result<u64, UdpSessionError> {
    if now_ns < session.deadline_ns {
        Ok((session.deadline_ns - now_ns) as u64)
    } else {
        Err(
            UdpSessionError::Timeout {
                peer: session.peer_addr,
                timeout_ns: session.response_timeout_ns,
            },
        )
    }
}

/// Whether what one wait brought takes a session from `before` to `after` and
/// is this to the request in flight.
pub open spec fn taken_in(
    before: UdpCatSession,
    incoming: Incoming,
    after: UdpCatSession,
    r: Received,
) -> bool {
    &&& after.same_but_cache(before)
    &&& after.dedup_cache.entries@ == (if r is Answer {
        remembered(before.dedup_cache.entries@, before.next_request_id)
    } else {
        before.dedup_cache.entries@
    })
    &&& match incoming {
        Incoming::TimedOut => r == Received::Failed(
            UdpSessionError::Timeout {
                peer: before.peer_addr,
                timeout_ns: before.response_timeout_ns,
            },
        ),
        Incoming::Failed(failure) => r == Received::Failed(UdpSessionError::Io(failure)),
        Incoming::Datagram { from, bytes } => match classified(
            before.peer_addr,
            before.session_id,
            before.next_request_id,
            before.dedup_cache.entries@,
            from,
            bytes@,
        ) {
            Ok(payload) => r matches Received::Answer(answer) && answer@ == payload,
            Err(reason) => r == Received::Ignored(reason),
        },
    }
}

/// Whether a step takes a session from `before` to `after`.
pub open spec fn stepped(before: UdpCatSession, step: Step, after: UdpCatSession) -> bool {
    match step {
        Step::Begin { request, result } => begun(before, request@, after, result),
        Step::Sent { now_ns } => dated(before, now_ns, after),
        Step::Receive { incoming, received } => taken_in(before, incoming, after, received),
    }
}

/// How many requests are started in a run of steps.
pub open spec fn requests_in(steps: Seq<Step>) -> nat
    decreases steps.len(),
{
    if steps.len() == 0 {
        0
    } else {
        requests_in(steps.drop_last()) + if steps.last() is Begin {
            1nat
        } else {
            0
        }
    }
}

/// Whether the end of a request leaves `after` of the caller's `before`.
pub open spec fn finished(
    answer: Result<Vec<u8>, UdpSessionError>,
    before: Seq<u8>,
    after: Seq<u8>,
    r: Result<ResponseDisposition, UdpSessionError>,
) -> bool {
    match answer {
        Ok(payload) => {
            &&& after == before + payload@
            &&& r == Ok::<ResponseDisposition, UdpSessionError>(
                ResponseDisposition::of_len(payload@.len()),
            )
        },
        Err(e) => {
            &&& after == before
            &&& r == Err::<ResponseDisposition, UdpSessionError>(e)
        },
    }
}

impl UdpCatSession {
    pub open spec fn wf(self) -> bool {
        self.dedup_cache.wf()
    }

    /// The two sessions differ in nothing but the memory of completed
    /// requests.
    pub open spec fn same_but_cache(self, other: UdpCatSession) -> bool {
        &&& self.peer_addr == other.peer_addr
        &&& self.session_id == other.session_id
        &&& self.next_request_id == other.next_request_id
        &&& self.response_timeout_ns == other.response_timeout_ns
        &&& self.deadline_ns == other.deadline_ns
    }

    /// A session that has sent nothing yet.
    pub fn new(peer_addr: PeerAddr, session_id: u64, response_timeout_ns: u64) -> (r: UdpCatSession)
        ensures
            r.wf(),
            r.peer_addr == peer_addr,
            r.session_id == session_id,
            r.next_request_id == 0,
            r.dedup_cache.entries@ == Seq::<u64>::empty(),
            r.response_timeout_ns == response_timeout_ns,
            r.deadline_ns == 0,
    {
        UdpCatSession {
            peer_addr,
            session_id,
            next_request_id: 0,
            dedup_cache: RequestIdCache::new(),
            response_timeout_ns,
            deadline_ns: 0,
        }
    }

    /// The id every datagram of this session carries.
    pub fn session_id(&self) -> (r: u64)
        ensures
            r == self.session_id,
    {
        self.session_id
    }

    /// Remember that a request was answered.
    pub fn remember_completed(&mut self, request_id: u64)
        requires
            old(self).wf(),
        ensures
            final(self).wf(),
            final(self).same_but_cache(*old(self)),
            final(self).dedup_cache.entries@ == remembered(
                old(self).dedup_cache.entries@,
                request_id,
            ),
    {
        self.dedup_cache.remember_completed(request_id);
    }

    /// Whether a request is remembered as answered.
    pub fn is_known_duplicate(&self, request_id: u64) -> (r: bool)
        requires
            self.wf(),
        ensures
            r == self.dedup_cache.entries@.contains(request_id),
    {
        self.dedup_cache.is_known_duplicate(request_id)
    }

    /// Start a request: the datagram to send to the peer. Every request gets
    /// the next id, also one whose payload is too long to be sent.
    pub fn begin(&mut self, request: &[u8]) -> (r: Result<Vec<u8>, UdpSessionError>)
        ensures
            begun(*old(self), request@, *final(self), r),
    {
        self.next_request_id = self.next_request_id.wrapping_add(1);
        encode_envelope(self.session_id, self.next_request_id, request)
    }

    /// The request went out at `now_ns`. Its answer has one deadline, however
    /// many other datagrams arrive meanwhile.
    pub fn sent(&mut self, now_ns: u64)
        ensures
            dated(*old(self), now_ns, *final(self)),
            now_ns + old(self).response_timeout_ns <= u64::MAX ==> final(self).deadline_ns == now_ns
                + old(self).response_timeout_ns,
    {
        self.deadline_ns = now_ns.saturating_add(self.response_timeout_ns);
    }

    /// How long the next wait may last, in nanoseconds, or the timeout where
    /// no time is left.
    pub fn time_left(&self, now_ns: u64) -> (r: Result<u64, UdpSessionError>)
        ensures
            r == wait_left(*self, now_ns),
            now_ns < self.deadline_ns ==> r == Ok::<u64, UdpSessionError>(
                (self.deadline_ns - now_ns) as u64,
            ),
            now_ns >= self.deadline_ns ==> r == Err::<u64, UdpSessionError>(
                UdpSessionError::Timeout {
                    peer: self.peer_addr,
                    timeout_ns: self.response_timeout_ns,
                },
            ),
    {
        if now_ns >= self.deadline_ns {
            Err(self.timed_out())
        } else {
            Ok(self.deadline_ns - now_ns)
        }
    }

    fn timed_out(&self) -> (r: UdpSessionError)
        ensures
            r == (UdpSessionError::Timeout {
                peer: self.peer_addr,
                timeout_ns: self.response_timeout_ns,
            }),
    {
        UdpSessionError::Timeout { peer: self.peer_addr, timeout_ns: self.response_timeout_ns }
    }

    /// Take in what one wait brought. The answer completes the request, which
    /// is then remembered; nothing else changes the session.
    pub fn receive(&mut self, incoming: Incoming) -> (r: Received)
        requires
            old(self).wf(),
        ensures
            final(self).wf(),
            taken_in(*old(self), incoming, *final(self), r),
    {
        match incoming {
            Incoming::TimedOut => Received::Failed(self.timed_out()),
            Incoming::Failed(failure) => Received::Failed(UdpSessionError::Io(failure)),
            Incoming::Datagram { from, bytes } => {
                if from != self.peer_addr {
                    return Received::Ignored(Reason::OtherSender);
                }
                match decode_envelope(bytes.as_slice()) {
                    None => Received::Ignored(Reason::TooShort),
                    Some((session, request, payload)) => {
                        if session != self.session_id {
                            Received::Ignored(Reason::OtherSession)
                        } else if request != self.next_request_id {
                            if self.is_known_duplicate(request) {
                                Received::Ignored(Reason::Duplicate)
                            } else {
                                Received::Ignored(Reason::OtherRequest)
                            }
                        } else {
                            self.remember_completed(request);
                            Received::Answer(slice_to_vec(payload))
                        }
                    },
                }
            },
        }
    }
}

/// End a request: append its answer to `response`. A request that failed
/// leaves `response` as it was.
pub fn finish_exchange(answer: Result<Vec<u8>, UdpSessionError>, response: &mut Vec<u8>) -> (r:
    Result<ResponseDisposition, UdpSessionError>)
    ensures
        finished(answer, old(response)@, final(response)@, r),
{
    match answer {
        Ok(payload) => {
            push_bytes(response, payload.as_slice());
            Ok(ResponseDisposition::of(payload.as_slice()))
        },
        Err(e) => Err(e),
    }
}

/// What a caller is told when the worker that serves the socket is gone.
pub fn worker_gone_error() -> (r: UdpSessionError)
    ensures
        r matches UdpSessionError::Io(failure) && failure.kind == IoKind::BrokenPipe
            && failure.message@
            == "cat-transport-udp: Windows worker thread is no longer running"@,
{
    UdpSessionError::Io(
        io_failure(
            IoKind::BrokenPipe,
            "cat-transport-udp: Windows worker thread is no longer running",
        ),
    )
}

/// A peer that answers a request under its session and request ids is
/// understood, and nobody else is: a datagram is taken for the answer exactly
/// where it comes from the peer and is the envelope of the two ids.
pub proof fn only_the_peers_envelope_is_the_answer(
    peer: PeerAddr,
    session_id: u64,
    request_id: u64,
    completed: Seq<u64>,
    from: PeerAddr,
    bytes: Seq<u8>,
    payload: Seq<u8>,
)
    ensures
        classified(peer, session_id, request_id, completed, from, bytes) == Ok::<
            Seq<u8>,
            Reason,
        >(payload) <==> from == peer && bytes == envelope_bytes(session_id, request_id, payload),
{
    an_envelope_is_read_back(session_id, request_id, payload);
    if bytes.len() >= 16 {
        crate::udp::codec::a_decoded_envelope_is_exact(bytes);
    }
}

/// The `k`th request of a session has the id `k`, whatever became of the
/// requests before it: its datagram is the envelope of the session's id, `k`
/// and the payload. A payload that is too long is refused and still uses `k`
/// up. Past the largest id the count starts again at zero.
pub proof fn the_kth_request_carries_the_id_k(
    sessions: Seq<UdpCatSession>,
    steps: Seq<Step>,
    k: nat,
)
    requires
        steps.len() > 0,
        sessions.len() == steps.len() + 1,
        sessions[0].next_request_id == 0,
        forall|i: int|
            0 <= i < steps.len() ==> stepped(sessions[i], #[trigger] steps[i], sessions[i + 1]),
        steps.last() is Begin,
        k == requests_in(steps),
    ensures
        ({
            let id = (k % 0x1_0000_0000_0000_0000) as u64;
            let request = steps.last()->request@;
            &&& k <= u64::MAX ==> id == k
            &&& sessions.last().next_request_id == id
            &&& if request.len() <= MAX_PAYLOAD_SIZE {
                steps.last()->result matches Ok(datagram) && datagram@ == envelope_bytes(
                    sessions[0].session_id,
                    id,
                    request,
                )
            } else {
                steps.last()->result == Err::<Vec<u8>, UdpSessionError>(
                    UdpSessionError::PayloadTooLarge {
                        len: request.len() as usize,
                        max: MAX_PAYLOAD_SIZE,
                    },
                )
            }
        }),
{
    requests_are_counted(sessions, steps);
    let n = steps.len() - 1;
    let earlier = sessions.drop_last();
    assert forall|i: int| 0 <= i < n implies stepped(
        earlier[i],
        #[trigger] steps.drop_last()[i],
        earlier[i + 1],
    ) by {
        assert(stepped(sessions[i], steps[i], sessions[i + 1]));
    }
    requests_are_counted(earlier, steps.drop_last());
    assert(stepped(sessions[n], steps[n], sessions[n + 1]));
    if k <= u64::MAX {
        vstd::arithmetic::div_mod::lemma_small_mod(k, 0x1_0000_0000_0000_0000);
    }
}

/// The id of a session's latest request is the number of requests so far, and
/// its own id and peer never change.
proof fn requests_are_counted(sessions: Seq<UdpCatSession>, steps: Seq<Step>)
    requires
        sessions.len() == steps.len() + 1,
        sessions[0].next_request_id == 0,
        forall|i: int|
            0 <= i < steps.len() ==> stepped(sessions[i], #[trigger] steps[i], sessions[i + 1]),
    ensures
        sessions.last().next_request_id == requests_in(steps) % 0x1_0000_0000_0000_0000,
        sessions.last().session_id == sessions[0].session_id,
        sessions.last().peer_addr == sessions[0].peer_addr,
    decreases steps.len(),
{
    if steps.len() > 0 {
        let n = steps.len() - 1;
        let earlier = sessions.drop_last();
        assert forall|i: int| 0 <= i < n implies stepped(
            earlier[i],
            #[trigger] steps.drop_last()[i],
            earlier[i + 1],
        ) by {
            assert(stepped(sessions[i], steps[i], sessions[i + 1]));
        }
        requests_are_counted(earlier, steps.drop_last());
        assert(stepped(sessions[n], steps[n], sessions[n + 1]));
    }
}

/// A request succeeds only with an envelope that the peer sent under the
/// session's id and the request's own; then the payload of that envelope is
/// appended to the caller's response, and there was no response exactly where
/// the payload is empty. A request that fails leaves the response as it was.
pub proof fn an_answer_is_appended_and_a_failure_changes_nothing(
    before: UdpCatSession,
    incoming: Incoming,
    after: UdpCatSession,
    received: Received,
    answer: Result<Vec<u8>, UdpSessionError>,
    response: Seq<u8>,
    extended: Seq<u8>,
    r: Result<ResponseDisposition, UdpSessionError>,
)
    requires
        taken_in(before, incoming, after, received),
        match received {
            Received::Answer(payload) => answer == Ok::<Vec<u8>, UdpSessionError>(payload),
            Received::Failed(e) => answer == Err::<Vec<u8>, UdpSessionError>(e),
            Received::Ignored(_) => false,
        },
        finished(answer, response, extended, r),
    ensures
        r matches Ok(disposition) ==> {
            &&& incoming is Datagram
            &&& incoming->from == before.peer_addr
            &&& answer is Ok
            &&& incoming->bytes@ == envelope_bytes(
                before.session_id,
                before.next_request_id,
                answer->Ok_0@,
            )
            &&& extended == response + answer->Ok_0@
            &&& disposition == ResponseDisposition::NoResponse <==> answer->Ok_0@.len() == 0
        },
        r is Err ==> extended == response,
{
    if incoming is Datagram && answer is Ok {
        only_the_peers_envelope_is_the_answer(
            before.peer_addr,
            before.session_id,
            before.next_request_id,
            before.dedup_cache.entries@,
            incoming->from,
            incoming->bytes@,
            answer->Ok_0@,
        );
    }
}

/// Whether a request whose last step was `last` came to this answer. A request
/// that was refused, or whose wait failed, has the error it got. One that ends
/// in any other step without an answer has failed outside the session: its
/// datagram could not be sent, or its time ran out.
pub open spec fn came_to(last: Step, answer: Result<Vec<u8>, UdpSessionError>) -> bool {
    match last {
        Step::Begin { result: Err(e), .. } => answer == Err::<Vec<u8>, UdpSessionError>(e),
        Step::Receive { received: Received::Answer(payload), .. } => answer == Ok::<
            Vec<u8>,
            UdpSessionError,
        >(payload),
        Step::Receive { received: Received::Failed(e), .. } => answer == Err::<
            Vec<u8>,
            UdpSessionError,
        >(e),
        _ => answer is Err,
    }
}

/// The `k`th exchange of a session, from the request that starts it at step
/// `at` to its end, whatever became of the exchanges before it. Its one
/// datagram carries the session's id and `k`. A request that is too long has no
/// datagram, fails for that reason, and uses `k` up. It succeeds only with the
/// peer's envelope of the same two ids, whose payload is appended to the
/// caller's response; there was no response exactly where the payload is empty.
/// An exchange that fails leaves the response as it was.
pub proof fn the_kth_exchange_is_answered_under_the_id_k(
    sessions: Seq<UdpCatSession>,
    steps: Seq<Step>,
    at: int,
    k: nat,
    answer: Result<Vec<u8>, UdpSessionError>,
    response: Seq<u8>,
    extended: Seq<u8>,
    r: Result<ResponseDisposition, UdpSessionError>,
)
    requires
        sessions.len() == steps.len() + 1,
        sessions[0].next_request_id == 0,
        forall|i: int|
            0 <= i < steps.len() ==> stepped(sessions[i], #[trigger] steps[i], sessions[i + 1]),
        0 <= at < steps.len(),
        steps[at] is Begin,
        steps[at]->result is Err ==> at == steps.len() - 1,
        forall|i: int| at < i < steps.len() ==> #[trigger] steps[i] !is Begin,
        k == requests_in(steps.take(at + 1)),
        came_to(steps.last(), answer),
        finished(answer, response, extended, r),
    ensures
        ({
            let id = (k % 0x1_0000_0000_0000_0000) as u64;
            let session_id = sessions[0].session_id;
            let request = steps[at]->request@;
            &&& k <= u64::MAX ==> id == k
            &&& request.len() <= MAX_PAYLOAD_SIZE ==> (steps[at]->result matches Ok(datagram)
                && datagram@ == envelope_bytes(session_id, id, request))
            &&& request.len() > MAX_PAYLOAD_SIZE ==> steps[at]->result is Err && r == Err::<
                ResponseDisposition,
                UdpSessionError,
            >(
                UdpSessionError::PayloadTooLarge {
                    len: request.len() as usize,
                    max: MAX_PAYLOAD_SIZE,
                },
            )
            &&& r is Err ==> extended == response
            &&& r matches Ok(disposition) ==> {
                &&& answer is Ok
                &&& steps.last() is Receive
                &&& steps.last()->incoming is Datagram
                &&& steps.last()->incoming->from == sessions[0].peer_addr
                &&& steps.last()->incoming->bytes@ == envelope_bytes(
                    session_id,
                    id,
                    answer->Ok_0@,
                )
                &&& extended == response + answer->Ok_0@
                &&& disposition == ResponseDisposition::NoResponse <==> answer->Ok_0@.len() == 0
            }
        }),
{
    let begun_by = steps.take(at + 1);
    let until = sessions.take(at + 2);
    assert forall|i: int| 0 <= i < begun_by.len() implies stepped(
        until[i],
        #[trigger] begun_by[i],
        until[i + 1],
    ) by {
        assert(stepped(sessions[i], steps[i], sessions[i + 1]));
    }
    the_kth_request_carries_the_id_k(until, begun_by, k);
    requests_are_counted(until, begun_by);
    let n = steps.len() - 1;
    if answer is Ok {
        assert(stepped(sessions[n], steps[n], sessions[n + 1]));
        ids_stay(sessions, steps, at, n);
        an_answer_is_appended_and_a_failure_changes_nothing(
            sessions[n],
            steps[n]->incoming,
            sessions[n + 1],
            steps[n]->received,
            answer,
            response,
            extended,
            r,
        );
    }
}

/// Until the next request, a session keeps its ids and its peer.
proof fn ids_stay(sessions: Seq<UdpCatSession>, steps: Seq<Step>, at: int, n: int)
    requires
        sessions.len() == steps.len() + 1,
        forall|i: int|
            0 <= i < steps.len() ==> stepped(sessions[i], #[trigger] steps[i], sessions[i + 1]),
        0 <= at < n <= steps.len(),
        forall|i: int| at < i < steps.len() ==> #[trigger] steps[i] !is Begin,
    ensures
        sessions[n].next_request_id == sessions[at + 1].next_request_id,
        sessions[n].session_id == sessions[at + 1].session_id,
        sessions[n].peer_addr == sessions[at + 1].peer_addr,
    decreases n,
{
    if n > at + 1 {
        ids_stay(sessions, steps, at, n - 1);
        assert(stepped(sessions[n - 1], steps[n - 1], sessions[n]));
    }
}

/// Consecutive requests never share an id, so a late answer to one is never
/// taken for the answer to the next.
pub proof fn a_late_answer_is_ignored(
    peer: PeerAddr,
    session_id: u64,
    earlier: u64,
    completed: Seq<u64>,
    payload: Seq<u8>,
)
    ensures
        id_after(earlier) != earlier,
        classified(
            peer,
            session_id,
            id_after(earlier),
            completed,
            peer,
            envelope_bytes(session_id, earlier, payload),
        ) is Err,
{
    an_envelope_is_read_back(session_id, earlier, payload);
}

/// A request that went out at `sent_ns` has the whole timeout for its answer
/// and not a nanosecond more: at any moment before, what is left is what the
/// timeout has not used up, and from then on the wait is over. Datagrams that
/// arrive meanwhile, the answer among them, do not move that moment.
pub proof fn an_answer_has_the_whole_timeout(
    before: UdpCatSession,
    sent_ns: u64,
    waiting: UdpCatSession,
    incoming: Incoming,
    received: Received,
    after: UdpCatSession,
    now_ns: u64,
)
    requires
        dated(before, sent_ns, waiting),
        taken_in(waiting, incoming, after, received),
        sent_ns + before.response_timeout_ns <= u64::MAX,
        sent_ns <= now_ns,
    ensures
        now_ns < sent_ns + before.response_timeout_ns ==> {
            &&& wait_left(waiting, now_ns) == Ok::<u64, UdpSessionError>(
                (sent_ns + before.response_timeout_ns - now_ns) as u64,
            )
            &&& wait_left(after, now_ns) == wait_left(waiting, now_ns)
        },
        now_ns >= sent_ns + before.response_timeout_ns ==> {
            &&& wait_left(waiting, now_ns) == Err::<u64, UdpSessionError>(
                UdpSessionError::Timeout {
                    peer: before.peer_addr,
                    timeout_ns: before.response_timeout_ns,
                },
            )
            &&& wait_left(after, now_ns) == wait_left(waiting, now_ns)
        },
{
}

/// What one wait means to the request in flight, whatever it brought. A failure
/// of the socket is passed on as it is, and the end of the wait is the timeout
/// of this peer. A datagram that is not the answer leaves everything as it was.
/// The answer is remembered as the newest completed request, and the others
/// that are still remembered were remembered before.
pub proof fn a_wait_changes_nothing_but_the_memory(
    before: UdpCatSession,
    incoming: Incoming,
    after: UdpCatSession,
    received: Received,
)
    requires
        before.wf(),
        taken_in(before, incoming, after, received),
    ensures
        after.peer_addr == before.peer_addr,
        after.session_id == before.session_id,
        after.next_request_id == before.next_request_id,
        after.response_timeout_ns == before.response_timeout_ns,
        after.deadline_ns == before.deadline_ns,
        incoming matches Incoming::Failed(failure) ==> received == Received::Failed(
            UdpSessionError::Io(failure),
        ),
        incoming is TimedOut ==> received == Received::Failed(
            UdpSessionError::Timeout {
                peer: before.peer_addr,
                timeout_ns: before.response_timeout_ns,
            },
        ),
        incoming is Datagram ==> !(received is Failed),
        !(received is Answer) ==> after.dedup_cache.entries@ == before.dedup_cache.entries@,
        received is Answer ==> after.dedup_cache.entries@.last() == before.next_request_id,
        received is Answer ==> forall|id: u64|
            after.dedup_cache.entries@.contains(id) && id != before.next_request_id
                ==> before.dedup_cache.entries@.contains(id),
{
    if received is Answer {
        let old_ids = before.dedup_cache.entries@;
        let new_ids = after.dedup_cache.entries@;
        assert forall|id: u64| new_ids.contains(id) && id != before.next_request_id implies
            old_ids.contains(id) by {
            let i = choose|i: int| 0 <= i < new_ids.len() && new_ids[i] == id;
            if old_ids.len() + 1 == new_ids.len() {
                assert(old_ids[i] == id);
            } else {
                assert(old_ids[i + 1] == id);
            }
        }
    }
}

/// What a datagram is that is not the answer: one of another sender, one too
/// short for a header, one of another session, the answer to a request that was
/// completed already, or one to a request nobody waits for; each is told by its
/// sender, its length and the bytes of its header alone.
pub proof fn what_is_not_the_answer_says_why(
    before: UdpCatSession,
    from: PeerAddr,
    bytes: Vec<u8>,
    after: UdpCatSession,
    r: Received,
)
    requires
        taken_in(before, Incoming::Datagram { from, bytes }, after, r),
    ensures
        ({
            let session = be_value(bytes@.subrange(0, 8));
            let request = be_value(bytes@.subrange(8, 16));
            let known = exists|i: int|
                0 <= i < before.dedup_cache.entries@.len()
                    && #[trigger] before.dedup_cache.entries@[i] == request;
            &&& from != before.peer_addr <==> r == Received::Ignored(Reason::OtherSender)
            &&& from == before.peer_addr && bytes@.len() < 16 ==> r == Received::Ignored(
                Reason::TooShort,
            )
            &&& from == before.peer_addr && bytes@.len() >= 16 && session != before.session_id
                ==> r == Received::Ignored(Reason::OtherSession)
            &&& from == before.peer_addr && bytes@.len() >= 16 && session == before.session_id
                && request != before.next_request_id && known ==> r == Received::Ignored(
                Reason::Duplicate,
            )
            &&& from == before.peer_addr && bytes@.len() >= 16 && session == before.session_id
                && request != before.next_request_id && !known ==> r == Received::Ignored(
                Reason::OtherRequest,
            )
            &&& from == before.peer_addr && bytes@.len() >= 16 && session == before.session_id
                && request == before.next_request_id ==> (r matches Received::Answer(answer)
                && answer@ == bytes@.skip(16))
        }),
{
    if bytes@.len() >= 16 {
        be_bounds();
        be_value_fits(bytes@.subrange(0, 8));
        be_value_fits(bytes@.subrange(8, 16));
        let request = be_value(bytes@.subrange(8, 16));
        let entries = before.dedup_cache.entries@;
        if entries.contains(request as u64) {
            let i = choose|i: int| 0 <= i < entries.len() && entries[i] == request as u64;
            assert(entries[i] == request);
        }
        if exists|i: int| 0 <= i < entries.len() && #[trigger] entries[i] == request {
            let i = choose|i: int| 0 <= i < entries.len() && #[trigger] entries[i] == request;
            assert(entries[i] == request as u64);
        }
    }
}

/// A request that was answered is remembered as completed, and nothing else
/// is: neither one that failed nor one whose answer has not come.
pub proof fn only_an_answered_request_is_remembered(
    before: UdpCatSession,
    incoming: Incoming,
    after: UdpCatSession,
    r: Received,
)
    requires
        taken_in(before, incoming, after, r),
    ensures
        r is Answer ==> after.dedup_cache.entries@.len() > 0 && after.dedup_cache.entries@.last()
            == before.next_request_id,
        !(r is Answer) ==> after.dedup_cache.entries@ == before.dedup_cache.entries@,
        incoming is TimedOut ==> r == Received::Failed(
            UdpSessionError::Timeout {
                peer: before.peer_addr,
                timeout_ns: before.response_timeout_ns,
            },
        ),
        incoming matches Incoming::Failed(failure) ==> r == Received::Failed(
            UdpSessionError::Io(failure),
        ),
{
}

/// A request that goes out carries the session's id and an id of its own, one
/// more than that of the request before it, and its bytes; one of more than
/// 1024 bytes does not go out, and says how long it was.
pub proof fn a_request_goes_out_under_the_next_id(
    before: UdpCatSession,
    request: Seq<u8>,
    after: UdpCatSession,
    r: Result<Vec<u8>, UdpSessionError>,
)
    requires
        begun(before, request, after, r),
    ensures
        before.next_request_id < u64::MAX ==> after.next_request_id == before.next_request_id + 1,
        before.next_request_id == u64::MAX ==> after.next_request_id == 0,
        request.len() <= 1024 ==> (r matches Ok(datagram) && {
            &&& datagram@.len() == 16 + request.len()
            &&& be_value(datagram@.subrange(0, 8)) == before.session_id
            &&& be_value(datagram@.subrange(8, 16)) == after.next_request_id
            &&& datagram@.skip(16) == request
        }),
        request.len() > 1024 ==> (r matches Err(UdpSessionError::PayloadTooLarge { len, max })
            && len == request.len() as usize && max == 1024),
{
    the_session_id_comes_first(before.session_id, after.next_request_id, request);
}

} // verus!
