//! Envelopes: a session id and a request id, eight big-endian bytes each, and
//! the payload. And the memory of completed requests.

use crate::bytes::be_bounds;
use crate::bytes::be_bytes;
use crate::bytes::be_round_trip;
use crate::bytes::be_value;
use crate::bytes::be_value_fits;
use crate::bytes::be_value_is_exact;
use crate::bytes::push_be;
use crate::bytes::push_bytes;
use crate::bytes::read_be;
use crate::serial::error::IoFailure;
use crate::text::decimal;
use crate::text::push_decimal;
use crate::text::push_text;
use crate::text::text;
use std::collections::hash_map::DefaultHasher;
use std::collections::hash_map::RandomState;
use std::collections::VecDeque;
use std::hash::BuildHasher;
use std::hash::Hasher;
use vstd::prelude::*;
use vstd::slice::*;
use vstd::string::*;

verus! {

/// Width of the session id, in bytes.
pub const SESSION_ID_LEN: usize = 8;

/// Width of the request id, in bytes.
pub const REQUEST_ID_LEN: usize = 8;

/// Width of both ids together.
pub const ENVELOPE_HEADER_LEN: usize = 16;

/// The longest payload of an envelope, in bytes: small enough to travel in one
/// piece.
pub const MAX_PAYLOAD_SIZE: usize = 1024;

/// The longest envelope, in bytes.
pub const MAX_DATAGRAM_SIZE: usize = 1040;

/// How many completed requests are remembered.
pub const DEDUP_CACHE_CAPACITY: usize = 32;

/// How long a request waits for its answer by default, in nanoseconds.
pub const DEFAULT_RESPONSE_TIMEOUT_NS: u64 = 2_000_000_000;

/// The address of a peer.
#[derive(Debug, Clone, Copy, PartialEq, Eq, Structural)]
pub enum PeerAddr {
    V4 {
        ip: u32,
        port: u16,
    },
    V6 {
        ip: u128,
        port: u16,
        flowinfo: u32,
        scope_id: u32,
    },
}

/// Errors of envelope input and output.
#[derive(Debug, PartialEq, Eq)]
pub enum UdpSessionError {
    /// The socket failed to send or to receive.
    Io(IoFailure),
    /// No answer to the request came from `peer` in time.
    Timeout {
        peer: PeerAddr,
        timeout_ns: u64,
    },
    /// The payload is longer than [`MAX_PAYLOAD_SIZE`]. Nothing was sent.
    PayloadTooLarge {
        len: usize,
        max: usize,
    },
}

impl UdpSessionError {
    /// The line an operator reads. The peer and the timeout are handed in as
    /// they are shown.
    pub open spec fn message_spec(self, peer: Seq<char>, timeout: Seq<char>) -> Seq<char> {
        match self {
            UdpSessionError::Io(failure) => "I/O error: "@ + failure.message@,
            UdpSessionError::Timeout { .. } => "no response received from "@ + peer + " within "@
                + timeout,
            UdpSessionError::PayloadTooLarge { len, max } => "payload length "@ + decimal(
                len as nat,
            ) + " exceeds max payload size "@ + decimal(max as nat) + " bytes"@,
        }
    }

    /// The line an operator reads. The peer and the timeout are handed in as
    /// they are shown.
    pub fn message(&self, peer: &str, timeout: &str) -> (r: String)
        ensures
            r@ == self.message_spec(peer@, timeout@),
    {
        match self {
            UdpSessionError::Io(failure) => {
                let mut out = text("I/O error: ");
                push_text(&mut out, failure.message.as_str());
                out
            },
            UdpSessionError::Timeout { .. } => {
                let mut out = text("no response received from ");
                push_text(&mut out, peer);
                push_text(&mut out, " within ");
                push_text(&mut out, timeout);
                out
            },
            UdpSessionError::PayloadTooLarge { len, max } => {
                let mut out = text("payload length ");
                push_decimal(&mut out, *len as u64);
                push_text(&mut out, " exceeds max payload size ");
                push_decimal(&mut out, *max as u64);
                push_text(&mut out, " bytes");
                out
            },
        }
    }
}

/// `RandomState::new` returns a hasher factory with randomly chosen keys.
/// Nothing is claimed of the keys.
pub assume_specification[ RandomState::new ]() -> RandomState;

/// `RandomState::build_hasher` makes a hasher with the keys of its factory.
/// Nothing is claimed of it: the keys are chosen at random.
#[verifier::external_body]
fn fresh_hasher(state: &RandomState) -> DefaultHasher {
    state.build_hasher()
}

/// A session id that two sessions alive on one host will hardly share. It is
/// random: every value is possible.
pub fn random_session_id() -> u64 {
    let state = RandomState::new();
    let hasher = fresh_hasher(&state);
    hasher.finish()
}

/// The bytes of one envelope.
pub open spec fn envelope_bytes(session_id: u64, request_id: u64, payload: Seq<u8>) -> Seq<u8> {
    be_bytes(session_id as nat, 8) + be_bytes(request_id as nat, 8) + payload
}

/// What the bytes of a datagram say: two ids and a payload. `None` where they
/// are too few for a header.
pub open spec fn envelope_of(datagram: Seq<u8>) -> Option<(u64, u64, Seq<u8>)> {
    if datagram.len() < 16 {
        None
    } else {
        Some(
            (
                be_value(datagram.subrange(0, 8)) as u64,
                be_value(datagram.subrange(8, 16)) as u64,
                datagram.skip(16),
            ),
        )
    }
}

/// Encode one envelope. A payload longer than [`MAX_PAYLOAD_SIZE`] is
/// rejected.
pub fn encode_envelope(session_id: u64, request_id: u64, payload: &[u8]) -> (r: Result<
    Vec<u8>,
    UdpSessionError,
>)
    ensures
        payload@.len() <= MAX_PAYLOAD_SIZE ==> (r matches Ok(datagram) && datagram@
            == envelope_bytes(session_id, request_id, payload@)),
        payload@.len() > MAX_PAYLOAD_SIZE ==> r == Err::<Vec<u8>, UdpSessionError>(
            UdpSessionError::PayloadTooLarge {
                len: payload@.len() as usize,
                max: MAX_PAYLOAD_SIZE,
            },
        ),
{
    if payload.len() > MAX_PAYLOAD_SIZE {
        return Err(
            UdpSessionError::PayloadTooLarge { len: payload.len(), max: MAX_PAYLOAD_SIZE },
        );
    }
    let mut datagram: Vec<u8> = Vec::new();
    push_be(&mut datagram, session_id, SESSION_ID_LEN);
    push_be(&mut datagram, request_id, REQUEST_ID_LEN);
    push_bytes(&mut datagram, payload);
    assert(datagram@ =~= envelope_bytes(session_id, request_id, payload@));
    Ok(datagram)
}

/// Decode one envelope. `None` where the datagram is too short for a header.
pub fn decode_envelope(datagram: &[u8]) -> (r: Option<(u64, u64, &[u8])>)
    ensures
        match envelope_of(datagram@) {
            Some(e) => r matches Some(d) && d.0 == e.0 && d.1 == e.1 && d.2@ == e.2,
            None => r is None,
        },
{
    if datagram.len() < ENVELOPE_HEADER_LEN {
        return None;
    }
    let first = slice_subrange(datagram, 0, 8);
    let second = slice_subrange(datagram, 8, 16);
    let payload = slice_subrange(datagram, 16, datagram.len());
    proof {
        be_bounds();
        be_value_fits(first@);
        be_value_fits(second@);
        assert(payload@ =~= datagram@.skip(16));
    }
    Some((read_be(first), read_be(second), payload))
}

/// What was encoded is decoded again.
pub proof fn an_envelope_is_read_back(session_id: u64, request_id: u64, payload: Seq<u8>)
    ensures
        envelope_of(envelope_bytes(session_id, request_id, payload)) == Some(
            (session_id, request_id, payload),
        ),
{
    let e = envelope_bytes(session_id, request_id, payload);
    be_bounds();
    be_round_trip(session_id as nat, 8);
    be_round_trip(request_id as nat, 8);
    assert(e.subrange(0, 8) =~= be_bytes(session_id as nat, 8));
    assert(e.subrange(8, 16) =~= be_bytes(request_id as nat, 8));
    assert(e.skip(16) =~= payload);
}

/// What is decoded was encoded so: a datagram that decodes is the envelope of
/// what it decodes to, and no two datagrams decode alike.
pub proof fn a_decoded_envelope_is_exact(datagram: Seq<u8>)
    requires
        datagram.len() >= 16,
    ensures
        envelope_of(datagram) matches Some(e) && envelope_bytes(e.0, e.1, e.2) == datagram,
{
    be_bounds();
    let a = datagram.subrange(0, 8);
    let b = datagram.subrange(8, 16);
    be_value_fits(a);
    be_value_fits(b);
    be_value_is_exact(a);
    be_value_is_exact(b);
    assert(a + b + datagram.skip(16) =~= datagram);
}

/// The ids of the most recent completed requests, oldest first.
#[derive(Debug)]
pub struct RequestIdCache {
    pub entries: VecDeque<u64>,
}

/// The ids remembered after one more request.
pub open spec fn remembered(entries: Seq<u64>, request_id: u64) -> Seq<u64> {
    if entries.len() >= DEDUP_CACHE_CAPACITY {
        entries.skip(1).push(request_id)
    } else {
        entries.push(request_id)
    }
}

impl RequestIdCache {
    /// Never more than the capacity is remembered.
    pub open spec fn wf(self) -> bool {
        self.entries@.len() <= DEDUP_CACHE_CAPACITY
    }

    /// Nothing is remembered.
    pub fn new() -> (r: RequestIdCache)
        ensures
            r.wf(),
            r.entries@ == Seq::<u64>::empty(),
    {
        RequestIdCache { entries: VecDeque::with_capacity(DEDUP_CACHE_CAPACITY) }
    }

    /// Remember a completed request, forgetting the oldest at capacity.
    pub fn remember_completed(&mut self, request_id: u64)
        ensures
            final(self).entries@ == remembered(old(self).entries@, request_id),
            old(self).wf() ==> final(self).wf(),
    {
        let ghost before = self.entries@;
        if self.entries.len() >= DEDUP_CACHE_CAPACITY {
            let _ = self.entries.pop_front();
            assert(self.entries@ =~= before.skip(1));
        }
        self.entries.push_back(request_id);
    }

    /// Whether this request is remembered.
    pub fn is_known_duplicate(&self, request_id: u64) -> (r: bool)
        ensures
            r <==> self.entries@.contains(request_id),
    {
        let mut i: usize = 0;
        while i < self.entries.len()
            invariant
                i <= self.entries@.len(),
                forall|j: int| 0 <= j < i ==> self.entries@[j] != request_id,
            decreases self.entries@.len() - i,
        {
            if self.entries[i] == request_id {
                assert(self.entries@[i as int] == request_id);
                return true;
            }
            i += 1;
        }
        false
    }
}

/// The ids remembered after a run of requests, starting from none.
pub open spec fn remembered_all(requests: Seq<u64>) -> Seq<u64>
    decreases requests.len(),
{
    if requests.len() == 0 {
        seq![]
    } else {
        remembered(remembered_all(requests.drop_last()), requests.last())
    }
}

/// After any run of requests exactly the last ones up to the capacity are
/// remembered, in order: the first in is the first out.
pub proof fn the_most_recent_requests_are_remembered(requests: Seq<u64>)
    ensures
        requests.len() <= DEDUP_CACHE_CAPACITY ==> remembered_all(requests) == requests,
        requests.len() > DEDUP_CACHE_CAPACITY ==> remembered_all(requests) == requests.skip(
            requests.len() - DEDUP_CACHE_CAPACITY,
        ),
    decreases requests.len(),
{
    if requests.len() > 0 {
        the_most_recent_requests_are_remembered(requests.drop_last());
        let last = remembered_all(requests.drop_last());
        if requests.len() <= DEDUP_CACHE_CAPACITY {
            assert(remembered_all(requests) =~= requests);
        } else {
            assert(remembered_all(requests) =~= requests.skip(
                requests.len() - DEDUP_CACHE_CAPACITY,
            ));
        }
    } else {
        assert(remembered_all(requests) =~= requests);
    }
}

/// The order of an envelope's bytes: the session id's eight, the request id's
/// eight, then the payload.
pub proof fn the_session_id_comes_first(session_id: u64, request_id: u64, payload: Seq<u8>)
    ensures
        ({
            let e = envelope_bytes(session_id, request_id, payload);
            &&& e.len() == 16 + payload.len()
            &&& be_value(e.subrange(0, 8)) == session_id
            &&& be_value(e.subrange(8, 16)) == request_id
            &&& e.skip(16) == payload
        }),
{
    let e = envelope_bytes(session_id, request_id, payload);
    be_bounds();
    be_round_trip(session_id as nat, 8);
    be_round_trip(request_id as nat, 8);
    assert(e.subrange(0, 8) =~= be_bytes(session_id as nat, 8));
    assert(e.subrange(8, 16) =~= be_bytes(request_id as nat, 8));
    assert(e.skip(16) =~= payload);
}

/// Of a run of requests exactly the last 32 are known again: a request is
/// known where at most 31 others have come since, and is not where it came
/// neither among the last 32.
pub proof fn the_last_requests_are_known(requests: Seq<u64>, id: u64)
    ensures
        remembered_all(requests).contains(id) <==> exists|i: int|
            0 <= i < requests.len() && requests.len() - i <= 32 && #[trigger] requests[i] == id,
{
    the_most_recent_requests_are_remembered(requests);
    let kept = remembered_all(requests);
    let off = requests.len() - kept.len();
    if kept.contains(id) {
        let j = choose|j: int| 0 <= j < kept.len() && kept[j] == id;
        assert(requests[off + j] == id);
    }
    if exists|i: int|
        0 <= i < requests.len() && requests.len() - i <= 32 && #[trigger] requests[i] == id {
        let i = choose|i: int|
            0 <= i < requests.len() && requests.len() - i <= 32 && #[trigger] requests[i] == id;
        assert(kept[i - off] == id);
    }
}

/// An error says what happened: the failure's own words, the peer and the
/// timeout, or the length that was too large and then the largest.
pub proof fn an_error_names_its_numbers(e: UdpSessionError, peer: Seq<char>, timeout: Seq<char>)
    ensures
        ({
            let m = e.message_spec(peer, timeout);
            &&& e matches UdpSessionError::Io(failure) ==> m.len() >= failure.message@.len()
                && m.skip(m.len() - failure.message@.len()) == failure.message@
            &&& e is Timeout ==> {
                &&& m.len() == 34 + peer.len() + timeout.len()
                &&& m.subrange(26, 26 + peer.len() as int) == peer
                &&& m.skip(34 + peer.len() as int) == timeout
            }
            &&& e matches UdpSessionError::PayloadTooLarge { len, max } ==> {
                let first = decimal(len as nat);
                let second = decimal(max as nat);
                &&& m.len() == 47 + first.len() + second.len()
                &&& m.subrange(15, 15 + first.len() as int) == first
                &&& m.subrange(41 + first.len() as int, 41 + first.len() as int + second.len() as int) == second
            }
        }),
{
    reveal_strlit("I/O error: ");
    reveal_strlit("no response received from ");
    reveal_strlit(" within ");
    reveal_strlit("payload length ");
    reveal_strlit(" exceeds max payload size ");
    reveal_strlit(" bytes");
    let m = e.message_spec(peer, timeout);
    match e {
        UdpSessionError::Io(failure) => {
            assert(m.skip(m.len() - failure.message@.len()) =~= failure.message@);
        },
        UdpSessionError::Timeout { .. } => {
            assert(m.subrange(26, 26 + peer.len() as int) =~= peer);
            assert(m.skip(34 + peer.len() as int) =~= timeout);
        },
        UdpSessionError::PayloadTooLarge { len, max } => {
            let first = decimal(len as nat);
            let second = decimal(max as nat);
            assert(m.subrange(15, 15 + first.len() as int) =~= first);
            assert(m.subrange(41 + first.len() as int, 41 + first.len() as int + second.len() as int) =~= second);
        },
    }
}

} // verus!
