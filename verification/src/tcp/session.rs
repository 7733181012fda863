//! Reading frames off a stream that delivers them in pieces, and one request
//! and its answer over it.

use crate::bytes::be_bounds;
use crate::bytes::be_value;
use crate::bytes::be_value_fits;
use crate::bytes::push_bytes;
use crate::bytes::read_be;
use crate::serial::error::io_failure;
use crate::serial::error::IoFailure;
use crate::serial::error::IoKind;
use crate::serial::error::ResponseDisposition;
use crate::tcp::codec::a_frame_carries_its_payload;
use crate::tcp::codec::frame_bytes;
use crate::tcp::codec::TcpSessionError;
use crate::tcp::codec::MAX_FRAME_SIZE;
use vstd::prelude::*;

verus! {

/// One frame, as much of it as has arrived.
#[derive(Debug, PartialEq, Eq)]
pub struct FrameReader {
    /// The first four bytes, or fewer while they arrive.
    pub prefix: Vec<u8>,
    pub payload: Vec<u8>,
}

/// What one read of the stream brought.
#[derive(Debug, PartialEq, Eq)]
pub enum StreamRead {
    /// These bytes. None at all: the peer has closed the stream.
    Received(Vec<u8>),
    Failed(IoFailure),
}

/// What is to be done next.
#[derive(Debug, PartialEq, Eq)]
pub enum FrameStep {
    /// Read at most so many bytes.
    Read(usize),
    /// A whole frame, or the end of the stream where no frame had begun.
    Done(Result<Option<Vec<u8>>, TcpSessionError>),
}

impl FrameReader {
    /// The prefix comes first, and no byte beyond the declared length is
    /// taken.
    pub open spec fn wf(self) -> bool {
        &&& self.prefix@.len() <= 4
        &&& self.prefix@.len() < 4 ==> self.payload@.len() == 0
        &&& self.prefix@.len() == 4 ==> be_value(self.prefix@) <= MAX_FRAME_SIZE
            && self.payload@.len() <= be_value(self.prefix@)
    }

    /// All bytes taken from the stream so far.
    pub open spec fn consumed(self) -> Seq<u8> {
        self.prefix@ + self.payload@
    }

    /// How many bytes the current part of the frame still needs.
    pub open spec fn remaining(self) -> int {
        if self.prefix@.len() < 4 {
            4 - self.prefix@.len()
        } else {
            be_value(self.prefix@) - self.payload@.len()
        }
    }

    /// Whether the whole frame is here.
    pub open spec fn finished(self) -> bool {
        self.prefix@.len() == 4 && self.payload@.len() == be_value(self.prefix@)
    }

    /// Nothing has arrived yet.
    pub fn new() -> (r: (FrameReader, FrameStep))
        ensures
            r.0.wf(),
            r.0.consumed() == Seq::<u8>::empty(),
            r.1 == FrameStep::Read(4),
    {
        let r = FrameReader { prefix: Vec::new(), payload: Vec::new() };
        assert(r.consumed() =~= Seq::<u8>::empty());
        (r, FrameStep::Read(4))
    }
}

/// The bytes that are taken of what a read brought: no more than were needed.
pub open spec fn taken(reader: FrameReader, bytes: Seq<u8>) -> Seq<u8> {
    if bytes.len() <= reader.remaining() {
        bytes
    } else {
        bytes.take(reader.remaining())
    }
}

/// Whether a reader takes these bytes off the stream and goes on as it should:
/// it ends where the frame is whole, fails where the declared length is too
/// large, and else asks for what is missing.
pub open spec fn frame_received(
    before: FrameReader,
    bytes: Seq<u8>,
    after: FrameReader,
    step: FrameStep,
) -> bool {
    let prefix = before.prefix@ + taken(before, bytes);
    if before.prefix@.len() < 4 && prefix.len() == 4 && be_value(prefix) > MAX_FRAME_SIZE {
        &&& after.prefix@ == prefix
        &&& after.payload@ == before.payload@
        &&& step == FrameStep::Done(
            Err::<Option<Vec<u8>>, TcpSessionError>(
                TcpSessionError::FrameTooLarge {
                    len: be_value(prefix) as u32,
                    max: MAX_FRAME_SIZE,
                },
            ),
        )
    } else {
        &&& after.wf()
        &&& after.consumed() == before.consumed() + taken(before, bytes)
        &&& if after.finished() {
            step matches FrameStep::Done(Ok(Some(payload))) && payload@ == after.payload@
        } else {
            step == FrameStep::Read(after.remaining() as usize)
        }
    }
}

/// Whether `e` says that the stream ended within a frame.
pub open spec fn cut_short(e: TcpSessionError) -> bool {
    e matches TcpSessionError::Io(failure) && failure.kind == IoKind::UnexpectedEof
        && failure.message@ == "failed to fill whole buffer"@
}

/// Whether one read of the stream takes the reader from `before` to `after`
/// and leads to `step`.
///
/// The end of the stream is no error where no byte of a frame has come, and a
/// read that was merely interrupted is made again.
pub open spec fn frame_stepped(
    before: FrameReader,
    read: StreamRead,
    after: FrameReader,
    step: FrameStep,
) -> bool {
    match read {
        StreamRead::Failed(failure) => {
            &&& after == before
            &&& if failure.kind == IoKind::Interrupted {
                step == FrameStep::Read(before.remaining() as usize)
            } else {
                step == FrameStep::Done(
                    Err::<Option<Vec<u8>>, TcpSessionError>(TcpSessionError::Io(failure)),
                )
            }
        },
        StreamRead::Received(bytes) => if bytes@.len() == 0 {
            &&& after == before
            &&& if before.consumed().len() == 0 {
                step == FrameStep::Done(Ok::<Option<Vec<u8>>, TcpSessionError>(None))
            } else {
                step matches FrameStep::Done(Err(e)) && cut_short(e)
            }
        } else {
            frame_received(before, bytes@, after, step)
        },
    }
}

/// The first `count` bytes, or all where there are fewer.
fn first_bytes(bytes: &Vec<u8>, count: usize) -> (r: Vec<u8>)
    ensures
        r@ == (if bytes@.len() <= count {
            bytes@
        } else {
            bytes@.take(count as int)
        }),
{
    let mut r: Vec<u8> = Vec::new();
    let mut i: usize = 0;
    while i < bytes.len() && i < count
        invariant
            i <= bytes@.len(),
            i <= count,
            r@ == bytes@.take(i as int),
        decreases bytes@.len() - i,
    {
        r.push(bytes[i]);
        i += 1;
        assert(r@ =~= bytes@.take(i as int));
    }
    assert(bytes@.take(bytes@.len() as int) =~= bytes@);
    r
}

impl FrameReader {
    /// Take in what one read of the stream brought.
    pub fn step(&mut self, read: StreamRead) -> (r: FrameStep)
        requires
            old(self).wf(),
            !old(self).finished(),
        ensures
            frame_stepped(*old(self), read, *final(self), r),
            r is Read ==> final(self).wf() && !final(self).finished(),
    {
        let missing: usize = self.missing();
        match read {
            StreamRead::Failed(failure) => {
                if failure.kind == IoKind::Interrupted {
                    FrameStep::Read(missing)
                } else {
                    FrameStep::Done(Err(TcpSessionError::Io(failure)))
                }
            },
            StreamRead::Received(bytes) => {
                if bytes.len() == 0 {
                    if self.prefix.len() == 0 {
                        return FrameStep::Done(Ok(None));
                    }
                    return FrameStep::Done(
                        Err(
                            TcpSessionError::Io(
                                io_failure(IoKind::UnexpectedEof, "failed to fill whole buffer"),
                            ),
                        ),
                    );
                }
                let ghost before = *self;
                let kept = first_bytes(&bytes, missing);
                if self.prefix.len() < 4 {
                    push_bytes(&mut self.prefix, kept.as_slice());
                    if self.prefix.len() < 4 {
                        assert(self.consumed() =~= before.consumed() + kept@);
                        return FrameStep::Read(4 - self.prefix.len());
                    }
                    proof {
                        be_value_fits(self.prefix@);
                        be_bounds();
                    }
                    let len: u32 = read_be(self.prefix.as_slice()) as u32;
                    if len > MAX_FRAME_SIZE {
                        return FrameStep::Done(
                            Err(TcpSessionError::FrameTooLarge { len, max: MAX_FRAME_SIZE }),
                        );
                    }
                } else {
                    push_bytes(&mut self.payload, kept.as_slice());
                }
                assert(self.consumed() =~= before.consumed() + kept@);
                let still: usize = self.missing();
                if still == 0 {
                    FrameStep::Done(Ok(Some(self.payload.clone())))
                } else {
                    FrameStep::Read(still)
                }
            },
        }
    }

    fn missing(&self) -> (r: usize)
        requires
            self.wf(),
        ensures
            r == self.remaining(),
    {
        if self.prefix.len() < 4 {
            4 - self.prefix.len()
        } else {
            proof {
                be_value_fits(self.prefix@);
                be_bounds();
            }
            read_be(self.prefix.as_slice()) as usize - self.payload.len()
        }
    }
}

/// Whatever pieces a frame arrives in: a reader that has taken exactly the
/// bytes of an encoded frame holds its payload, and one that has taken fewer
/// is not done.
pub proof fn a_frame_is_read_back(reader: FrameReader, payload: Seq<u8>, count: int)
    requires
        reader.wf(),
        payload.len() <= MAX_FRAME_SIZE,
        0 <= count <= frame_bytes(payload).len(),
        reader.consumed() == frame_bytes(payload).take(count),
    ensures
        count == frame_bytes(payload).len() ==> reader.finished() && reader.payload@ == payload,
        count < frame_bytes(payload).len() ==> !reader.finished(),
{
    a_frame_carries_its_payload(payload);
    let frame = frame_bytes(payload);
    if reader.prefix@.len() == 4 {
        assert(reader.prefix@ =~= reader.consumed().take(4));
        assert(reader.consumed().len() >= 4);
        assert(frame.take(count).take(4) =~= frame.take(4));
        if count == frame.len() {
            assert(reader.payload@ =~= reader.consumed().skip(4));
            assert(reader.payload@ =~= frame.skip(4));
        }
    }
}

/// Pieces of a stream, one after another.
pub open spec fn joined(pieces: Seq<Seq<u8>>) -> Seq<u8>
    decreases pieces.len(),
{
    if pieces.len() == 0 {
        Seq::empty()
    } else {
        joined(pieces.drop_last()) + pieces.last()
    }
}

/// The first pieces of a stream are the first bytes of it.
proof fn first_pieces(pieces: Seq<Seq<u8>>, k: int)
    requires
        0 <= k <= pieces.len(),
    ensures
        joined(pieces.take(k)).len() <= joined(pieces).len(),
        joined(pieces).take(joined(pieces.take(k)).len() as int) == joined(pieces.take(k)),
        k < pieces.len() ==> joined(pieces.take(k + 1)) == joined(pieces.take(k)) + pieces[k],
    decreases pieces.len() - k,
{
    let part = joined(pieces.take(k));
    if k == pieces.len() {
        assert(pieces.take(k) =~= pieces);
        assert(joined(pieces).take(part.len() as int) =~= part);
    } else {
        assert(pieces.take(k + 1).drop_last() =~= pieces.take(k));
        assert(pieces.take(k + 1).last() == pieces[k]);
        first_pieces(pieces, k + 1);
        let next = joined(pieces.take(k + 1));
        assert(next.take(part.len() as int) =~= part);
        assert(joined(pieces).take(next.len() as int).take(part.len() as int) =~= joined(
            pieces,
        ).take(part.len() as int));
    }
}

/// Whether a reader takes these pieces off the stream, one after another, none
/// of them empty and none longer than was asked for.
pub open spec fn read_in_pieces(
    readers: Seq<FrameReader>,
    pieces: Seq<Seq<u8>>,
    steps: Seq<FrameStep>,
) -> bool {
    &&& readers.len() == pieces.len() + 1
    &&& steps.len() == pieces.len()
    &&& readers[0].wf()
    &&& readers[0].consumed().len() == 0
    &&& forall|i: int|
        0 <= i < pieces.len() ==> {
            &&& 0 < pieces[i].len() <= (#[trigger] readers[i]).remaining()
            &&& frame_received(readers[i], pieces[i], readers[i + 1], steps[i])
        }
}

/// After some of the pieces of a frame a reader has taken exactly these.
proof fn taken_so_far(
    readers: Seq<FrameReader>,
    pieces: Seq<Seq<u8>>,
    steps: Seq<FrameStep>,
    payload: Seq<u8>,
    k: int,
)
    requires
        read_in_pieces(readers, pieces, steps),
        payload.len() <= MAX_FRAME_SIZE,
        joined(pieces) == frame_bytes(payload),
        0 <= k <= pieces.len(),
    ensures
        readers[k].wf(),
        readers[k].consumed() == joined(pieces.take(k)),
        readers[k].consumed() == frame_bytes(payload).take(readers[k].consumed().len() as int),
    decreases k,
{
    first_pieces(pieces, k);
    if k == 0 {
        assert(readers[0].consumed() =~= joined(pieces.take(0)));
    } else {
        taken_so_far(readers, pieces, steps, payload, k - 1);
        first_pieces(pieces, k - 1);
        let before = readers[k - 1];
        let piece = pieces[k - 1];
        assert(frame_received(before, piece, readers[k], steps[k - 1]));
        assert(taken(before, piece) == piece);
        let prefix = before.prefix@ + piece;
        if before.prefix@.len() < 4 && prefix.len() == 4 {
            a_frame_carries_its_payload(payload);
            assert(before.consumed() =~= before.prefix@);
            assert(prefix =~= joined(pieces.take(k)));
            assert(prefix =~= frame_bytes(payload).take(4));
        }
    }
}

/// Before the last of the pieces of a frame a reader asks for more, and at the
/// last it has the payload.
proof fn one_piece(
    readers: Seq<FrameReader>,
    pieces: Seq<Seq<u8>>,
    steps: Seq<FrameStep>,
    payload: Seq<u8>,
    k: int,
)
    requires
        read_in_pieces(readers, pieces, steps),
        payload.len() <= MAX_FRAME_SIZE,
        joined(pieces) == frame_bytes(payload),
        0 <= k < pieces.len(),
    ensures
        k < pieces.len() - 1 ==> steps[k] is Read,
        k == pieces.len() - 1 ==> (steps[k] matches FrameStep::Done(Ok(Some(p))) && p@ == payload),
{
    let frame = frame_bytes(payload);
    a_frame_carries_its_payload(payload);
    taken_so_far(readers, pieces, steps, payload, k);
    taken_so_far(readers, pieces, steps, payload, k + 1);
    let before = readers[k];
    let after = readers[k + 1];
    let piece = pieces[k];
    assert(frame_received(before, piece, after, steps[k]));
    assert(taken(before, piece) == piece);
    first_pieces(pieces, k);
    first_pieces(pieces, k + 1);
    let prefix = before.prefix@ + piece;
    if before.prefix@.len() < 4 && prefix.len() == 4 {
        assert(before.consumed() =~= before.prefix@);
        assert(prefix =~= joined(pieces.take(k + 1)));
        assert(prefix =~= frame.take(4));
    }
    if k < pieces.len() - 1 {
        first_pieces(pieces, k + 2);
        assert(0 < pieces[k + 1].len() <= readers[k + 1].remaining());
    } else {
        assert(pieces.take(k + 1) =~= pieces);
    }
    a_frame_is_read_back(after, payload, after.consumed().len() as int);
}

/// A frame is read back whole, whatever pieces it arrives in: a reader that
/// takes them one after another asks for more until the last, and ends there
/// with the payload that was encoded.
pub proof fn a_frame_is_read_back_in_pieces(
    readers: Seq<FrameReader>,
    pieces: Seq<Seq<u8>>,
    steps: Seq<FrameStep>,
    payload: Seq<u8>,
)
    requires
        read_in_pieces(readers, pieces, steps),
        payload.len() <= MAX_FRAME_SIZE,
        joined(pieces) == frame_bytes(payload),
    ensures
        pieces.len() > 0,
        forall|i: int| 0 <= i < pieces.len() - 1 ==> (#[trigger] steps[i]) is Read,
        steps.last() matches FrameStep::Done(Ok(Some(p))) && p@ == payload,
{
    a_frame_carries_its_payload(payload);
    assert forall|i: int| 0 <= i < pieces.len() - 1 implies (#[trigger] steps[i]) is Read by {
        one_piece(readers, pieces, steps, payload, i);
    }
    one_piece(readers, pieces, steps, payload, pieces.len() - 1);
}

/// What the caller of a request gets where the stream ended before an answer
/// began.
pub fn read_frame(frame: Result<Option<Vec<u8>>, TcpSessionError>) -> (r: Result<
    Vec<u8>,
    TcpSessionError,
>)
    ensures
        match frame {
            Ok(Some(payload)) => r == Ok::<Vec<u8>, TcpSessionError>(payload),
            Ok(None) => r matches Err(TcpSessionError::Io(failure)) && failure.kind
                == IoKind::UnexpectedEof && failure.message@
                == "connection closed before a frame was received"@,
            Err(e) => r == Err::<Vec<u8>, TcpSessionError>(e),
        },
{
    match frame {
        Ok(Some(payload)) => Ok(payload),
        Ok(None) => Err(
            TcpSessionError::Io(
                io_failure(
                    IoKind::UnexpectedEof,
                    "connection closed before a frame was received",
                ),
            ),
        ),
        Err(e) => Err(e),
    }
}

/// End a request: append its answer to `response`. On an error `response` is
/// left as it was.
pub fn finish_exchange(
    answer: Result<Vec<u8>, TcpSessionError>,
    response: &mut Vec<u8>,
) -> (r: Result<ResponseDisposition, TcpSessionError>)
    ensures
        match answer {
            Ok(payload) => final(response)@ == old(response)@ + payload@ && r == Ok::<
                ResponseDisposition,
                TcpSessionError,
            >(ResponseDisposition::of_len(payload@.len())),
            Err(e) => final(response)@ == old(response)@ && r == Err::<
                ResponseDisposition,
                TcpSessionError,
            >(e),
        },
{
    match answer {
        Ok(payload) => {
            push_bytes(response, payload.as_slice());
            Ok(ResponseDisposition::of(payload.as_slice()))
        },
        Err(e) => Err(e),
    }
}

/// What a caller is told when the worker that serves the connection is gone.
pub fn worker_gone_error() -> (r: TcpSessionError)
    ensures
        r matches TcpSessionError::Io(failure) && failure.kind == IoKind::BrokenPipe
            && failure.message@
            == "cat-transport-tcp: Windows worker thread is no longer running"@,
{
    TcpSessionError::Io(
        io_failure(
            IoKind::BrokenPipe,
            "cat-transport-tcp: Windows worker thread is no longer running",
        ),
    )
}

/// A stream that ends: before the first byte of a frame that is no error, and
/// there is no frame; within a frame it is one.
pub proof fn a_stream_may_end_between_frames(
    before: FrameReader,
    nothing: Vec<u8>,
    after: FrameReader,
    step: FrameStep,
)
    requires
        before.wf(),
        nothing@.len() == 0,
        frame_stepped(before, StreamRead::Received(nothing), after, step),
    ensures
        after == before,
        before.prefix@.len() == 0 ==> step == FrameStep::Done(
            Ok::<Option<Vec<u8>>, TcpSessionError>(None),
        ),
        before.prefix@.len() > 0 ==> (step matches FrameStep::Done(
            Err(TcpSessionError::Io(failure)),
        ) && failure.kind == IoKind::UnexpectedEof),
{
}

/// A read that fails takes nothing off the stream. One that was interrupted is
/// made again, for as many bytes as before; any other failure ends the frame
/// and is passed on as it is.
pub proof fn an_interrupted_read_is_made_again(
    before: FrameReader,
    failure: IoFailure,
    after: FrameReader,
    step: FrameStep,
)
    requires
        before.wf(),
        frame_stepped(before, StreamRead::Failed(failure), after, step),
    ensures
        after == before,
        failure.kind == IoKind::Interrupted && before.prefix@.len() < 4 ==> step == FrameStep::Read(
            (4 - before.prefix@.len()) as usize,
        ),
        failure.kind == IoKind::Interrupted && before.prefix@.len() == 4 ==> step
            == FrameStep::Read((be_value(before.prefix@) - before.payload@.len()) as usize),
        failure.kind != IoKind::Interrupted ==> step == FrameStep::Done(
            Err::<Option<Vec<u8>>, TcpSessionError>(TcpSessionError::Io(failure)),
        ),
{
}

/// A frame whose four bytes of length say more than 65536 is refused as soon
/// as these have come, with the length that it declared, and none of its
/// payload is taken.
pub proof fn a_frame_too_large_is_refused(
    before: FrameReader,
    bytes: Vec<u8>,
    after: FrameReader,
    step: FrameStep,
)
    requires
        before.wf(),
        before.prefix@.len() + bytes@.len() == 4,
        bytes@.len() > 0,
        frame_stepped(before, StreamRead::Received(bytes), after, step),
    ensures
        be_value(before.prefix@ + bytes@) > 65536 <==> step is Done && step->Done_0 is Err,
        be_value(before.prefix@ + bytes@) > 65536 ==> {
            &&& step matches FrameStep::Done(Err(TcpSessionError::FrameTooLarge { len, max }))
                && len == be_value(before.prefix@ + bytes@) && max == 65536
            &&& after.payload@.len() == 0
        },
        0 < be_value(before.prefix@ + bytes@) <= 65536 ==> step == FrameStep::Read(
            be_value(before.prefix@ + bytes@) as usize,
        ),
{
    let prefix = before.prefix@ + bytes@;
    be_bounds();
    be_value_fits(prefix);
    if be_value(prefix) <= 65536 {
        assert(before.consumed() =~= before.prefix@);
        assert(after.consumed() =~= prefix);
        assert(after.prefix@.len() == 4);
        assert(after.prefix@ =~= prefix);
    }
}

} // verus!
