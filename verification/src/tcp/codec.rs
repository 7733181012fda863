//! Frames: a four-byte big-endian length, counting only the payload, and the
//! payload.

use crate::bytes::be_bounds;
use crate::bytes::be_bytes;
use crate::bytes::be_round_trip;
use crate::bytes::be_value;
use crate::bytes::be_value_fits;
use crate::bytes::push_be;
use crate::bytes::push_bytes;
use crate::bytes::read_be;
use crate::serial::error::IoFailure;
use crate::text::decimal;
use crate::text::push_decimal;
use crate::text::push_text;
use crate::text::text;
use vstd::prelude::*;
use vstd::string::*;

verus! {

/// The longest payload of a frame, in bytes.
pub const MAX_FRAME_SIZE: u32 = 65536;

/// Errors of frame input and output.
#[derive(Debug, PartialEq, Eq)]
pub enum TcpSessionError {
    /// The connection failed. A peer that goes away in the middle of a frame
    /// shows as an unexpected end.
    Io(IoFailure),
    /// A frame is longer than [`MAX_FRAME_SIZE`]. Its payload was not read, so
    /// the connection is of no further use.
    FrameTooLarge {
        len: u32,
        max: u32,
    },
}

impl TcpSessionError {
    /// The line an operator reads.
    pub open spec fn message_spec(self) -> Seq<char> {
        match self {
            TcpSessionError::Io(failure) => "I/O error: "@ + failure.message@,
            TcpSessionError::FrameTooLarge { len, max } => "frame length "@ + decimal(len as nat)
                + " exceeds max frame size "@ + decimal(max as nat) + " bytes"@,
        }
    }

    /// The line an operator reads.
    pub fn message(&self) -> (r: String)
        ensures
            r@ == self.message_spec(),
    {
        match self {
            TcpSessionError::Io(failure) => {
                let mut out = text("I/O error: ");
                push_text(&mut out, failure.message.as_str());
                out
            },
            TcpSessionError::FrameTooLarge { len, max } => {
                let mut out = text("frame length ");
                push_decimal(&mut out, *len as u64);
                push_text(&mut out, " exceeds max frame size ");
                push_decimal(&mut out, *max as u64);
                push_text(&mut out, " bytes");
                out
            },
        }
    }
}

/// The bytes of one frame.
pub open spec fn frame_bytes(payload: Seq<u8>) -> Seq<u8> {
    be_bytes(payload.len(), 4) + payload
}

/// A length as the error reports it: one that does not fit is the largest.
pub open spec fn reported_len(len: nat) -> u32 {
    if len <= u32::MAX {
        len as u32
    } else {
        u32::MAX
    }
}

/// Reject a declared length above [`MAX_FRAME_SIZE`].
pub fn check_frame_len(len: u32) -> (r: Result<(), TcpSessionError>)
    ensures
        len <= MAX_FRAME_SIZE ==> r == Ok::<(), TcpSessionError>(()),
        len > MAX_FRAME_SIZE ==> r == Err::<(), TcpSessionError>(
            TcpSessionError::FrameTooLarge { len, max: MAX_FRAME_SIZE },
        ),
{
    if len > MAX_FRAME_SIZE {
        return Err(TcpSessionError::FrameTooLarge { len, max: MAX_FRAME_SIZE });
    }
    Ok(())
}

/// Encode one frame. A payload longer than [`MAX_FRAME_SIZE`] is rejected.
pub fn encode_frame(payload: &[u8]) -> (r: Result<Vec<u8>, TcpSessionError>)
    ensures
        payload@.len() <= MAX_FRAME_SIZE ==> (r matches Ok(frame) && frame@ == frame_bytes(
            payload@,
        )),
        payload@.len() > MAX_FRAME_SIZE ==> r == Err::<Vec<u8>, TcpSessionError>(
            TcpSessionError::FrameTooLarge {
                len: reported_len(payload@.len()),
                max: MAX_FRAME_SIZE,
            },
        ),
{
    let len: u32 = if payload.len() as u64 <= u32::MAX as u64 {
        payload.len() as u32
    } else {
        u32::MAX
    };
    match check_frame_len(len) {
        Ok(_) => {},
        Err(e) => {
            return Err(e);
        },
    }
    let mut frame: Vec<u8> = Vec::new();
    push_be(&mut frame, len as u64, 4);
    push_bytes(&mut frame, payload);
    assert(frame@ =~= frame_bytes(payload@));
    Ok(frame)
}

/// The declared length of a frame whose prefix is `len_buf`, if it is not
/// above [`MAX_FRAME_SIZE`].
pub fn decode_len_prefix(len_buf: [u8; 4]) -> (r: Result<u32, TcpSessionError>)
    ensures
        be_value(len_buf@) <= MAX_FRAME_SIZE ==> r == Ok::<u32, TcpSessionError>(
            be_value(len_buf@) as u32,
        ),
        be_value(len_buf@) > MAX_FRAME_SIZE ==> r == Err::<u32, TcpSessionError>(
            TcpSessionError::FrameTooLarge {
                len: be_value(len_buf@) as u32,
                max: MAX_FRAME_SIZE,
            },
        ),
        be_value(len_buf@) <= u32::MAX,
{
    let bytes: &[u8] = len_buf.as_slice();
    assert(bytes@ == len_buf@);
    proof {
        be_value_fits(len_buf@);
        be_bounds();
    }
    let len: u32 = read_be(bytes) as u32;
    match check_frame_len(len) {
        Ok(_) => Ok(len),
        Err(e) => Err(e),
    }
}

/// What was encoded is decoded again: the prefix of a frame is the length of
/// its payload, and the rest of the frame is the payload.
pub proof fn a_frame_carries_its_payload(payload: Seq<u8>)
    requires
        payload.len() <= MAX_FRAME_SIZE,
    ensures
        frame_bytes(payload).len() == 4 + payload.len(),
        be_value(frame_bytes(payload).take(4)) == payload.len(),
        frame_bytes(payload).skip(4) == payload,
{
    be_bounds();
    be_round_trip(payload.len(), 4);
    assert(frame_bytes(payload).take(4) =~= be_bytes(payload.len(), 4));
    assert(frame_bytes(payload).skip(4) =~= payload);
}

/// A frame that is too large is reported with its own length, then the largest
/// length; another failure with its own words.
pub proof fn an_error_names_its_lengths(e: TcpSessionError)
    ensures
        ({
            let m = e.message_spec();
            &&& e matches TcpSessionError::Io(failure) ==> m.len() >= failure.message@.len()
                && m.skip(m.len() - failure.message@.len()) == failure.message@
            &&& e matches TcpSessionError::FrameTooLarge { len, max } ==> {
                let first = decimal(len as nat);
                let second = decimal(max as nat);
                &&& m.len() == 43 + first.len() + second.len()
                &&& m.subrange(13, 13 + first.len() as int) == first
                &&& m.subrange(37 + first.len() as int, 37 + first.len() as int + second.len() as int) == second
            }
        }),
{
    reveal_strlit("I/O error: ");
    reveal_strlit("frame length ");
    reveal_strlit(" exceeds max frame size ");
    reveal_strlit(" bytes");
    let m = e.message_spec();
    match e {
        TcpSessionError::Io(failure) => {
            assert(m.skip(m.len() - failure.message@.len()) =~= failure.message@);
        },
        TcpSessionError::FrameTooLarge { len, max } => {
            let first = decimal(len as nat);
            let second = decimal(max as nat);
            assert(m.subrange(13, 13 + first.len() as int) =~= first);
            assert(m.subrange(37 + first.len() as int, 37 + first.len() as int + second.len() as int) =~= second);
        },
    }
}

/// A length is reported as it is, as far as its four bytes go.
pub proof fn a_length_is_reported_as_it_is(len: nat)
    ensures
        len <= 0xffff_ffff ==> reported_len(len) == len,
        len > 0xffff_ffff ==> reported_len(len) == 0xffff_ffff,
{
}

} // verus!
