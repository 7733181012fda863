//! The Windows device control block of a serial port.
//!
//! The block packs its one-bit and two-bit settings into one word, least
//! significant bit first.

use crate::serial::baud::supported;
use crate::serial::baud::validate_baud_rate;
use crate::serial::config::FlowControl;
use crate::serial::config::Parity;
use crate::serial::config::READ_TIMEOUT_MS;
use crate::serial::config::SerialConfig;
use crate::serial::error::SerialError;
use crate::text::decimal;
use vstd::prelude::*;

verus! {

pub const F_BINARY: u32 = 0x1;

pub const F_PARITY: u32 = 0x2;

pub const F_OUTX_CTS_FLOW: u32 = 0x4;

pub const F_OUTX_DSR_FLOW: u32 = 0x8;

pub const F_DTR_CONTROL_SHIFT: u32 = 4;

pub const F_DSR_SENSITIVITY: u32 = 0x40;

pub const F_TX_CONTINUE_ON_XOFF: u32 = 0x80;

pub const F_OUT_X: u32 = 0x100;

pub const F_IN_X: u32 = 0x200;

pub const F_ERROR_CHAR: u32 = 0x400;

pub const F_NULL: u32 = 0x800;

pub const F_RTS_CONTROL_SHIFT: u32 = 12;

pub const F_ABORT_ON_ERROR: u32 = 0x4000;

/// The line is under software control and starts high.
pub const DTR_CONTROL_ENABLE: u32 = 1;

pub const RTS_CONTROL_ENABLE: u32 = 1;

/// The driver raises and lowers RTS by itself.
pub const RTS_CONTROL_HANDSHAKE: u32 = 2;

pub const NOPARITY: u8 = 0;

pub const ODDPARITY: u8 = 1;

pub const EVENPARITY: u8 = 2;

pub const ONESTOPBIT: u8 = 0;

pub const TWOSTOPBITS: u8 = 2;

pub const XON_CHAR: u8 = 0x11;

pub const XOFF_CHAR: u8 = 0x13;

/// Set or clear the bits of `mask`.
pub fn set_bit(bitfield: &mut u32, mask: u32, value: bool)
    ensures
        *final(bitfield) == (if value {
            *old(bitfield) | mask
        } else {
            *old(bitfield) & !mask
        }),
{
    if value {
        *bitfield = *bitfield | mask;
    } else {
        *bitfield = *bitfield & !mask;
    }
}

/// The word with the two bits at `shift` replaced by the low two of `value`.
pub open spec fn with_2bit(bitfield: u32, shift: u32, value: u32) -> u32 {
    (bitfield & !(3u32 << shift)) | ((value << shift) & (3u32 << shift))
}

/// Replace the two bits at `shift` by the low two bits of `value`.
pub fn set_2bit(bitfield: &mut u32, shift: u32, value: u32)
    requires
        shift < 32,
    ensures
        *final(bitfield) == with_2bit(*old(bitfield), shift, value),
{
    let mask: u32 = 3u32 << shift;
    *bitfield = (*bitfield & !mask) | ((value << shift) & mask);
}

/// Setting a two-bit field is read back from it, and leaves every other bit
/// of the word alone.
pub proof fn set_2bit_touches_its_field_only(bitfield: u32, shift: u32, value: u32, mask: u32)
    requires
        shift <= 30,
        value <= 3,
        mask & (3u32 << shift) == 0,
    ensures
        (with_2bit(bitfield, shift, value) >> shift) & 3 == value,
        with_2bit(bitfield, shift, value) & mask == bitfield & mask,
{
    assert((((bitfield & !(3u32 << shift)) | ((value << shift) & (3u32 << shift))) >> shift) & 3
        == value) by (bit_vector)
        requires
            shift <= 30,
            value <= 3,
    ;
    assert(((bitfield & !(3u32 << shift)) | ((value << shift) & (3u32 << shift))) & mask
        == bitfield & mask) by (bit_vector)
        requires
            mask & (3u32 << shift) == 0,
    ;
}

/// Setting one bit is read back from it, and leaves every disjoint bit alone.
pub proof fn set_bit_touches_its_mask_only(bitfield: u32, mask: u32, other: u32)
    requires
        mask & other == 0,
    ensures
        (bitfield | mask) & mask == mask,
        (bitfield & !mask) & mask == 0,
        (bitfield | mask) & other == bitfield & other,
        (bitfield & !mask) & other == bitfield & other,
{
    assert((bitfield | mask) & mask == mask) by (bit_vector);
    assert((bitfield & !mask) & mask == 0) by (bit_vector);
    assert((bitfield | mask) & other == bitfield & other) by (bit_vector)
        requires
            mask & other == 0,
    ;
    assert((bitfield & !mask) & other == bitfield & other) by (bit_vector)
        requires
            mask & other == 0,
    ;
}

/// The settings of a port that configuring it may change.
#[derive(Debug, Clone, Copy, PartialEq, Eq, Structural)]
pub struct Dcb {
    pub baud_rate: u32,
    pub byte_size: u8,
    pub stop_bits: u8,
    pub parity: u8,
    pub bitfield: u32,
    pub xon_char: u8,
    pub xoff_char: u8,
}

/// Data bits: five to seven as asked for, eight for anything else.
pub open spec fn byte_size_of(data_bits: u8) -> u8 {
    if data_bits == 5 || data_bits == 6 || data_bits == 7 {
        data_bits
    } else {
        8
    }
}

pub open spec fn stop_bits_of(stop_bits: u8) -> u8 {
    if stop_bits >= 2 {
        TWOSTOPBITS
    } else {
        ONESTOPBIT
    }
}

pub open spec fn parity_code(parity: Parity) -> u8 {
    match parity {
        Parity::NoParity => NOPARITY,
        Parity::Even => EVENPARITY,
        Parity::Odd => ODDPARITY,
    }
}

pub open spec fn rts_control_of(flow: FlowControl) -> u32 {
    match flow {
        FlowControl::Hardware => RTS_CONTROL_HANDSHAKE,
        _ => RTS_CONTROL_ENABLE,
    }
}

/// Whether every bit of the packed word is what `config` asks for. The
/// reserved bits, from the sixteenth up, are those of `before`.
pub open spec fn bitfield_configured(after: u32, before: u32, config: SerialConfig) -> bool {
    &&& after & F_BINARY == F_BINARY
    &&& (after & F_PARITY == F_PARITY) == (config.parity != Parity::NoParity)
    &&& (after & F_PARITY == 0) == (config.parity == Parity::NoParity)
    &&& (after & F_OUTX_CTS_FLOW == F_OUTX_CTS_FLOW) == (config.flow_control
        == FlowControl::Hardware)
    &&& (after & F_OUTX_CTS_FLOW == 0) == (config.flow_control != FlowControl::Hardware)
    &&& after & F_OUTX_DSR_FLOW == 0
    &&& (after >> F_DTR_CONTROL_SHIFT) & 3 == DTR_CONTROL_ENABLE
    &&& after & F_DSR_SENSITIVITY == 0
    &&& after & F_TX_CONTINUE_ON_XOFF == 0
    &&& (after & F_OUT_X == F_OUT_X) == (config.flow_control == FlowControl::Software)
    &&& (after & F_OUT_X == 0) == (config.flow_control != FlowControl::Software)
    &&& (after & F_IN_X == F_IN_X) == (config.flow_control == FlowControl::Software)
    &&& (after & F_IN_X == 0) == (config.flow_control != FlowControl::Software)
    &&& after & F_ERROR_CHAR == 0
    &&& after & F_NULL == 0
    &&& (after >> F_RTS_CONTROL_SHIFT) & 3 == rts_control_of(config.flow_control)
    &&& after & F_ABORT_ON_ERROR == 0
    &&& after >> 15 == before >> 15
}

/// The packed word after all of its fields have been set in turn.
proof fn packed_word(b: u32, parity: bool, cts: bool, x: bool, rts: u32, w: u32)
    by (bit_vector)
    requires
        rts == 1 || rts == 2,
        ({
            let b1 = if parity {
                b | 0x2
            } else {
                b & !0x2u32
            };
            let b2 = if cts {
                b1 | 0x4
            } else {
                b1 & !0x4u32
            };
            let b3 = if x {
                b2 | 0x200
            } else {
                b2 & !0x200u32
            };
            let b4 = if x {
                b3 | 0x100
            } else {
                b3 & !0x100u32
            };
            let b5 = (b4 & !(3u32 << 12u32)) | ((rts << 12u32) & (3u32 << 12u32));
            let b6 = (b5 & !(3u32 << 4u32)) | ((1u32 << 4u32) & (3u32 << 4u32));
            let b7 = b6 | 0x1;
            let b8 = b7 & !0x8u32;
            let b9 = b8 & !0x40u32;
            let b10 = b9 & !0x80u32;
            let b11 = b10 & !0x400u32;
            let b12 = b11 & !0x800u32;
            w == b12 & !0x4000u32
        }),
    ensures
        w & 0x1 == 0x1,
        w & 0x2 == (if parity {
            0x2u32
        } else {
            0
        }),
        w & 0x4 == (if cts {
            0x4u32
        } else {
            0
        }),
        w & 0x8 == 0,
        (w >> 4u32) & 3 == 1,
        w & 0x40 == 0,
        w & 0x80 == 0,
        w & 0x100 == (if x {
            0x100u32
        } else {
            0
        }),
        w & 0x200 == (if x {
            0x200u32
        } else {
            0
        }),
        w & 0x400 == 0,
        w & 0x800 == 0,
        (w >> 12u32) & 3 == rts,
        w & 0x4000 == 0,
        w >> 15u32 == b >> 15u32,
{
}

/// Bring the settings read from the driver in line with `config`.
///
/// Fails, and changes nothing, exactly where the baud rate is not one this
/// library accepts.
pub fn configure_dcb(dcb: &mut Dcb, config: &SerialConfig) -> (r: Result<(), SerialError>)
    ensures
        r is Ok <==> supported(config.baud_rate),
        r is Ok ==> {
            &&& final(dcb).baud_rate == config.baud_rate
            &&& final(dcb).byte_size == byte_size_of(config.data_bits)
            &&& final(dcb).stop_bits == stop_bits_of(config.stop_bits)
            &&& final(dcb).parity == parity_code(config.parity)
            &&& final(dcb).xon_char == XON_CHAR
            &&& final(dcb).xoff_char == XOFF_CHAR
            &&& bitfield_configured(final(dcb).bitfield, old(dcb).bitfield, *config)
        },
        r is Err ==> *final(dcb) == *old(dcb) && (r matches Err(SerialError::InvalidConfig(why))
            && why@ == "Unsupported baud rate: "@ + decimal(config.baud_rate as nat)),
{
    match validate_baud_rate(config.baud_rate) {
        Ok(baud) => {
            dcb.baud_rate = baud;
        },
        Err(e) => {
            return Err(e);
        },
    }
    dcb.byte_size =
    match config.data_bits {
        5 => 5,
        6 => 6,
        7 => 7,
        _ => 8,
    };
    dcb.stop_bits = if config.stop_bits >= 2 {
        TWOSTOPBITS
    } else {
        ONESTOPBIT
    };
    let (code, f_parity): (u8, bool) = match config.parity {
        Parity::NoParity => (NOPARITY, false),
        Parity::Even => (EVENPARITY, true),
        Parity::Odd => (ODDPARITY, true),
    };
    dcb.parity = code;
    let (cts, in_x, out_x, rts): (bool, bool, bool, u32) = match config.flow_control {
        FlowControl::NoFlowControl => (false, false, false, RTS_CONTROL_ENABLE),
        FlowControl::Hardware => (true, false, false, RTS_CONTROL_HANDSHAKE),
        FlowControl::Software => (false, true, true, RTS_CONTROL_ENABLE),
    };
    let before: u32 = dcb.bitfield;
    let mut word: u32 = before;
    set_bit(&mut word, F_PARITY, f_parity);
    set_bit(&mut word, F_OUTX_CTS_FLOW, cts);
    set_bit(&mut word, F_IN_X, in_x);
    set_bit(&mut word, F_OUT_X, out_x);
    set_2bit(&mut word, F_RTS_CONTROL_SHIFT, rts);
    // The line has to be under software control, or raising it later would
    // have no effect.
    set_2bit(&mut word, F_DTR_CONTROL_SHIFT, DTR_CONTROL_ENABLE);
    set_bit(&mut word, F_BINARY, true);
    set_bit(&mut word, F_OUTX_DSR_FLOW, false);
    set_bit(&mut word, F_DSR_SENSITIVITY, false);
    set_bit(&mut word, F_TX_CONTINUE_ON_XOFF, false);
    set_bit(&mut word, F_ERROR_CHAR, false);
    set_bit(&mut word, F_NULL, false);
    set_bit(&mut word, F_ABORT_ON_ERROR, false);
    proof {
        packed_word(before, f_parity, cts, in_x, rts, word);
    }
    dcb.bitfield = word;
    dcb.xon_char = XON_CHAR;
    dcb.xoff_char = XOFF_CHAR;
    Ok(())
}

/// How long the driver waits in one read or one write, in milliseconds.
#[derive(Debug, Clone, Copy, PartialEq, Eq, Structural)]
pub struct CommTimeouts {
    pub read_interval: u32,
    pub read_total_multiplier: u32,
    pub read_total_constant: u32,
    pub write_total_multiplier: u32,
    pub write_total_constant: u32,
}

/// One read waits up to the read timeout and returns what arrived; a write
/// that hangs fails after five seconds.
pub fn comm_timeouts() -> (r: CommTimeouts)
    ensures
        r == (CommTimeouts {
            read_interval: 0,
            read_total_multiplier: 0,
            read_total_constant: READ_TIMEOUT_MS as u32,
            write_total_multiplier: 0,
            write_total_constant: 5000,
        }),
{
    CommTimeouts {
        read_interval: 0,
        read_total_multiplier: 0,
        read_total_constant: READ_TIMEOUT_MS as u32,
        write_total_multiplier: 0,
        write_total_constant: 5000,
    }
}

/// What the control word says to the driver, bit by bit: characters are
/// checked exactly where there is a parity; the other end's line holds output
/// back exactly with hardware flow control; the two pause characters are used
/// exactly with software flow control; RTS is left to the driver exactly with
/// hardware flow control and else starts high; DTR starts under software
/// control; and nothing else is switched on.
pub proof fn the_control_word_says_what_was_asked(
    after: u32,
    before: u32,
    config: SerialConfig,
)
    requires
        bitfield_configured(after, before, config),
    ensures
        after & 0x1 == 0x1,
        after & 0x2 != 0 <==> config.parity != Parity::NoParity,
        after & 0x4 != 0 <==> config.flow_control == FlowControl::Hardware,
        after & 0x100 != 0 <==> config.flow_control == FlowControl::Software,
        after & 0x200 != 0 <==> config.flow_control == FlowControl::Software,
        (after >> 4u32) & 3 == 1,
        (after >> 12u32) & 3 == (if config.flow_control == FlowControl::Hardware {
            2u32
        } else {
            1u32
        }),
        after & 0x8 == 0,
        after & 0x40 == 0,
        after & 0x80 == 0,
        after & 0x400 == 0,
        after & 0x800 == 0,
        after & 0x4000 == 0,
        after >> 15u32 == before >> 15u32,
{
}

/// The character format: as many data bits as were asked for, between five and
/// eight; two stop bits from two on; and the driver's number for the parity.
pub proof fn the_character_format_is_the_one_asked(data_bits: u8, stop_bits: u8, parity: Parity)
    ensures
        5 <= data_bits <= 8 ==> byte_size_of(data_bits) == data_bits,
        data_bits < 5 || data_bits > 8 ==> byte_size_of(data_bits) == 8,
        stop_bits_of(stop_bits) == (if stop_bits >= 2 {
            2u8
        } else {
            0u8
        }),
        parity == Parity::NoParity ==> parity_code(parity) == 0,
        parity == Parity::Odd ==> parity_code(parity) == 1,
        parity == Parity::Even ==> parity_code(parity) == 2,
{
}

} // verus!
