//! Serial port configuration.

use vstd::prelude::*;

verus! {

/// How long a read waits for a byte, in milliseconds. Generous for a radio
/// that answers within a tenth of a second.
pub const READ_TIMEOUT_MS: u64 = 2000;

/// Parity of a character on the line.
#[derive(Debug, Clone, Copy, PartialEq, Eq, Structural)]
pub enum Parity {
    NoParity,
    Even,
    Odd,
}

/// How the two ends of the line hold each other back.
#[derive(Debug, Clone, Copy, PartialEq, Eq, Structural)]
pub enum FlowControl {
    NoFlowControl,
    Software,
    Hardware,
}

/// Serial port configuration.
#[derive(Debug, Clone, Copy, PartialEq, Eq, Structural)]
pub struct SerialConfig {
    pub baud_rate: u32,
    pub data_bits: u8,
    pub stop_bits: u8,
    pub parity: Parity,
    pub flow_control: FlowControl,
    /// Whether opening the port asserts RTS.
    pub initial_rts: bool,
    /// Whether opening the port asserts DTR. On many stations DTR is the
    /// push-to-talk line, so asserting it is opt-in.
    pub initial_dtr: bool,
}

impl SerialConfig {
    /// 9600 8N2 without flow control, RTS high and DTR low.
    pub open spec fn default_config() -> SerialConfig {
        SerialConfig {
            baud_rate: 9600,
            data_bits: 8,
            stop_bits: 2,
            parity: Parity::NoParity,
            flow_control: FlowControl::NoFlowControl,
            initial_rts: true,
            initial_dtr: false,
        }
    }
}

impl Default for SerialConfig {
    fn default() -> (r: Self)
        ensures
            r == SerialConfig::default_config(),
    {
        SerialConfig {
            baud_rate: 9600,
            data_bits: 8,
            stop_bits: 2,
            parity: Parity::NoParity,
            flow_control: FlowControl::NoFlowControl,
            initial_rts: true,
            initial_dtr: false,
        }
    }
}

/// A port that nobody configured runs at 9600 baud with eight data bits, two
/// stop bits, no parity and no flow control. Opening it raises RTS and never
/// DTR.
pub proof fn an_unconfigured_port_never_keys(config: SerialConfig)
    requires
        config == SerialConfig::default_config(),
    ensures
        config.baud_rate == 9600,
        config.data_bits == 8,
        config.stop_bits == 2,
        config.parity == Parity::NoParity,
        config.flow_control == FlowControl::NoFlowControl,
        config.initial_rts,
        !config.initial_dtr,
{
}

} // verus!
