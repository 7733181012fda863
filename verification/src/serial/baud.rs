//! The baud rates this library accepts, on every platform.

use crate::serial::error::SerialError;
use crate::text::decimal;
use crate::text::push_decimal;
use crate::text::text;
use vstd::prelude::*;
use vstd::string::*;

verus! {

/// The accepted baud rates, slowest first.
pub const SUPPORTED_BAUD_RATES: [u32; 9] = [
    1200,
    2400,
    4800,
    9600,
    19200,
    38400,
    57600,
    115200,
    230400,
];

/// Whether `baud` is one of the accepted rates.
pub open spec fn supported(baud: u32) -> bool {
    baud == 1200 || baud == 2400 || baud == 4800 || baud == 9600 || baud == 19200 || baud == 38400
        || baud == 57600 || baud == 115200 || baud == 230400
}

/// `baud` unchanged where it is one of [`SUPPORTED_BAUD_RATES`].
pub fn validate_baud_rate(baud: u32) -> (r: Result<u32, SerialError>)
    ensures
        supported(baud) ==> r == Ok::<u32, SerialError>(baud),
        !supported(baud) ==> (r matches Err(SerialError::InvalidConfig(why)) && why@
            == "Unsupported baud rate: "@ + decimal(baud as nat)),
{
    let rates: [u32; 9] = SUPPORTED_BAUD_RATES;
    let mut i: usize = 0;
    while i < 9
        invariant
            i <= 9,
            rates == SUPPORTED_BAUD_RATES,
            forall|j: int| 0 <= j < i ==> rates@[j] != baud,
        decreases 9 - i,
    {
        if rates[i] == baud {
            return Ok(baud);
        }
        i += 1;
    }
    assert(!supported(baud)) by {
        assert(rates@[0] == 1200 && rates@[1] == 2400 && rates@[2] == 4800);
        assert(rates@[3] == 9600 && rates@[4] == 19200 && rates@[5] == 38400);
        assert(rates@[6] == 57600 && rates@[7] == 115200 && rates@[8] == 230400);
    }
    let mut why = text("Unsupported baud rate: ");
    push_decimal(&mut why, baud as u64);
    Err(SerialError::InvalidConfig(why))
}

/// The accepted rates are the doublings of 1200 up to 38400 and those of 57600
/// up to 230400, and no others.
pub proof fn rates_are_doublings(baud: u32)
    ensures
        supported(baud) <==> (baud % 1200 == 0 && (baud / 1200 == 1 || baud / 1200 == 2 || baud
            / 1200 == 4 || baud / 1200 == 8 || baud / 1200 == 16 || baud / 1200 == 32)) || (baud
            % 57600 == 0 && (baud / 57600 == 1 || baud / 57600 == 2 || baud / 57600 == 4)),
{
}

} // verus!
