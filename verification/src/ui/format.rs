//! How a frequency is written.

use crate::text::a_group_has_three_digits;
use crate::text::a_written_number_reads_back;
use crate::text::all_digits;
use crate::text::char_value;
use crate::text::decimal;
use crate::text::no_digits;
use crate::text::number_before;
use crate::text::push_decimal;
use crate::text::push_text;
use crate::text::push_zero_padded;
use crate::text::read_number;
use crate::text::three_more_digits;
use crate::text::zero_padded;
use vstd::prelude::*;
use vstd::string::*;

verus! {

/// The digits of a frequency: megahertz, kilohertz and hertz, dotted.
pub open spec fn hz_digits(hz: u64) -> Seq<char> {
    decimal(hz as nat / 1_000_000) + "."@ + zero_padded(hz as nat / 1000 % 1000, 3) + "."@
        + zero_padded(hz as nat % 1000, 3)
}

/// A frequency as it is written: `14.074.000 MHz`.
pub open spec fn hz_text(hz: u64) -> Seq<char> {
    hz_digits(hz) + " MHz"@
}

/// The digits of a frequency: megahertz, kilohertz and hertz, dotted.
pub fn format_digits(hz: u64) -> (r: String)
    ensures
        r@ == hz_digits(hz),
{
    let mut out = String::new();
    push_decimal(&mut out, hz / 1_000_000);
    assert(out@ =~= decimal(hz as nat / 1_000_000));
    push_text(&mut out, ".");
    push_zero_padded(&mut out, hz / 1000 % 1000, 3);
    push_text(&mut out, ".");
    push_zero_padded(&mut out, hz % 1000, 3);
    out
}

/// A frequency as it is written: `14.074.000 MHz`.
pub fn format_hz(hz: u64) -> (r: String)
    ensures
        r@ == hz_text(hz),
{
    let mut out = format_digits(hz);
    push_text(&mut out, " MHz");
    out
}

/// The frequency is read back from its digits, the dots left out. The hertz and
/// the kilohertz have three digits each behind a dot of their own; the
/// megahertz before them have as many as they need.
pub proof fn a_written_frequency_reads_back(hz: u64)
    ensures
        read_number(hz_digits(hz)) == hz,
        ({
            let s = hz_digits(hz);
            let n = s.len() as int;
            &&& n >= 9
            &&& s[n - 4] == '.'
            &&& s[n - 8] == '.'
            &&& all_digits(s.subrange(n - 3, n))
            &&& all_digits(s.subrange(n - 7, n - 4))
            &&& all_digits(s.take(n - 8))
            &&& s[0] == '0' ==> hz < 1_000_000 && n == 9
        }),
{
    reveal_strlit(".");
    let mega = decimal(hz as nat / 1_000_000);
    let kilo = crate::text::zero_padded(hz as nat / 1000 % 1000, 3);
    let low = crate::text::zero_padded(hz as nat % 1000, 3);
    a_written_number_reads_back(hz as nat / 1_000_000);
    a_group_has_three_digits(hz as nat / 1000 % 1000);
    a_group_has_three_digits(hz as nat % 1000);
    assert(no_digits("."@)) by {
        assert(char_value('.') is None);
    }
    number_before(mega, "."@);
    three_more_digits(mega + "."@, kilo);
    number_before(mega + "."@ + kilo, "."@);
    three_more_digits(mega + "."@ + kilo + "."@, low);
    let s = hz_digits(hz);
    let n = s.len() as int;
    assert(s.subrange(n - 3, n) =~= low);
    assert(s.subrange(n - 7, n - 4) =~= kilo);
    assert(s.take(n - 8) =~= mega);
}

/// A frequency with its unit is read back too, and no two frequencies are
/// written alike.
pub proof fn frequencies_are_not_written_alike(a: u64, b: u64)
    ensures
        read_number(hz_text(a)) == a,
        hz_text(a).len() >= 13,
        hz_text(a).skip(hz_text(a).len() - 4) == " MHz"@,
        hz_text(a).take(hz_text(a).len() - 4) == hz_digits(a),
        hz_text(a) == hz_text(b) ==> a == b,
        hz_digits(a) == hz_digits(b) ==> a == b,
{
    reveal_strlit(" MHz");
    a_written_frequency_reads_back(a);
    a_written_frequency_reads_back(b);
    assert(no_digits(" MHz"@));
    number_before(hz_digits(a), " MHz"@);
    number_before(hz_digits(b), " MHz"@);
    assert(hz_text(a).skip(hz_text(a).len() - 4) =~= " MHz"@);
    assert(hz_text(a).take(hz_text(a).len() - 4) =~= hz_digits(a));
}

} // verus!
