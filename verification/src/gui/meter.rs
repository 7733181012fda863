//! The S-meter in words.

use crate::text::decimal;
use crate::text::no_digits;
use crate::text::push_decimal;
use crate::text::push_text;
use crate::text::text;
use crate::tui::meter::MeterReading;
use vstd::prelude::*;
use vstd::string::*;

verus! {

/// A reading in words: its label and the raw value beside it, or a dash.
pub open spec fn reading_text(reading: Option<(Seq<char>, MeterReading)>) -> Seq<char> {
    match reading {
        None => "—"@,
        Some((label, r)) => label + "  "@ + decimal(r.raw as nat) + "/"@ + decimal(r.max as nat),
    }
}

/// The S-meter's text: an S-unit and the raw value behind it. A meter that was
/// never read says so rather than reading zero.
pub fn smeter_text(reading: Option<(&str, MeterReading)>) -> (r: String)
    ensures
        r@ == reading_text(
            match reading {
                Some((label, m)) => Some((label@, m)),
                None => None,
            },
        ),
{
    match reading {
        None => text("—"),
        Some((label, r)) => {
            let mut out = text(label);
            push_text(&mut out, "  ");
            push_decimal(&mut out, r.raw as u64);
            push_text(&mut out, "/");
            push_decimal(&mut out, r.max as u64);
            out
        },
    }
}

/// A reading shows its label, then its raw value, then the largest there can
/// be; a meter that was never read shows no digit.
pub proof fn a_reading_shows_its_raw_value(label: Seq<char>, reading: MeterReading)
    ensures
        ({
            let words = reading_text(Some((label, reading)));
            let raw = decimal(reading.raw as nat);
            let most = decimal(reading.max as nat);
            &&& words.len() == label.len() + 3 + raw.len() + most.len()
            &&& words.subrange(0, label.len() as int) == label
            &&& words.subrange(label.len() as int + 2, label.len() as int + 2 + raw.len() as int)
                == raw
            &&& words.skip(words.len() - most.len()) == most
        }),
        no_digits(reading_text(None)),
{
    reveal_strlit("  ");
    reveal_strlit("/");
    reveal_strlit("—");
    let words = reading_text(Some((label, reading)));
    let raw = decimal(reading.raw as nat);
    let most = decimal(reading.max as nat);
    assert(words.subrange(0, label.len() as int) =~= label);
    assert(words.subrange(label.len() as int + 2, label.len() as int + 2 + raw.len() as int)
        =~= raw);
    assert(words.skip(words.len() - most.len()) =~= most);
}

} // verus!
