//! The VFO readout.

use crate::text::no_digits;
use crate::text::number_behind;
use crate::text::push_text;
use crate::text::read_number;
use crate::text::text;
use crate::ui::format::format_hz;
use crate::ui::format::frequencies_are_not_written_alike;
use crate::ui::format::hz_text;
use crate::ui::style::Line;
use crate::ui::style::Span;
use crate::ui::style::Style;
use vstd::prelude::*;
use vstd::string::*;

verus! {

/// The confirmed frequency, or dashes where none is known, and behind it the
/// requested one.
pub open spec fn readout_spans(
    hz: Option<u64>,
    requested: Option<u64>,
    confirmed: Style,
    pending: Style,
    unknown: Style,
) -> Seq<(Seq<char>, Style)> {
    let first = match hz {
        Some(hz) => (hz_text(hz), confirmed),
        None => ("—.———.——— MHz"@, unknown),
    };
    match requested {
        Some(req) => seq![first, ("  ▸ "@ + hz_text(req), pending)],
        None => seq![first],
    }
}

/// A frequency readout. What is not known is shown as dashes, never as zero,
/// and what was requested follows the confirmed value rather than replacing
/// it.
pub fn vfo_readout(
    hz: Option<u64>,
    requested: Option<u64>,
    confirmed_style: Style,
    pending_style: Style,
    unknown_style: Style,
) -> (r: Line)
    ensures
        r@ == readout_spans(hz, requested, confirmed_style, pending_style, unknown_style),
{
    let first = match hz {
        Some(hz) => Span::styled(format_hz(hz), confirmed_style),
        None => Span::of("—.———.——— MHz", unknown_style),
    };
    match requested {
        Some(req) => {
            let mut wanted = text("  ▸ ");
            push_text(&mut wanted, format_hz(req).as_str());
            Line::two(first, Span::styled(wanted, pending_style))
        },
        None => Line::one(first),
    }
}

/// A frequency that nobody has read is never shown as a number, whatever was
/// requested; and a request leaves the confirmed part as it was.
pub proof fn the_confirmed_part_is_not_touched_by_a_request(
    hz: Option<u64>,
    requested: Option<u64>,
    confirmed: Style,
    pending: Style,
    unknown: Style,
)
    ensures
        readout_spans(hz, requested, confirmed, pending, unknown)[0] == readout_spans(
            hz,
            None,
            confirmed,
            pending,
            unknown,
        )[0],
        hz is None ==> readout_spans(hz, requested, confirmed, pending, unknown)[0].0
            == "—.———.——— MHz"@,
{
}

/// What the readout says is what the radio is on: the first part is the
/// confirmed frequency to the hertz, in the style of what is confirmed, or has
/// no digit at all, in the style of what is not known; the second, which is
/// there exactly where something was asked for, is that frequency, in the style
/// of what is pending.
pub proof fn the_dial_is_read_back(
    hz: Option<u64>,
    requested: Option<u64>,
    confirmed: Style,
    pending: Style,
    unknown: Style,
)
    ensures
        ({
            let r = readout_spans(hz, requested, confirmed, pending, unknown);
            &&& hz matches Some(v) ==> read_number(r[0].0) == v && r[0].1 == confirmed
            &&& hz is None ==> no_digits(r[0].0) && r[0].1 == unknown
            &&& requested matches Some(v) ==> r.len() == 2 && read_number(r[1].0) == v && r[1].1
                == pending
            &&& requested is None ==> r.len() == 1
        }),
{
    reveal_strlit("—.———.——— MHz");
    reveal_strlit("  ▸ ");
    if let Some(v) = hz {
        frequencies_are_not_written_alike(v, v);
    }
    if let Some(v) = requested {
        frequencies_are_not_written_alike(v, v);
        number_behind("  ▸ "@, hz_text(v));
    }
}

} // verus!
