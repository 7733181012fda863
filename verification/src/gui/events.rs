//! What a server sends, and what of a batch of it counts.

use crate::gui::devices::Offer;
use crate::gui::readout::RadioState;
use crate::text::push_text;
use crate::text::text;
use crate::ui::device::DeviceList;
use vstd::prelude::*;
use vstd::string::*;

verus! {

/// Why a server refused.
#[derive(Debug, PartialEq, Eq)]
pub enum ErrorCode {
    Unsupported,
    Malformed,
    /// Any other code, by its name.
    Other(String),
}

/// A code's name.
pub open spec fn code_name(code: ErrorCode) -> Seq<char> {
    match code {
        ErrorCode::Unsupported => "Unsupported"@,
        ErrorCode::Malformed => "Malformed"@,
        ErrorCode::Other(name) => name@,
    }
}

/// Something the server sent, or the end of the connection.
#[derive(Debug, PartialEq, Eq)]
pub enum Event {
    Refused { code: ErrorCode, message: String },
    State(RadioState),
    /// A meter's raw value, and whether the meter is the S meter.
    Meter { is_s: bool, raw: u16 },
    Devices(Vec<DeviceList>),
    /// A reply the console does nothing with.
    Other,
    Disconnected(String),
}

/// Whether an event is a server's way of saying that it does not offer device
/// selection. It can only be told while the question is open.
pub open spec fn declines(event: Event, asked: bool) -> bool {
    event matches Event::Refused { code, message } && asked && (code is Unsupported
        || code is Malformed)
}

/// A refusal in words.
pub open spec fn fault_text(code: ErrorCode, message: Seq<char>) -> Seq<char> {
    code_name(code) + ": "@ + message
}

/// A refusal in words.
pub fn fault(code: &ErrorCode, message: &str) -> (r: String)
    ensures
        r@ == fault_text(*code, message@),
{
    let mut out = match code {
        ErrorCode::Unsupported => text("Unsupported"),
        ErrorCode::Malformed => text("Malformed"),
        ErrorCode::Other(name) => text(name.as_str()),
    };
    push_text(&mut out, ": ");
    push_text(&mut out, message);
    out
}

/// How many events come before the end of the connection.
pub open spec fn ended(events: Seq<Event>) -> int
    decreases events.len(),
{
    if events.len() == 0 {
        0
    } else if events[0] is Disconnected {
        0
    } else {
        1 + ended(events.skip(1))
    }
}

/// The events before the end of the connection: those that count.
pub open spec fn heard(events: Seq<Event>) -> Seq<Event> {
    events.take(ended(events))
}

/// Why the connection ended, if it did.
pub open spec fn lost(events: Seq<Event>) -> Option<String> {
    if ended(events) < events.len() {
        match events[ended(events)] {
            Event::Disconnected(why) => Some(why),
            _ => None,
        }
    } else {
        None
    }
}

/// The last account the radio gave of itself.
pub open spec fn last_state(events: Seq<Event>) -> Option<RadioState>
    decreases events.len(),
{
    if events.len() == 0 {
        None
    } else {
        match events.last() {
            Event::State(state) => Some(state),
            _ => last_state(events.drop_last()),
        }
    }
}

/// The last S meter sample.
pub open spec fn last_s_meter(events: Seq<Event>) -> Option<u16>
    decreases events.len(),
{
    if events.len() == 0 {
        None
    } else {
        match events.last() {
            Event::Meter { is_s: true, raw } => Some(raw),
            _ => last_s_meter(events.drop_last()),
        }
    }
}

/// The last answer to the question for devices: the host's lists, or that it
/// does not offer any.
pub open spec fn last_answer(events: Seq<Event>, asked: bool) -> Option<Offer>
    decreases events.len(),
{
    if events.len() == 0 {
        None
    } else {
        match events.last() {
            Event::Devices(lists) => Some(Offer::Listed(lists)),
            event => if declines(event, asked) {
                Some(Offer::NotOffered)
            } else {
                last_answer(events.drop_last(), asked)
            },
        }
    }
}

/// The last refusal that is a fault, in words.
pub open spec fn last_fault(events: Seq<Event>, asked: bool) -> Option<Seq<char>>
    decreases events.len(),
{
    if events.len() == 0 {
        None
    } else {
        match events.last() {
            Event::Refused { code, message } => if declines(events.last(), asked) {
                last_fault(events.drop_last(), asked)
            } else {
                Some(fault_text(code, message@))
            },
            _ => last_fault(events.drop_last(), asked),
        }
    }
}

/// What a batch of events amounts to.
#[derive(Debug, PartialEq, Eq)]
pub struct Digest {
    pub fault: Option<String>,
    pub state: Option<RadioState>,
    pub s_meter: Option<u16>,
    pub answer: Option<Offer>,
    pub lost: Option<String>,
}

/// What is left of a queue of events and what was taken from it make up the
/// queue; taking one more that does not end the connection moves it over.
proof fn one_more(events: Seq<Event>, i: int)
    requires
        0 <= i < events.len(),
        ended(events) >= i,
        !(events[i] is Disconnected),
    ensures
        ended(events) >= i + 1,
        events.take(i + 1).drop_last() == events.take(i),
        events.take(i + 1).last() == events[i],
    decreases i,
{
    assert(events.take(i + 1).drop_last() =~= events.take(i));
    if i > 0 {
        assert(events.skip(1)[i - 1] == events[i]);
        one_more(events.skip(1), i - 1);
    }
    ended_is_small(events.skip(1));
}

proof fn ended_is_small(events: Seq<Event>)
    ensures
        0 <= ended(events) <= events.len(),
    decreases events.len(),
{
    if events.len() > 0 {
        ended_is_small(events.skip(1));
    }
}

/// The first event that ends the connection is where it ends.
proof fn it_ends_here(events: Seq<Event>, i: int)
    requires
        0 <= i < events.len(),
        ended(events) >= i,
        events[i] is Disconnected,
    ensures
        ended(events) == i,
    decreases i,
{
    if i > 0 {
        assert(events.skip(1)[i - 1] == events[i]);
        it_ends_here(events.skip(1), i - 1);
    }
}

/// Go through a batch of events, up to the end of the connection. `asked` says
/// whether a question for devices is open: only then does a refusal answer it.
pub fn digest(events: Vec<Event>, asked: bool) -> (r: Digest)
    ensures
        r.state == last_state(heard(events@)),
        r.s_meter == last_s_meter(heard(events@)),
        r.answer == last_answer(heard(events@), asked),
        r.lost == lost(events@),
        match last_fault(heard(events@), asked) {
            Some(words) => r.fault matches Some(f) && f@ == words,
            None => r.fault is None,
        },
{
    let ghost all = events@;
    let mut rest = events;
    let mut out = Digest { fault: None, state: None, s_meter: None, answer: None, lost: None };
    let ghost mut i: int = 0;
    proof {
        ended_is_small(all);
        assert(all.take(0) =~= Seq::empty());
        assert(all.skip(0) =~= all);
    }
    while rest.len() > 0
        invariant
            0 <= i <= all.len(),
            all == events@,
            ended(all) <= all.len(),
            rest@ == all.skip(i),
            ended(all) >= i,
            out.state == last_state(all.take(i)),
            out.s_meter == last_s_meter(all.take(i)),
            out.answer == last_answer(all.take(i), asked),
            out.lost is None,
            match last_fault(all.take(i), asked) {
                Some(words) => out.fault matches Some(f) && f@ == words,
                None => out.fault is None,
            },
        decreases rest@.len(),
    {
        let event = rest.remove(0);
        proof {
            assert(event == all[i]);
            assert(all.skip(i).remove(0) =~= all.skip(i + 1));
            if event is Disconnected {
                it_ends_here(all, i);
            } else {
                one_more(all, i);
            }
        }
        match event {
            Event::Refused { code, message } => {
                let declined: bool = asked && match code {
                    ErrorCode::Unsupported => true,
                    ErrorCode::Malformed => true,
                    ErrorCode::Other(_) => false,
                };
                if declined {
                    out.answer = Some(Offer::NotOffered);
                } else {
                    out.fault = Some(fault(&code, message.as_str()));
                }
            },
            Event::State(state) => {
                out.state = Some(state);
            },
            Event::Meter { is_s, raw } => {
                if is_s {
                    out.s_meter = Some(raw);
                }
            },
            Event::Devices(lists) => {
                out.answer = Some(Offer::Listed(lists));
            },
            Event::Other => {},
            Event::Disconnected(why) => {
                out.lost = Some(why);
                return out;
            },
        }
        proof {
            i = i + 1;
        }
    }
    assert(all.take(i) =~= heard(all));
    out
}

/// Nothing after the end of the connection counts.
pub proof fn nothing_after_the_end_counts(events: Seq<Event>, more: Seq<Event>)
    requires
        lost(events) is Some,
    ensures
        heard(events + more) == heard(events),
        lost(events + more) == lost(events),
    decreases events.len(),
{
    ended_is_small(events);
    ended_stays(events, more);
    assert((events + more).take(ended(events)) =~= events.take(ended(events)));
}

proof fn ended_stays(events: Seq<Event>, more: Seq<Event>)
    requires
        ended(events) < events.len(),
    ensures
        ended(events + more) == ended(events),
    decreases events.len(),
{
    if events.len() > 0 && !(events[0] is Disconnected) {
        assert((events + more).skip(1) =~= events.skip(1) + more);
        ended_stays(events.skip(1), more);
    }
}

/// A server that declines to list its devices is not reported as a fault: the
/// refusal answers the question instead.
pub proof fn a_decline_is_an_answer_and_no_fault(events: Seq<Event>, code: ErrorCode, message: String)
    requires
        code is Unsupported || code is Malformed,
    ensures
        last_answer(events.push(Event::Refused { code, message }), true) == Some(
            Offer::NotOffered,
        ),
        last_fault(events.push(Event::Refused { code, message }), true) == last_fault(events, true),
        last_answer(events.push(Event::Refused { code, message }), false) == last_answer(
            events,
            false,
        ),
        last_fault(events.push(Event::Refused { code, message }), false) == Some(
            fault_text(code, message@),
        ),
{
    let event = Event::Refused { code, message };
    assert(events.push(event).drop_last() =~= events);
}

/// What counts is what came before the connection ended, all of it and in
/// order: no event that counts ends the connection, the first that does not
/// count is the one that ended it, and it says why.
pub proof fn what_came_before_the_end_counts(events: Seq<Event>)
    ensures
        heard(events).len() <= events.len(),
        forall|i: int|
            0 <= i < heard(events).len() ==> heard(events)[i] == #[trigger] events[i]
                && !(events[i] is Disconnected),
        heard(events).len() < events.len() ==> (events[heard(events).len() as int] matches
            Event::Disconnected(why) && lost(events) == Some(why)),
        heard(events).len() == events.len() ==> lost(events) is None && heard(events) == events,
{
    ended_is_small(events);
    none_ends_before(events);
    assert forall|i: int| 0 <= i < heard(events).len() implies heard(events)[i]
        == #[trigger] events[i] && !(events[i] is Disconnected) by {}
    if ended(events) == events.len() {
        assert(heard(events) =~= events);
    }
}

proof fn none_ends_before(events: Seq<Event>)
    ensures
        0 <= ended(events) <= events.len(),
        forall|i: int| 0 <= i < ended(events) ==> !(#[trigger] events[i] is Disconnected),
        ended(events) < events.len() ==> events[ended(events)] is Disconnected,
    decreases events.len(),
{
    if events.len() > 0 && !(events[0] is Disconnected) {
        let rest = events.skip(1);
        none_ends_before(rest);
        assert forall|i: int| 0 <= i < ended(events) implies !(#[trigger] events[i]
            is Disconnected) by {
            if i > 0 {
                assert(rest[i - 1] == events[i]);
            }
        }
        if ended(events) < events.len() {
            assert(rest[ended(rest)] == events[ended(events)]);
        }
    }
}

/// Of several accounts of the radio the last one counts: that at `i`, where no
/// later event is one; and none where no event is one.
pub proof fn the_last_account_counts(events: Seq<Event>, i: int)
    requires
        -1 <= i < events.len(),
        i >= 0 ==> events[i] is State,
        forall|j: int| i < j < events.len() ==> !(#[trigger] events[j] is State),
    ensures
        i >= 0 ==> last_state(events) == Some(events[i]->State_0),
        i < 0 ==> last_state(events) is None,
    decreases events.len(),
{
    if events.len() > 0 && i < events.len() - 1 {
        let rest = events.drop_last();
        assert(!(events[events.len() - 1] is State));
        assert forall|j: int| i < j < rest.len() implies !(#[trigger] rest[j] is State) by {
            assert(rest[j] == events[j]);
        }
        the_last_account_counts(rest, i);
    }
}

/// Of several samples of the S meter the last one counts, and samples of other
/// meters do not.
pub proof fn the_last_s_meter_sample_counts(events: Seq<Event>, i: int)
    requires
        -1 <= i < events.len(),
        i >= 0 ==> (events[i] matches Event::Meter { is_s, raw } && is_s),
        forall|j: int|
            i < j < events.len() ==> !(#[trigger] events[j] matches Event::Meter { is_s, raw }
                && is_s),
    ensures
        i >= 0 ==> last_s_meter(events) == Some(events[i]->raw),
        i < 0 ==> last_s_meter(events) is None,
    decreases events.len(),
{
    if events.len() > 0 && i < events.len() - 1 {
        let rest = events.drop_last();
        assert(!(events[events.len() - 1] matches Event::Meter { is_s, raw } && is_s));
        assert forall|j: int| i < j < rest.len() implies !(#[trigger] rest[j] matches Event::Meter {
            is_s,
            raw,
        } && is_s) by {
            assert(rest[j] == events[j]);
        }
        the_last_s_meter_sample_counts(rest, i);
    }
}

/// Of several answers about devices the last one counts: the host's lists as
/// they are, or that it has none to offer. Nothing else answers.
pub proof fn the_last_answer_counts(events: Seq<Event>, asked: bool, i: int)
    requires
        -1 <= i < events.len(),
        i >= 0 ==> events[i] is Devices || declines(events[i], asked),
        forall|j: int|
            i < j < events.len() ==> !(#[trigger] events[j] is Devices) && !declines(
                events[j],
                asked,
            ),
    ensures
        i >= 0 ==> last_answer(events, asked) == Some(
            match events[i] {
                Event::Devices(lists) => Offer::Listed(lists),
                _ => Offer::NotOffered,
            },
        ),
        i < 0 ==> last_answer(events, asked) is None,
    decreases events.len(),
{
    if events.len() > 0 && i < events.len() - 1 {
        let rest = events.drop_last();
        assert(!(events[events.len() - 1] is Devices));
        assert forall|j: int| i < j < rest.len() implies !(#[trigger] rest[j] is Devices)
            && !declines(rest[j], asked) by {
            assert(rest[j] == events[j]);
        }
        the_last_answer_counts(rest, asked, i);
    }
}

/// Of several refusals that are faults the last one is reported: its code and
/// the server's own words. Nothing else is reported.
pub proof fn the_last_fault_is_reported(events: Seq<Event>, asked: bool, i: int)
    requires
        -1 <= i < events.len(),
        i >= 0 ==> events[i] is Refused && !declines(events[i], asked),
        forall|j: int|
            i < j < events.len() ==> (#[trigger] events[j] is Refused ==> declines(
                events[j],
                asked,
            )),
    ensures
        i >= 0 ==> last_fault(events, asked) == Some(
            code_name(events[i]->code) + ": "@ + events[i]->message@,
        ),
        i < 0 ==> last_fault(events, asked) is None,
    decreases events.len(),
{
    if events.len() > 0 && i < events.len() - 1 {
        let rest = events.drop_last();
        assert(events[events.len() - 1] is Refused ==> declines(events[events.len() - 1], asked));
        assert forall|j: int| i < j < rest.len() implies (#[trigger] rest[j] is Refused
            ==> declines(rest[j], asked)) by {
            assert(rest[j] == events[j]);
        }
        the_last_fault_is_reported(rest, asked, i);
    }
}

/// Only a refusal declines, only while the question is open, and only where the
/// server did not understand it or does not support it.
pub proof fn only_an_open_question_is_declined(code: ErrorCode, message: String, asked: bool)
    ensures
        declines(Event::Refused { code, message }, asked) <==> asked && (code is Unsupported
            || code is Malformed),
        !declines(Event::Other, asked),
{
}

/// A refusal leads with the name of its code and ends with the server's own
/// words.
pub proof fn a_refusal_quotes_the_server(code: ErrorCode, message: Seq<char>)
    ensures
        ({
            let words = fault_text(code, message);
            let name = match code {
                ErrorCode::Unsupported => "Unsupported"@,
                ErrorCode::Malformed => "Malformed"@,
                ErrorCode::Other(name) => name@,
            };
            &&& words.len() == name.len() + 2 + message.len()
            &&& words.subrange(0, name.len() as int) == name
            &&& words.skip(words.len() - message.len()) == message
        }),
{
    reveal_strlit(": ");
    let words = fault_text(code, message);
    let name = code_name(code);
    assert(words.subrange(0, name.len() as int) =~= name);
    assert(words.skip(words.len() - message.len()) =~= message);
}

} // verus!
