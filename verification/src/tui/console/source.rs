//! The source tab: what is attached to this radio, and what could be.

use crate::text::decimal;
use crate::text::push_decimal;
use crate::text::push_text;
use crate::tui::af::AudioState;
use crate::tui::console::facts::DIM;
use crate::tui::console::facts::SETTING;
use crate::tui::console::model::ConsoleView;
use crate::tui::console::model::FrameInfo;
use crate::tui::devices::all_choices;
use crate::tui::devices::chosen;
use crate::tui::devices::current_choice;
use crate::tui::devices::hint_text;
use crate::tui::devices::picker_hint;
use crate::tui::devices::picker_lines;
use crate::tui::devices::picker_view;
use crate::tui::devices::PickerStyles;
use crate::ui::device::DeviceKind;
use crate::ui::device::flag_text;
use crate::ui::style::bold_ink;
use crate::ui::style::bold_on;
use crate::ui::style::inked;
use crate::ui::style::lines_view;
use crate::ui::style::push_line;
use crate::ui::style::push_lines;
use crate::ui::style::unstyled;
use crate::ui::style::Colour;
use crate::ui::style::Line;
use crate::ui::style::Span;
use crate::ui::style::Style;
use vstd::prelude::*;
use vstd::string::*;

verus! {

/// A spectrum frame in words.
pub open spec fn frame_text(frame: FrameInfo) -> Seq<char> {
    frame.center_mhz@ + " MHz span "@ + decimal(frame.axis.span_hz as nat / 1000) + " kHz, "@
        + decimal(frame.axis.bins as nat) + " bins"@
}

/// The spans that say what is attached to the intermediate frequency.
pub open spec fn tap_spans(view: ConsoleView) -> Seq<(Seq<char>, Style)> {
    seq![
        ("  IF TAP    "@, inked(DIM)),
        if view.spectrum@.len() > 0 {
            (frame_text(view.spectrum@[0]), inked(Colour::Green))
        } else {
            ("nothing attached"@, inked(DIM))
        },
    ]
}

/// What is said of the audio. A path that exists and does not stream is not an
/// absent one.
pub open spec fn audio_span(view: ConsoleView) -> (Seq<char>, Style) {
    match view.audio {
        AudioState::Streaming => (
            match view.af_scope {
                Some(scope) => scope@,
                None => "streaming"@,
            },
            inked(Colour::Green),
        ),
        AudioState::Configured => ("configured, no stream"@, inked(DIM)),
        AudioState::Absent => ("nothing wired"@, inked(DIM)),
    }
}

pub open spec fn picker_styles() -> PickerStyles {
    PickerStyles {
        heading: inked(SETTING),
        label: inked(Colour::White),
        spec: inked(Colour::Cyan),
        detail: inked(DIM),
        selected: bold_on(Colour::Black, Colour::White),
        absent: inked(DIM),
    }
}

/// What the pick under the cursor is a shortcut for.
pub open spec fn hint_lines(view: ConsoleView) -> Seq<Seq<(Seq<char>, Style)>> {
    match current_choice(view.device_selection.index as int, view.devices@) {
        Some(c) => {
            let device = chosen(view.devices@, c);
            seq![seq![(hint_text(device.kind, device.spec@), inked(DIM))]]
        },
        None => seq![],
    }
}

/// All lines of the source tab.
pub open spec fn source_lines(view: ConsoleView) -> Seq<Seq<(Seq<char>, Style)>> {
    seq![
        seq![("ATTACHED"@, bold_ink(Colour::White))],
        tap_spans(view),
        seq![("  AUDIO     "@, inked(DIM)), audio_span(view)],
        seq![(""@, unstyled())],
        seq![("AVAILABLE   up/down to choose, enter to attach"@, bold_ink(Colour::White))],
    ] + picker_view(view.devices@, view.device_selection.index as int, picker_styles())
        + hint_lines(view)
}

fn describe_frame(frame: &FrameInfo) -> (r: String)
    ensures
        r@ == frame_text(*frame),
{
    let mut out = frame.center_mhz.clone();
    push_text(&mut out, " MHz span ");
    push_decimal(&mut out, (frame.axis.span_hz / 1000) as u64);
    push_text(&mut out, " kHz, ");
    push_decimal(&mut out, frame.axis.bins as u64);
    push_text(&mut out, " bins");
    out
}

/// The source tab: what is attached, what the host can see, and what to type
/// to get the device under the cursor.
pub fn source_tab(view: &ConsoleView) -> (r: Vec<Line>)
    ensures
        lines_view(r@) == source_lines(*view),
{
    let mut lines: Vec<Line> = Vec::new();
    push_line(&mut lines, Line::one(Span::of("ATTACHED", Style::bold(Colour::White))));
    let tap = if view.spectrum.len() > 0 {
        Span::styled(describe_frame(&view.spectrum[0]), Style::ink(Colour::Green))
    } else {
        Span::of("nothing attached", Style::ink(DIM))
    };
    push_line(&mut lines, Line::two(Span::of("  IF TAP    ", Style::ink(DIM)), tap));
    let audio = match view.audio {
        AudioState::Streaming => match &view.af_scope {
            Some(scope) => Span::of(scope.as_str(), Style::ink(Colour::Green)),
            None => Span::of("streaming", Style::ink(Colour::Green)),
        },
        AudioState::Configured => Span::of("configured, no stream", Style::ink(DIM)),
        AudioState::Absent => Span::of("nothing wired", Style::ink(DIM)),
    };
    push_line(&mut lines, Line::two(Span::of("  AUDIO     ", Style::ink(DIM)), audio));
    push_line(&mut lines, Line::blank());
    push_line(
        &mut lines,
        Line::one(
            Span::of(
                "AVAILABLE   up/down to choose, enter to attach",
                Style::bold(Colour::White),
            ),
        ),
    );
    let ghost head = lines_view(lines@);
    let styles = PickerStyles {
        heading: Style::ink(SETTING),
        label: Style::ink(Colour::White),
        spec: Style::ink(Colour::Cyan),
        detail: Style::ink(DIM),
        selected: Style::bold_on(Colour::Black, Colour::White),
        absent: Style::ink(DIM),
    };
    push_lines(&mut lines, picker_lines(&view.devices, &view.device_selection, styles));
    match view.device_selection.current(&view.devices) {
        Some(c) => {
            let device = &view.devices[c.list].devices[c.device];
            push_line(
                &mut lines,
                picker_hint(device.kind, device.spec.as_str(), Style::ink(DIM)),
            );
        },
        None => {},
    }
    assert(lines_view(lines@) =~= source_lines(*view));
    lines
}

/// A configured audio path never reads like an absent one.
pub proof fn a_configured_path_is_not_an_absent_one(a: ConsoleView, b: ConsoleView)
    requires
        a.audio == AudioState::Configured,
        b.audio == AudioState::Absent,
    ensures
        audio_span(a).0 != audio_span(b).0,
{
    reveal_strlit("configured, no stream");
    reveal_strlit("nothing wired");
    assert(audio_span(a).0.len() != audio_span(b).0.len());
}

/// A frame is described by its centre, its span in whole kilohertz and the
/// number of its bins, in that order.
pub proof fn a_frame_is_described_by_its_numbers(frame: FrameInfo)
    ensures
        ({
            let text = frame_text(frame);
            let centre = frame.center_mhz@;
            let span = decimal((frame.axis.span_hz / 1000) as nat);
            let bins = decimal(frame.axis.bins as nat);
            &&& text.len() == centre.len() + 21 + span.len() + bins.len()
            &&& text.subrange(0, centre.len() as int) == centre
            &&& text.subrange(
                centre.len() as int + 10,
                centre.len() as int + 10 + span.len() as int,
            ) == span
            &&& text.subrange(text.len() - 5 - bins.len(), text.len() - 5) == bins
        }),
{
    reveal_strlit(" MHz span ");
    reveal_strlit(" kHz, ");
    reveal_strlit(" bins");
    let text = frame_text(frame);
    let centre = frame.center_mhz@;
    let span = decimal((frame.axis.span_hz / 1000) as nat);
    let bins = decimal(frame.axis.bins as nat);
    assert(text.subrange(0, centre.len() as int) =~= centre);
    assert(text.subrange(
        centre.len() as int + 10,
        centre.len() as int + 10 + span.len() as int,
    ) =~= span);
    assert(text.subrange(text.len() - 5 - bins.len(), text.len() - 5) =~= bins);
}

/// The source tab leads with what is attached: the newest frame, or that there
/// is none, then the audio; and it ends with what to type for the device under
/// the cursor, where there is one.
pub proof fn the_source_tab_says_what_is_attached(view: ConsoleView)
    ensures
        ({
            let lines = source_lines(view);
            &&& lines.len() >= 5
            &&& view.spectrum@.len() > 0 ==> lines[1][1].0 == frame_text(view.spectrum@[0])
                && lines[1][1].1.fg == Some(Colour::Green)
            &&& view.spectrum@.len() == 0 ==> lines[1][1].0 == "nothing attached"@
                && lines[1][1].1.fg != Some(Colour::Green)
            &&& lines[2][1].1.fg == Some(Colour::Green) <==> view.audio == AudioState::Streaming
            &&& view.audio == AudioState::Streaming ==> (view.af_scope matches Some(scope)
                ==> lines[2][1].0 == scope@)
            &&& 0 <= view.device_selection.index < all_choices(view.devices@).len() ==> {
                let c = all_choices(view.devices@)[view.device_selection.index as int];
                let device = view.devices@[c.list as int].devices@[c.device as int];
                lines.last()[0].0 == hint_text(device.kind, device.spec@)
            }
        }),
{
}

/// What to type ends with the device's own name for itself, behind the flag of
/// its kind.
pub proof fn a_hint_names_the_device(kind: DeviceKind, spec: Seq<char>)
    ensures
        ({
            let text = hint_text(kind, spec);
            &&& text.len() >= spec.len()
            &&& text.skip(text.len() - spec.len()) == spec
            &&& text.subrange(9, 9 + flag_text(kind).len() as int) == flag_text(kind)
        }),
        flag_text(DeviceKind::Sdr) != flag_text(DeviceKind::AudioInput),
{
    reveal_strlit("same as: ");
    reveal_strlit(" ");
    reveal_strlit("--acc2-audio");
    reveal_strlit("--if-out");
    let text = hint_text(kind, spec);
    assert(text.skip(text.len() - spec.len()) =~= spec);
    assert(text.subrange(9, 9 + flag_text(kind).len() as int) =~= flag_text(kind));
    assert(flag_text(DeviceKind::Sdr).len() != flag_text(DeviceKind::AudioInput).len());
}

} // verus!
