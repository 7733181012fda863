//! Session panels: connection state, errors, header, menu columns.

use crate::text::push_text;
use crate::text::text;
use crate::ui::style::bold_ink;
use crate::ui::style::inked;
use crate::ui::style::lines_view;
use crate::ui::style::push_line;
use crate::ui::style::unstyled;
use crate::ui::style::Colour;
use crate::ui::style::Line;
use crate::ui::style::Span;
use crate::ui::style::Style;
use vstd::prelude::*;
use vstd::string::*;

verus! {

/// Whether the console has a working link to the radio.
#[derive(Debug, Clone, Copy, PartialEq, Eq, Structural)]
pub enum LinkState {
    /// First contact has not completed yet.
    Connecting,
    /// Contact was established and then lost.
    Lost,
}

/// A bordered panel: a title, and lines that are wrapped.
#[derive(Debug, PartialEq, Eq)]
pub struct Panel {
    pub title: String,
    pub lines: Vec<Line>,
}

/// A title as it stands in a border.
pub open spec fn panel_title(title: Seq<char>) -> Seq<char> {
    " "@ + title + " "@
}

fn titled(title: &str, lines: Vec<Line>) -> (r: Panel)
    ensures
        r.title@ == panel_title(title@),
        r.lines == lines,
{
    let mut t = text(" ");
    push_text(&mut t, title);
    push_text(&mut t, " ");
    Panel { title: t, lines }
}

/// How many errors the panel of a lost link shows.
pub const LINK_ERRORS: usize = 8;

/// How many errors the error panel shows.
pub const RECENT_ERRORS: usize = 3;

/// One line per error, in one style.
pub open spec fn error_lines(errors: Seq<String>, style: Style) -> Seq<Seq<(Seq<char>, Style)>> {
    errors.map_values(|e: String| seq![(e@, style)])
}

/// The first errors, as many as the panel of a lost link shows.
pub open spec fn first_errors(errors: Seq<String>) -> Seq<String> {
    if errors.len() <= LINK_ERRORS {
        errors
    } else {
        errors.take(LINK_ERRORS as int)
    }
}

/// What the panel says in a state, before its footer.
pub open spec fn link_lines(state: LinkState, errors: Seq<String>) -> Seq<
    Seq<(Seq<char>, Style)>,
> {
    match state {
        LinkState::Connecting => seq![
            seq![("Connecting to radio..."@, inked(Colour::Yellow))],
            seq![(""@, unstyled())],
            seq![("Waiting for response. This may take a few seconds."@, unstyled())],
        ],
        LinkState::Lost => seq![
            seq![("CONNECTION LOST"@, bold_ink(Colour::Red))],
            seq![(""@, unstyled())],
            seq![("The radio is not responding."@, unstyled())],
            seq![("Reconnect the cable or restart the radio."@, unstyled())],
            seq![("The UI will recover automatically when contact is restored."@, unstyled())],
            seq![(""@, unstyled())],
        ] + error_lines(first_errors(errors), inked(Colour::Yellow)),
    }
}

/// A footer, set off by a blank line.
pub open spec fn footer_lines(footer: Option<Span>) -> Seq<Seq<(Seq<char>, Style)>> {
    match footer {
        Some(span) => seq![seq![(""@, unstyled())], seq![span@]],
        None => seq![],
    }
}

fn plain_line(s: &str) -> (r: Line)
    ensures
        r@ == seq![(s@, unstyled())],
{
    Line::one(Span::raw(s))
}

/// The panel shown when there is no usable link. Connecting does not look like
/// a failure, a lost link says what to do, and the number of errors is bounded
/// so that they push neither off the panel.
pub fn link_panel(
    state: LinkState,
    errors: &Vec<String>,
    title: &str,
    footer: Option<Span>,
) -> (r: Panel)
    ensures
        r.title@ == panel_title(title@),
        lines_view(r.lines@) == link_lines(state, errors@) + footer_lines(footer),
{
    let mut lines: Vec<Line> = Vec::new();
    match state {
        LinkState::Connecting => {
            push_line(
                &mut lines,
                Line::one(Span::of("Connecting to radio...", Style::ink(Colour::Yellow))),
            );
            push_line(&mut lines, Line::blank());
            push_line(
                &mut lines,
                plain_line("Waiting for response. This may take a few seconds."),
            );
            assert(lines_view(lines@) =~= link_lines(state, errors@));
        },
        LinkState::Lost => {
            push_line(
                &mut lines,
                Line::one(Span::of("CONNECTION LOST", Style::bold(Colour::Red))),
            );
            push_line(&mut lines, Line::blank());
            push_line(&mut lines, plain_line("The radio is not responding."));
            push_line(&mut lines, plain_line("Reconnect the cable or restart the radio."));
            push_line(
                &mut lines,
                plain_line("The UI will recover automatically when contact is restored."),
            );
            push_line(&mut lines, Line::blank());
            let ghost head = lines_view(lines@);
            let ghost shown = error_lines(errors@, inked(Colour::Yellow));
            let mut i: usize = 0;
            assert(lines_view(lines@) =~= head + shown.take(0));
            while i < errors.len() && i < LINK_ERRORS
                invariant
                    i <= errors@.len(),
                    i <= LINK_ERRORS,
                    shown == error_lines(errors@, inked(Colour::Yellow)),
                    lines_view(lines@) == head + shown.take(i as int),
                decreases errors@.len() - i,
            {
                push_line(
                    &mut lines,
                    Line::one(Span::of(errors[i].as_str(), Style::ink(Colour::Yellow))),
                );
                i += 1;
                assert(lines_view(lines@) =~= head + shown.take(i as int));
            }
            assert(shown.take(i as int) =~= error_lines(
                first_errors(errors@),
                inked(Colour::Yellow),
            ));
            assert(lines_view(lines@) =~= link_lines(state, errors@));
        },
    }
    let ghost body = lines_view(lines@);
    match &footer {
        Some(span) => {
            push_line(&mut lines, Line::blank());
            push_line(&mut lines, Line::one(span.copy()));
        },
        None => {},
    }
    assert(lines_view(lines@) =~= body + footer_lines(footer));
    titled(title, lines)
}

/// However many errors there are, what a lost link says to do is in its first
/// lines and the footer in its last, and the panel stays bounded.
pub proof fn errors_push_nothing_off_the_panel(errors: Seq<String>, footer: Span)
    ensures
        ({
            let lines = link_lines(LinkState::Lost, errors) + footer_lines(Some(footer));
            &&& lines.len() <= 6 + LINK_ERRORS + 2
            &&& lines[3] == seq![
                ("Reconnect the cable or restart the radio."@, unstyled()),
            ]
            &&& lines.last() == seq![footer@]
        }),
{
}

/// The styles of an error panel.
#[derive(Debug, PartialEq, Eq)]
pub struct ErrorPanelStyles {
    pub error: Style,
    /// What is said when there are no errors. Without it nothing at all is
    /// drawn, which is right where the space is reclaimed.
    pub quiet: Option<(String, Style)>,
}

/// The most recent errors, newest first.
pub open spec fn recent_errors(errors: Seq<String>) -> Seq<String> {
    Seq::new(
        if errors.len() <= RECENT_ERRORS {
            errors.len()
        } else {
            RECENT_ERRORS as nat
        },
        |i: int| errors[errors.len() - 1 - i],
    )
}

/// What is said when there are no errors.
pub open spec fn quiet_lines(quiet: Option<(String, Style)>) -> Seq<Seq<(Seq<char>, Style)>> {
    match quiet {
        Some((said, style)) => seq![seq![(said@, style)]],
        None => seq![],
    }
}

/// A bounded list of recent errors, newest first. `None` where nothing is to
/// be drawn.
pub fn error_panel(errors: &Vec<String>, title: &str, styles: &ErrorPanelStyles) -> (r: Option<
    Panel,
>)
    ensures
        errors@.len() == 0 && styles.quiet is None <==> r is None,
        r matches Some(panel) ==> panel.title@ == panel_title(title@) && lines_view(panel.lines@)
            == (if errors@.len() == 0 {
            quiet_lines(styles.quiet)
        } else {
            error_lines(recent_errors(errors@), styles.error)
        }),
{
    let mut lines: Vec<Line> = Vec::new();
    if errors.len() == 0 {
        match &styles.quiet {
            None => {
                return None;
            },
            Some(quiet) => {
                push_line(&mut lines, Line::one(Span::of(quiet.0.as_str(), quiet.1)));
                assert(lines_view(lines@) =~= quiet_lines(styles.quiet));
            },
        }
    } else {
        let ghost shown = error_lines(recent_errors(errors@), styles.error);
        let mut i: usize = 0;
        assert(lines_view(lines@) =~= shown.take(0));
        while i < errors.len() && i < RECENT_ERRORS
            invariant
                i <= errors@.len(),
                i <= RECENT_ERRORS,
                shown == error_lines(recent_errors(errors@), styles.error),
                lines_view(lines@) == shown.take(i as int),
            decreases errors@.len() - i,
        {
            push_line(
                &mut lines,
                Line::one(Span::of(errors[errors.len() - 1 - i].as_str(), styles.error)),
            );
            i += 1;
            assert(lines_view(lines@) =~= shown.take(i as int));
        }
        assert(shown.take(i as int) =~= shown);
    }
    Some(titled(title, lines))
}

/// Where a line stands between its borders.
#[derive(Debug, Clone, Copy, PartialEq, Eq, Structural)]
pub enum Alignment {
    Left,
    Center,
    Right,
}

/// A title bar.
#[derive(Debug, PartialEq, Eq)]
pub struct Header {
    pub line: Line,
    pub alignment: Alignment,
}

/// The title bar: this title, in this style, aligned so.
pub fn header(title: &str, alignment: Alignment, style: Style) -> (r: Header)
    ensures
        r.line@ == seq![(title@, style)],
        r.alignment == alignment,
{
    Header { line: Line::one(Span::of(title, style)), alignment }
}

/// The lines of a list of keys and what they do.
pub open spec fn menu_lines(items: Seq<(String, String)>, key: Style, description: Style) -> Seq<
    Seq<(Seq<char>, Style)>,
> {
    items.map_values(
        |item: (String, String)| seq![("["@ + item.0@ + "] "@, key), (item.1@, description)],
    )
}

/// A list of keys and what they do, as menu and help panels show it.
pub fn menu_column(items: &Vec<(String, String)>, key_style: Style, text_style: Style) -> (r: Vec<
    Line,
>)
    ensures
        lines_view(r@) == menu_lines(items@, key_style, text_style),
{
    let mut lines: Vec<Line> = Vec::new();
    let ghost all = menu_lines(items@, key_style, text_style);
    let mut i: usize = 0;
    assert(lines_view(lines@) =~= all.take(0));
    while i < items.len()
        invariant
            i <= items@.len(),
            all == menu_lines(items@, key_style, text_style),
            lines_view(lines@) == all.take(i as int),
        decreases items@.len() - i,
    {
        let mut key = text("[");
        push_text(&mut key, items[i].0.as_str());
        push_text(&mut key, "] ");
        push_line(
            &mut lines,
            Line::two(
                Span::styled(key, key_style),
                Span::of(items[i].1.as_str(), text_style),
            ),
        );
        i += 1;
        assert(lines_view(lines@) =~= all.take(i as int));
    }
    assert(all.take(items@.len() as int) =~= all);
    lines
}

/// A lost link shows the errors, each on a line of its own, the first one
/// first, up to as many as there is room for; a link that is only being made
/// shows none and does not look like a failure.
pub proof fn a_lost_link_shows_its_errors(errors: Seq<String>, i: int)
    requires
        0 <= i < errors.len(),
        i < 8,
    ensures
        ({
            let lines = link_lines(LinkState::Lost, errors);
            &&& lines.len() == 6 + (if errors.len() < 8 {
                errors.len() as int
            } else {
                8
            })
            &&& lines[6 + i].len() == 1
            &&& lines[6 + i][0].0 == errors[i]@
        }),
        link_lines(LinkState::Connecting, errors) == link_lines(LinkState::Connecting, seq![]),
        link_lines(LinkState::Connecting, errors)[0][0].0 != link_lines(
            LinkState::Lost,
            errors,
        )[0][0].0,
{
    reveal_strlit("Connecting to radio...");
    reveal_strlit("CONNECTION LOST");
    assert(link_lines(LinkState::Connecting, errors)[0][0].0[1] == 'o');
    assert(link_lines(LinkState::Lost, errors)[0][0].0[1] == 'O');
}

/// The error panel shows the newest error first and the others behind it, back
/// in time, no more than three in all.
pub proof fn the_newest_error_comes_first(errors: Seq<String>, style: Style, i: int)
    requires
        errors.len() > 0,
        0 <= i < error_lines(recent_errors(errors), style).len(),
    ensures
        error_lines(recent_errors(errors), style).len() == (if errors.len() < 3 {
            errors.len() as int
        } else {
            3
        }),
        error_lines(recent_errors(errors), style)[i] == seq![
            (errors[errors.len() - 1 - i]@, style),
        ],
{
}

/// A menu has one line for each item: its key between brackets, and what it
/// does.
pub proof fn a_menu_lists_every_key(
    items: Seq<(String, String)>,
    key: Style,
    description: Style,
    i: int,
)
    requires
        0 <= i < items.len(),
    ensures
        ({
            let lines = menu_lines(items, key, description);
            let head = lines[i][0].0;
            &&& lines.len() == items.len()
            &&& lines[i].len() == 2
            &&& head[0] == '['
            &&& head.subrange(1, head.len() - 2) == items[i].0@
            &&& head[head.len() - 2] == ']'
            &&& lines[i][0].1 == key
            &&& lines[i][1] == (items[i].1@, description)
        }),
{
    reveal_strlit("[");
    reveal_strlit("] ");
    let head = menu_lines(items, key, description)[i][0].0;
    assert(head.subrange(1, head.len() - 2) =~= items[i].0@);
}

/// A title stands in its border with a space on either side.
pub proof fn a_title_has_room_around_it(title: Seq<char>)
    ensures
        panel_title(title).len() == title.len() + 2,
        panel_title(title).subrange(1, title.len() as int + 1) == title,
        panel_title(title)[0] == ' ',
        panel_title(title).last() == ' ',
{
    reveal_strlit(" ");
    assert(panel_title(title).subrange(1, title.len() as int + 1) =~= title);
}

/// A footer is the last line, set off by a blank one.
pub proof fn a_footer_comes_last(state: LinkState, errors: Seq<String>, footer: Span)
    ensures
        ({
            let bare = link_lines(state, errors) + footer_lines(None);
            let lines = link_lines(state, errors) + footer_lines(Some(footer));
            &&& lines.len() == bare.len() + 2
            &&& lines.last() == seq![footer@]
            &&& lines[lines.len() - 2][0].0.len() == 0
            &&& lines.take(bare.len() as int) == bare
        }),
{
    reveal_strlit("");
    let bare = link_lines(state, errors) + footer_lines(None);
    let lines = link_lines(state, errors) + footer_lines(Some(footer));
    assert(lines.take(bare.len() as int) =~= bare);
}

} // verus!
