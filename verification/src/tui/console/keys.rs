//! What a key does to the console.

use crate::text::text;
use crate::tui::console::model::ConsoleView;
use crate::tui::console::model::Tab;
use crate::tui::console::model::TabEntry;
use crate::tui::devices::all_choices;
use crate::tui::devices::chosen;
use crate::tui::devices::current_choice;
use crate::tui::devices::moved;
use crate::ui::device::same_device;
use crate::ui::device::DeviceInfo;
use vstd::prelude::*;
use vstd::string::*;

verus! {

/// A key, as far as the console tells keys apart.
#[derive(Debug, Clone, Copy, PartialEq, Eq, Structural)]
pub enum Key {
    Esc,
    Backspace,
    Enter,
    Up,
    Down,
    Char(char),
    Other,
}

/// What a key did. `A` is what a command line stands for.
#[derive(Debug, PartialEq, Eq)]
pub enum ConsoleKey<A> {
    /// The console handled it.
    Consumed,
    /// Not the console's: the radio's own menus get it next.
    Passthrough,
    /// A command line was submitted. It is to be parsed, and what came of it
    /// handed to [`submitted`].
    Submit(String),
    /// A command line was submitted and stands for this.
    Action(A),
    /// A command line was submitted and did not parse. The status strip says
    /// so already.
    Rejected(String),
    /// The operator picked this device.
    Attach(DeviceInfo),
    /// The operator wants the device list taken again.
    RefreshDevices,
}

/// What a command line stands for: a tab to open, or something that is not
/// the console's to do.
#[derive(Debug, PartialEq, Eq)]
pub enum Parsed<A> {
    SelectTab(usize),
    Other(A),
}

/// The tab behind the `n`th label, counting from one.
pub open spec fn tab_for(tabs: Seq<TabEntry>, n: int) -> Option<Tab> {
    if 1 <= n <= tabs.len() {
        Some(tabs[n - 1].tab)
    } else {
        None
    }
}

/// Whether the two views differ in nothing but the listed parts.
pub open spec fn same_but_tab(a: ConsoleView, b: ConsoleView) -> bool {
    &&& same_but_line(a, b)
    &&& a.command == b.command
    &&& a.message == b.message
}

/// Whether the two views differ in nothing but the tab, the command line and
/// the message.
pub open spec fn same_but_line(a: ConsoleView, b: ConsoleView) -> bool {
    &&& a.tabs == b.tabs
    &&& a.pending_vfo_hz == b.pending_vfo_hz
    &&& a.cat_pending == b.cat_pending
    &&& a.spectrum == b.spectrum
    &&& a.audio == b.audio
    &&& a.af_scope == b.af_scope
    &&& a.devices == b.devices
    &&& a.device_selection == b.device_selection
}

/// Open the `n`th tab, counting from one, if there is one. Says whether there
/// was.
pub fn select_tab(view: &mut ConsoleView, n: usize) -> (r: bool)
    ensures
        same_but_tab(*final(view), *old(view)),
        match tab_for(old(view).tabs@, n as int) {
            Some(tab) => r && final(view).tab == tab,
            None => !r && final(view).tab == old(view).tab,
        },
{
    if n >= 1 && n <= view.tabs.len() {
        view.tab = view.tabs[n - 1].tab;
        true
    } else {
        false
    }
}

/// The number a digit stands for.
pub open spec fn digit_value(c: char) -> Option<int> {
    if c == '0' {
        Some(0)
    } else if c == '1' {
        Some(1)
    } else if c == '2' {
        Some(2)
    } else if c == '3' {
        Some(3)
    } else if c == '4' {
        Some(4)
    } else if c == '5' {
        Some(5)
    } else if c == '6' {
        Some(6)
    } else if c == '7' {
        Some(7)
    } else if c == '8' {
        Some(8)
    } else if c == '9' {
        Some(9)
    } else {
        None
    }
}

fn digit_of(c: char) -> (r: Option<usize>)
    ensures
        match digit_value(c) {
            Some(n) => r matches Some(m) && m == n,
            None => r is None,
        },
{
    match c {
        '0' => Some(0),
        '1' => Some(1),
        '2' => Some(2),
        '3' => Some(3),
        '4' => Some(4),
        '5' => Some(5),
        '6' => Some(6),
        '7' => Some(7),
        '8' => Some(8),
        '9' => Some(9),
        _ => None,
    }
}

/// What a key does while the command line is open: it takes every key.
pub open spec fn typed<A>(
    before: ConsoleView,
    line: Seq<char>,
    key: Key,
    after: ConsoleView,
    r: ConsoleKey<A>,
) -> bool {
    &&& same_but_line(after, before)
    &&& after.tab == before.tab
    &&& match key {
        Key::Esc => after.command is None && after.message is None && r is Consumed,
        Key::Backspace => {
            &&& after.command matches Some(l) && l@ == (if line.len() > 0 {
                line.drop_last()
            } else {
                line
            })
            &&& after.message == before.message
            &&& r is Consumed
        },
        Key::Char(c) => {
            &&& after.command matches Some(l) && l@ == line.push(c)
            &&& after.message == before.message
            &&& r is Consumed
        },
        Key::Enter => {
            &&& after.command is None
            &&& after.message == before.message
            &&& r matches ConsoleKey::Submit(l) && l@ == line
        },
        _ => {
            &&& after.command matches Some(l) && l@ == line
            &&& after.message == before.message
            &&& r is Consumed
        },
    }
}

/// What the arrows, enter and refresh do on the source tab. `None` for a key
/// that is not the picker's.
pub open spec fn picker_key(key: Key) -> bool {
    key == Key::Up || key == Key::Down || key == Key::Enter || key == Key::Char('r') || key
        == Key::Char('R')
}

/// What a key of the picker does.
pub open spec fn picked<A>(before: ConsoleView, key: Key, after: ConsoleView, r: ConsoleKey<A>) -> bool {
    &&& after.tabs == before.tabs
    &&& after.tab == before.tab
    &&& after.command == before.command
    &&& after.pending_vfo_hz == before.pending_vfo_hz
    &&& after.cat_pending == before.cat_pending
    &&& after.spectrum == before.spectrum
    &&& after.audio == before.audio
    &&& after.af_scope == before.af_scope
    &&& after.devices == before.devices
    &&& match key {
        Key::Up | Key::Down => {
            &&& after.device_selection.index == moved(
                before.device_selection.index as int,
                if key == Key::Up {
                    -1
                } else {
                    1
                },
                all_choices(before.devices@).len() as int,
            )
            &&& after.message == before.message
            &&& r is Consumed
        },
        Key::Enter => {
            &&& after.device_selection == before.device_selection
            &&& match current_choice(before.device_selection.index as int, before.devices@) {
                Some(c) => after.message == before.message && (r matches ConsoleKey::Attach(d)
                    && same_device(d, chosen(before.devices@, c))),
                None => (after.message matches Some(m) && m@ == "nothing to attach"@)
                    && r is Consumed,
            }
        },
        _ => {
            &&& after.device_selection == before.device_selection
            &&& after.message == before.message
            &&& r is RefreshDevices
        },
    }
}

/// What any other key does: a colon opens the command line, a digit that names
/// a tab opens it, and everything else is left to the radio's menus.
pub open spec fn navigated<A>(
    before: ConsoleView,
    key: Key,
    after: ConsoleView,
    r: ConsoleKey<A>,
) -> bool {
    &&& same_but_line(after, before)
    &&& match key {
        Key::Char(c) => if c == ':' {
            &&& after.tab == before.tab
            &&& after.command matches Some(l) && l@.len() == 0
            &&& after.message is None
            &&& r is Consumed
        } else {
            &&& after.command == before.command
            &&& after.message == before.message
            &&& match digit_value(c) {
                Some(n) => match tab_for(before.tabs@, n) {
                    Some(tab) => after.tab == tab && r is Consumed,
                    None => after.tab == before.tab && r is Passthrough,
                },
                None => after.tab == before.tab && r is Passthrough,
            }
        },
        _ => {
            &&& after.tab == before.tab
            &&& after.command == before.command
            &&& after.message == before.message
            &&& r is Passthrough
        },
    }
}

/// What a key does to the console: typing while the command line is open,
/// picking on the source tab, navigating otherwise.
pub open spec fn handled<A>(before: ConsoleView, key: Key, after: ConsoleView, r: ConsoleKey<A>) -> bool {
    match before.command {
        Some(line) => typed(before, line@, key, after, r),
        None => if before.tab == Tab::Source && picker_key(key) {
            picked(before, key, after, r)
        } else {
            navigated(before, key, after, r)
        },
    }
}

/// Handle a key. As little as possible is consumed: what the console does not
/// use reaches the radio's menus.
pub fn handle_key<A>(key: Key, view: &mut ConsoleView) -> (r: ConsoleKey<A>)
    ensures
        handled(*old(view), key, *final(view), r),
{
    let line: Option<String> = view.command.take();
    match line {
        Some(mut buf) => {
            let ghost before = buf@;
            match key {
                Key::Esc => {
                    view.message = None;
                    return ConsoleKey::Consumed;
                },
                Key::Backspace => {
                    let _ = buf.pop();
                    view.command = Some(buf);
                    return ConsoleKey::Consumed;
                },
                Key::Char(c) => {
                    buf.push(c);
                    view.command = Some(buf);
                    return ConsoleKey::Consumed;
                },
                Key::Enter => {
                    return ConsoleKey::Submit(buf);
                },
                _ => {
                    view.command = Some(buf);
                    return ConsoleKey::Consumed;
                },
            }
        },
        None => {},
    }
    if view.tab == Tab::Source {
        match key {
            Key::Up => {
                view.device_selection.move_by(-1, &view.devices);
                return ConsoleKey::Consumed;
            },
            Key::Down => {
                view.device_selection.move_by(1, &view.devices);
                return ConsoleKey::Consumed;
            },
            Key::Char('r') | Key::Char('R') => {
                return ConsoleKey::RefreshDevices;
            },
            Key::Enter => {
                match view.device_selection.current(&view.devices) {
                    Some(c) => {
                        return ConsoleKey::Attach(view.devices[c.list].devices[c.device].copy());
                    },
                    None => {
                        view.message = Some(text("nothing to attach"));
                        return ConsoleKey::Consumed;
                    },
                }
            },
            _ => {},
        }
    }
    match key {
        Key::Char(c) => {
            if c == ':' {
                view.command = Some(String::new());
                view.message = None;
                return ConsoleKey::Consumed;
            }
            match digit_of(c) {
                Some(n) => {
                    if select_tab(view, n) {
                        ConsoleKey::Consumed
                    } else {
                        ConsoleKey::Passthrough
                    }
                },
                None => ConsoleKey::Passthrough,
            }
        },
        _ => ConsoleKey::Passthrough,
    }
}

/// Take in what a submitted line was parsed to. A line that names a tab opens
/// it here, where there is such a tab; anything else goes to whoever runs it;
/// a line that did not parse is reported and not run.
pub fn submitted<A>(view: &mut ConsoleView, parsed: Result<Parsed<A>, String>) -> (r: ConsoleKey<A>)
    ensures
        same_but_line(*final(view), *old(view)),
        final(view).command == old(view).command,
        match parsed {
            Ok(Parsed::SelectTab(n)) => {
                &&& final(view).message is None
                &&& r is Consumed
                &&& final(view).tab == (match tab_for(old(view).tabs@, n as int) {
                    Some(tab) => tab,
                    None => old(view).tab,
                })
            },
            Ok(Parsed::Other(a)) => {
                &&& final(view).message is None
                &&& r == ConsoleKey::Action(a)
                &&& final(view).tab == old(view).tab
            },
            Err(why) => {
                &&& final(view).message matches Some(m) && m@ == why@
                &&& r == ConsoleKey::<A>::Rejected(why)
                &&& final(view).tab == old(view).tab
            },
        },
{
    match parsed {
        Ok(Parsed::SelectTab(n)) => {
            view.message = None;
            let _ = select_tab(view, n);
            ConsoleKey::Consumed
        },
        Ok(Parsed::Other(a)) => {
            view.message = None;
            ConsoleKey::Action(a)
        },
        Err(why) => {
            view.message = Some(why.clone());
            ConsoleKey::Rejected(why)
        },
    }
}

/// While the command line is open no key leaves the console, and none does
/// anything but edit, abandon or submit the line: a text field cannot quit
/// the program.
pub proof fn an_open_line_takes_every_key<A>(
    before: ConsoleView,
    key: Key,
    after: ConsoleView,
    r: ConsoleKey<A>,
)
    requires
        handled(before, key, after, r),
        before.command is Some,
    ensures
        r is Consumed || r is Submit,
        r is Submit ==> key == Key::Enter && r->Submit_0@ == before.command->0@,
        after.tab == before.tab,
        after.device_selection == before.device_selection,
{
}

/// An operator who got into the picker can get out again: a digit that names a
/// tab opens it from every tab.
pub proof fn digits_switch_tabs_from_anywhere<A>(
    before: ConsoleView,
    c: char,
    after: ConsoleView,
    r: ConsoleKey<A>,
)
    requires
        handled(before, Key::Char(c), after, r),
        before.command is None,
        digit_value(c) is Some,
        tab_for(before.tabs@, digit_value(c)->0) is Some,
    ensures
        r is Consumed,
        Some(after.tab) == tab_for(before.tabs@, digit_value(c)->0),
{
}

/// A letter the console does not use reaches the radio's menus and changes
/// nothing, and so do the arrows on a tab without a picker.
pub proof fn what_is_not_used_passes_through<A>(
    before: ConsoleView,
    key: Key,
    after: ConsoleView,
    r: ConsoleKey<A>,
)
    requires
        handled(before, key, after, r),
        before.command is None,
        key != Key::Char(':'),
        before.tab == Tab::Source ==> !picker_key(key),
        key matches Key::Char(c) ==> (digit_value(c) is Some ==> tab_for(
            before.tabs@,
            digit_value(c)->0,
        ) is None),
    ensures
        r is Passthrough,
        same_but_tab(after, before),
        after.tab == before.tab,
{
}

/// On the source tab the arrows move the cursor by one row, up towards the
/// first and down towards the last, and stop at both ends. Nothing else
/// changes.
pub proof fn the_arrows_move_by_one_row<A>(
    before: ConsoleView,
    key: Key,
    after: ConsoleView,
    r: ConsoleKey<A>,
    rows: int,
)
    requires
        handled(before, key, after, r),
        before.command is None,
        before.tab == Tab::Source,
        key == Key::Up || key == Key::Down,
        rows == all_choices(before.devices@).len(),
        before.device_selection.index < rows,
    ensures
        ({
            let i = before.device_selection.index as int;
            let j = after.device_selection.index as int;
            &&& key == Key::Up && i > 0 ==> j == i - 1
            &&& key == Key::Up && i == 0 ==> j == 0
            &&& key == Key::Down && i + 1 < rows ==> j == i + 1
            &&& key == Key::Down && i + 1 == rows ==> j == i
        }),
        r is Consumed,
        after.tab == before.tab,
        after.command is None,
        after.message == before.message,
        after.devices == before.devices,
{
}

/// Down and then up leads back to the row the cursor was on, where there is one
/// below it; and up and then down, where there is one above it.
pub proof fn the_arrows_undo_each_other<A>(
    first: ConsoleView,
    one: Key,
    second: ConsoleView,
    other: Key,
    third: ConsoleView,
    r: ConsoleKey<A>,
    s: ConsoleKey<A>,
    rows: int,
)
    requires
        handled(first, one, second, r),
        handled(second, other, third, s),
        first.command is None,
        first.tab == Tab::Source,
        one == Key::Down && other == Key::Up || one == Key::Up && other == Key::Down,
        rows == all_choices(first.devices@).len(),
        first.device_selection.index < rows,
        one == Key::Down ==> first.device_selection.index + 1 < rows,
        one == Key::Up ==> first.device_selection.index > 0,
    ensures
        third.device_selection.index == first.device_selection.index,
        second.device_selection.index != first.device_selection.index,
{
}

/// Enter picks the device in the row the cursor is on, and nothing where the
/// cursor is on none; `r` asks for the list again. Neither moves the cursor.
pub proof fn enter_picks_what_the_cursor_is_on<A>(
    before: ConsoleView,
    key: Key,
    after: ConsoleView,
    r: ConsoleKey<A>,
)
    requires
        handled(before, key, after, r),
        before.command is None,
        before.tab == Tab::Source,
        key == Key::Enter || key == Key::Char('r') || key == Key::Char('R'),
    ensures
        after.device_selection == before.device_selection,
        after.tab == before.tab,
        after.devices == before.devices,
        after.command is None,
        key != Key::Enter <==> r is RefreshDevices,
        key == Key::Enter ==> ({
            let rows = all_choices(before.devices@);
            let i = before.device_selection.index as int;
            if i < rows.len() {
                let picked = before.devices@[rows[i].list as int].devices@[rows[i].device as int];
                &&& r is Attach
                &&& r->Attach_0.kind == picked.kind
                &&& r->Attach_0.spec@ == picked.spec@
                &&& r->Attach_0.label@ == picked.label@
                &&& r->Attach_0.is_default == picked.is_default
                &&& after.message == before.message
            } else {
                r is Consumed && after.message is Some
            }
        }),
{
}

/// What was typed is what is submitted: a colon opens an empty line, every
/// character goes to its end, and enter hands over exactly these characters, in
/// the order they were typed, and closes the line.
pub proof fn what_was_typed_is_submitted<A>(
    views: Seq<ConsoleView>,
    typed_in: Seq<char>,
    results: Seq<ConsoleKey<A>>,
)
    requires
        views.len() == typed_in.len() + 3,
        results.len() == typed_in.len() + 2,
        views[0].command is None,
        handled(views[0], Key::Char(':'), views[1], results[0]),
        forall|i: int|
            0 <= i < typed_in.len() ==> handled(
                views[i + 1],
                Key::Char(#[trigger] typed_in[i]),
                views[i + 2],
                results[i + 1],
            ),
        handled(
            views[typed_in.len() as int + 1],
            Key::Enter,
            views[typed_in.len() as int + 2],
            results[typed_in.len() as int + 1],
        ),
    ensures
        results.last() is Submit,
        results.last()->Submit_0@ == typed_in,
        views.last().command is None,
        views.last().tab == views[0].tab,
        views.last().device_selection == views[0].device_selection,
{
    line_so_far(views, typed_in, results, typed_in.len() as int);
    assert(typed_in.take(typed_in.len() as int) =~= typed_in);
}

proof fn line_so_far<A>(
    views: Seq<ConsoleView>,
    typed_in: Seq<char>,
    results: Seq<ConsoleKey<A>>,
    n: int,
)
    requires
        0 <= n <= typed_in.len(),
        views.len() == typed_in.len() + 3,
        results.len() == typed_in.len() + 2,
        views[0].command is None,
        handled(views[0], Key::Char(':'), views[1], results[0]),
        forall|i: int|
            0 <= i < typed_in.len() ==> handled(
                views[i + 1],
                Key::Char(#[trigger] typed_in[i]),
                views[i + 2],
                results[i + 1],
            ),
    ensures
        views[n + 1].command is Some,
        views[n + 1].command->0@ == typed_in.take(n),
        views[n + 1].tab == views[0].tab,
        views[n + 1].device_selection == views[0].device_selection,
    decreases n,
{
    if n == 0 {
        assert(views[1].command->0@ =~= typed_in.take(0));
    } else {
        line_so_far(views, typed_in, results, n - 1);
        assert(handled(views[n], Key::Char(typed_in[n - 1]), views[n + 1], results[n]));
        assert(typed_in.take(n - 1).push(typed_in[n - 1]) =~= typed_in.take(n));
    }
}

/// Backspace takes back the last character and no other, and does nothing to an
/// empty line; escape closes the line and submits nothing.
pub proof fn a_line_can_be_corrected_and_abandoned<A>(
    first: ConsoleView,
    c: char,
    second: ConsoleView,
    third: ConsoleView,
    r: ConsoleKey<A>,
    s: ConsoleKey<A>,
    abandoned: ConsoleView,
    t: ConsoleKey<A>,
)
    requires
        first.command is Some,
        handled(first, Key::Char(c), second, r),
        handled(second, Key::Backspace, third, s),
        handled(first, Key::Esc, abandoned, t),
    ensures
        third.command is Some,
        third.command->0@ == first.command->0@,
        second.command->0@.len() == first.command->0@.len() + 1,
        abandoned.command is None,
        abandoned.message is None,
        t is Consumed,
        abandoned.tab == first.tab,
{
    assert(first.command->0@.push(c).drop_last() =~= first.command->0@);
}

/// A digit opens the tab of that number, counting from one, whichever tab is
/// open, and no other character opens a tab; a digit without a tab is left to
/// the radio's menus.
pub proof fn a_digit_opens_the_tab_of_its_number<A>(
    before: ConsoleView,
    c: char,
    after: ConsoleView,
    r: ConsoleKey<A>,
)
    requires
        handled(before, Key::Char(c), after, r),
        before.command is None,
    ensures
        ({
            let n = c as int - '0' as int;
            &&& 1 <= n <= 9 && n <= before.tabs@.len() ==> after.tab == before.tabs@[n - 1].tab
                && r is Consumed
            &&& !(1 <= n <= 9 && n <= before.tabs@.len()) ==> after.tab == before.tab
            &&& 0 <= n <= 9 && (n == 0 || n > before.tabs@.len()) ==> r is Passthrough
            &&& c != ':' ==> after.command is None
            &&& c == ':' ==> after.command is Some && after.command->0@.len() == 0
        }),
{
}

/// No key touches what the radio or its host reported: the tabs, the requests
/// in flight, the frames, the audio and the devices stay as they are. Only a key
/// of the picker moves its cursor.
pub proof fn keys_leave_what_was_reported_alone<A>(
    before: ConsoleView,
    key: Key,
    after: ConsoleView,
    r: ConsoleKey<A>,
)
    requires
        handled(before, key, after, r),
    ensures
        after.tabs == before.tabs,
        after.pending_vfo_hz == before.pending_vfo_hz,
        after.cat_pending == before.cat_pending,
        after.spectrum == before.spectrum,
        after.audio == before.audio,
        after.af_scope == before.af_scope,
        after.devices == before.devices,
        before.command is Some || before.tab != Tab::Source || !(key == Key::Up || key
            == Key::Down) ==> after.device_selection == before.device_selection,
{
}

/// A tab is counted from one, and there is none behind the last.
pub proof fn tabs_are_counted_from_one(tabs: Seq<TabEntry>, n: int)
    ensures
        1 <= n <= tabs.len() ==> tab_for(tabs, n) == Some(tabs[n - 1].tab),
        n < 1 || n > tabs.len() ==> tab_for(tabs, n) is None,
{
}

} // verus!
