//! Choosing a device from what the radio's host can see.

use crate::text::push_text;
use crate::text::text;
use crate::ui::device::flag_text;
use crate::ui::device::heading_text;
use crate::ui::device::DeviceInfo;
use crate::ui::device::DeviceKind;
use crate::ui::device::DeviceList;
use crate::ui::style::lines_view;
use crate::ui::style::push_line;
use crate::ui::style::unstyled;
use crate::ui::style::Line;
use crate::ui::style::Span;
use crate::ui::style::Style;
use vstd::prelude::*;
use vstd::string::*;

verus! {

/// Where the cursor is, across several groups shown as one list.
#[derive(Debug, Clone, Copy, PartialEq, Eq, Structural)]
pub struct Selection {
    pub index: usize,
}

/// One row that can be picked: which list it is in, and which device of it.
#[derive(Debug, Clone, Copy, PartialEq, Eq, Structural)]
pub struct Choice {
    pub list: usize,
    pub device: usize,
}

/// The rows of one list.
pub open spec fn list_choices(list: int, count: nat) -> Seq<Choice> {
    Seq::new(count, |d: int| Choice { list: list as usize, device: d as usize })
}

/// Every row that can be picked in the first `count` lists, in display order.
pub open spec fn choices_in(lists: Seq<DeviceList>, count: nat) -> Seq<Choice>
    decreases count,
{
    if count == 0 {
        seq![]
    } else {
        choices_in(lists, (count - 1) as nat) + list_choices(
            count - 1,
            lists[count - 1].devices@.len(),
        )
    }
}

/// Every row that can be picked, in display order. A heading is not among
/// them, nor is the line that explains why a group could not be asked.
pub open spec fn all_choices(lists: Seq<DeviceList>) -> Seq<Choice> {
    choices_in(lists, lists.len())
}

/// The device a choice names.
pub open spec fn chosen(lists: Seq<DeviceList>, c: Choice) -> DeviceInfo {
    lists[c.list as int].devices@[c.device as int]
}

/// Whether a choice names a device.
pub open spec fn names_a_device(lists: Seq<DeviceList>, c: Choice) -> bool {
    c.list < lists.len() && c.device < lists[c.list as int].devices@.len()
}

/// What is under the cursor.
pub open spec fn current_choice(index: int, lists: Seq<DeviceList>) -> Option<Choice> {
    if 0 <= index < all_choices(lists).len() {
        Some(all_choices(lists)[index])
    } else {
        None
    }
}

/// Where a cursor ends up that is moved by `delta` among `count` rows: it
/// stops at both ends.
pub open spec fn moved(index: int, delta: int, count: int) -> int {
    if count == 0 || index + delta < 0 {
        0
    } else if index + delta >= count {
        count - 1
    } else {
        index + delta
    }
}

/// The first row that is a host's default, if any is.
pub open spec fn default_row(lists: Seq<DeviceList>, i: int) -> bool {
    &&& 0 <= i < all_choices(lists).len()
    &&& chosen(lists, all_choices(lists)[i]).is_default
    &&& forall|j: int|
        0 <= j < i ==> !chosen(lists, #[trigger] all_choices(lists)[j]).is_default
}

/// Every choice names a device.
pub proof fn choices_name_devices(lists: Seq<DeviceList>, count: nat)
    requires
        count <= lists.len(),
        lists.len() <= usize::MAX,
        forall|l: int| 0 <= l < lists.len() ==> (#[trigger] lists[l]).devices@.len() <= usize::MAX,
    ensures
        forall|i: int|
            0 <= i < choices_in(lists, count).len() ==> names_a_device(
                lists,
                #[trigger] choices_in(lists, count)[i],
            ) && choices_in(lists, count)[i].list < count,
    decreases count,
{
    if count > 0 {
        choices_name_devices(lists, (count - 1) as nat);
        let before = choices_in(lists, (count - 1) as nat);
        let own = list_choices(count - 1, lists[count - 1].devices@.len());
        assert forall|i: int| 0 <= i < choices_in(lists, count).len() implies names_a_device(
            lists,
            #[trigger] choices_in(lists, count)[i],
        ) && choices_in(lists, count)[i].list < count by {
            if i < before.len() {
                assert(choices_in(lists, count)[i] == before[i]);
            } else {
                assert(choices_in(lists, count)[i] == own[i - before.len()]);
            }
        }
    }
}

/// Every device of every list can be picked.
pub proof fn every_device_can_be_picked(lists: Seq<DeviceList>, l: int, d: int)
    requires
        0 <= l < lists.len() <= usize::MAX,
        0 <= d < lists[l].devices@.len() <= usize::MAX,
    ensures
        all_choices(lists).contains(Choice { list: l as usize, device: d as usize }),
{
    picked_in(lists, l, d, lists.len());
}

proof fn picked_in(lists: Seq<DeviceList>, l: int, d: int, count: nat)
    requires
        0 <= l < count <= lists.len() <= usize::MAX,
        0 <= d < lists[l].devices@.len() <= usize::MAX,
    ensures
        choices_in(lists, count).contains(Choice { list: l as usize, device: d as usize }),
    decreases count,
{
    let c = Choice { list: l as usize, device: d as usize };
    let before = choices_in(lists, (count - 1) as nat);
    let own = list_choices(count - 1, lists[count - 1].devices@.len());
    let all = choices_in(lists, count);
    if l == count - 1 {
        assert(own[d] == c);
        assert(all[before.len() + d] == c);
    } else {
        picked_in(lists, l, d, (count - 1) as nat);
        let i = choose|i: int| 0 <= i < before.len() && before[i] == c;
        assert(all[i] == c);
    }
}

/// The devices of a list fit in memory.
proof fn list_fits(list: &DeviceList)
    ensures
        list.devices@.len() <= usize::MAX,
{
    assert(list.devices@.len() == list.devices.len());
}

impl Selection {
    /// The cursor on the first row.
    pub fn new() -> (r: Selection)
        ensures
            r.index == 0,
    {
        Selection { index: 0 }
    }

    /// Every row that can be picked, in display order.
    pub fn choices(lists: &Vec<DeviceList>) -> (r: Vec<Choice>)
        ensures
            r@ == all_choices(lists@),
    {
        let mut out: Vec<Choice> = Vec::new();
        let mut l: usize = 0;
        while l < lists.len()
            invariant
                l <= lists@.len(),
                out@ == choices_in(lists@, l as nat),
            decreases lists@.len() - l,
        {
            let ghost before = out@;
            let count: usize = lists[l].devices.len();
            let mut d: usize = 0;
            while d < count
                invariant
                    d <= count,
                    out@ == before + list_choices(l as int, d as nat),
                decreases count - d,
            {
                out.push(Choice { list: l, device: d });
                d += 1;
                assert(out@ =~= before + list_choices(l as int, d as nat));
            }
            l += 1;
        }
        out
    }

    /// What is under the cursor, if anything can be picked at all.
    pub fn current(&self, lists: &Vec<DeviceList>) -> (r: Option<Choice>)
        ensures
            r == current_choice(self.index as int, lists@),
            r matches Some(c) ==> names_a_device(lists@, c),
    {
        let all = Selection::choices(lists);
        proof {
            assert forall|l: int| 0 <= l < lists@.len() implies (
            #[trigger] lists@[l]).devices@.len() <= usize::MAX by {
                list_fits(&lists@[l]);
            }
            assert(lists@.len() == lists.len());
            choices_name_devices(lists@, lists@.len());
        }
        if self.index < all.len() {
            Some(all[self.index])
        } else {
            None
        }
    }

    /// Move the cursor, stopping at both ends.
    pub fn move_by(&mut self, delta: isize, lists: &Vec<DeviceList>)
        ensures
            final(self).index == moved(
                old(self).index as int,
                delta as int,
                all_choices(lists@).len() as int,
            ),
    {
        let count: usize = Selection::choices(lists).len();
        if count == 0 {
            self.index = 0;
        } else if delta >= 0 {
            let up: usize = delta as usize;
            if self.index > count - 1 || up > count - 1 - self.index {
                self.index = count - 1;
            } else {
                self.index = self.index + up;
            }
        } else {
            let down: usize = (-(delta + 1)) as usize;
            if down >= self.index {
                self.index = 0;
            } else {
                let next: usize = self.index - down - 1;
                self.index = if next > count - 1 {
                    count - 1
                } else {
                    next
                };
            }
        }
    }

    /// Put the cursor on the host's default, if any group names one.
    pub fn select_default(&mut self, lists: &Vec<DeviceList>)
        ensures
            default_row(lists@, final(self).index as int) || final(self).index == old(self).index,
            (exists|i: int| default_row(lists@, i)) ==> default_row(
                lists@,
                final(self).index as int,
            ),
    {
        let all = Selection::choices(lists);
        proof {
            assert forall|l: int| 0 <= l < lists@.len() implies (
            #[trigger] lists@[l]).devices@.len() <= usize::MAX by {
                list_fits(&lists@[l]);
            }
            assert(lists@.len() == lists.len());
            choices_name_devices(lists@, lists@.len());
        }
        let mut i: usize = 0;
        while i < all.len()
            invariant
                i <= all@.len(),
                all@ == all_choices(lists@),
                forall|j: int|
                    0 <= j < all@.len() ==> names_a_device(lists@, #[trigger] all@[j]),
                forall|j: int|
                    0 <= j < i ==> !chosen(
                        lists@,
                        #[trigger] all_choices(lists@)[j],
                    ).is_default,
                self.index == old(self).index,
            decreases all@.len() - i,
        {
            let c = all[i];
            assert(names_a_device(lists@, all@[i as int]));
            if lists[c.list].devices[c.device].is_default {
                self.index = i;
                assert(default_row(lists@, i as int));
                return;
            }
            i += 1;
        }
        assert forall|k: int| default_row(lists@, k) implies false by {
            assert(!chosen(lists@, all_choices(lists@)[k]).is_default);
        }
    }
}

impl Default for Selection {
    fn default() -> (r: Self)
        ensures
            r.index == 0,
    {
        Selection::new()
    }
}

/// The styles a picker draws with.
#[derive(Debug, Clone, Copy, PartialEq, Eq, Structural)]
pub struct PickerStyles {
    pub heading: Style,
    pub label: Style,
    pub spec: Style,
    pub detail: Style,
    /// The row under the cursor.
    pub selected: Style,
    /// Nothing plugged in, or the reason why a group could not be asked.
    pub absent: Style,
}

/// The lines of one device: its label, marked where the cursor is on it, the
/// string its flag takes, and what else is known.
pub open spec fn device_lines(device: DeviceInfo, here: bool, styles: PickerStyles) -> Seq<
    Seq<(Seq<char>, Style)>,
> {
    let label_style = if here {
        styles.selected
    } else {
        styles.label
    };
    let mark = if here {
        "> "@
    } else {
        "  "@
    };
    let head = seq![(mark, label_style), (device.label@, label_style)];
    let first = if device.is_default {
        head.push(("  (default)"@, styles.detail))
    } else {
        head
    };
    let two = seq![first, seq![("    "@, unstyled()), (device.spec@, styles.spec)]];
    match device.detail {
        Some(detail) => two.push(seq![("    "@, unstyled()), (detail@, styles.detail)]),
        None => two,
    }
}

/// The lines of the first `count` devices of list `l`.
pub open spec fn devices_lines(
    devices: Seq<DeviceInfo>,
    l: int,
    current: Option<Choice>,
    styles: PickerStyles,
    count: nat,
) -> Seq<Seq<(Seq<char>, Style)>>
    decreases count,
{
    if count == 0 {
        seq![]
    } else {
        let d = count - 1;
        devices_lines(devices, l, current, styles, d as nat) + device_lines(
            devices[d],
            current == Some(Choice { list: l as usize, device: d as usize }),
            styles,
        )
    }
}

/// The lines of one group: its heading, its devices or what stands in for
/// them, and a blank line.
pub open spec fn group_lines(
    list: DeviceList,
    l: int,
    current: Option<Choice>,
    styles: PickerStyles,
) -> Seq<Seq<(Seq<char>, Style)>> {
    let body = match list.error {
        Some(why) => seq![seq![("  unavailable: "@ + why@, styles.absent)]],
        None => if list.devices@.len() == 0 {
            seq![seq![("  nothing attached"@, styles.absent)]]
        } else {
            devices_lines(list.devices@, l, current, styles, list.devices@.len())
        },
    };
    seq![seq![(heading_text(list.kind), styles.heading)]] + body + seq![seq![(""@, unstyled())]]
}

/// The lines of the first `count` groups.
pub open spec fn groups_lines(
    lists: Seq<DeviceList>,
    current: Option<Choice>,
    styles: PickerStyles,
    count: nat,
) -> Seq<Seq<(Seq<char>, Style)>>
    decreases count,
{
    if count == 0 {
        seq![]
    } else {
        groups_lines(lists, current, styles, (count - 1) as nat) + group_lines(
            lists[count - 1],
            count - 1,
            current,
            styles,
        )
    }
}

/// All lines of a picker.
pub open spec fn picker_view(lists: Seq<DeviceList>, index: int, styles: PickerStyles) -> Seq<
    Seq<(Seq<char>, Style)>,
> {
    groups_lines(lists, current_choice(index, lists), styles, lists.len())
}

fn push_device(out: &mut Vec<Line>, device: &DeviceInfo, here: bool, styles: &PickerStyles)
    ensures
        lines_view(final(out)@) == lines_view(old(out)@) + device_lines(*device, here, *styles),
{
    let ghost before = lines_view(out@);
    let label_style = if here {
        styles.selected
    } else {
        styles.label
    };
    let mark = if here {
        "> "
    } else {
        "  "
    };
    let mut line = Line::two(
        Span::of(mark, label_style),
        Span::of(device.label.as_str(), label_style),
    );
    if device.is_default {
        line.push(Span::of("  (default)", styles.detail));
    }
    push_line(out, line);
    push_line(
        out,
        Line::two(Span::raw("    "), Span::of(device.spec.as_str(), styles.spec)),
    );
    match &device.detail {
        Some(detail) => {
            push_line(
                out,
                Line::two(Span::raw("    "), Span::of(detail.as_str(), styles.detail)),
            );
        },
        None => {},
    }
    assert(lines_view(out@) =~= before + device_lines(*device, here, *styles));
}

fn push_group(
    out: &mut Vec<Line>,
    list: &DeviceList,
    l: usize,
    current: Option<Choice>,
    styles: &PickerStyles,
)
    ensures
        lines_view(final(out)@) == lines_view(old(out)@) + group_lines(
            *list,
            l as int,
            current,
            *styles,
        ),
{
    let ghost before = lines_view(out@);
    push_line(out, Line::one(Span::of(list.kind.heading(), styles.heading)));
    let ghost headed = lines_view(out@);
    match &list.error {
        Some(why) => {
            let mut line = text("  unavailable: ");
            push_text(&mut line, why.as_str());
            push_line(out, Line::one(Span::styled(line, styles.absent)));
        },
        None => {
            if list.devices.len() == 0 {
                push_line(out, Line::one(Span::of("  nothing attached", styles.absent)));
            } else {
                let mut d: usize = 0;
                assert(lines_view(out@) =~= headed + devices_lines(
                    list.devices@,
                    l as int,
                    current,
                    *styles,
                    0,
                ));
                while d < list.devices.len()
                    invariant
                        d <= list.devices@.len(),
                        lines_view(out@) == headed + devices_lines(
                            list.devices@,
                            l as int,
                            current,
                            *styles,
                            d as nat,
                        ),
                    decreases list.devices@.len() - d,
                {
                    let here: bool = match current {
                        Some(c) => c.list == l && c.device == d,
                        None => false,
                    };
                    push_device(out, &list.devices[d], here, styles);
                    d += 1;
                    assert(lines_view(out@) =~= headed + devices_lines(
                        list.devices@,
                        l as int,
                        current,
                        *styles,
                        d as nat,
                    ));
                }
            }
        },
    }
    push_line(out, Line::blank());
    assert(lines_view(out@) =~= before + group_lines(*list, l as int, current, *styles));
}

/// The picker as lines: every group under its heading, with its devices, that
/// there are none, or why nobody could look.
pub fn picker_lines(lists: &Vec<DeviceList>, selection: &Selection, styles: PickerStyles) -> (r:
    Vec<Line>)
    ensures
        lines_view(r@) == picker_view(lists@, selection.index as int, styles),
{
    let current = selection.current(lists);
    let mut out: Vec<Line> = Vec::new();
    let mut l: usize = 0;
    assert(lines_view(out@) =~= groups_lines(lists@, current, styles, 0));
    while l < lists.len()
        invariant
            l <= lists@.len(),
            lines_view(out@) == groups_lines(lists@, current, styles, l as nat),
        decreases lists@.len() - l,
    {
        push_group(&mut out, &lists[l], l, current, &styles);
        l += 1;
    }
    out
}

/// What a pick is the same as.
pub open spec fn hint_text(kind: DeviceKind, spec: Seq<char>) -> Seq<char> {
    "same as: "@ + flag_text(kind) + " "@ + spec
}

/// The line that tells an operator what to type to get the same device.
pub fn picker_hint(kind: DeviceKind, spec: &str, style: Style) -> (r: Line)
    ensures
        r@ == seq![(hint_text(kind, spec@), style)],
{
    let mut line = text("same as: ");
    push_text(&mut line, kind.flag());
    push_text(&mut line, " ");
    push_text(&mut line, spec);
    Line::one(Span::styled(line, style))
}

/// A group that could not be asked reads differently from one with nothing
/// attached.
pub proof fn cannot_ask_is_not_nothing_attached(
    broken: DeviceList,
    empty: DeviceList,
    l: int,
    current: Option<Choice>,
    styles: PickerStyles,
)
    requires
        broken.error is Some,
        empty.error is None,
        empty.devices@.len() == 0,
    ensures
        group_lines(broken, l, current, styles)[1] != group_lines(empty, l, current, styles)[1],
{
    reveal_strlit("  unavailable: ");
    reveal_strlit("  nothing attached");
    let a = group_lines(broken, l, current, styles)[1];
    let b = group_lines(empty, l, current, styles)[1];
    assert(a[0].0[2] == 'u');
    assert(b[0].0[2] == 'n');
}

/// The rows are in display order: group by group, and within a group device by
/// device, so that no device has two rows.
pub proof fn choices_are_in_display_order(lists: Seq<DeviceList>, i: int, j: int)
    requires
        lists.len() <= usize::MAX,
        forall|l: int| 0 <= l < lists.len() ==> (#[trigger] lists[l]).devices@.len() <= usize::MAX,
        0 <= i < j < all_choices(lists).len(),
    ensures
        ({
            let a = all_choices(lists)[i];
            let b = all_choices(lists)[j];
            a.list < b.list || a.list == b.list && a.device < b.device
        }),
{
    ordered_in(lists, lists.len(), i, j);
}

proof fn ordered_in(lists: Seq<DeviceList>, count: nat, i: int, j: int)
    requires
        count <= lists.len() <= usize::MAX,
        forall|l: int| 0 <= l < lists.len() ==> (#[trigger] lists[l]).devices@.len() <= usize::MAX,
        0 <= i < j < choices_in(lists, count).len(),
    ensures
        ({
            let a = choices_in(lists, count)[i];
            let b = choices_in(lists, count)[j];
            a.list < b.list || a.list == b.list && a.device < b.device
        }),
    decreases count,
{
    let before = choices_in(lists, (count - 1) as nat);
    let own = list_choices(count - 1, lists[count - 1].devices@.len());
    choices_name_devices(lists, (count - 1) as nat);
    assert(lists[count - 1].devices@.len() <= usize::MAX);
    if j < before.len() {
        ordered_in(lists, (count - 1) as nat, i, j);
        assert(choices_in(lists, count)[i] == before[i]);
        assert(choices_in(lists, count)[j] == before[j]);
    } else {
        assert(choices_in(lists, count)[j] == own[j - before.len()]);
        if i < before.len() {
            assert(choices_in(lists, count)[i] == before[i]);
        } else {
            assert(choices_in(lists, count)[i] == own[i - before.len()]);
        }
    }
}

/// A cursor moved by `delta` rows ends up that many rows further on, or at the
/// end it ran into; it is on a row wherever there is one; and moving it back
/// undoes a move that ran into no end.
pub proof fn a_cursor_moves_by_rows(index: int, delta: int, count: int)
    requires
        0 <= index < count,
    ensures
        0 <= moved(index, delta, count) < count,
        0 <= index + delta < count ==> moved(index, delta, count) - index == delta,
        index + delta < 0 ==> moved(index, delta, count) == 0,
        index + delta >= count ==> moved(index, delta, count) == count - 1,
        0 <= index + delta < count ==> moved(moved(index, delta, count), -delta, count) == index,
        moved(index, delta, 0) == 0,
{
}

/// In the picker every device shows its label and what its flag takes, and only
/// the one under the cursor is marked. Its detail follows where it has one.
pub proof fn a_device_shows_its_label_and_its_spec(
    device: DeviceInfo,
    here: bool,
    styles: PickerStyles,
)
    ensures
        ({
            let lines = device_lines(device, here, styles);
            &&& lines[0][1].0 == device.label@
            &&& lines[1][1].0 == device.spec@
            &&& lines[1][1].1 == styles.spec
            &&& lines[0][1].1 == (if here {
                styles.selected
            } else {
                styles.label
            })
            &&& here <==> lines[0][0].0[0] == '>'
            &&& lines[0][0].0.len() == 2
            &&& device.is_default <==> lines[0].len() == 3
            &&& device.detail matches Some(detail) ==> lines.len() == 3 && lines[2][1].0 == detail@
            &&& device.detail is None ==> lines.len() == 2
        }),
{
    reveal_strlit("> ");
    reveal_strlit("  ");
}

/// A group is its heading, what it holds, and a blank line. What it holds is
/// the reason where it could not be asked, the lines of every device in order
/// where it has any, and one line where it has none.
pub proof fn a_group_shows_every_device(
    list: DeviceList,
    l: int,
    current: Option<Choice>,
    styles: PickerStyles,
    d: int,
)
    requires
        list.error is None,
        0 <= d < list.devices@.len(),
    ensures
        ({
            let lines = group_lines(list, l, current, styles);
            let own = device_lines(
                list.devices@[d],
                current == Some(Choice { list: l as usize, device: d as usize }),
                styles,
            );
            exists|at: int|
                1 <= at && at + own.len() < lines.len() && #[trigger] lines.subrange(
                    at,
                    at + own.len(),
                ) == own
        }),
        group_lines(list, l, current, styles)[0][0].0 == heading_text(list.kind),
{
    let all = devices_lines(list.devices@, l, current, styles, list.devices@.len());
    let at = device_at(list.devices@, l, current, styles, list.devices@.len(), d);
    let own = device_lines(
        list.devices@[d],
        current == Some(Choice { list: l as usize, device: d as usize }),
        styles,
    );
    let lines = group_lines(list, l, current, styles);
    assert(lines.subrange(1 + at, 1 + at + own.len()) =~= all.subrange(at, at + own.len()));
}

proof fn device_at(
    devices: Seq<DeviceInfo>,
    l: int,
    current: Option<Choice>,
    styles: PickerStyles,
    count: nat,
    d: int,
) -> (at: int)
    requires
        0 <= d < count <= devices.len(),
    ensures
        ({
            let all = devices_lines(devices, l, current, styles, count);
            let own = device_lines(
                devices[d],
                current == Some(Choice { list: l as usize, device: d as usize }),
                styles,
            );
            0 <= at && at + own.len() <= all.len() && all.subrange(at, at + own.len()) == own
        }),
    decreases count,
{
    let before = devices_lines(devices, l, current, styles, (count - 1) as nat);
    let all = devices_lines(devices, l, current, styles, count);
    let own = device_lines(
        devices[d],
        current == Some(Choice { list: l as usize, device: d as usize }),
        styles,
    );
    if d == count - 1 {
        assert(all.subrange(before.len() as int, (before.len() + own.len()) as int) =~= own);
        before.len() as int
    } else {
        let at = device_at(devices, l, current, styles, (count - 1) as nat, d);
        assert(all.subrange(at, at + own.len()) =~= before.subrange(at, at + own.len()));
        at
    }
}

/// The groups follow each other: the lines of one more group come behind those
/// of the groups before it.
pub proof fn groups_follow_each_other(
    lists: Seq<DeviceList>,
    index: int,
    styles: PickerStyles,
    l: int,
)
    requires
        0 <= l < lists.len(),
    ensures
        ({
            let lines = picker_view(lists, index, styles);
            let own = group_lines(lists[l], l, current_choice(index, lists), styles);
            exists|at: int|
                0 <= at && at + own.len() <= lines.len() && #[trigger] lines.subrange(
                    at,
                    at + own.len(),
                ) == own
        }),
{
    let at = group_at(lists, current_choice(index, lists), styles, lists.len(), l);
    let own = group_lines(lists[l], l, current_choice(index, lists), styles);
    let lines = picker_view(lists, index, styles);
    assert(lines.subrange(at, at + own.len()) == own);
}

proof fn group_at(
    lists: Seq<DeviceList>,
    current: Option<Choice>,
    styles: PickerStyles,
    count: nat,
    l: int,
) -> (at: int)
    requires
        0 <= l < count <= lists.len(),
    ensures
        ({
            let all = groups_lines(lists, current, styles, count);
            let own = group_lines(lists[l], l, current, styles);
            0 <= at && at + own.len() <= all.len() && all.subrange(at, at + own.len()) == own
        }),
    decreases count,
{
    let before = groups_lines(lists, current, styles, (count - 1) as nat);
    let all = groups_lines(lists, current, styles, count);
    let own = group_lines(lists[l], l, current, styles);
    if l == count - 1 {
        assert(all.subrange(before.len() as int, (before.len() + own.len()) as int) =~= own);
        before.len() as int
    } else {
        let at = group_at(lists, current, styles, (count - 1) as nat, l);
        assert(all.subrange(at, at + own.len()) =~= before.subrange(at, at + own.len()));
        at
    }
}

/// The cursor is on the choice of its own number, and on none where there are
/// not so many.
pub proof fn the_cursor_is_on_the_choice_of_its_number(index: int, lists: Seq<DeviceList>)
    ensures
        0 <= index < all_choices(lists).len() ==> current_choice(index, lists) == Some(
            all_choices(lists)[index],
        ),
        index < 0 || index >= all_choices(lists).len() ==> current_choice(index, lists) is None,
{
}

/// The row of a host's default is the first of all rows whose device is one;
/// there is at most one such row, and there is one wherever a device is a
/// default.
pub proof fn the_first_default_counts(lists: Seq<DeviceList>, i: int, k: int)
    requires
        0 <= k < all_choices(lists).len(),
        chosen(lists, all_choices(lists)[k]).is_default,
    ensures
        default_row(lists, i) ==> 0 <= i <= k && chosen(lists, all_choices(lists)[i]).is_default,
        default_row(lists, i) && default_row(lists, k) ==> i == k,
        exists|j: int| default_row(lists, j),
    decreases k,
{
    if forall|j: int| 0 <= j < k ==> !chosen(lists, #[trigger] all_choices(lists)[j]).is_default {
        assert(default_row(lists, k));
    } else {
        let j = choose|j: int|
            0 <= j < k && chosen(lists, #[trigger] all_choices(lists)[j]).is_default;
        the_first_default_counts(lists, i, j);
    }
}

} // verus!
