//! The settings a spectrum source describes, in the order both consoles show
//! them.

use crate::text::decimal;
use crate::text::push_decimal;
use crate::text::push_signed;
use crate::text::push_text;
use crate::text::signed_decimal;
use crate::text::text;
use vstd::prelude::*;
use vstd::string::*;

verus! {

/// The group a setting is shown in. Groups that a source may have and this
/// library does not know are all `Other`.
#[derive(Debug, Clone, Copy, PartialEq, Eq, Structural)]
pub enum SettingGroup {
    Source,
    Display,
    Calibration,
    Other,
}

/// Whether a setting can be changed.
#[derive(Debug, Clone, Copy, PartialEq, Eq, Structural)]
pub enum Access {
    ReadOnly,
    ReadWrite,
}

/// The value of a setting. A unit is given by its suffix, which is empty where
/// there is none.
#[derive(Debug, PartialEq, Eq)]
pub enum SettingValue {
    Int {
        value: i64,
        unit: String,
    },
    /// A number with a fraction, written out to one decimal.
    Float {
        shown: String,
        unit: String,
    },
    Bool(bool),
    /// One of several options, by its index.
    Enum {
        value: u16,
        options: Vec<String>,
    },
}

/// One setting.
#[derive(Debug, PartialEq, Eq)]
pub struct SettingDescriptor {
    pub key: String,
    pub label: String,
    pub group: SettingGroup,
    pub access: Access,
    pub value: SettingValue,
}

/// A number and its unit, if it has one.
pub open spec fn with_unit(number: Seq<char>, unit: Seq<char>) -> Seq<char> {
    if unit.len() == 0 {
        number
    } else {
        number + " "@ + unit
    }
}

/// A value as it is shown.
pub open spec fn value_text(value: SettingValue) -> Seq<char> {
    match value {
        SettingValue::Int { value, unit } => with_unit(signed_decimal(value as int), unit@),
        SettingValue::Float { shown, unit } => with_unit(shown@, unit@),
        SettingValue::Bool(b) => if b {
            "on"@
        } else {
            "off"@
        },
        // An index that names no option is a fault of the source, and is
        // shown rather than hidden.
        SettingValue::Enum { value, options } => if (value as int) < options@.len() {
            options@[value as int]@
        } else {
            "? ("@ + decimal(value as nat) + ")"@
        },
    }
}

fn push_unit(out: &mut String, unit: &String)
    ensures
        final(out)@ == with_unit(old(out)@, unit@),
{
    if unit.as_str().unicode_len() > 0 {
        push_text(out, " ");
        push_text(out, unit.as_str());
    }
}

/// A value as it is shown, with its unit.
pub fn format_value(value: &SettingValue) -> (r: String)
    ensures
        r@ == value_text(*value),
{
    match value {
        SettingValue::Int { value, unit } => {
            let mut out = String::new();
            push_signed(&mut out, *value);
            assert(out@ =~= signed_decimal(*value as int));
            push_unit(&mut out, unit);
            out
        },
        SettingValue::Float { shown, unit } => {
            let mut out = shown.clone();
            push_unit(&mut out, unit);
            out
        },
        SettingValue::Bool(b) => if *b {
            text("on")
        } else {
            text("off")
        },
        SettingValue::Enum { value, options } => {
            if (*value as usize) < options.len() {
                options[*value as usize].clone()
            } else {
                let mut out = text("? (");
                push_decimal(&mut out, *value as u64);
                push_text(&mut out, ")");
                out
            }
        },
    }
}

pub open spec fn group_text(group: SettingGroup) -> Seq<char> {
    match group {
        SettingGroup::Source => "SOURCE"@,
        SettingGroup::Display => "DISPLAY"@,
        SettingGroup::Calibration => "CALIBRATION"@,
        SettingGroup::Other => "OTHER"@,
    }
}

/// The heading of a group.
pub fn group_name(group: SettingGroup) -> (r: &'static str)
    ensures
        r@ == group_text(group),
{
    match group {
        SettingGroup::Source => "SOURCE",
        SettingGroup::Display => "DISPLAY",
        SettingGroup::Calibration => "CALIBRATION",
        SettingGroup::Other => "OTHER",
    }
}

/// A row of a settings panel: a group's heading, or one of the settings.
#[derive(Debug, Clone, Copy, PartialEq, Eq, Structural)]
pub enum RowIndex {
    Heading(SettingGroup),
    Setting(usize),
}

/// The settings of a group among the first `count`, in order.
pub open spec fn group_rows(ds: Seq<SettingDescriptor>, group: SettingGroup, count: nat) -> Seq<
    RowIndex,
>
    decreases count,
{
    if count == 0 {
        seq![]
    } else {
        let before = group_rows(ds, group, (count - 1) as nat);
        if ds[count - 1].group == group {
            before.push(RowIndex::Setting((count - 1) as usize))
        } else {
            before
        }
    }
}

/// A group with its heading. One without settings does not appear at all.
pub open spec fn section(ds: Seq<SettingDescriptor>, group: SettingGroup) -> Seq<RowIndex> {
    let rows = group_rows(ds, group, ds.len());
    if rows.len() == 0 {
        seq![]
    } else {
        seq![RowIndex::Heading(group)] + rows
    }
}

/// All rows of a settings panel: the known groups, then whatever is in others.
pub open spec fn all_rows(ds: Seq<SettingDescriptor>) -> Seq<RowIndex> {
    section(ds, SettingGroup::Source) + section(ds, SettingGroup::Display) + section(
        ds,
        SettingGroup::Calibration,
    ) + section(ds, SettingGroup::Other)
}

fn push_section(out: &mut Vec<RowIndex>, ds: &Vec<SettingDescriptor>, group: SettingGroup)
    ensures
        final(out)@ == old(out)@ + section(ds@, group),
{
    let ghost before = out@;
    let mut rows: Vec<RowIndex> = Vec::new();
    let mut i: usize = 0;
    while i < ds.len()
        invariant
            i <= ds@.len(),
            rows@ == group_rows(ds@, group, i as nat),
        decreases ds@.len() - i,
    {
        if ds[i].group == group {
            rows.push(RowIndex::Setting(i));
        }
        i += 1;
    }
    if rows.len() > 0 {
        out.push(RowIndex::Heading(group));
        out.append(&mut rows);
    }
    assert(out@ =~= before + section(ds@, group));
}

/// All rows of a settings panel, in order.
pub fn row_order(ds: &Vec<SettingDescriptor>) -> (r: Vec<RowIndex>)
    ensures
        r@ == all_rows(ds@),
{
    let mut out: Vec<RowIndex> = Vec::new();
    push_section(&mut out, ds, SettingGroup::Source);
    push_section(&mut out, ds, SettingGroup::Display);
    push_section(&mut out, ds, SettingGroup::Calibration);
    push_section(&mut out, ds, SettingGroup::Other);
    assert(out@ =~= all_rows(ds@));
    out
}

/// The rows of a group are its settings, each once, in their order.
proof fn group_rows_are_its_settings(ds: Seq<SettingDescriptor>, group: SettingGroup, count: nat)
    requires
        count <= ds.len(),
        ds.len() <= usize::MAX,
    ensures
        forall|p: int|
            0 <= p < group_rows(ds, group, count).len() ==> {
                let row = #[trigger] group_rows(ds, group, count)[p];
                row matches RowIndex::Setting(i) && i < count && ds[i as int].group == group
            },
        forall|i: int|
            0 <= i < count && (#[trigger] ds[i]).group == group ==> group_rows(
                ds,
                group,
                count,
            ).contains(RowIndex::Setting(i as usize)),
        group_rows(ds, group, count).no_duplicates(),
    decreases count,
{
    if count > 0 {
        let n = (count - 1) as nat;
        group_rows_are_its_settings(ds, group, n);
        let before = group_rows(ds, group, n);
        let after = group_rows(ds, group, count);
        if ds[n as int].group == group {
            assert(after.last() == RowIndex::Setting(n as usize));
            assert forall|i: int| 0 <= i < count && (#[trigger] ds[i]).group
                == group implies after.contains(RowIndex::Setting(i as usize)) by {
                if i < n {
                    let p = choose|p: int|
                        0 <= p < before.len() && before[p] == RowIndex::Setting(i as usize);
                    assert(after[p] == RowIndex::Setting(i as usize));
                } else {
                    assert(after[after.len() - 1] == RowIndex::Setting(i as usize));
                }
            }
        }
    }
}

/// A section shows its group's settings and no other's.
proof fn section_shows_its_group(ds: Seq<SettingDescriptor>, group: SettingGroup, i: usize)
    requires
        i < ds.len(),
        ds.len() <= usize::MAX,
    ensures
        section(ds, group).contains(RowIndex::Setting(i)) <==> ds[i as int].group == group,
        section(ds, group).no_duplicates(),
{
    group_rows_are_its_settings(ds, group, ds.len());
    let rows = group_rows(ds, group, ds.len());
    let s = section(ds, group);
    if ds[i as int].group == group {
        let p = choose|p: int| 0 <= p < rows.len() && rows[p] == RowIndex::Setting(i);
        assert(s[p + 1] == RowIndex::Setting(i));
    }
    if s.contains(RowIndex::Setting(i)) {
        let q = choose|q: int| 0 <= q < s.len() && s[q] == RowIndex::Setting(i);
        assert(q > 0);
        assert(rows[q - 1] == RowIndex::Setting(i));
    }
    assert(s.no_duplicates());
}

/// A row that shows a setting shows one that exists.
pub proof fn rows_show_existing_settings(ds: Seq<SettingDescriptor>)
    requires
        ds.len() <= usize::MAX,
    ensures
        forall|p: int|
            0 <= p < all_rows(ds).len() ==> (#[trigger] all_rows(ds)[p] matches RowIndex::Setting(
                k,
            ) ==> k < ds.len()),
{
    group_rows_are_its_settings(ds, SettingGroup::Source, ds.len());
    group_rows_are_its_settings(ds, SettingGroup::Display, ds.len());
    group_rows_are_its_settings(ds, SettingGroup::Calibration, ds.len());
    group_rows_are_its_settings(ds, SettingGroup::Other, ds.len());
    let a = section(ds, SettingGroup::Source);
    let b = section(ds, SettingGroup::Display);
    let c = section(ds, SettingGroup::Calibration);
    assert forall|p: int| 0 <= p < all_rows(ds).len() implies (#[trigger] all_rows(
        ds,
    )[p] matches RowIndex::Setting(k) ==> k < ds.len()) by {
        let (q, group) = if p < a.len() {
            (p, SettingGroup::Source)
        } else if p < a.len() + b.len() {
            (p - a.len(), SettingGroup::Display)
        } else if p < a.len() + b.len() + c.len() {
            (p - a.len() - b.len(), SettingGroup::Calibration)
        } else {
            (p - a.len() - b.len() - c.len(), SettingGroup::Other)
        };
        assert(all_rows(ds)[p] == section(ds, group)[q]);
        if q > 0 {
            assert(section(ds, group)[q] == group_rows(ds, group, ds.len())[q - 1]);
        }
    }
}

/// Every setting of a source is shown in exactly one row, whatever its group:
/// none is hidden and none is shown twice.
pub proof fn every_setting_is_shown_once(ds: Seq<SettingDescriptor>, i: usize)
    requires
        i < ds.len(),
        ds.len() <= usize::MAX,
    ensures
        all_rows(ds).contains(RowIndex::Setting(i)),
        forall|p: int, q: int|
            0 <= p < all_rows(ds).len() && 0 <= q < all_rows(ds).len() && #[trigger] all_rows(
                ds,
            )[p] == RowIndex::Setting(i) && #[trigger] all_rows(ds)[q] == RowIndex::Setting(i)
                ==> p == q,
{
    section_shows_its_group(ds, SettingGroup::Source, i);
    section_shows_its_group(ds, SettingGroup::Display, i);
    section_shows_its_group(ds, SettingGroup::Calibration, i);
    section_shows_its_group(ds, SettingGroup::Other, i);
    let a = section(ds, SettingGroup::Source);
    let b = section(ds, SettingGroup::Display);
    let c = section(ds, SettingGroup::Calibration);
    let d = section(ds, SettingGroup::Other);
    let all = all_rows(ds);
    let row = RowIndex::Setting(i);
    let group = ds[i as int].group;
    let own = section(ds, group);
    let base: int = match group {
        SettingGroup::Source => 0,
        SettingGroup::Display => a.len() as int,
        SettingGroup::Calibration => (a.len() + b.len()) as int,
        SettingGroup::Other => (a.len() + b.len() + c.len()) as int,
    };
    let k = choose|k: int| 0 <= k < own.len() && own[k] == row;
    assert(all[base + k] == row);
    assert forall|p: int| 0 <= p < all.len() && #[trigger] all[p] == row implies p == base + k by {
        if p < a.len() {
            assert(a[p] == row);
            assert(a.contains(row));
        } else if p < a.len() + b.len() {
            assert(b[p - a.len()] == row);
            assert(b.contains(row));
        } else if p < a.len() + b.len() + c.len() {
            assert(c[p - a.len() - b.len()] == row);
            assert(c.contains(row));
        } else {
            assert(d[p - a.len() - b.len() - c.len()] == row);
            assert(d.contains(row));
        }
        assert(own[p - base] == row);
    }
}

/// The place of a group among the groups.
pub open spec fn group_rank(group: SettingGroup) -> int {
    match group {
        SettingGroup::Source => 0,
        SettingGroup::Display => 1,
        SettingGroup::Calibration => 2,
        SettingGroup::Other => 3,
    }
}

/// The group a row belongs to.
pub open spec fn row_group(ds: Seq<SettingDescriptor>, row: RowIndex) -> SettingGroup {
    match row {
        RowIndex::Heading(group) => group,
        RowIndex::Setting(i) => ds[i as int].group,
    }
}

/// Where a row is in the panel: which section, and how far into it.
proof fn row_in_section(ds: Seq<SettingDescriptor>, p: int) -> (r: (SettingGroup, int, int))
    requires
        0 <= p < all_rows(ds).len(),
        ds.len() <= usize::MAX,
    ensures
        0 <= r.1 < section(ds, r.0).len(),
        all_rows(ds)[p] == section(ds, r.0)[r.1],
        r.2 + r.1 == p,
        r.2 == section_start(ds, r.0),
{
    let a = section(ds, SettingGroup::Source);
    let b = section(ds, SettingGroup::Display);
    let c = section(ds, SettingGroup::Calibration);
    if p < a.len() {
        (SettingGroup::Source, p, 0)
    } else if p < a.len() + b.len() {
        (SettingGroup::Display, p - a.len(), a.len() as int)
    } else if p < a.len() + b.len() + c.len() {
        (SettingGroup::Calibration, p - a.len() - b.len(), (a.len() + b.len()) as int)
    } else {
        (
            SettingGroup::Other,
            p - a.len() - b.len() - c.len(),
            (a.len() + b.len() + c.len()) as int,
        )
    }
}

spec fn section_start(ds: Seq<SettingDescriptor>, group: SettingGroup) -> int {
    let a = section(ds, SettingGroup::Source).len() as int;
    let b = section(ds, SettingGroup::Display).len() as int;
    let c = section(ds, SettingGroup::Calibration).len() as int;
    match group {
        SettingGroup::Source => 0,
        SettingGroup::Display => a,
        SettingGroup::Calibration => a + b,
        SettingGroup::Other => a + b + c,
    }
}

/// The rows of a group are in the order of the settings.
proof fn group_rows_are_ordered(
    ds: Seq<SettingDescriptor>,
    group: SettingGroup,
    count: nat,
    p: int,
    q: int,
)
    requires
        count <= ds.len() <= usize::MAX,
        0 <= p < q < group_rows(ds, group, count).len(),
    ensures
        group_rows(ds, group, count)[p]->Setting_0 < group_rows(ds, group, count)[q]->Setting_0,
    decreases count,
{
    let before = group_rows(ds, group, (count - 1) as nat);
    group_rows_are_its_settings(ds, group, (count - 1) as nat);
    if q < before.len() {
        group_rows_are_ordered(ds, group, (count - 1) as nat, p, q);
    } else {
        assert(group_rows(ds, group, count)[p] == before[p]);
    }
}

/// The panel is in order: the groups follow each other, source, display,
/// calibration and whatever else there is; each begins with its heading; and
/// the settings of a group are in the order the source describes them in.
pub proof fn settings_are_in_order(ds: Seq<SettingDescriptor>, p: int, q: int)
    requires
        ds.len() <= usize::MAX,
        0 <= p < q < all_rows(ds).len(),
    ensures
        ({
            let a = all_rows(ds)[p];
            let b = all_rows(ds)[q];
            let ga = group_rank(row_group(ds, a));
            let gb = group_rank(row_group(ds, b));
            &&& ga <= gb
            &&& ga == gb ==> b is Setting
            &&& ga == gb && a is Setting ==> a->Setting_0 < b->Setting_0
            &&& ga < gb && q == p + 1 ==> b is Heading
        }),
        all_rows(ds)[0] is Heading,
{
    let a = row_in_section(ds, p);
    let b = row_in_section(ds, q);
    let z = row_in_section(ds, 0);
    group_rows_are_its_settings(ds, a.0, ds.len());
    group_rows_are_its_settings(ds, b.0, ds.len());
    group_rows_are_its_settings(ds, z.0, ds.len());
    let ra = group_rows(ds, a.0, ds.len());
    let rb = group_rows(ds, b.0, ds.len());
    assert(a.1 > 0 ==> section(ds, a.0)[a.1] == ra[a.1 - 1]);
    assert(b.1 > 0 ==> section(ds, b.0)[b.1] == rb[b.1 - 1]);
    assert(row_group(ds, all_rows(ds)[p]) == a.0);
    assert(row_group(ds, all_rows(ds)[q]) == b.0);
    if a.0 == b.0 {
        if a.1 > 0 {
            group_rows_are_ordered(ds, a.0, ds.len(), a.1 - 1, b.1 - 1);
        }
    }
}

/// A number of a setting is read back with its sign and stands before its unit;
/// a switch says on or off; a choice is the option it names, and a choice that
/// names none shows the number rather than some option.
pub proof fn a_value_is_read_back(
    number: i64,
    unit: String,
    on: bool,
    choice: u16,
    options: Vec<String>,
)
    ensures
        ({
            let shown = value_text(SettingValue::Int { value: number, unit });
            let digits = signed_decimal(number as int);
            &&& shown.take(digits.len() as int) == digits
            &&& unit@.len() == 0 ==> shown == digits
            &&& unit@.len() > 0 ==> shown[digits.len() as int] == ' ' && shown.skip(
                digits.len() as int + 1,
            ) == unit@
        }),
        value_text(SettingValue::Bool(on)) == (if on {
            seq!['o', 'n']
        } else {
            seq!['o', 'f', 'f']
        }),
        (choice as int) < options@.len() ==> value_text(
            SettingValue::Enum { value: choice, options },
        ) == options@[choice as int]@,
        choice as int >= options@.len() ==> crate::text::read_number(
            value_text(SettingValue::Enum { value: choice, options }),
        ) == choice,
{
    reveal_strlit(" ");
    reveal_strlit("on");
    reveal_strlit("off");
    reveal_strlit("? (");
    reveal_strlit(")");
    let shown = value_text(SettingValue::Int { value: number, unit });
    let digits = signed_decimal(number as int);
    assert(shown.take(digits.len() as int) =~= digits);
    if unit@.len() > 0 {
        assert(shown.skip(digits.len() as int + 1) =~= unit@);
    }
    assert("on"@ =~= seq!['o', 'n']);
    assert("off"@ =~= seq!['o', 'f', 'f']);
    let n = decimal(choice as nat);
    crate::text::a_written_number_reads_back(choice as nat);
    assert(crate::text::no_digits("? ("@));
    assert(crate::text::no_digits(")"@));
    crate::text::number_behind("? ("@, n);
    crate::text::number_before("? ("@ + n, ")"@);
}

} // verus!
