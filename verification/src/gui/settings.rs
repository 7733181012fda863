//! The rows of a settings panel.

use crate::ui::setting::all_rows;
use crate::ui::setting::group_name;
use crate::ui::setting::group_text;
use crate::ui::setting::row_order;
use crate::ui::setting::rows_show_existing_settings;
use crate::ui::setting::RowIndex;
use crate::ui::setting::SettingDescriptor;
use vstd::prelude::*;
use vstd::string::*;

verus! {

/// A row of a settings panel.
#[derive(Debug, Clone, Copy, PartialEq, Eq)]
pub enum Row<'a> {
    Heading(&'static str),
    Setting(&'a SettingDescriptor),
}

/// Whether `row` shows what `index` says.
pub open spec fn shows(row: Row<'_>, index: RowIndex, ds: Seq<SettingDescriptor>) -> bool {
    match index {
        RowIndex::Heading(group) => row matches Row::Heading(h) && h@ == group_text(group),
        RowIndex::Setting(i) => row matches Row::Setting(d) && *d == ds[i as int],
    }
}

/// The rows a settings panel draws, grouped and in order. Which rows exist and
/// under what headings is the same in both consoles.
pub fn settings_rows<'a>(settings: &'a Vec<SettingDescriptor>) -> (r: Vec<Row<'a>>)
    ensures
        r@.len() == all_rows(settings@).len(),
        forall|i: int|
            0 <= i < r@.len() ==> shows(#[trigger] r@[i], all_rows(settings@)[i], settings@),
{
    let order = row_order(settings);
    proof {
        assert(settings@.len() == settings.len());
        rows_show_existing_settings(settings@);
    }
    let mut out: Vec<Row<'a>> = Vec::new();
    let mut i: usize = 0;
    while i < order.len()
        invariant
            i <= order@.len(),
            order@ == all_rows(settings@),
            out@.len() == i,
            forall|p: int|
                0 <= p < order@.len() ==> (#[trigger] order@[p] matches RowIndex::Setting(k) ==> k
                    < settings@.len()),
            forall|j: int|
                0 <= j < i ==> shows(#[trigger] out@[j], all_rows(settings@)[j], settings@),
        decreases order@.len() - i,
    {
        assert(order@[i as int] == order[i as int]);
        let row = match order[i] {
            RowIndex::Heading(group) => Row::Heading(group_name(group)),
            RowIndex::Setting(k) => Row::Setting(&settings[k]),
        };
        out.push(row);
        i += 1;
    }
    out
}

/// A row is a heading or a setting as the order says: a heading of that group's
/// name, or that very setting.
pub proof fn a_row_is_what_the_order_says(row: Row<'_>, index: RowIndex, ds: Seq<SettingDescriptor>)
    requires
        shows(row, index, ds),
    ensures
        row is Heading <==> index is Heading,
        index matches RowIndex::Heading(group) ==> row->Heading_0@ == group_text(group),
        index matches RowIndex::Setting(i) ==> *row->Setting_0 == ds[i as int],
{
}

} // verus!
