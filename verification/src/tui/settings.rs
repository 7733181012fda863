//! One generic renderer for a source's own settings.

use crate::text::pad_end;
use crate::text::push_padded;
use crate::ui::setting::all_rows;
use crate::ui::setting::format_value;
use crate::ui::setting::group_name;
use crate::ui::setting::group_text;
use crate::ui::setting::row_order;
use crate::ui::setting::rows_show_existing_settings;
use crate::ui::setting::value_text;
use crate::ui::setting::Access;
use crate::ui::setting::RowIndex;
use crate::ui::setting::SettingDescriptor;
use crate::ui::style::lines_view;
use crate::ui::style::push_line;
use crate::ui::style::Line;
use crate::ui::style::Span;
use crate::ui::style::Style;
use vstd::prelude::*;
use vstd::string::*;

verus! {

/// The styles of a settings panel.
#[derive(Debug, Clone, Copy, PartialEq, Eq, Structural)]
pub struct SettingStyles {
    pub heading: Style,
    pub label: Style,
    pub value: Style,
    pub readonly: Style,
}

/// The line of one row: a heading, or a label, a value and whether it can be
/// changed.
pub open spec fn setting_line(
    ds: Seq<SettingDescriptor>,
    row: RowIndex,
    label_width: int,
    styles: SettingStyles,
) -> Seq<(Seq<char>, Style)> {
    match row {
        RowIndex::Heading(group) => seq![(group_text(group), styles.heading)],
        RowIndex::Setting(i) => {
            let d = ds[i as int];
            let ro = d.access == Access::ReadOnly;
            seq![
                (pad_end(d.label@, label_width), styles.label),
                (
                    value_text(d.value),
                    if ro {
                        styles.readonly
                    } else {
                        styles.value
                    },
                ),
                (
                    if ro {
                        "  RO"@
                    } else {
                        ""@
                    },
                    styles.readonly,
                ),
            ]
        },
    }
}

/// All lines of a settings panel.
pub open spec fn setting_lines(
    ds: Seq<SettingDescriptor>,
    label_width: int,
    styles: SettingStyles,
) -> Seq<Seq<(Seq<char>, Style)>> {
    all_rows(ds).map_values(|row: RowIndex| setting_line(ds, row, label_width, styles))
}

/// A settings list as lines, grouped, with read-only rows marked. A group
/// without settings does not appear, and settings in a group nobody has heard
/// of come last rather than not at all.
pub fn settings_rows(
    settings: &Vec<SettingDescriptor>,
    label_width: usize,
    styles: SettingStyles,
) -> (r: Vec<Line>)
    ensures
        lines_view(r@) == setting_lines(settings@, label_width as int, styles),
{
    let rows = row_order(settings);
    let ghost all = setting_lines(settings@, label_width as int, styles);
    let mut lines: Vec<Line> = Vec::new();
    let mut i: usize = 0;
    assert(lines_view(lines@) =~= all.take(0));
    proof {
        assert(settings@.len() == settings.len());
        rows_show_existing_settings(settings@);
    }
    while i < rows.len()
        invariant
            i <= rows@.len(),
            rows@ == all_rows(settings@),
            all == setting_lines(settings@, label_width as int, styles),
            lines_view(lines@) == all.take(i as int),
            forall|p: int|
                0 <= p < rows@.len() ==> (#[trigger] rows@[p] matches RowIndex::Setting(k) ==> k
                    < settings@.len()),
        decreases rows@.len() - i,
    {
        assert(rows@[i as int] == rows[i as int]);
        let line = match rows[i] {
            RowIndex::Heading(group) => Line::one(Span::of(group_name(group), styles.heading)),
            RowIndex::Setting(k) => {
                let d = &settings[k];
                let ro: bool = match d.access {
                    Access::ReadOnly => true,
                    Access::ReadWrite => false,
                };
                let mut label = String::new();
                push_padded(&mut label, d.label.as_str(), label_width);
                assert(label@ =~= pad_end(d.label@, label_width as int));
                let mut line = Line::two(
                    Span::styled(label, styles.label),
                    Span::styled(
                        format_value(&d.value),
                        if ro {
                            styles.readonly
                        } else {
                            styles.value
                        },
                    ),
                );
                line.push(
                    Span::of(
                        if ro {
                            "  RO"
                        } else {
                            ""
                        },
                        styles.readonly,
                    ),
                );
                line
            },
        };
        assert(line@ =~= setting_line(settings@, rows@[i as int], label_width as int, styles));
        push_line(&mut lines, line);
        i += 1;
        assert(lines_view(lines@) =~= all.take(i as int));
    }
    assert(all.take(rows@.len() as int) =~= all);
    lines
}

/// The line of a setting shows its label, padded and not cut off, and its
/// value; it is marked exactly where it cannot be changed, and then its value is
/// in the style of what cannot.
pub proof fn a_setting_shows_its_label_and_value(
    ds: Seq<SettingDescriptor>,
    i: usize,
    label_width: nat,
    styles: SettingStyles,
)
    requires
        i < ds.len(),
    ensures
        ({
            let line = setting_line(ds, RowIndex::Setting(i), label_width as int, styles);
            let label = ds[i as int].label@;
            &&& line.len() == 3
            &&& line[0].0.take(label.len() as int) == label
            &&& line[0].0.len() >= label_width
            &&& line[0].1 == styles.label
            &&& line[1].0 == value_text(ds[i as int].value)
            &&& ds[i as int].access == Access::ReadOnly <==> line[2].0.len() > 0
            &&& ds[i as int].access == Access::ReadOnly ==> line[1].1 == styles.readonly
            &&& ds[i as int].access == Access::ReadWrite ==> line[1].1 == styles.value
        }),
{
    reveal_strlit("  RO");
    reveal_strlit("");
    crate::text::padding_keeps_the_text(ds[i as int].label@, label_width);
}

} // verus!
