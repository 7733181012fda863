use radio_cat::tui::bigdigits::glyph;
use radio_cat::tui::bigdigits::render;
use radio_cat::tui::bigdigits::width;
use radio_cat::tui::devices::picker_hint;
use radio_cat::tui::devices::picker_lines;
use radio_cat::tui::devices::Choice;
use radio_cat::tui::devices::PickerStyles;
use radio_cat::tui::devices::Selection;
use radio_cat::tui::panel::grid;
use radio_cat::tui::panel::GridCell;
use radio_cat::tui::panel::GridItem;
use radio_cat::tui::panel::GridStyles;
use radio_cat::tui::session::error_panel;
use radio_cat::tui::session::header;
use radio_cat::tui::session::link_panel;
use radio_cat::tui::session::menu_column;
use radio_cat::tui::session::Alignment;
use radio_cat::tui::session::ErrorPanelStyles;
use radio_cat::tui::session::LinkState;
use radio_cat::tui::session::Panel;
use radio_cat::tui::settings::settings_rows;
use radio_cat::tui::settings::SettingStyles;
use radio_cat::tui::vfo::vfo_readout;
use radio_cat::ui::device::DeviceInfo;
use radio_cat::ui::device::DeviceKind;
use radio_cat::ui::device::DeviceList;
use radio_cat::ui::geometry::Rect;
use radio_cat::ui::setting::format_value;
use radio_cat::ui::setting::Access;
use radio_cat::ui::setting::SettingDescriptor;
use radio_cat::ui::setting::SettingGroup;
use radio_cat::ui::setting::SettingValue;
use radio_cat::ui::style::Colour;
use radio_cat::ui::style::Line;
use radio_cat::ui::style::Span;
use radio_cat::ui::style::Style;

fn text_of(lines: &[Line]) -> String {
    lines.iter().map(|l| l.text()).collect::<Vec<_>>().join("\n")
}

// Large digits.

#[test]
fn every_digit_has_a_glyph_of_the_right_shape() {
    for c in "0123456789.".chars() {
        let g = glyph(c);
        for row in g {
            assert_eq!(row.chars().count(), 3, "glyph {c:?} row {row:?} is not three columns");
        }
    }
}

#[test]
fn no_two_digits_look_alike() {
    let mut seen = std::collections::HashMap::new();
    for c in "0123456789".chars() {
        let shape = glyph(c).join("|");
        if let Some(other) = seen.insert(shape.clone(), c) {
            panic!("{c} and {other} render identically:\n{shape}");
        }
    }
}

#[test]
fn a_frequency_renders_three_rows_of_equal_width() {
    let rows = render("14.074.055");
    assert_eq!(rows.len(), 3);
    let w = rows[0].chars().count();
    assert!(rows.iter().all(|r| r.chars().count() == w), "ragged rows");
    assert_eq!(w, width("14.074.055"));
}

#[test]
fn an_unknown_character_keeps_its_column() {
    assert_eq!(render("?").iter().map(|r| r.chars().count()).max(), Some(4));
}

// Grids.

fn reversed() -> Style {
    Style { reversed: true, ..Style::plain() }
}

fn grid_styles() -> GridStyles {
    GridStyles {
        normal: Style::plain(),
        selected: reversed(),
        pending: Style::ink(Colour::Cyan),
        disabled: Style::ink(Colour::DarkGray),
    }
}

fn grid_of(items: Vec<GridItem<'_>>, cols: u16, w: u16, h: u16) -> (Vec<GridCell>, u16) {
    grid(&items, cols, Rect::new(0, 0, w, h), grid_styles())
}

fn row_text(cells: &[GridCell], w: usize) -> String {
    let mut row = vec![' '; w];
    for cell in cells {
        for (i, ch) in cell.text.chars().enumerate() {
            row[cell.x as usize + i] = ch;
        }
    }
    row.into_iter().collect()
}

fn style_at(cells: &[GridCell], x: u16) -> Style {
    for cell in cells {
        if cell.x <= x && x < cell.x + cell.text.chars().count() as u16 {
            return cell.style;
        }
    }
    panic!("nothing drawn at {x}");
}

#[test]
fn items_wrap_into_rows_and_report_the_height_used() {
    let items: Vec<GridItem> =
        ["160m", "80m", "40m", "20m", "15m", "10m"].iter().map(|l| GridItem::new(l)).collect();
    let (_, rows) = grid_of(items, 4, 24, 4);
    assert_eq!(rows, 2, "six items in fours is two rows");
}

#[test]
fn a_capability_the_radio_lacks_is_dimmed_in_place_not_omitted() {
    let items = vec![GridItem::new("RIT").disabled(), GridItem::new("XIT").disabled()];
    let (cells, rows) = grid_of(items, 2, 12, 1);
    assert_eq!(rows, 1);
    assert!(row_text(&cells, 12).contains("RIT"), "disabled items still occupy their cell");
    assert_eq!(style_at(&cells, 1).fg, Some(Colour::DarkGray));
}

#[test]
fn a_requested_value_is_distinguishable_from_a_confirmed_one() {
    let items = vec![GridItem::new("USB").selected(true), GridItem::new("CW").pending(true)];
    let (cells, _) = grid_of(items, 2, 12, 1);
    assert_ne!(style_at(&cells, 1), style_at(&cells, 7));
    assert_eq!(style_at(&cells, 7).fg, Some(Colour::Cyan));
}

#[test]
fn labels_are_centred_in_their_cell() {
    let (cells, _) = grid_of(vec![GridItem::new("CW")], 1, 6, 1);
    assert_eq!(row_text(&cells, 6), "  CW  ");
}

#[test]
fn a_label_too_wide_for_its_cell_is_truncated_not_overflowed() {
    let (cells, _) = grid_of(vec![GridItem::new("DATA-FM"), GridItem::new("AM")], 2, 8, 1);
    let text = row_text(&cells, 8);
    assert_eq!(text.chars().count(), 8);
    assert!(text.starts_with("DATA"));
    assert_eq!(text, "DATA AM ");
}

#[test]
fn a_grid_too_narrow_for_its_columns_draws_nothing_rather_than_panicking() {
    let (cells, rows) = grid_of(vec![GridItem::new("A"), GridItem::new("B")], 8, 4, 1);
    assert_eq!(rows, 0);
    assert!(cells.is_empty());
}

#[test]
fn more_items_than_rows_stops_at_the_edge() {
    let items: Vec<GridItem> = (0..20).map(|_| GridItem::new("x")).collect();
    let (cells, rows) = grid_of(items, 4, 16, 2);
    assert_eq!(rows, 2);
    assert_eq!(cells.len(), 8);
}

// The device picker.

fn dev(kind: DeviceKind, spec: &str, is_default: bool) -> DeviceInfo {
    DeviceInfo {
        kind,
        spec: spec.to_string(),
        label: format!("{spec} label"),
        detail: None,
        is_default,
    }
}

fn lists() -> Vec<DeviceList> {
    vec![
        DeviceList::found(
            DeviceKind::AudioInput,
            vec![
                dev(DeviceKind::AudioInput, "hw:0,0", false),
                dev(DeviceKind::AudioInput, "hw:1,0", true),
            ],
        ),
        DeviceList::found(DeviceKind::Sdr, vec![dev(DeviceKind::Sdr, "rtl:0", false)]),
    ]
}

fn picker_styles() -> PickerStyles {
    let s = Style::plain();
    PickerStyles {
        heading: Style { bold: true, ..s },
        label: s,
        spec: s,
        detail: s,
        selected: reversed(),
        absent: s,
    }
}

#[test]
fn the_cursor_moves_across_groups_and_not_within_one() {
    let lists = lists();
    let mut sel = Selection::new();
    assert_eq!(sel.current(&lists), Some(Choice { list: 0, device: 0 }));
    sel.move_by(1, &lists);
    assert_eq!(sel.current(&lists), Some(Choice { list: 0, device: 1 }));
    sel.move_by(1, &lists);
    assert_eq!(
        sel.current(&lists),
        Some(Choice { list: 1, device: 0 }),
        "the third row down is the first SDR"
    );
}

#[test]
fn the_cursor_clamps_rather_than_wrapping() {
    let lists = lists();
    let mut sel = Selection::new();
    sel.move_by(-5, &lists);
    assert_eq!(sel.current(&lists), Some(Choice { list: 0, device: 0 }));
    sel.move_by(99, &lists);
    assert_eq!(sel.current(&lists), Some(Choice { list: 1, device: 0 }));
}

#[test]
fn opening_the_picker_lands_on_the_hosts_default() {
    let lists = lists();
    let mut sel = Selection::new();
    sel.select_default(&lists);
    assert_eq!(sel.current(&lists), Some(Choice { list: 0, device: 1 }));
}

#[test]
fn a_list_with_nothing_in_it_has_nothing_to_select() {
    let empty = vec![DeviceList::found(DeviceKind::Sdr, Vec::new())];
    let mut sel = Selection::new();
    sel.move_by(3, &empty);
    assert_eq!(sel.current(&empty), None, "and moving does not panic");
}

#[test]
fn cannot_ask_reads_differently_from_nothing_attached() {
    let broken =
        vec![DeviceList::unavailable(DeviceKind::AudioInput, "no sound backend in this build")];
    let empty = vec![DeviceList::found(DeviceKind::AudioInput, Vec::new())];

    let broken = text_of(&picker_lines(&broken, &Selection::new(), picker_styles()));
    let empty = text_of(&picker_lines(&empty, &Selection::new(), picker_styles()));

    assert!(broken.contains("unavailable"), "{broken}");
    assert!(broken.contains("no sound backend in this build"));
    assert!(empty.contains("nothing attached"), "{empty}");
    assert!(!empty.contains("unavailable"));
}

#[test]
fn every_row_shows_the_string_the_command_line_would_take() {
    let rendered = text_of(&picker_lines(&lists(), &Selection::new(), picker_styles()));
    for spec in ["hw:0,0", "hw:1,0", "rtl:0"] {
        assert!(rendered.contains(spec), "{spec} missing from:\n{rendered}");
    }
}

#[test]
fn the_host_default_is_marked_so_a_picker_can_be_trusted() {
    let rendered = text_of(&picker_lines(&lists(), &Selection::new(), picker_styles()));
    assert!(rendered.contains("(default)"));
}

#[test]
fn the_hint_names_the_flag_that_takes_the_pick() {
    let hint = picker_hint(DeviceKind::Sdr, "rtl:0", Style::plain());
    assert_eq!(hint.text(), "same as: --if-out rtl:0");
}

#[test]
fn both_groups_are_headed_even_when_one_is_empty() {
    let lists = vec![
        DeviceList::found(DeviceKind::AudioInput, Vec::new()),
        DeviceList::found(DeviceKind::Sdr, vec![dev(DeviceKind::Sdr, "rtl:0", false)]),
    ];
    let rendered = text_of(&picker_lines(&lists, &Selection::new(), picker_styles()));
    assert!(rendered.contains("AUDIO INPUT"));
    assert!(rendered.contains("SDR"));
}

// The panels of a session.

fn panel_text(panel: &Panel) -> String {
    format!("{}\n{}", panel.title, text_of(&panel.lines))
}

fn errors(n: usize) -> Vec<String> {
    (0..n).map(|i| format!("error {i}")).collect()
}

#[test]
fn connecting_does_not_look_like_a_failure() {
    let out = panel_text(&link_panel(LinkState::Connecting, &Vec::new(), "Radio Status", None));
    assert!(out.contains("Connecting"));
    assert!(!out.contains("LOST"));
    assert!(out.starts_with(" Radio Status "));
}

#[test]
fn a_lost_link_says_so_and_says_what_to_do() {
    let out = panel_text(&link_panel(LinkState::Lost, &Vec::new(), "Radio Status", None));
    assert!(out.contains("CONNECTION LOST"));
    assert!(out.contains("Reconnect"));
    assert!(out.contains("recover"));
}

#[test]
fn a_flood_of_errors_cannot_push_the_instructions_off_screen() {
    let panel = link_panel(LinkState::Lost, &errors(200), "Radio Status", None);
    assert!(panel.lines.len() <= 18, "it fits a panel of twenty rows with its border");
    let out = panel_text(&panel);
    assert!(out.contains("Reconnect"));
    assert!(out.contains("error 0"));
    assert!(!out.contains("error 9"), "the list must be bounded");
}

#[test]
fn the_disconnected_panel_still_names_the_one_key_that_works() {
    for state in [LinkState::Connecting, LinkState::Lost] {
        let out = panel_text(&link_panel(
            state,
            &Vec::new(),
            "Radio Status",
            Some(Span::raw("[Q] Quit")),
        ));
        assert!(out.contains("[Q] Quit"), "{state:?} lost the footer");
    }
}

#[test]
fn a_flood_of_errors_cannot_push_the_footer_off_screen_either() {
    let panel = link_panel(
        LinkState::Lost,
        &errors(200),
        "Radio Status",
        Some(Span::raw("[Q] Quit")),
    );
    assert!(panel.lines.len() <= 18);
    assert!(panel_text(&panel).contains("[Q] Quit"));
}

#[test]
fn a_centred_header_is_actually_centred() {
    let h = header("TITLE", Alignment::Center, Style::plain());
    assert_eq!(h.alignment, Alignment::Center);
    assert_eq!(h.line.text(), "TITLE");
}

fn quiet() -> ErrorPanelStyles {
    ErrorPanelStyles { error: Style::plain(), quiet: None }
}

#[test]
fn no_errors_means_no_panel_at_all() {
    assert_eq!(error_panel(&Vec::new(), "Errors", &quiet()), None);
}

#[test]
fn a_panel_in_a_fixed_slot_can_say_it_is_quiet_instead() {
    let styles = ErrorPanelStyles {
        error: Style::plain(),
        quiet: Some(("No errors".to_string(), Style::plain())),
    };
    let out = panel_text(&error_panel(&Vec::new(), "Errors", &styles).unwrap());
    assert!(out.contains("No errors"), "got {out:?}");
}

#[test]
fn the_error_panel_shows_the_most_recent_first() {
    let errors: Vec<String> = (0..10).map(|i| format!("e{i}")).collect();
    let panel = error_panel(&errors, "Errors", &quiet()).unwrap();
    let out = panel_text(&panel);
    assert!(out.contains("e9"), "newest must be visible");
    assert!(!out.contains("e0"), "oldest is dropped, not the newest");
    assert_eq!(panel.lines[0].text(), "e9");
    assert_eq!(panel.lines.len(), 3);
}

#[test]
fn the_header_takes_its_title_rather_than_hardcoding_one() {
    let h = header("TS-570D RADIO CONTROL", Alignment::Left, Style::plain());
    assert!(h.line.text().contains("TS-570D"));
}

#[test]
fn menu_columns_work_with_either_apps_key_type() {
    let pair = |k: &str, v: &str| (k.to_string(), v.to_string());
    let s = Style::plain();
    let by_str = menu_column(&vec![pair("F1", "band"), pair("F2", "mode")], s, s);
    let owned = menu_column(&vec![(1u8.to_string(), format!("memory {}", 14))], s, s);
    assert_eq!(owned[0].text(), "[1] memory 14");
    let by_char = menu_column(&vec![pair("a", "band"), pair("b", "mode")], s, s);
    assert_eq!(by_str.len(), 2);
    assert_eq!(by_char.len(), 2);
    assert_eq!(by_char[0].text(), "[a] band");
}

// Settings.

fn descriptor(
    key: &str,
    label: &str,
    group: SettingGroup,
    access: Access,
    value: SettingValue,
) -> SettingDescriptor {
    SettingDescriptor { key: key.to_string(), label: label.to_string(), group, access, value }
}

fn whole(value: i64, unit: &str) -> SettingValue {
    SettingValue::Int { value, unit: unit.to_string() }
}

fn options(value: u16, options: &[&str]) -> SettingValue {
    SettingValue::Enum { value, options: options.iter().map(|s| s.to_string()).collect() }
}

fn if_tap() -> Vec<SettingDescriptor> {
    vec![
        descriptor(
            "gain_db",
            "Gain",
            SettingGroup::Source,
            Access::ReadWrite,
            SettingValue::Float { shown: "28.0".to_string(), unit: "dB".to_string() },
        ),
        descriptor(
            "if_center_hz",
            "IF centre",
            SettingGroup::Calibration,
            Access::ReadOnly,
            whole(73_050_000, "Hz"),
        ),
        descriptor(
            "trim_hz",
            "Frequency trim",
            SettingGroup::Calibration,
            Access::ReadWrite,
            whole(-1420, "Hz"),
        ),
    ]
}

fn audio() -> Vec<SettingDescriptor> {
    vec![descriptor(
        "input_device",
        "Input device",
        SettingGroup::Source,
        Access::ReadWrite,
        options(0, &["Box USB Audio", "System default"]),
    )]
}

fn settings_text(s: &Vec<SettingDescriptor>) -> Vec<String> {
    let st = Style::plain();
    settings_rows(s, 18, SettingStyles { heading: st, label: st, value: st, readonly: st })
        .iter()
        .map(|l| l.text())
        .collect()
}

#[test]
fn trim_hz_is_one_row_with_no_special_treatment() {
    let lines = settings_text(&if_tap());
    let trim: Vec<&String> = lines.iter().filter(|l| l.contains("Frequency trim")).collect();
    assert_eq!(trim.len(), 1);
    assert!(trim[0].contains("-1420 Hz"));
    let cal = lines.iter().position(|l| l == "CALIBRATION").unwrap();
    let row = lines.iter().position(|l| l.contains("Frequency trim")).unwrap();
    assert!(row > cal);
}

#[test]
fn a_group_with_no_descriptors_does_not_appear() {
    let lines = settings_text(&audio());
    assert!(lines.iter().any(|l| l == "SOURCE"));
    assert!(!lines.iter().any(|l| l == "CALIBRATION"));
    assert!(!lines.iter().any(|l| l == "DISPLAY"));
}

#[test]
fn the_renderer_never_switches_on_the_source_type() {
    assert!(!settings_text(&if_tap()).is_empty());
    assert!(!settings_text(&audio()).is_empty());
}

#[test]
fn read_only_rows_are_marked_as_such() {
    let lines = settings_text(&if_tap());
    let ro = lines.iter().find(|l| l.contains("IF centre")).unwrap();
    assert!(ro.ends_with("RO"), "got {ro:?}");
    let rw = lines.iter().find(|l| l.contains("Frequency trim")).unwrap();
    assert!(!rw.ends_with("RO"));
}

#[test]
fn values_render_with_their_unit() {
    assert_eq!(format_value(&whole(48_000, "S/s")), "48000 S/s");
    assert_eq!(
        format_value(&SettingValue::Float { shown: "28.0".to_string(), unit: "dB".to_string() }),
        "28.0 dB"
    );
    assert_eq!(format_value(&SettingValue::Bool(true)), "on");
}

#[test]
fn a_unitless_value_gets_no_stray_suffix() {
    assert_eq!(format_value(&whole(4, "")), "4");
}

#[test]
fn an_enum_renders_its_selected_option() {
    assert_eq!(format_value(&options(1, &["Hann", "Hamming", "Blackman"])), "Hamming");
}

#[test]
fn an_out_of_range_enum_says_so_rather_than_drawing_blank() {
    assert_eq!(format_value(&options(9, &["Hann"])), "? (9)");
}

#[test]
fn a_group_nobody_has_heard_of_is_shown_last() {
    let mut all = vec![descriptor(
        "x",
        "Strange",
        SettingGroup::Other,
        Access::ReadWrite,
        SettingValue::Bool(false),
    )];
    all.extend(if_tap());
    let lines = settings_text(&all);
    assert_eq!(lines.len(), 7);
    assert_eq!(lines[0], "SOURCE");
    assert_eq!(lines[5], "OTHER");
    assert!(lines[6].contains("Strange") && lines[6].contains("off"));
}

// The VFO.

#[test]
fn an_unread_vfo_shows_dashes_not_zero() {
    let s = Style::plain();
    let out = vfo_readout(None, None, s, s, s).text();
    assert!(out.contains('—'));
    assert!(!out.contains("0.000.000"));
}

#[test]
fn a_read_vfo_matches_the_apps_existing_format() {
    let s = Style::plain();
    assert_eq!(vfo_readout(Some(14_074_000), None, s, s, s).text(), "14.074.000 MHz");
}

#[test]
fn a_requested_frequency_follows_the_confirmed_one() {
    let s = Style::plain();
    let out = vfo_readout(Some(14_074_000), Some(14_195_000), s, s, s).text();
    assert!(out.starts_with("14.074.000 MHz"));
    assert!(out.contains("▸ 14.195.000 MHz"));
}

#[test]
fn a_request_on_a_cold_vfo_still_renders_both_states() {
    let s = Style::plain();
    let out = vfo_readout(None, Some(14_195_000), s, s, s).text();
    assert!(out.contains('—'));
    assert!(out.contains("14.195.000"));
}
