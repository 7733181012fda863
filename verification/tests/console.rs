use radio_cat::tui::af::AudioState;
use radio_cat::tui::console::facts::band_row;
use radio_cat::tui::console::facts::bands_for;
use radio_cat::tui::console::facts::mode_row;
use radio_cat::tui::console::facts::reference_facts;
use radio_cat::tui::console::facts::ribbon_cells;
use radio_cat::tui::console::facts::SETTING;
use radio_cat::tui::console::keys::handle_key;
use radio_cat::tui::console::keys::submitted;
use radio_cat::tui::console::keys::ConsoleKey;
use radio_cat::tui::console::keys::Key;
use radio_cat::tui::console::keys::Parsed;
use radio_cat::tui::console::layout::draw;
use radio_cat::tui::console::layout::Arrangement;
use radio_cat::tui::console::layout::PanelKind;
use radio_cat::tui::console::layout::Placement;
use radio_cat::tui::console::model::read_s_meter;
use radio_cat::tui::console::model::Band;
use radio_cat::tui::console::model::Capabilities;
use radio_cat::tui::console::model::ConsoleView;
use radio_cat::tui::console::model::FrequencyRange;
use radio_cat::tui::console::model::RadioDisplay;
use radio_cat::tui::console::model::Tab;
use radio_cat::tui::console::model::TabEntry;
use radio_cat::tui::console::rail::draw_meters;
use radio_cat::tui::console::regions::split;
use radio_cat::tui::console::regions::RAIL_W;
use radio_cat::tui::console::regions::REF_W;
use radio_cat::tui::draw::Draw;
use radio_cat::tui::meter::bar_fill;
use radio_cat::tui::vfo::vfo_readout;
use radio_cat::ui::device::DeviceInfo;
use radio_cat::ui::device::DeviceKind;
use radio_cat::ui::device::DeviceList;
use radio_cat::ui::geometry::union;
use radio_cat::ui::geometry::Rect;
use radio_cat::ui::style::Colour;
use radio_cat::ui::style::Line;
use radio_cat::ui::style::Style;

/// A screen: what is in each cell, and the ground it has.
struct Screen {
    chars: Vec<Vec<char>>,
    grounds: Vec<Vec<Option<Colour>>>,
}

impl Screen {
    fn new(w: u16, h: u16) -> Self {
        Screen {
            chars: vec![vec![' '; w as usize]; h as usize],
            grounds: vec![vec![None; w as usize]; h as usize],
        }
    }

    fn put(&mut self, x: usize, y: usize, ch: char, style: Style) {
        if y < self.chars.len() && x < self.chars[y].len() {
            self.chars[y][x] = ch;
            if style.bg.is_some() {
                self.grounds[y][x] = style.bg;
            }
        }
    }

    fn line(&mut self, area: Rect, row: u16, line: &Line) {
        if row >= area.height {
            return;
        }
        let mut x = area.x;
        for span in &line.spans {
            for ch in span.text.chars() {
                if x < area.x + area.width {
                    self.put(x as usize, (area.y + row) as usize, ch, span.style);
                }
                x += 1;
            }
        }
    }

    fn paint(&mut self, pieces: &[Draw]) {
        for piece in pieces {
            match piece {
                Draw::Text { x, y, text, style } => {
                    for (i, ch) in text.chars().enumerate() {
                        self.put(*x as usize + i, *y as usize, ch, *style);
                    }
                }
                Draw::Lines { area, lines, .. } => {
                    for (row, line) in lines.iter().enumerate() {
                        self.line(*area, row as u16, line);
                    }
                }
                Draw::Bar(bar) => {
                    for cell in bar.cells() {
                        self.put(cell.x as usize, cell.y as usize, cell.ch, Style::plain());
                    }
                }
                _ => {}
            }
        }
    }

    fn rows(&self) -> Vec<String> {
        self.chars.iter().map(|r| r.iter().collect()).collect()
    }
}

fn entry(tab: Tab, label: &str) -> TabEntry {
    TabEntry { tab, label: label.to_string() }
}

/// The tabs of a radio that has everything.
fn full_tabs() -> Vec<TabEntry> {
    vec![
        entry(Tab::Spectrum, "SPECTRUM"),
        entry(Tab::Memory, "MEMORY 0–99"),
        entry(Tab::Menu, "MENU 52"),
        entry(Tab::Source, "SOURCE"),
    ]
}

fn full_view() -> ConsoleView {
    ConsoleView::for_capabilities(full_tabs())
}

fn band(label: &str, min_hz: u64, max_hz: u64) -> Band {
    Band { label: label.to_string(), range: FrequencyRange { min_hz, max_hz } }
}

fn caps() -> Capabilities {
    Capabilities {
        rx_range: FrequencyRange { min_hz: 500_000, max_hz: 60_000_000 },
        bands: vec![
            band("80m", 3_500_000, 4_000_000),
            band("40m", 7_000_000, 7_300_000),
            band("20m", 14_000_000, 14_350_000),
            band("2m", 144_000_000, 148_000_000),
        ],
        modes: vec!["LSB".to_string(), "USB".to_string(), "CW".to_string()],
        s_meter: Some((0, 30)),
    }
}

fn screen_of(radio: &RadioDisplay, view: &ConsoleView, w: u16, h: u16) -> Screen {
    let mut screen = Screen::new(w, h);
    let (pieces, _) = draw(Rect::new(0, 0, w, h), radio, view, &caps(), None);
    screen.paint(&pieces);
    screen
}

fn rows_of(radio: &RadioDisplay, w: u16, h: u16) -> Vec<String> {
    screen_of(radio, &full_view(), w, h).rows()
}

// What the radio reports.

#[test]
fn a_rail_with_nothing_read_shows_dashes_not_defaults() {
    let radio = RadioDisplay::default();
    assert!(!radio.levels_known, "a fresh display has read nothing");
    for fact in reference_facts(&radio) {
        assert_eq!(fact.value, "—", "{} must not be drawn from a default", fact.name);
    }
}

#[test]
fn a_rail_that_was_read_shows_its_values() {
    let radio =
        RadioDisplay { levels_known: true, af_gain: 34, preamp: true, ..Default::default() };
    let facts = reference_facts(&radio);
    let get = |k: &str| facts.iter().find(|f| f.name == k).map(|f| f.value.clone()).unwrap();
    assert_eq!(get("AF"), "34");
    assert_eq!(get("PRE"), "on");
    assert!(!facts.iter().any(|f| f.value == "—"), "nothing unknown here");
}

#[test]
fn a_default_has_values_that_must_not_be_shown() {
    let radio = RadioDisplay { levels_known: true, ..Default::default() };
    let facts = reference_facts(&radio);
    let get = |k: &str| facts.iter().find(|f| f.name == k).map(|f| f.value.clone()).unwrap();
    assert_eq!(get("AF"), "200");
    assert_eq!(get("PRE"), "off");
}

#[test]
fn an_unknown_ribbon_value_is_dimmed_rather_than_guessed() {
    let cells = ribbon_cells(&RadioDisplay::default());
    let filter = cells.iter().find(|c| c.label == "FILTER").unwrap();
    assert_eq!(filter.value, "—");
    assert!(!filter.known, "and it is marked as not known");
}

#[test]
fn rit_and_xit_are_present_even_when_off() {
    let cells = ribbon_cells(&RadioDisplay::default());
    assert!(cells.iter().any(|c| c.label == "RIT"));
    assert!(cells.iter().any(|c| c.label == "XIT"));
}

// Regions.

#[test]
fn two_stacked_panels_merge_into_one_rect() {
    let top = Rect::new(0, 5, 100, 12);
    let bottom = Rect::new(0, 17, 100, 8);
    let m = union(top, bottom);
    assert_eq!(m, Rect::new(0, 5, 100, 20));
    assert_eq!(m.height, top.height + bottom.height);
}

#[test]
fn union_is_order_independent() {
    let a = Rect::new(2, 3, 10, 4);
    let b = Rect::new(2, 7, 10, 6);
    assert_eq!(union(a, b), union(b, a));
}

#[test]
fn the_rails_are_fixed_and_the_content_pane_takes_what_is_left() {
    let r = split(Rect::new(0, 0, 120, 40));
    assert_eq!(r.rail.width, RAIL_W);
    assert_eq!(r.reference.width, REF_W);
    assert_eq!(r.content.width, 120 - RAIL_W - REF_W);
    assert_eq!(r.content.width, 72, "the design's content pane");
}

#[test]
fn the_status_strip_and_command_line_belong_to_the_console() {
    let r = split(Rect::new(0, 0, 120, 40));
    assert_eq!(r.status.height, 1);
    assert_eq!(r.command.height, 1);
    assert_eq!(r.status.y, 38);
    assert_eq!(r.command.y, 39);
    assert_eq!(r.status.width, 120, "full width, under both rails");
}

#[test]
fn a_narrow_terminal_degrades_rather_than_panicking() {
    for w in [0u16, 1, 10, 22, 40, 119] {
        let r = split(Rect::new(0, 0, w, 40));
        assert!(r.rail.width + r.content.width + r.reference.width <= w.max(1));
    }
}

// Tabs, bands and modes.

#[test]
fn the_tabs_come_from_the_radio_and_the_first_one_is_open() {
    let view = full_view();
    assert_eq!(view.tab, Tab::Spectrum);
    let labels: Vec<&str> = view.tabs.iter().map(|t| t.label.as_str()).collect();
    assert_eq!(labels, vec!["SPECTRUM", "MEMORY 0–99", "MENU 52", "SOURCE"]);
}

#[test]
fn a_radio_with_nothing_opens_on_the_tab_that_says_so() {
    let view = ConsoleView::for_capabilities(vec![entry(Tab::Source, "SOURCE")]);
    assert_eq!(view.tab, Tab::Source);
    assert_eq!(ConsoleView::for_capabilities(Vec::new()).tab, Tab::Source);
}

#[test]
fn the_audio_panels_default_to_pending_not_absent() {
    assert_eq!(ConsoleView::default().audio, AudioState::Configured);
}

#[test]
fn the_band_row_marks_the_band_the_dial_is_in() {
    let caps = caps();
    let line = band_row(14_074_000, &caps);
    let text = line.text();
    assert!(text.contains(" 20m "));
    for band in bands_for(&caps) {
        assert!(text.contains(band.label.as_str()), "band {} must be reachable", band.label);
    }
    let marked: Vec<&str> =
        line.spans.iter().filter(|s| s.style.bg == Some(SETTING)).map(|s| s.text.as_str()).collect();
    assert_eq!(marked, vec![" 20m "]);
}

#[test]
fn the_bands_offered_are_the_ones_this_radio_reaches() {
    let mut hf_only = caps();
    hf_only.rx_range = FrequencyRange { min_hz: 500_000, max_hz: 30_000_000 };
    let mut wide = caps();
    wide.rx_range = FrequencyRange { min_hz: 30_000, max_hz: 470_000_000 };
    let hf: Vec<&str> = bands_for(&hf_only).iter().map(|b| b.label.as_str()).collect();
    let all: Vec<&str> = bands_for(&wide).iter().map(|b| b.label.as_str()).collect();
    assert!(!hf.contains(&"2m"), "{hf:?}");
    assert!(all.contains(&"2m"), "{all:?}");
    assert!(all.len() > hf.len());
}

#[test]
fn the_modes_offered_are_the_ones_this_radio_declares() {
    let caps = caps();
    let text = mode_row(&"USB".to_string(), &caps).text();
    for label in &caps.modes {
        assert!(text.contains(label.as_str()), "{label} missing");
    }
}

#[test]
fn a_dial_outside_every_ham_band_highlights_none_of_them() {
    let line = band_row(5_000_000, &caps());
    let highlighted = line.spans.iter().filter(|s| s.style.bg == Some(SETTING)).count();
    assert_eq!(highlighted, 0);
}

// The whole screen.

#[test]
fn a_disconnected_radio_shows_no_frequency_rather_than_a_stale_one() {
    let radio = RadioDisplay { connected: false, vfo_a_hz: 14_074_000, ..RadioDisplay::default() };
    let rows = screen_of(&radio, &ConsoleView::default(), 120, 40).rows();
    assert!(rows[1].contains('—'), "a lost link shows em-dashes: {:?}", rows[1]);
    assert!(!rows.join("\n").contains("14.074"));
}

#[test]
fn the_whole_console_draws_at_the_design_size_without_panicking() {
    let rows = rows_of(&RadioDisplay::default(), 120, 40);
    assert_eq!(rows.len(), 40);
    assert!(rows.iter().any(|r| !r.trim().is_empty()));
}

#[test]
fn the_meter_rail_keeps_a_gutter_so_a_full_bar_does_not_touch_the_next_panel() {
    let radio = RadioDisplay { connected: true, smeter: u16::MAX, ..RadioDisplay::default() };
    let width = 22u16;
    let mut pieces = Vec::new();
    draw_meters(&mut pieces, Rect::new(0, 0, width, 6), &radio, &caps());
    let mut screen = Screen::new(width, 6);
    screen.paint(&pieces);
    let mut drawn = false;
    for (y, row) in screen.rows().iter().enumerate() {
        assert_eq!(row.chars().last(), Some(' '), "the last column is the gutter, row {y}");
        drawn = drawn || row.contains('█');
    }
    assert!(drawn);
}

fn keyed(tx: bool) -> RadioDisplay {
    RadioDisplay { tx, connected: true, ..RadioDisplay::default() }
}

#[test]
fn a_keyed_radio_says_so_across_the_whole_width() {
    let rows = rows_of(&keyed(true), 120, 40);
    assert!(rows[0].contains("T R A N S M I T T I N G"), "{:?}", rows[0]);
}

#[test]
fn a_receiving_radio_does_not_give_up_a_row_to_the_banner() {
    let rows = rows_of(&keyed(false), 120, 40);
    assert!(!rows.iter().any(|r| r.contains("T R A N S M I T T I N G")));
}

#[test]
fn the_banner_is_painted_the_whole_way_across() {
    let screen = screen_of(&keyed(true), &full_view(), 120, 40);
    for x in [0usize, 1, 59, 118, 119] {
        assert_eq!(
            screen.grounds[0][x],
            Some(Colour::Red),
            "column {x} of the banner must be painted"
        );
    }
}

#[test]
fn a_terminal_too_short_for_a_banner_keeps_its_console() {
    let rows = rows_of(&keyed(true), 40, 2);
    assert!(!rows.iter().any(|r| r.contains("TRANSMITTING")));
    assert!(!rows.iter().any(|r| r.contains("T R A N S")));
}

#[test]
fn it_also_draws_at_sizes_nobody_designed_for() {
    for (w, h) in [(80u16, 24u16), (40, 12), (200, 60), (20, 5), (1, 1), (0, 0)] {
        for tx in [false, true] {
            let radio = RadioDisplay { tx, ..RadioDisplay::default() };
            let (pieces, _) = draw(Rect::new(0, 0, w, h), &radio, &full_view(), &caps(), None);
            for piece in &pieces {
                if let Draw::Lines { area, .. } = piece {
                    assert!(area.x + area.width <= w && area.y + area.height <= h);
                }
            }
        }
    }
}

#[test]
fn a_servers_arrangement_is_drawn_where_it_says() {
    let arrangement = Arrangement {
        placements: vec![
            Placement { kind: PanelKind::Status, area: Rect::new(0, 0, 60, 1) },
            Placement { kind: PanelKind::BandBar, area: Rect::new(0, 2, 60, 1) },
        ],
        places_band_bar: true,
        places_mode_bar: false,
    };
    let mut radio = RadioDisplay::default();
    radio.initializing = false;
    let mut screen = Screen::new(60, 10);
    let (pieces, _) =
        draw(Rect::new(0, 0, 60, 10), &radio, &full_view(), &caps(), Some(&arrangement));
    screen.paint(&pieces);
    let rows = screen.rows();
    assert!(rows[0].starts_with("LINK LOST"), "{rows:?}");
    assert!(rows[2].contains("BAND"), "{rows:?}");
}

// Keys.

/// The one command these lines can stand for.
#[derive(Debug, PartialEq)]
enum Action {
    Retune(u64),
}

/// What a line stands for.
fn parse(line: &str) -> Result<Parsed<Action>, String> {
    if let Some(hz) = line.strip_prefix("t ") {
        return Ok(Parsed::Other(Action::Retune(hz.parse().unwrap())));
    }
    match line.parse() {
        Ok(n) => Ok(Parsed::SelectTab(n)),
        Err(_) => Err(format!("unknown verb {line}")),
    }
}

fn key(view: &mut ConsoleView, key: Key) -> ConsoleKey<Action> {
    match handle_key(key, view) {
        ConsoleKey::Submit(line) => submitted(view, parse(&line)),
        other => other,
    }
}

fn press(view: &mut ConsoleView, c: char) -> ConsoleKey<Action> {
    key(view, Key::Char(c))
}

fn type_line(view: &mut ConsoleView, line: &str) {
    press(view, ':');
    for c in line.chars() {
        assert_eq!(press(view, c), ConsoleKey::Consumed);
    }
}

#[test]
fn digits_select_the_tabs_the_status_strip_advertises() {
    let mut view = full_view();
    assert!(matches!(press(&mut view, '3'), ConsoleKey::Consumed));
    assert_eq!(view.tab, Tab::Menu);
}

#[test]
fn a_digit_naming_no_tab_falls_through_to_the_radios_menus() {
    let mut view = full_view();
    assert!(matches!(press(&mut view, '9'), ConsoleKey::Passthrough));
    assert!(matches!(press(&mut view, '0'), ConsoleKey::Passthrough));
}

#[test]
fn the_command_line_opens_and_takes_every_key_while_open() {
    let mut view = full_view();
    press(&mut view, ':');
    assert_eq!(view.command.as_deref(), Some(""));
    for c in "quit".chars() {
        assert!(matches!(press(&mut view, c), ConsoleKey::Consumed));
    }
    assert_eq!(view.command.as_deref(), Some("quit"));
}

#[test]
fn escape_abandons_the_line_without_running_it() {
    let mut view = full_view();
    press(&mut view, ':');
    press(&mut view, 't');
    assert!(matches!(key(&mut view, Key::Esc), ConsoleKey::Consumed));
    assert_eq!(view.command, None);
}

#[test]
fn backspace_edits_rather_than_closing() {
    let mut view = full_view();
    press(&mut view, ':');
    press(&mut view, 'a');
    press(&mut view, 'b');
    key(&mut view, Key::Backspace);
    assert_eq!(view.command.as_deref(), Some("a"));
    key(&mut view, Key::Backspace);
    key(&mut view, Key::Backspace);
    assert_eq!(view.command.as_deref(), Some(""));
}

#[test]
fn a_parsed_command_comes_back_as_an_action() {
    let mut view = full_view();
    type_line(&mut view, "t 14074000");
    assert_eq!(key(&mut view, Key::Enter), ConsoleKey::Action(Action::Retune(14_074_000)));
    assert_eq!(view.command, None, "running a command closes the line");
}

#[test]
fn a_line_that_does_not_parse_is_reported_and_not_run() {
    let mut view = full_view();
    type_line(&mut view, "wat");
    assert!(matches!(key(&mut view, Key::Enter), ConsoleKey::Rejected(_)));
    assert_eq!(view.message.as_deref(), Some("unknown verb wat"));
}

#[test]
fn a_tab_command_moves_the_tab_here_rather_than_going_to_the_radio() {
    let mut view = full_view();
    type_line(&mut view, "2");
    assert!(matches!(key(&mut view, Key::Enter), ConsoleKey::Consumed));
    assert_eq!(view.tab, Tab::Memory);
}

#[test]
fn letters_the_console_does_not_use_reach_the_radios_menus() {
    let mut view = full_view();
    for c in ['f', 'm', 'd', 'p', 'q'] {
        assert!(
            matches!(press(&mut view, c), ConsoleKey::Passthrough),
            "{c} must still open what it always opened"
        );
    }
}

// The status strip.

fn strip(radio: &RadioDisplay) -> String {
    screen_of(radio, &ConsoleView::default(), 120, 40).rows()[38].clone()
}

fn failing(errors: &[&str]) -> RadioDisplay {
    RadioDisplay {
        initializing: false,
        poll_errors: errors.iter().map(|e| e.to_string()).collect(),
        ..RadioDisplay::default()
    }
}

#[test]
fn several_poll_errors_are_counted_rather_than_hidden() {
    let line = strip(&failing(&["FA timeout", "MD timeout", "SM timeout"]));
    assert!(line.contains("FA timeout"), "{line:?}");
    assert!(line.contains("+2 more"), "{line:?}");
}

#[test]
fn a_single_error_is_not_decorated_with_a_count() {
    let line = strip(&failing(&["FA timeout"]));
    assert!(line.contains("FA timeout"));
    assert!(!line.contains("more"), "{line:?}");
}

#[test]
fn a_lost_link_says_so_before_it_says_anything_else() {
    let radio = RadioDisplay { initializing: false, connected: false, ..RadioDisplay::default() };
    let line = strip(&radio);
    assert!(line.starts_with("LINK LOST"), "{line:?}");
}

// The meter and the readout.

#[test]
fn the_reading_carries_this_radios_range_and_not_some_other_ones() {
    let r = read_s_meter(&caps(), 15).unwrap();
    assert_eq!(r.max, 30);
    assert_eq!(bar_fill(r, 10), 40, "half of ten cells");
    let mut none = caps();
    none.s_meter = None;
    assert_eq!(read_s_meter(&none, 15), None);
}

#[test]
fn the_readout_formats_a_frequency_the_way_it_always_has() {
    let s = Style::plain();
    assert_eq!(vfo_readout(Some(14_000_000), None, s, s, s).text(), "14.000.000 MHz");
    assert_eq!(vfo_readout(Some(7_250_000), None, s, s, s).text(), "7.250.000 MHz");
}

#[test]
fn a_requested_frequency_follows_the_confirmed_one_rather_than_replacing_it() {
    let s = Style::plain();
    let text = vfo_readout(Some(14_074_000), Some(14_195_000), s, s, s).text();
    assert!(text.starts_with("14.074.000 MHz"), "{text:?}");
    assert!(text.contains("14.195.000 MHz"), "{text:?}");
}

// Tab bodies.

fn body(view: &ConsoleView) -> String {
    screen_of(&RadioDisplay::default(), view, 120, 40).rows().join("\n")
}

#[test]
fn selecting_a_tab_draws_that_tabs_body() {
    let mut view = full_view();
    view.tab = Tab::Memory;
    assert!(body(&view).contains("channel"), "MEMORY tab body");
    view.tab = Tab::Spectrum;
    assert!(
        body(&view).contains("NO SPECTRUM SOURCE"),
        "SPECTRUM tab body with no source attached"
    );
}

#[test]
fn every_tab_body_says_something_specific() {
    let mut view = full_view();

    view.tab = Tab::Memory;
    let s = body(&view);
    assert!(s.contains("channel"), "MEMORY names the channel");
    assert!(s.contains(":mem <n>"), "and how to change it");

    view.tab = Tab::Menu;
    let s = body(&view);
    assert!(s.contains("not polled"), "MENU is honest about not polling");
    assert!(s.contains("[S]"), "and says what does read an item");

    view.tab = Tab::Source;
    let s = body(&view);
    assert!(s.contains("ATTACHED"), "SOURCE says what is attached");
    assert!(s.contains("IF TAP") && s.contains("AUDIO"), "and names both sources");
    assert!(s.contains("AVAILABLE"), "and offers what could be attached instead");
}

#[test]
fn source_distinguishes_a_configured_audio_path_from_an_absent_one() {
    let mut view = full_view();
    view.tab = Tab::Source;

    view.audio = AudioState::Configured;
    assert!(body(&view).contains("configured, no stream"));

    view.audio = AudioState::Absent;
    let s = body(&view);
    assert!(s.contains("nothing wired"));
    assert!(!s.contains("configured, no stream"));
}

#[test]
fn the_open_tab_is_the_one_highlighted_in_the_bar() {
    let mut view = full_view();
    view.tab = Tab::Menu;
    let s = body(&view);
    assert!(s.contains("MENU 52") && s.contains("SPECTRUM"));
}

// The picker.

fn view_on_source() -> ConsoleView {
    let mut view = full_view();
    view.tab = Tab::Source;
    view.devices = vec![
        DeviceList::found(
            DeviceKind::AudioInput,
            vec![DeviceInfo {
                kind: DeviceKind::AudioInput,
                spec: "hw:1,0".to_string(),
                label: "USB Audio".to_string(),
                detail: None,
                is_default: true,
            }],
        ),
        DeviceList::found(
            DeviceKind::Sdr,
            vec![DeviceInfo {
                kind: DeviceKind::Sdr,
                spec: "rtl:0".to_string(),
                label: "Generic RTL2832U".to_string(),
                detail: None,
                is_default: false,
            }],
        ),
    ];
    view
}

#[test]
fn enter_on_the_source_tab_attaches_what_is_under_the_cursor() {
    let mut view = view_on_source();
    match key(&mut view, Key::Down) {
        ConsoleKey::Consumed => {}
        _ => panic!("down should move the cursor"),
    }
    match key(&mut view, Key::Enter) {
        ConsoleKey::Attach(device) => assert_eq!(device.spec, "rtl:0"),
        _ => panic!("expected an attach"),
    }
}

#[test]
fn the_digits_still_switch_tabs_from_inside_the_picker() {
    let mut view = view_on_source();
    assert!(matches!(press(&mut view, '1'), ConsoleKey::Consumed));
    assert_eq!(view.tab, Tab::Spectrum);
}

#[test]
fn the_arrows_do_nothing_on_a_tab_that_is_not_source() {
    let mut view = full_view();
    view.tab = Tab::Spectrum;
    assert!(matches!(key(&mut view, Key::Down), ConsoleKey::Passthrough));
}

#[test]
fn enter_with_nothing_to_attach_says_so_rather_than_nothing() {
    let mut view = full_view();
    view.tab = Tab::Source;
    assert!(matches!(key(&mut view, Key::Enter), ConsoleKey::Consumed));
    assert_eq!(view.message.as_deref(), Some("nothing to attach"));
}

#[test]
fn asking_again_for_devices_is_for_the_source_tab() {
    let mut view = view_on_source();
    assert!(matches!(press(&mut view, 'r'), ConsoleKey::RefreshDevices));
    assert!(matches!(press(&mut view, 'R'), ConsoleKey::RefreshDevices));
    view.tab = Tab::Menu;
    assert!(matches!(press(&mut view, 'r'), ConsoleKey::Passthrough));
}

#[test]
fn the_source_tab_shows_the_spec_the_flag_would_take() {
    let s = body(&view_on_source());
    assert!(s.contains("hw:1,0"), "{s}");
    assert!(s.contains("rtl:0"));
    assert!(s.contains("same as:"), "and what typing it would be");
}
