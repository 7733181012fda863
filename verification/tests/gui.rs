use radio_cat::gui::actions::LineAction;
use radio_cat::gui::actions::LineStep;
use radio_cat::gui::console::Console;
use radio_cat::gui::console::Link;
use radio_cat::gui::console::Travel;
use radio_cat::gui::console::Vantage;
use radio_cat::gui::console::STALE_AFTER_MS;
use radio_cat::gui::devices::absent_line;
use radio_cat::gui::devices::empty_line;
use radio_cat::gui::devices::flag_for;
use radio_cat::gui::devices::Offer;
use radio_cat::gui::events::ErrorCode;
use radio_cat::gui::events::Event;
use radio_cat::gui::layout::default_layout;
use radio_cat::gui::layout::places;
use radio_cat::gui::layout::meter_rail_cells;
use radio_cat::gui::layout::natural;
use radio_cat::gui::layout::Content;
use radio_cat::gui::layout::Panel;
use radio_cat::gui::layout::Size;
use radio_cat::gui::layout::Stacking;
use radio_cat::gui::meter::smeter_text;
use radio_cat::gui::model::Capabilities;
use radio_cat::gui::model::Control;
use radio_cat::gui::model::Frame;
use radio_cat::gui::model::Meter;
use radio_cat::gui::model::Mode;
use radio_cat::gui::model::QuickControl;
use radio_cat::gui::model::SignalSupport;
use radio_cat::gui::model::Source;
use radio_cat::gui::panels::band_bar;
use radio_cat::gui::panels::custom_panel;
use radio_cat::gui::panels::level_rows;
use radio_cat::gui::panels::panel_fill;
use radio_cat::gui::panels::tab_hint;
use radio_cat::gui::panels::CustomContent;
use radio_cat::gui::panels::QuickShown;
use radio_cat::gui::panels::SourceRow;
use radio_cat::gui::panels::WorkspaceContent;
use radio_cat::gui::readout::Command;
use radio_cat::gui::readout::Field;
use radio_cat::gui::readout::RadioState;
use radio_cat::gui::readout::Readout;
use radio_cat::gui::ring::ring_bands;
use radio_cat::gui::ring::Band as RingBand;
use radio_cat::gui::ring::Upload;
use radio_cat::gui::ring::UploadState;
use radio_cat::gui::settings::settings_rows;
use radio_cat::gui::settings::Row;
use radio_cat::gui::theme::af_style;
use radio_cat::gui::theme::default_style;
use radio_cat::gui::theme::Palette as Colours;
use radio_cat::gui::theme::Role;
use radio_cat::gui::theme::Theme;
use radio_cat::gui::theme::AMBER;
use radio_cat::gui::theme::BG;
use radio_cat::gui::theme::TEXT;
use radio_cat::gui::trace::line_runs;
use radio_cat::gui::waterfall::Palette;
use radio_cat::gui::waterfall::Shade;
use radio_cat::gui::waterfall::WaterfallImage;
use radio_cat::gui::widgets::Widgets;
use radio_cat::tui::af::AudioState;
use radio_cat::tui::console::model::Band;
use radio_cat::tui::console::model::FrequencyRange;
use radio_cat::tui::console::model::Tab;
use radio_cat::tui::console::model::TabEntry;
use radio_cat::tui::meter::MeterReading;
use radio_cat::tui::spectrum::column_offset;
use radio_cat::tui::spectrum::FrameAxis;
use radio_cat::ui::device::DeviceInfo;
use radio_cat::ui::device::DeviceKind;
use radio_cat::ui::device::DeviceList;
use radio_cat::ui::intensity::FULL;
use radio_cat::ui::setting::format_value;
use radio_cat::ui::setting::Access;
use radio_cat::ui::setting::SettingDescriptor;
use radio_cat::ui::setting::SettingGroup;
use radio_cat::ui::setting::SettingValue;

// The ring.

/// Where the middle of texture row `row` lands on the panel, as a fraction.
fn screen_of(bands: &[RingBand], row: u32, height: u32) -> f64 {
    for band in bands {
        if row >= band.uv.0 && row < band.uv.1 {
            let n = band.screen.0 + (row - band.uv.0);
            return (f64::from(n) + 0.5) / f64::from(height);
        }
    }
    panic!("row {row} of {height} is in no band: {bands:?}");
}

#[test]
fn every_row_lands_where_the_ring_says_it_should() {
    let height = 256u32;
    for head in [0u32, 1, 2, 17, 128, 254, 255] {
        let bands = ring_bands(head, height);
        for n in 0..height {
            let row = (head + n) % height;
            let want = (f64::from(n) + 0.5) / f64::from(height);
            let got = screen_of(&bands, row, height);
            assert!((got - want).abs() < 1e-6, "head {head}, row {row}: {want}, {got}");
        }
    }
}

#[test]
fn the_bands_cover_the_panel_exactly_once() {
    for head in [0u32, 1, 100, 255] {
        let bands = ring_bands(head, 256);
        let screen: u32 = bands.iter().map(|b| b.screen.1 - b.screen.0).sum();
        let uv: u32 = bands.iter().map(|b| b.uv.1 - b.uv.0).sum();
        assert_eq!(screen, 256, "head {head}");
        assert_eq!(uv, 256, "head {head}");
        for pair in bands.windows(2) {
            assert_eq!(pair[0].screen.1, pair[1].screen.0, "head {head}: gap between bands");
        }
    }
}

#[test]
fn an_unwrapped_ring_is_drawn_in_one_piece() {
    let bands = ring_bands(0, 256);
    assert_eq!(bands.len(), 1);
    assert_eq!(bands[0].screen, (0, 256));
    assert_eq!(bands[0].uv, (0, 256));
}

#[test]
fn a_wrapped_ring_is_drawn_in_two() {
    let bands = ring_bands(64, 256);
    assert_eq!(bands.len(), 2);
    assert!((f64::from(bands[0].uv.0) / 256.0 - 0.25).abs() < 1e-6);
    assert!((f64::from(bands[0].screen.1) / 256.0 - 0.75).abs() < 1e-6);
}

#[test]
fn a_degenerate_image_does_not_panic() {
    assert!(ring_bands(0, 0).is_empty());
    assert!(ring_bands(9, 0).is_empty());
    assert_eq!(ring_bands(256, 256), ring_bands(0, 256));
    assert_eq!(ring_bands(300, 256), ring_bands(44, 256));
}

#[test]
fn a_scroll_sends_one_row_and_a_rebuild_sends_them_all() {
    let mut state = UploadState::new();
    assert_eq!(state.plan(0, 0, 256, 1_000), Upload::Create);
    assert_eq!(state.plan(0, 0, 256, 2_000), Upload::Nothing, "nothing changed");
    assert_eq!(state.plan(1, 0, 256, 1_020), Upload::Nothing, "too soon");
    assert_eq!(state.plan(1, 0, 256, 1_033), Upload::Rows(1));
    assert_eq!(state.plan(2, 1, 256, 1_066), Upload::Whole);
    assert_eq!(state.plan(3, 1, 256, 1_099), Upload::Rows(1));
    assert_eq!(state.plan(8, 1, 256, 1_200), Upload::Rows(5), "a row for each scroll");
    assert_eq!(state.plan(263, 1, 256, 1_300), Upload::Rows(255));
    assert_eq!(state.plan(519, 1, 256, 1_400), Upload::Whole, "scrolled right round");
}

// The waterfall image.

struct Img {
    img: WaterfallImage,
}

/// The intensity of every bin: noise at -110 dBm and one peak at -20 dBm, over
/// a floor of -120 dBm.
fn levels(peak_bin: usize, bins: usize) -> Vec<i64> {
    let mut levels = vec![FULL / 10; bins];
    levels[peak_bin] = FULL;
    levels
}

/// What the columns of an image show of a frame on the axis of another: the
/// frame shifted by whole columns, the first bin of each.
fn sampled(levels: &[i64], frame: FrameAxis, on: FrameAxis, width: u32) -> Vec<Shade> {
    let offset = column_offset(frame.center_hz, on, width as u16);
    (0..width as i32)
        .map(|col| {
            let src = col - offset;
            if src < 0 || src >= width as i32 {
                Shade::NoData
            } else {
                Shade::Signal(levels[src as usize * levels.len() / width as usize])
            }
        })
        .collect()
}

fn sized(center_hz: u64, peak_bin: usize, bins: usize, width: u32) -> Frame {
    let axis = FrameAxis { center_hz, span_hz: 96_000, bins };
    let levels = levels(peak_bin, bins);
    let row = sampled(&levels, axis, axis, width);
    Frame { axis, levels, row }
}

/// A frame for the console's own image.
fn frame(center_hz: u64, peak_bin: usize, bins: usize) -> Frame {
    sized(center_hz, peak_bin, bins, 512)
}

/// The rows of frames on an axis.
fn rows_on<'a>(frames: impl Iterator<Item = &'a Frame>, on: FrameAxis, width: u32) -> Vec<Vec<Shade>> {
    frames.map(|f| sampled(&f.levels, f.axis, on, width)).collect()
}

impl Img {
    fn new(width: u32, height: u32) -> Self {
        Img { img: WaterfallImage::new(width, height, Palette::turbo()) }
    }

    fn push(&mut self, f: &Frame) {
        let row = sampled(&f.levels, f.axis, f.axis, self.img.width());
        self.img.push(&row, f.axis);
    }

    fn rebuild(&mut self, frames: &[Frame]) {
        let axis = frames.first().map(|f| f.axis);
        let rows = match axis {
            Some(on) => rows_on(frames.iter(), on, self.img.width()),
            None => Vec::new(),
        };
        self.img.rebuild(&rows, axis);
    }

    fn pixel(&self, row: u32, col: u32) -> [u8; 3] {
        let r = self.img.row_rgba(row);
        let i = (col * 4) as usize;
        assert_eq!(r[i + 3], 255);
        [r[i], r[i + 1], r[i + 2]]
    }

    /// Brightest column of a row, by luminance.
    fn peak_column(&self, row: u32) -> u32 {
        (0..self.img.width())
            .max_by_key(|c| {
                let p = self.pixel(row, *c);
                u32::from(p[0]) + u32::from(p[1]) + u32::from(p[2])
            })
            .unwrap()
    }
}

#[test]
fn a_signal_above_the_dial_lands_in_the_right_half() {
    let mut img = Img::new(64, 8);
    img.push(&frame(14_074_000, 200, 256));
    assert!(img.peak_column(0) > img.img.width() / 2);
}

#[test]
fn a_signal_below_the_dial_lands_in_the_left_half() {
    let mut img = Img::new(64, 8);
    img.push(&frame(14_074_000, 20, 256));
    assert!(img.peak_column(0) < img.img.width() / 2);
}

#[test]
fn the_newest_frame_is_row_zero() {
    let mut img = Img::new(32, 4);
    img.push(&frame(14_074_000, 20, 256));
    let older = img.peak_column(0);
    img.push(&frame(14_074_000, 200, 256));
    let newest = img.peak_column(0);
    assert_ne!(newest, older, "row 0 must hold the frame just pushed");
    assert_eq!(img.peak_column(1), older, "the previous row scrolled down");
}

#[test]
fn rows_wrap_rather_than_growing() {
    let mut img = Img::new(16, 4);
    let before = img.img.rgba().len();
    for i in 0..100 {
        img.push(&frame(14_074_000, i % 256, 256));
    }
    assert_eq!(img.img.rgba().len(), before);
    assert_eq!(img.img.rows_filled(), 4);
}

#[test]
fn rows_filled_reports_how_much_is_real() {
    let mut img = Img::new(8, 6);
    assert_eq!(img.img.rows_filled(), 0);
    img.push(&frame(14_074_000, 4, 8));
    assert_eq!(img.img.rows_filled(), 1);
    for _ in 0..20 {
        img.push(&frame(14_074_000, 4, 8));
    }
    assert_eq!(img.img.rows_filled(), 6);
}

#[test]
fn a_scroll_writes_one_row_at_the_head() {
    let mut img = Img::new(8, 4);
    assert_eq!(img.img.head, 0);
    let mut heads = Vec::new();
    for i in 0..6 {
        let before = img.img.pixels.clone();
        img.push(&frame(14_074_000, i, 8));
        let head = img.img.head as usize;
        heads.push(head);
        assert_eq!(&img.img.pixels[head * 32..head * 32 + 32], img.img.row_rgba(0));
        for r in (0..4).filter(|r| *r != head) {
            assert_eq!(img.img.pixels[r * 32..r * 32 + 32], before[r * 32..r * 32 + 32]);
        }
    }
    assert_eq!(heads, vec![0, 3, 2, 1, 0, 3]);
    assert_eq!(img.img.generation, 6);
    img.rebuild(&[frame(14_074_000, 4, 8)]);
    assert_eq!((img.img.head, img.img.rebuilds), (0, 1));
}

#[test]
fn rebuild_holds_a_stationary_signal_in_one_column() {
    let mut img = Img::new(64, 3);
    let frames = vec![
        frame(14_074_000, 32, 64),
        frame(14_074_000 - 1_500, 33, 64),
        frame(14_074_000 - 3_000, 34, 64),
    ];
    img.rebuild(&frames);
    let cols: Vec<u32> = (0..3).map(|r| img.peak_column(r)).collect();
    assert_eq!(cols, vec![cols[0]; 3], "a stationary carrier drifted: {cols:?}");
}

#[test]
fn without_re_projection_the_same_carrier_would_drift() {
    let frames = [frame(14_074_000, 32, 64), frame(14_074_000 - 1_500, 33, 64)];
    let peak = |f: &Frame| f.levels.iter().enumerate().max_by_key(|(_, l)| **l).unwrap().0;
    assert_ne!(peak(&frames[0]), peak(&frames[1]));
}

#[test]
fn a_sub_column_dial_move_rounds_rather_than_smearing() {
    let a = frame(14_074_000, 32, 64);
    assert_eq!(column_offset(14_074_000 - 375, a.axis, 64), 0);
}

#[test]
fn columns_a_row_never_captured_are_marked_no_data() {
    let mut img = Img::new(64, 2);
    img.img.set_no_data_color([1, 2, 3]);
    img.rebuild(&[frame(14_074_000, 128, 256), frame(14_074_000 + 48_000, 128, 256)]);
    assert_eq!(img.pixel(1, 0), [1, 2, 3]);
    assert_ne!(img.pixel(1, 63), [1, 2, 3]);
}

#[test]
fn no_data_is_distinguishable_from_measured_silence() {
    let img = Img::new(4, 1);
    let silence = img.img.palette.at(0);
    assert_ne!(silence, img.img.no_data);
}

#[test]
fn a_band_sized_jump_leaves_the_history_honestly_empty() {
    let mut img = Img::new(32, 2);
    img.img.set_no_data_color([1, 2, 3]);
    img.rebuild(&[frame(14_074_000, 128, 256), frame(7_100_000, 128, 256)]);
    assert!((0..32).all(|c| img.pixel(1, c) == [1, 2, 3]));
}

#[test]
fn rebuilding_with_no_frames_clears_rather_than_keeping_a_stale_axis() {
    let mut img = Img::new(8, 2);
    img.push(&frame(14_074_000, 4, 8));
    assert!(img.img.reference().is_some());
    img.rebuild(&[]);
    assert!(img.img.reference().is_none());
    assert_eq!(img.img.rows_filled(), 0);
    assert!(img.img.rgba().iter().all(|b| *b == 0));
}

#[test]
fn more_frames_than_rows_keeps_the_newest() {
    let mut img = Img::new(16, 2);
    let frames: Vec<Frame> = (0..10).map(|i| frame(14_074_000, 20 + i, 256)).collect();
    img.rebuild(&frames);
    assert_eq!(img.img.rows_filled(), 2);
}

#[test]
fn the_palette_spans_its_stops_and_clamps_outside_them() {
    let p = Palette::turbo();
    assert_eq!(p.at(0), [12, 12, 60]);
    assert_eq!(p.at(FULL), [220, 30, 30]);
    assert_eq!(p.at(-FULL), [12, 12, 60]);
    assert_eq!(p.at(2 * FULL), [220, 30, 30]);
    assert_eq!(Palette::default(), p);
}

#[test]
fn the_palette_interpolates_between_stops() {
    let p = Palette::turbo();
    let mid = p.at((0.055 * FULL as f64) as i64);
    assert_ne!(p.at(0), mid);
    assert_eq!(p.at(FULL / 18), [14, 26, 100], "half way between the first two stops");
}

#[test]
fn a_monochrome_palette_still_has_range() {
    let p = Palette::mono();
    assert_ne!(p.at(0), p.at(FULL));
}

#[test]
fn a_zero_sized_image_is_promoted_rather_than_panicking() {
    let img = WaterfallImage::new(0, 0, Palette::turbo());
    assert_eq!(img.width(), 1);
    assert_eq!(img.height(), 1);
    assert_eq!(img.row_rgba(99).len(), 4);
}

// The radio's own widgets.

#[test]
fn a_console_with_no_radio_crate_has_no_widgets() {
    let w: Widgets<u8> = Widgets::new();
    assert!(w.is_empty());
    assert!(!w.has("ft991a.clarifier"));
    assert!(w.get("ft991a.clarifier").is_none());
    assert_eq!(custom_panel(&w, "ft991a.clarifier", true), CustomContent::Named);
}

#[test]
fn a_radio_can_register_its_own() {
    let mut w = Widgets::new();
    w.register("ft991a.clarifier".to_string(), 1);
    assert!(w.has("ft991a.clarifier"));
    assert_eq!(w.names(), vec!["ft991a.clarifier"]);
    assert_eq!(custom_panel(&w, "ft991a.clarifier", true), CustomContent::Painted);
    assert_eq!(custom_panel(&w, "ft991a.clarifier", false), CustomContent::Blank);
    w.register("ft991a.clarifier".to_string(), 2);
    assert_eq!(w.get("ft991a.clarifier"), Some(&2), "the later one replaces the earlier");
    assert_eq!(w.names().len(), 1);
}

#[test]
fn names_are_prefixed_so_two_radios_do_not_collide() {
    let mut w = Widgets::new();
    w.register("ts570d.tuner".to_string(), 1);
    w.register("ft991a.tuner".to_string(), 2);
    w.register("ft991a".to_string(), 3);
    assert_eq!(w.names(), vec!["ft991a", "ft991a.tuner", "ts570d.tuner"]);
    assert_eq!(w.get("ft991a.tuner"), Some(&2));
}

// Devices.

fn radio_side_devices() -> Vec<DeviceList> {
    vec![DeviceList::found(
        DeviceKind::Sdr,
        vec![DeviceInfo {
            kind: DeviceKind::Sdr,
            spec: "rtl:in-the-shack".to_string(),
            label: "the dongle on the radio's IF tap".to_string(),
            detail: None,
            is_default: false,
        }],
    )]
}

#[test]
fn not_offered_and_found_nothing_read_differently() {
    let declined = absent_line(&Offer::NotOffered).unwrap();
    let empty = Offer::Listed(vec![DeviceList::found(DeviceKind::Sdr, Vec::new())]);
    assert!(absent_line(&empty).is_none(), "an answer is still an answer");
    let empty_row = empty_line(&empty.lists()[0]).unwrap();

    assert_ne!(declined, empty_row);
    assert!(declined.contains("does not offer"), "{declined}");
    assert!(empty_row.contains("nothing attached"), "{empty_row}");
}

#[test]
fn a_group_that_could_not_be_asked_says_why() {
    let list = DeviceList::unavailable(DeviceKind::AudioInput, "no sound backend");
    assert_eq!(
        empty_line(&list).unwrap(),
        "unavailable: no sound backend",
        "the server's reason must survive to the screen, not be replaced by ours"
    );
}

#[test]
fn a_group_with_devices_has_no_stand_in_line() {
    let dev = DeviceInfo {
        kind: DeviceKind::Sdr,
        spec: "rtl:0".to_string(),
        label: "a dongle".to_string(),
        detail: None,
        is_default: false,
    };
    let list = DeviceList::found(DeviceKind::Sdr, vec![dev]);
    assert_eq!(empty_line(&list), None);
}

#[test]
fn waiting_is_not_reported_as_nothing() {
    let line = absent_line(&Offer::Unasked).unwrap();
    assert!(line.contains("asking"), "{line}");
}

#[test]
fn every_kind_names_the_flag_that_would_do_the_same() {
    assert_eq!(flag_for(DeviceKind::Sdr), "--if-out");
    assert_eq!(flag_for(DeviceKind::AudioInput), "--acc2-audio");
}

// Meters, settings and colours.

#[test]
fn an_unread_meter_says_so_rather_than_reading_zero() {
    assert_eq!(smeter_text(None), "—");
}

#[test]
fn the_same_raw_value_reads_differently_per_radio() {
    let ts = MeterReading { raw: 20, min: 0, max: 30 };
    let ft = MeterReading { raw: 20, min: 0, max: 255 };
    assert!(smeter_text(Some(("S9", ts))).starts_with("S9"));
    assert!(smeter_text(Some(("S1", ft))).starts_with("S1 "));
    assert_eq!(smeter_text(Some(("S1", ft))), "S1  20/255");
}

#[test]
fn the_raw_value_is_shown_so_a_bad_trim_is_diagnosable() {
    let r = MeterReading { raw: 17, min: 0, max: 30 };
    assert!(smeter_text(Some(("S8", r))).contains("17/30"));
}

fn setting(key: &str, label: &str, group: SettingGroup, value: SettingValue) -> SettingDescriptor {
    SettingDescriptor {
        key: key.to_string(),
        label: label.to_string(),
        group,
        access: Access::ReadWrite,
        value,
    }
}

fn gain() -> SettingValue {
    SettingValue::Float { shown: "28.0".to_string(), unit: "dB".to_string() }
}

fn if_tap() -> Vec<SettingDescriptor> {
    vec![
        setting("gain_db", "Gain", SettingGroup::Source, gain()),
        setting(
            "trim_hz",
            "Frequency trim",
            SettingGroup::Calibration,
            SettingValue::Int { value: -1420, unit: "Hz".to_string() },
        ),
    ]
}

#[test]
fn trim_hz_is_one_row_among_others() {
    let settings = if_tap();
    let rows = settings_rows(&settings);
    let trims = rows
        .iter()
        .filter(|r| matches!(r, Row::Setting(d) if d.key == "trim_hz"))
        .count();
    assert_eq!(trims, 1);
    assert_eq!(rows.len(), 4, "two headings and two settings");
}

#[test]
fn a_group_with_no_descriptors_gets_no_heading() {
    let audio = vec![setting(
        "input_device",
        "Input device",
        SettingGroup::Source,
        SettingValue::Enum { value: 0, options: vec!["Box USB Audio".to_string()] },
    )];
    let headings: Vec<&str> = settings_rows(&audio)
        .iter()
        .filter_map(|r| match r {
            Row::Heading(h) => Some(*h),
            _ => None,
        })
        .collect();
    assert_eq!(headings, vec!["SOURCE"]);
}

#[test]
fn both_renderers_format_a_value_identically() {
    assert_eq!(format_value(&gain()), "28.0 dB");
    assert_eq!(
        format_value(&SettingValue::Float { shown: "28.0".to_string(), unit: String::new() }),
        "28.0"
    );
}

#[test]
fn an_out_of_range_enum_is_visible_rather_than_blank() {
    let v = SettingValue::Enum { value: 7, options: vec!["Hann".to_string()] };
    assert_eq!(format_value(&v), "? (7)");
}

fn theme() -> Theme {
    Theme {
        background: 0x001428,
        panel: 0x002448,
        ink: 0xdcebff,
        accent: 0x66ccff,
        signal: 0x33ff99,
        warning: 0xff4444,
        trough: 0x001020,
        line: 0x113355,
        dim: 0x8090a0,
        absent: 0x405060,
    }
}

#[test]
fn a_server_that_publishes_nothing_gets_the_console_it_had() {
    let p = Colours::for_radio(None);
    assert_eq!(p.bg, BG);
    assert_eq!(p.text, TEXT);
    assert_eq!(p.accent, AMBER);
    assert_eq!(p, Colours::default());
}

#[test]
fn a_radios_palette_reaches_every_role() {
    let p = Colours::from_theme(&theme());
    let d = Colours::console_default();
    for (a, b) in [
        (p.bg, d.bg),
        (p.panel, d.panel),
        (p.text, d.text),
        (p.accent, d.accent),
        (p.signal, d.signal),
    ] {
        assert_ne!(a, b, "a role kept the console's default colour");
    }
    assert_eq!(p.colour(Role::Warning), 0xff4444);
}

#[test]
fn the_derived_shades_come_from_the_shared_rules() {
    let t = theme();
    assert_eq!(Colours::from_theme(&t).dim, t.dim);
    assert_eq!(Colours::from_theme(&t).absent, t.absent);
    assert_eq!(Colours::from_theme(&t).panel_alt, t.trough);
    assert_eq!(Colours::from_theme(&t).line, t.line);
}

#[test]
fn the_audio_panels_wear_the_consoles_colours() {
    let own = af_style(&Colours::console_default());
    assert_eq!(own, default_style());
    assert_eq!(af_style(&Colours::from_theme(&theme())).setting, 0x66ccff);
}

// The console.

const USB: u16 = 2;
const CW: u16 = 3;

fn stub(audio: bool) -> Capabilities {
    Capabilities {
        model: "Stub".to_string(),
        modes: vec![
            Mode { id: USB, label: "USB".to_string() },
            Mode { id: CW, label: "CW".to_string() },
        ],
        meters: vec![
            Meter { name: "S".to_string(), is_s: true, min: 0, max: 30 },
            Meter { name: "ALC".to_string(), is_s: false, min: 0, max: 30 },
        ],
        signal: SignalSupport::IfTapPoint,
        sources: if audio {
            vec![Source { label: "ACC2".to_string(), audio: true }]
        } else {
            vec![Source { label: "CN4".to_string(), audio: false }]
        },
        rx_range: FrequencyRange { min_hz: 500_000, max_hz: 60_000_000 },
        bands: vec![
            Band {
                label: "20m".to_string(),
                range: FrequencyRange { min_hz: 14_000_000, max_hz: 14_350_000 },
            },
            Band {
                label: "2m".to_string(),
                range: FrequencyRange { min_hz: 144_000_000, max_hz: 148_000_000 },
            },
        ],
        controls: vec![
            QuickControl { label: "mode".to_string(), control: Control::Mode },
            QuickControl {
                label: "filter".to_string(),
                control: Control::FilterWidth { widths_hz: vec![500, 2400] },
            },
            QuickControl { label: "shift".to_string(), control: Control::IfShift { limit_hz: 250 } },
            QuickControl { label: "notch".to_string(), control: Control::Notch },
            QuickControl { label: "split".to_string(), control: Control::Split },
        ],
        theme: Some(theme()),
    }
}

fn tabs() -> Vec<TabEntry> {
    vec![
        TabEntry { tab: Tab::Spectrum, label: "SPECTRUM".to_string() },
        TabEntry { tab: Tab::Source, label: "SOURCE".to_string() },
    ]
}

fn fresh() -> Console<u8> {
    Console::new("127.0.0.1:4570".to_string(), 0)
}

fn connected() -> Console<u8> {
    let mut console = fresh();
    console.connected(Ok((stub(false), tabs())));
    console
}

fn pump(console: &mut Console<u8>, events: Vec<Event>) {
    console.pump(events, None, None, None, 0);
}

fn refusal(code: ErrorCode) -> Event {
    Event::Refused { code, message: "no".to_string() }
}

fn state() -> RadioState {
    RadioState {
        vfo_a_hz: 14_074_000,
        mode: USB,
        split: false,
        transmitting: false,
        levels: None,
        if_shift_hz: None,
        filter_width_hz: Some(2400),
        memory_channel: None,
        s_meter: None,
    }
}

#[test]
fn a_console_connects_and_says_to_what() {
    let mut console = fresh();
    assert_eq!(console.not_connected().unwrap(), "127.0.0.1:4570 — not connected");
    console.connected(Err("refused".to_string()));
    assert_eq!(console.status, "refused");
    assert_eq!(console.not_connected().unwrap(), "127.0.0.1:4570 — refused");
    console.connected(Ok((stub(false), tabs())));
    assert_eq!(console.status, "connected to Stub");
    assert_eq!(console.active, Tab::Spectrum);
    assert_eq!(console.not_connected(), None);
}

#[test]
fn the_picker_shows_what_the_server_has_not_what_this_machine_has() {
    let mut console = connected();
    assert!(console.ask_for_devices());
    console.devices_asked(true);
    pump(&mut console, vec![Event::Devices(radio_side_devices())]);
    let specs: Vec<&str> = console
        .devices
        .lists()
        .iter()
        .flat_map(|l| l.devices.iter().map(|d| d.spec.as_str()))
        .collect();
    assert_eq!(specs, vec!["rtl:in-the-shack"], "the list must be the server's alone");
    assert!(!console.devices_pending);
}

#[test]
fn a_server_that_declines_is_not_reported_as_a_fault() {
    for code in [ErrorCode::Unsupported, ErrorCode::Malformed] {
        let mut console = connected();
        console.devices_asked(true);
        pump(&mut console, vec![refusal(code)]);
        assert_eq!(console.devices, Offer::NotOffered);
        assert!(!console.status.contains("Unsupported"), "{}", console.status);
        assert_eq!(console.status, "connected to Stub");
    }
}

#[test]
fn a_refusal_nobody_asked_for_is_a_fault() {
    let mut console = connected();
    pump(&mut console, vec![refusal(ErrorCode::Unsupported)]);
    assert_eq!(console.status, "Unsupported: no");
    assert_eq!(console.devices, Offer::Unasked);
    console.devices_asked(true);
    pump(&mut console, vec![refusal(ErrorCode::Other("Busy".to_string()))]);
    assert_eq!(console.status, "Busy: no");
    assert!(console.devices_pending);
}

#[test]
fn the_console_asks_once_and_not_at_poll_rate() {
    let mut console = connected();
    assert!(console.ask_for_devices());
    console.devices_asked(true);
    assert!(!console.ask_for_devices(), "not while the question is open");
    pump(&mut console, vec![Event::Devices(radio_side_devices())]);
    for _ in 0..50 {
        assert!(!console.ask_for_devices(), "asked again while already holding an answer");
        assert!(!console.devices_pending);
    }
}

#[test]
fn refreshing_asks_again_for_a_dongle_plugged_in_since() {
    let mut console = connected();
    console.devices_asked(true);
    pump(&mut console, vec![refusal(ErrorCode::Unsupported)]);
    assert_eq!(console.devices, Offer::NotOffered);
    assert!(console.refresh_devices());
    console.devices_asked(true);
    pump(&mut console, vec![Event::Devices(radio_side_devices())]);
    assert!(matches!(console.devices, Offer::Listed(_)));
}

#[test]
fn the_af_panels_report_three_states_and_not_two() {
    let mut console = connected();
    assert_eq!(console.audio_state(0), AudioState::Absent);
    console.accept_audio(1, 0);
    assert_eq!(console.audio_state(0), AudioState::Streaming);
    let mut wired = fresh();
    wired.connected(Ok((stub(true), tabs())));
    assert_eq!(wired.audio_state(0), AudioState::Configured);
}

#[test]
fn a_still_reports_its_sources_as_live() {
    let mut console = connected();
    console.demo_spectrum(&vec![frame(14_074_000, 1, 4)], 500);
    console.demo_audio(1, 500);
    assert!(console.spectrum_is_live(500));
    assert_eq!(console.audio_state(500), AudioState::Streaming);
    assert_eq!(console.waterfall.rows_filled(), 1);
    assert_eq!(console.no_stream(), None);
}

#[test]
fn a_still_stacks_its_frames() {
    let mut console = connected();
    let frames: Vec<Frame> = (0..3).map(|i| frame(14_074_000 + i, 1, 4)).collect();
    console.demo_spectrum(&frames, 500);
    assert_eq!(console.waterfall.rows_filled(), 3);
    assert_eq!(console.waterfall.head, 254);
    assert_eq!(console.waterfall.generation, 3);
    assert_eq!(console.waterfall.rebuilds, 0);
    assert_eq!(console.waterfall.reference(), Some(&frames[2].axis));
}

#[test]
fn audio_that_has_stopped_arriving_is_not_reported_streaming() {
    let mut console = connected();
    console.accept_audio(1, 0);
    assert_eq!(console.audio_state(0), AudioState::Streaming);
    assert_ne!(console.audio_state(STALE_AFTER_MS), AudioState::Streaming);
}

#[test]
fn a_tap_that_has_stopped_feeding_is_not_reported_live() {
    let mut console = connected();
    assert!(!console.spectrum_is_live(10), "nothing has arrived yet");
    console.pump(Vec::new(), Some(frame(14_074_000, 1, 4)), None, None, 10);
    assert!(console.spectrum_is_live(10));
    assert!(!console.spectrum_is_live(10 + STALE_AFTER_MS));
}

#[test]
fn losing_the_link_takes_the_tap_with_it() {
    let mut console = connected();
    console.pump(Vec::new(), Some(frame(14_074_000, 1, 4)), None, None, 10);
    console.on_link_lost("closed".to_string());
    assert!(!console.spectrum_is_live(10));
    assert_eq!(console.status, "connection lost: closed");
    assert_eq!(console.history.len(), 1, "the picture keeps its scrollback");
}

#[test]
fn losing_the_link_stops_the_dial_reading_as_though_it_were_live() {
    let mut console = connected();
    console.readout.vfo_a_hz.confirm(14_074_000);
    console.demo_levels();
    assert_eq!(console.readout.vfo_a_hz.value(), Some(14_074_000));

    console.on_link_lost("closed".to_string());

    assert_eq!(console.readout.vfo_a_hz.value(), None, "the dial must not survive the link");
    assert!(console.levels.is_none(), "nor the occasional settings");
}

#[test]
fn losing_the_link_clears_the_trace() {
    let mut console = connected();
    console.accept_audio(1, 0);
    console.on_link_lost("dropped".to_string());
    assert!(console.audio.is_none());
    assert_ne!(console.audio_state(0), AudioState::Streaming);
}

#[test]
fn the_radios_account_wins_over_what_was_asked_for() {
    let mut console = connected();
    assert_eq!(console.tune(Some(7_000_000)), Some(Command::Retune { hz: 7_000_000 }));
    assert!(console.readout.vfo_a_hz.is_pending());
    assert_eq!(console.readout.vfo_a_hz.value(), Some(7_000_000));
    pump(&mut console, vec![Event::State(state()), Event::Meter { is_s: true, raw: 9 }]);
    assert_eq!(console.readout.vfo_a_hz, Field::Confirmed(14_074_000));
    assert_eq!(console.readout.smeter_raw, Field::Confirmed(9));
    assert_eq!(console.readout.filter_width_hz, Field::Confirmed(2400));
    assert_eq!(console.readout.memory_channel, Field::Unknown);
    let mut later = state();
    later.s_meter = Some(12);
    pump(
        &mut console,
        vec![
            Event::State(later),
            Event::Meter { is_s: true, raw: 1 },
            Event::Meter { is_s: false, raw: 2 },
        ],
    );
    assert_eq!(console.readout.smeter_raw, Field::Confirmed(12), "the account is taken last");
}

#[test]
fn nothing_counts_after_the_connection_ended() {
    let mut console = connected();
    pump(
        &mut console,
        vec![
            Event::Other,
            Event::Disconnected("bye".to_string()),
            Event::State(state()),
            Event::Disconnected("again".to_string()),
        ],
    );
    assert_eq!(console.status, "connection lost: bye");
    assert!(console.capabilities().is_none(), "nor are its colours kept");
    assert_eq!(console.readout, Readout::default());
    assert_eq!(console.link, Link::Down("bye".to_string()));
    pump(&mut console, vec![Event::State(state())]);
    assert_eq!(console.readout, Readout::default(), "nothing arrives over a link that is down");
}

#[test]
fn levels_are_kept_until_the_radio_reports_new_ones() {
    let mut console = connected();
    console.demo_levels();
    let known = console.levels;
    pump(&mut console, vec![Event::State(state())]);
    assert_eq!(console.levels, known);
}

#[test]
fn a_moving_view_redraws_the_history_and_lands_on_the_newest_axis() {
    let mut console = connected();
    console.pump(Vec::new(), Some(frame(14_074_000, 10, 64)), None, None, 0);
    console.pump(Vec::new(), Some(frame(14_075_500, 11, 64)), None, None, 30);
    assert_eq!(console.waterfall.rows_filled(), 2);
    assert_eq!(console.waterfall.rebuilds, 0);
    let still = console.waterfall.rgba();
    console.pump(Vec::new(), None, None, None, 60);
    assert_eq!(console.waterfall.rgba(), still, "no frame, no scroll");

    let axis = FrameAxis { center_hz: 14_080_000, span_hz: 96_000, bins: 0 };
    let step = |console: &Console<u8>, done: bool| Travel {
        axis,
        done,
        rows: rows_on(console.history.iter(), axis, 512),
        landed: rows_on(console.history.iter(), console.history[0].axis, 512),
    };
    let under_way = step(&console, false);
    assert!(!console.pump(Vec::new(), None, None, Some(under_way), 90));
    assert_eq!(console.waterfall.rebuilds, 1);
    assert_eq!(console.waterfall.reference(), Some(&axis));
    let moved = console.waterfall.rgba();
    assert_ne!(moved, still);
    let arrived = step(&console, true);
    assert!(console.pump(Vec::new(), None, None, Some(arrived), 120));
    assert_ne!(console.waterfall.rgba(), moved);
    assert_eq!(console.waterfall.rebuilds, 3);
    assert_eq!(console.waterfall.reference().unwrap().center_hz, 14_075_500);
    assert_eq!(
        console.current_view(None),
        Vantage { center_hz: 14_075_500, span_hz: 96_000 }
    );
    let here = Vantage { center_hz: 1, span_hz: 2 };
    assert_eq!(console.current_view(Some(here)), here);
    assert_eq!(fresh().current_view(None), Vantage { center_hz: 0, span_hz: 1 });
}

#[test]
fn history_is_bounded_by_the_picture() {
    let mut console = connected();
    for i in 0..300u64 {
        console.pump(Vec::new(), Some(frame(14_074_000 + i, 1, 4)), None, None, i);
    }
    assert_eq!(console.history.len(), 256);
    assert_eq!(console.history[0].axis.center_hz, 14_074_299);
    assert_eq!(console.history[255].axis.center_hz, 14_074_044);
}

#[test]
fn a_frame_takes_the_time_since_the_last() {
    let mut console = fresh();
    assert_eq!(console.tick(100), 0);
    assert_eq!(console.tick(133), 33);
    assert_eq!(console.tick(133 + (1 << 40)), u32::MAX);
}

#[test]
fn the_state_is_asked_for_ten_times_a_second() {
    let mut console = connected();
    assert!(!console.poll_state(99));
    assert!(console.poll_state(100));
    assert!(!console.poll_state(150));
    assert!(console.poll_state(200));
}

#[test]
fn a_command_that_cannot_be_sent_says_so() {
    let mut console = connected();
    console.sent(true);
    assert_eq!(console.status, "connected to Stub");
    console.sent(false);
    assert_eq!(console.status, "connection lost");
    assert_eq!(console.link, Link::Down("send failed".to_string()));
    console.sent(true);
    assert_eq!(console.status, "not connected");
}

#[test]
fn a_line_is_run_where_there_is_a_radio() {
    let mut console = connected();
    console.frame_input(true, &[false; 5]);
    assert!(console.command_open);
    console.command_text = "2".to_string();
    assert_eq!(console.enter(), Some("2".to_string()));
    assert!(!console.command_open);
    assert!(console.command_text.is_empty());
    assert_eq!(console.run_line(Ok(LineAction::SelectTab(2))), LineStep::Nothing);
    assert_eq!(console.active, Tab::Source);
    assert_eq!(console.run_line(Ok(LineAction::SelectTab(7))), LineStep::Nothing);
    assert_eq!(console.status, "no workspace 7");
    assert_eq!(console.run_line(Err("unknown verb".to_string())), LineStep::Nothing);
    assert_eq!(console.status, "unknown verb");
    assert_eq!(console.run_line(Ok(LineAction::Quit)), LineStep::Quit);
    let set = LineAction::Radio(Command::SetMemoryChannel { channel: 5 });
    assert_eq!(
        console.run_line(Ok(set)),
        LineStep::Send(Command::SetMemoryChannel { channel: 5 })
    );
    assert_eq!(console.readout.memory_channel, Field::Pending(5));

    let mut cold = fresh();
    cold.command_text = "2".to_string();
    assert_eq!(cold.enter(), None);
    assert_eq!(cold.status, "not connected");
    cold.command_open = true;
    cold.escape();
    assert!(!cold.command_open);
}

#[test]
fn digits_open_workspaces_unless_the_line_is_open() {
    let mut console = connected();
    console.frame_input(false, &[false, true, false, false, false]);
    assert_eq!(console.active, Tab::Source);
    console.frame_input(false, &[true, false, false, false, true]);
    assert_eq!(console.active, Tab::Spectrum, "a digit without a tab changes nothing");
    console.frame_input(true, &[false, true, false, false, false]);
    assert_eq!(console.active, Tab::Spectrum, "the line was opened by the same frame");
    console.open_tab(Tab::Menu);
    assert_eq!(console.active, Tab::Menu);
}

#[test]
fn every_request_is_noted_and_every_question_is_not() {
    let mut r = Readout::default();
    r.note_request(&Command::SetFrequency { hz: 1 });
    r.note_request(&Command::SetMode { mode: CW });
    r.note_request(&Command::SetSplit { enabled: true });
    r.note_request(&Command::SetIfShift { hz: -5 });
    r.note_request(&Command::SetFilterWidth { hz: 500 });
    assert_eq!(r.vfo_a_hz, Field::Pending(1));
    assert_eq!(r.mode, Field::Pending(CW));
    assert_eq!(r.split, Field::Pending(true));
    assert_eq!(r.if_shift_hz, Field::Pending(-5));
    assert_eq!(r.filter_width_hz, Field::Pending(500));
    let before = r;
    r.note_request(&Command::ReadMeter);
    r.note_request(&Command::ReadState);
    r.note_request(&Command::ReadDevices);
    r.note_request(&Command::AttachDevice { kind: DeviceKind::Sdr, spec: "x".to_string() });
    assert_eq!(r, before);
}

#[test]
fn a_click_tunes_or_says_why_not() {
    let mut console = connected();
    assert_eq!(console.tune(None), None);
    assert_eq!(console.status, "outside this radio's coverage");
    assert!(console.tune(Some(14_074_000)).is_some());
    console.tuning(14_074_000);
    assert_eq!(console.status, "tuning 14.074.000 MHz");
    assert_eq!(console.choose_band(14_000_000), Command::Retune { hz: 14_000_000 });
    assert_eq!(console.choose_mode(CW), Command::SetMode { mode: CW });
    assert_eq!(console.choose_width(500), Command::SetFilterWidth { hz: 500 });
    assert_eq!(console.shift_by(100, 250), Command::SetIfShift { hz: 100 });
    assert_eq!(console.shift_by(100, 250), Command::SetIfShift { hz: 200 });
    assert_eq!(console.shift_by(100, 250), Command::SetIfShift { hz: 250 });
    assert_eq!(console.shift_by(i32::MIN, 250), Command::SetIfShift { hz: -250 });
    assert_eq!(console.toggle_split(), Command::SetSplit { enabled: true });
    assert_eq!(console.toggle_split(), Command::SetSplit { enabled: false });
}

#[test]
fn attaching_names_the_device_to_the_server() {
    let mut console = connected();
    let command = console.attach(DeviceKind::Sdr, "rtl:in-the-shack".to_string());
    assert_eq!(
        command,
        Command::AttachDevice { kind: DeviceKind::Sdr, spec: "rtl:in-the-shack".to_string() }
    );
    assert_eq!(console.status, "attaching rtl:in-the-shack…");
}

// The panels.

fn field(f: &radio_cat::gui::panels::StripField) -> (&str, &str, Role) {
    (f.key.as_str(), f.value.as_str(), f.role)
}

#[test]
fn the_strip_of_a_console_that_knows_nothing_says_so() {
    let s = fresh().strip("S9", 0);
    assert_eq!(field(&s.radio), ("radio", "NO RADIO", Role::Warning));
    assert_eq!(field(&s.link), ("link", "◇ 127.0.0.1:4570", Role::Absent));
    assert_eq!(field(&s.dial), ("vfo a · —", "—.———.———", Role::Absent));
    assert_eq!(field(&s.split), ("split", "—", Role::Absent));
    assert_eq!(field(&s.s), ("s", "—", Role::Absent));
    assert_eq!(field(&s.state), ("state", "—", Role::Absent));
    assert_eq!(field(&s.signal), ("signal · rf", "—", Role::Absent));
}

#[test]
fn the_strip_of_a_connected_console_shows_the_radio() {
    let mut console = connected();
    console.demo_state(USB, true);
    assert_eq!(console.status, "connected to Stub");
    let s = console.strip("S8", 0);
    assert_eq!(field(&s.radio), ("radio", "Stub", Role::Accent));
    assert_eq!(field(&s.link), ("link", "◆ 127.0.0.1:4570", Role::Signal));
    assert_eq!(field(&s.dial), ("vfo a · USB", "14.074.000", Role::Text));
    assert_eq!(field(&s.split), ("split", "OFF", Role::Dim));
    assert_eq!(field(&s.s), ("s", "S8  17/30", Role::Text));
    assert_eq!(field(&s.state), ("state", "TX", Role::Warning));
    assert_eq!(field(&s.signal), ("signal · rf", "IF-TAP", Role::Absent));
    assert_eq!(console.tx_banner(), Some("◆ ◆ ◆   T R A N S M I T T I N G   ◆ ◆ ◆"));
    assert_eq!(fresh().tx_banner(), None);

    console.choose_band(7_000_000);
    console.pump(Vec::new(), Some(frame(14_074_000, 1, 4)), None, None, 5);
    let s = console.strip("S8", 5);
    assert_eq!(field(&s.dial), ("vfo a · USB", "7.000.000", Role::Accent));
    assert_eq!(field(&s.signal), ("signal · rf", "IF-TAP", Role::Signal));
}

#[test]
fn levels_are_dashes_until_they_were_read() {
    let rows = level_rows(None);
    assert_eq!(rows.len(), 14);
    assert!(rows.iter().all(|r| r.value.is_none()));
    let mut console = fresh();
    console.demo_levels();
    let rows = level_rows(console.levels);
    let shown: Vec<(&str, &str)> =
        rows.iter().map(|r| (r.label, r.value.as_deref().unwrap())).collect();
    assert_eq!(
        shown,
        vec![
            ("ANT", "ANT1"),
            ("AF", "33"),
            ("RF", "255"),
            ("SQL", "0"),
            ("MIC", "50"),
            ("PWR", "100%"),
            ("AGC", "4"),
            ("NR", "0"),
            ("NB", "off"),
            ("PRE", "on"),
            ("ATT", "off"),
            ("PROC", "off"),
            ("VOX", "off"),
            ("LOCK", "off"),
        ]
    );
}

#[test]
fn the_rail_keeps_every_meter_in_its_place() {
    assert_eq!(fresh().rail(), None);
    let mut console = connected();
    console.demo_state(USB, false);
    let rows = console.rail().unwrap();
    assert_eq!(rows.len(), 2);
    assert_eq!((rows[0].name.as_str(), rows[0].value.as_str(), rows[0].role), ("S", "17", Role::Text));
    assert_eq!(
        (rows[1].name.as_str(), rows[1].value.as_str(), rows[1].role),
        ("ALC", "—", Role::Absent)
    );
    assert_eq!(rows[1].reading, None);
}

#[test]
fn the_tab_bar_numbers_its_tabs() {
    let cells = connected().tab_bar();
    assert_eq!(cells.len(), 2);
    assert_eq!((cells[0].digit.as_str(), cells[0].label.as_str()), ("1", "SPECTRUM"));
    assert!(cells[0].selected && cells[0].role == Role::Accent);
    assert!(!cells[1].selected && cells[1].role == Role::Dim);
    assert_eq!(tab_hint(), "1–9 switch · : command");
}

#[test]
fn the_quick_bar_shows_what_the_radio_has() {
    assert!(fresh().quick_bar().is_empty());
    let mut console = connected();
    let cells = console.quick_bar();
    assert_eq!(cells.len(), 5);
    assert_eq!(
        cells[0].shown,
        QuickShown::Button { value: "—       ".to_string(), role: Role::Text }
    );
    match &cells[2].shown {
        QuickShown::Shift { value, limit_hz } => {
            assert_eq!((value.as_str(), *limit_hz), ("   +0 Hz", 250))
        }
        other => panic!("{other:?}"),
    }
    assert_eq!(cells[3].shown, QuickShown::Nothing);
    assert_eq!(cells[4].shown, QuickShown::Button { value: "OFF".to_string(), role: Role::Dim });

    console.demo_state(USB, false);
    console.choose_width(2400);
    console.shift_by(-100, 250);
    console.toggle_split();
    let cells = console.quick_bar();
    assert_eq!(
        cells[0].shown,
        QuickShown::Button { value: "USB     ".to_string(), role: Role::Text }
    );
    match &cells[1].shown {
        QuickShown::Widths { value, choices } => {
            assert_eq!(value, "2400 Hz");
            assert_eq!(choices.len(), 2);
            assert!(!choices[0].selected && choices[1].selected);
            assert_eq!(choices[0].label, "500 Hz");
        }
        other => panic!("{other:?}"),
    }
    match &cells[2].shown {
        QuickShown::Shift { value, .. } => assert_eq!(value, " -100 Hz"),
        other => panic!("{other:?}"),
    }
    assert_eq!(cells[4].shown, QuickShown::Button { value: "ON ".to_string(), role: Role::Accent });
}

fn words(rows: &[SourceRow]) -> Vec<String> {
    rows.iter()
        .map(|r| match r {
            SourceRow::Dim(s) => format!("dim {s}"),
            SourceRow::Absent(s) => format!("absent {s}"),
            SourceRow::Attached(s) => format!("attached {s}"),
            SourceRow::Refresh(s) => format!("refresh {s}"),
            SourceRow::Heading(s) => format!("heading {s}"),
            SourceRow::Device { label, .. } => format!("device {label}"),
        })
        .collect()
}

#[test]
fn the_source_workspace_lists_what_is_attached_and_what_could_be() {
    assert_eq!(
        words(&fresh().source()),
        vec![
            "dim attached",
            "absent nothing attached",
            "refresh available on the radio's host",
            "absent asking the radio's host what it has…",
        ]
    );
    let mut console = connected();
    let mut lists = radio_side_devices();
    lists[0].devices[0].detail = Some("24 MHz".to_string());
    lists.push(DeviceList::unavailable(DeviceKind::AudioInput, "no sound server"));
    pump(&mut console, vec![Event::Devices(lists)]);
    assert_eq!(
        words(&console.source()),
        vec![
            "dim attached",
            "attached CN4",
            "refresh available on the radio's host",
            "heading SDR",
            "device the dongle on the radio's IF tap",
            "dim     --if-out rtl:in-the-shack",
            "dim     24 MHz",
            "heading AUDIO INPUT",
            "absent unavailable: no sound server",
        ]
    );
}

#[test]
fn a_workspace_with_nothing_to_show_says_why() {
    let mut console = connected();
    assert_eq!(console.workspace(), WorkspaceContent::Spectrum);
    console.spectrum_has_its_own_panel = true;
    assert_eq!(
        console.workspace(),
        WorkspaceContent::Explained(
            "spectrum",
            "shown in its own panel — this radio's layout gives it one"
        )
    );
    console.open_tab(Tab::Memory);
    assert_eq!(
        console.workspace(),
        WorkspaceContent::Explained(
            "memory workspace",
            "the protocol has no read side for memory contents yet"
        )
    );
    console.open_tab(Tab::Menu);
    assert!(matches!(console.workspace(), WorkspaceContent::Explained("menu workspace", _)));
    console.open_tab(Tab::Source);
    assert_eq!(console.workspace(), WorkspaceContent::Source);
    assert_eq!(console.spectrum_header().unwrap().0, "IF TAP · CN4 → RTL-SDR");
    assert_eq!(fresh().spectrum_header(), None);
    assert_eq!(console.no_stream(), Some("NO STREAM"));
    assert_eq!(console.command_hint(), Some("press :  for a command"));
    console.frame_input(true, &[false; 5]);
    assert_eq!(console.command_hint(), None);
}

#[test]
fn a_band_the_radio_does_not_reach_is_not_offered() {
    assert_eq!(band_bar(&stub(false)), vec![0]);
    assert_eq!(panel_fill(Panel::Spectrum), Role::Bg);
    assert_eq!(panel_fill(Panel::Workspace), Role::Bg);
    assert_eq!(panel_fill(Panel::Status), Role::Panel);
}

#[test]
fn a_meter_rail_is_as_high_as_its_meters() {
    assert_eq!(meter_rail_cells(0), 5);
    assert_eq!(meter_rail_cells(1), 5);
    assert_eq!(meter_rail_cells(4), 12);
    assert_eq!(meter_rail_cells(7), 20);
    assert_eq!(meter_rail_cells(u16::MAX), 2 + 32768);
    assert_eq!(natural(Panel::MeterRail, Stacking::Rows, 7), Some(20));
    assert_eq!(natural(Panel::MeterRail, Stacking::Columns, 7), None);
    assert_eq!(natural(Panel::Status, Stacking::Rows, 7), None);
}

#[test]
fn the_default_arrangement_is_the_one_the_console_shipped_with() {
    let parts = default_layout();
    assert_eq!(parts.len(), 10);
    assert_eq!(parts[0].content, Content::Panel(Panel::Readout));
    assert_eq!(parts[0].size, Size::Fixed(4));
    assert_eq!(parts[3].content, Content::Node(Stacking::Rows));
    assert_eq!(parts[3].size, Size::Fixed(26));
    assert!(!parts.iter().any(|p| p.content == Content::Panel(Panel::Spectrum)));
    assert!(!places(&parts, Panel::Spectrum));
    assert!(places(&parts, Panel::Workspace));
}

#[test]
fn a_line_is_broken_at_every_gap() {
    let present = vec![true, true, false, true, false, true, true, true];
    assert_eq!(line_runs(&present), vec![(0, 2), (5, 8)]);
    assert!(line_runs(&vec![true]).is_empty());
    assert!(line_runs(&Vec::new()).is_empty());
    assert_eq!(line_runs(&vec![true; 3]), vec![(0, 3)]);
}

#[test]
fn a_still_shows_the_radio_it_was_given() {
    let mut console = fresh();
    console.demo_capabilities(stub(true), tabs());
    assert_eq!(console.active, Tab::Spectrum);
    assert_eq!(console.capabilities().unwrap().model, "Stub");
    console.demo_state(USB, false);
    assert_eq!(console.status, "connected to Stub");
    let mut bare = fresh();
    bare.demo_state(USB, false);
    assert_eq!(bare.status, "connected");
}
