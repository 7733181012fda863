use radio_cat::tui::af::edge_column;
use radio_cat::tui::af::af_fft;
use radio_cat::tui::af::af_header;
use radio_cat::tui::af::AudioState;
use radio_cat::tui::af::Passband;
use radio_cat::tui::meter::bar_fill;
use radio_cat::tui::meter::bar_spans;
use radio_cat::tui::meter::meter_bar;
use radio_cat::tui::meter::meter_spans;
use radio_cat::tui::meter::meter_rail;
use radio_cat::tui::meter::smeter_line;
use radio_cat::tui::meter::Cell;
use radio_cat::tui::meter::MeterReading;
use radio_cat::tui::meter::MeterStyles;
use radio_cat::tui::meter::RailMeter;
use radio_cat::tui::spectrum::bin_for_column;
use radio_cat::tui::spectrum::column_offset;
use radio_cat::tui::spectrum::spectrum_trace;
use radio_cat::tui::spectrum::waterfall;
use radio_cat::tui::spectrum::waterfall_samples;
use radio_cat::tui::spectrum::ShadedCell;
use radio_cat::tui::spectrum::SpectrumFrame;
use radio_cat::tui::spectrum::UPPER_HALF;
use radio_cat::tui::spectrum::FrameAxis;
use radio_cat::tui::spectrum::Sample;
use radio_cat::tui::spectrum::WaterfallPalette;
use radio_cat::ui::geometry::Rect;
use radio_cat::ui::intensity::steps;
use radio_cat::ui::intensity::FULL;
use radio_cat::ui::style::Colour;
use radio_cat::ui::style::Span;
use radio_cat::ui::style::Style;

fn screen(cells: &[Cell], w: u16, h: u16) -> Vec<String> {
    let mut rows = vec![vec![' '; w as usize]; h as usize];
    for cell in cells {
        rows[cell.y as usize][cell.x as usize] = cell.ch;
    }
    rows.into_iter().map(|r| r.into_iter().collect()).collect()
}

fn reading(raw: u16, max: u16) -> MeterReading {
    MeterReading { raw, min: 0, max }
}

fn bar(r: MeterReading, width: u16) -> String {
    let cells = meter_bar(r, Rect::new(0, 0, width, 1), Colour::Green, Colour::DarkGray);
    screen(&cells, width, 1).remove(0)
}

fn filled(text: &str) -> usize {
    text.chars().filter(|c| *c == '█').count()
}

// Meters.

#[test]
fn the_same_raw_value_fills_differently_on_each_radio() {
    assert_eq!(filled(&bar(reading(15, 30), 20)), 10);
    assert!(filled(&bar(reading(15, 255), 20)) <= 1);
}

#[test]
fn a_full_scale_reading_fills_every_cell() {
    assert_eq!(filled(&bar(reading(30, 30), 12)), 12);
}

#[test]
fn an_empty_reading_draws_a_trough_not_blank_space() {
    let text = bar(reading(0, 30), 6);
    assert_eq!(filled(&text), 0);
    assert_eq!(text, "░░░░░░");
}

#[test]
fn partial_cells_give_sub_cell_resolution() {
    assert_ne!(bar(reading(7, 30), 20), bar(reading(8, 30), 20), "one raw step must be visible");
}

#[test]
fn an_over_range_reading_clamps_rather_than_overflowing() {
    assert_eq!(filled(&bar(reading(u16::MAX, 30), 8)), 8);
}

#[test]
fn a_meter_without_a_range_fills_nothing() {
    assert_eq!(bar_fill(MeterReading { raw: 5, min: 5, max: 5 }, 10), 0);
    assert_eq!(bar_fill(MeterReading { raw: 5, min: 10, max: 20 }, 10), 0);
    assert_eq!(bar_fill(MeterReading { raw: 15, min: 10, max: 20 }, 10), 40);
}

fn texts(spans: Vec<Span>) -> Vec<String> {
    spans.into_iter().map(|s| s.text).collect()
}

/// A fraction as an intensity.
fn share(fraction: f32) -> i64 {
    (fraction * FULL as f32).round() as i64
}

fn spans_text(fraction: f32, width: u16) -> Vec<String> {
    texts(bar_spans(share(fraction), width, Style::plain(), Style::plain()))
}

#[test]
fn a_bar_drawn_into_a_buffer_and_one_built_as_spans_are_the_same_bar() {
    let r = reading(17, 30);
    let spans = texts(meter_spans(r, 20, Style::plain(), Style::plain()));
    assert_eq!(bar(r, 20), spans.concat());
    assert_eq!(spans[0], "███████████▍");
}

#[test]
fn a_bar_is_always_two_spans_because_the_fill_is_a_prefix() {
    for raw in 0..=30u16 {
        let spans = spans_text(raw as f32 / 30.0, 20);
        assert_eq!(spans.len(), 2);
        let (drawn, trough) = (&spans[0], &spans[1]);
        assert!(!drawn.contains('░'), "raw {raw}: trough char in the fill");
        assert!(trough.chars().all(|c| c == '░'), "raw {raw}: fill char in the trough");
        assert_eq!(
            drawn.chars().count() + trough.chars().count(),
            20,
            "raw {raw}: bar must always be exactly as wide as asked"
        );
    }
}

#[test]
fn a_bar_span_clamps_rather_than_overflowing_its_width() {
    for f in [-1.0, 0.0, 1.0, 2.0, f32::NAN] {
        let spans = spans_text(f, 10);
        let width: usize = spans.iter().map(|s| s.chars().count()).sum();
        assert_eq!(width, 10, "fraction {f} produced a {width}-cell bar");
    }
}

#[test]
fn a_radios_own_s_unit_table_beats_the_generic_formula() {
    let line = smeter_line(
        Some(("S9+10".to_string(), reading(24, 30))),
        Style::plain(),
        Style::plain(),
    );
    assert!(line.text().starts_with("S9+10"));
}

#[test]
fn an_unread_smeter_says_so_rather_than_showing_s0() {
    let text = smeter_line(None, Style::plain(), Style::plain()).text();
    assert!(text.contains('—'));
    assert!(!text.contains("S0"), "unknown must not render as a reading");
}

#[test]
fn a_read_smeter_shows_its_unit_and_its_raw_value() {
    let text =
        smeter_line(Some(("S9".to_string(), reading(20, 30))), Style::plain(), Style::plain())
            .text();
    assert!(text.starts_with("S9"), "got {text:?}");
    assert!(text.contains("20/30"), "got {text:?}");
}

#[test]
fn an_inactive_meter_keeps_its_row() {
    let s = Style::plain();
    let meters = vec![
        RailMeter { name: "S".to_string(), reading: Some(reading(15, 30)), active: true },
        RailMeter { name: "PO".to_string(), reading: None, active: false },
        RailMeter { name: "SWR".to_string(), reading: None, active: false },
    ];
    let rows = meter_rail(
        &meters,
        Rect::new(0, 0, 24, 4),
        5,
        MeterStyles { active: s, inactive: s, fill: Colour::Green, empty: Colour::DarkGray },
    );
    let names: Vec<&str> = rows.iter().map(|r| r.name.as_str()).collect();
    assert_eq!(names, vec!["S", "PO", "SWR"]);
    assert_eq!(rows[1].y, 1);
    let inert = rows[1].bar.unwrap().cells();
    assert!(inert.iter().all(|c| c.ch == '░'), "an inert meter is an empty trough");
    assert_eq!(rows[0].bar.unwrap().reading, reading(15, 30));
}

// The spectrum.

/// The intensity of a power between a floor and a reference.
fn level(dbm: f32, floor: f32, reference: f32) -> i64 {
    (((dbm - floor) / (reference - floor)).clamp(0.0, 1.0) * FULL as f32) as i64
}

fn levels(peak_bin: usize, bins: usize) -> Vec<i64> {
    let mut v = vec![level(-110.0, -120.0, -20.0); bins];
    v[peak_bin] = level(-20.0, -120.0, -20.0);
    v
}

fn axis(center_hz: u64, bins: usize) -> FrameAxis {
    FrameAxis { center_hz, span_hz: 96_000, bins }
}

fn trace(levels: &Vec<i64>, w: u16, h: u16) -> Vec<String> {
    screen(&spectrum_trace(levels, Rect::new(0, 0, w, h), Colour::Green), w, h)
}

/// The columns with anything drawn in them.
fn drawn_columns(rows: &[String]) -> Vec<usize> {
    (0..rows[0].chars().count())
        .filter(|c| rows.iter().any(|r| r.chars().nth(*c) != Some(' ')))
        .collect()
}

/// The columns of the top row with anything in them.
fn top_columns(rows: &[String]) -> Vec<usize> {
    rows[0].chars().enumerate().filter(|(_, c)| *c != ' ').map(|(i, _)| i).collect()
}

#[test]
fn a_signal_above_the_dial_draws_to_the_right() {
    let cols = drawn_columns(&trace(&levels(200, 256), 64, 4));
    assert!(*cols.last().unwrap() > 32, "{cols:?}");
}

#[test]
fn a_signal_below_the_dial_draws_to_the_left() {
    let cols = drawn_columns(&trace(&levels(20, 256), 64, 4));
    assert!(cols[0] < 32, "{cols:?}");
}

#[test]
fn a_peak_reaches_the_top_in_its_own_column_alone() {
    assert_eq!(top_columns(&trace(&levels(198, 256), 64, 4)), vec![49]);
    assert_eq!(top_columns(&trace(&levels(20, 256), 64, 4)), vec![5]);
    assert!(top_columns(&trace(&levels(200, 256), 64, 4)).is_empty(), "no column samples it");
}

#[test]
fn a_stronger_signal_draws_a_taller_column() {
    let height = |dbm: f32| {
        let mut v = levels(4, 8);
        v[4] = level(dbm, -120.0, -20.0);
        trace(&v, 8, 4).iter().filter(|r| r.chars().nth(4) != Some(' ')).count()
    };
    assert!(height(-20.0) > height(-90.0));
    assert_eq!(height(-20.0), 4);
}

#[test]
fn a_weak_signal_grows_from_the_bottom_not_the_top() {
    let mut v = levels(2, 4);
    v[2] = level(-105.0, -120.0, -20.0);
    let rows = trace(&v, 4, 4);
    assert_eq!(rows[0].chars().nth(2), Some(' '), "top row should be empty");
    assert_ne!(rows[3].chars().nth(2), Some(' '), "bottom row should be drawn");
}

#[test]
fn an_empty_frame_draws_nothing_rather_than_panicking() {
    assert!(spectrum_trace(&Vec::new(), Rect::new(0, 0, 8, 2), Colour::Green).is_empty());
}

#[test]
fn a_zero_sized_area_is_a_no_op() {
    assert!(spectrum_trace(&levels(4, 8), Rect::new(0, 0, 0, 0), Colour::Green).is_empty());
    assert!(fall(&[(14_074_000, 4, 8)], Rect::new(0, 0, 8, 0), Colour::Black).is_empty());
}

#[test]
fn rows_sharing_a_centre_are_not_shifted() {
    assert_eq!(column_offset(14_074_000, axis(14_074_000, 256), 64), 0);
}

#[test]
fn a_row_captured_higher_up_the_band_shifts_right() {
    assert_eq!(column_offset(14_074_000 + 24_000, axis(14_074_000, 256), 64), 16);
}

#[test]
fn a_row_captured_lower_down_the_band_shifts_left() {
    assert_eq!(column_offset(14_074_000 - 24_000, axis(14_074_000, 256), 64), -16);
}

/// A waterfall of frames, each given by its centre, its peak and its bins.
fn fall(frames: &[(u64, usize, usize)], area: Rect, absent: Colour) -> Vec<ShadedCell> {
    let frames: Vec<SpectrumFrame> = frames
        .iter()
        .map(|(center, peak, bins)| SpectrumFrame {
            axis: axis(*center, *bins),
            levels: levels(*peak, *bins),
        })
        .collect();
    waterfall(&frames, area, &WaterfallPalette::turbo(), absent)
}

#[test]
fn columns_a_row_never_captured_are_drawn_as_absence() {
    let absent = Colour::Magenta;
    let rows = [(14_074_000, 128, 256), (14_074_000 + 48_000, 128, 256)];
    let cells = fall(&rows, Rect::new(0, 0, 64, 1), absent);
    assert_eq!(cells[0].lower, absent);
    assert_ne!(cells[63].lower, absent);
}

#[test]
fn a_waterfall_row_with_no_frame_is_absence_not_black() {
    let absent = Colour::Magenta;
    let cells = fall(&[(14_074_000, 2, 4)], Rect::new(0, 0, 4, 4), absent);
    assert_ne!(cells[0].upper, absent, "row 0 has a frame");
    assert_eq!(cells[0].lower, absent, "row 1 does not");
    assert_eq!(cells[12].upper, absent, "row 6 does not");
    assert_eq!(cells[2].upper, Colour::Indexed(196), "the peak is hot");
    assert_eq!(cells[0].upper, Colour::Indexed(19), "the noise is not");
}

#[test]
fn two_history_rows_share_one_text_row() {
    let cells = fall(&[(14_074_000, 2, 4); 6], Rect::new(0, 0, 4, 3), Colour::Black);
    assert_eq!(cells.len(), 12);
    assert_eq!(UPPER_HALF, '▀');
    let samples = waterfall_samples(&vec![axis(14_074_000, 4); 6], Rect::new(0, 0, 4, 3));
    for (i, cell) in samples.iter().enumerate() {
        assert_eq!((cell.x as usize, cell.y as usize), (i % 4, i / 4));
        assert_eq!(cell.top, Some(Sample { frame: 2 * (i / 4), bin: i % 4 }));
        assert_eq!(cell.bottom, Some(Sample { frame: 2 * (i / 4) + 1, bin: i % 4 }));
    }
}

#[test]
fn a_carrier_stays_in_its_column_as_the_dial_moves() {
    let frames = [(14_074_000, 32, 64), (14_074_000 - 1_500, 33, 64), (14_074_000 - 3_000, 34, 64)];
    let cells = fall(&frames, Rect::new(0, 0, 64, 2), Colour::Black);
    assert_eq!(cells[32].upper, Colour::Indexed(196));
    assert_eq!(cells[32].lower, Colour::Indexed(196));
    assert_eq!(cells[64 + 32].upper, Colour::Indexed(196));
}

#[test]
fn intensity_maps_the_ends_of_the_ramp() {
    let p = WaterfallPalette::turbo();
    assert_eq!(p.at(0), Colour::Indexed(17));
    assert_eq!(p.at(FULL), Colour::Indexed(196));
    assert_eq!(p.at(-5 * FULL), Colour::Indexed(17));
    assert_eq!(p.at(99 * FULL), Colour::Indexed(196));
    assert_eq!(WaterfallPalette::default(), p);
}

#[test]
fn the_sixteen_colour_palette_is_a_real_fallback() {
    let p = WaterfallPalette::ansi16();
    assert_ne!(p.at(0), p.at(FULL / 2));
    assert_ne!(p.at(FULL / 2), p.at(FULL));
}

#[test]
fn a_column_samples_the_nearest_bin() {
    assert_eq!(bin_for_column(256, 0, 64), 0);
    assert_eq!(bin_for_column(256, 63, 64), 255);
    assert_eq!(bin_for_column(256, 32, 64), 130);
    assert_eq!(bin_for_column(256, 5, 1), 0);
    assert_eq!(steps(FULL / 2, 8), 4);
    assert_eq!(steps(-1, 8), 0);
    assert_eq!(steps(FULL + 1, 8), 8);
}

// The audio panels.

fn fft(
    columns: Option<&Vec<Option<i64>>>,
    passband: Option<Passband>,
    state: AudioState,
) -> Vec<Cell> {
    af_fft(columns, passband, state, Rect::new(0, 0, 20, 5), Colour::White, Colour::Yellow)
}

#[test]
fn the_three_states_occupy_identical_space() {
    let columns = vec![Some(FULL / 2); 20];
    for state in [AudioState::Absent, AudioState::Configured, AudioState::Streaming] {
        let shown = if state == AudioState::Streaming { Some(&columns) } else { None };
        for cell in fft(shown, None, state) {
            assert!(cell.x < 20 && cell.y < 5);
        }
    }
}

#[test]
fn an_empty_fft_still_draws_a_floor() {
    let rows = screen(&fft(None, None, AudioState::Configured), 20, 5);
    assert_eq!(rows[4], "·".repeat(20));
}

#[test]
fn a_tone_lands_in_the_cell_its_frequency_belongs_to() {
    let mut columns: Vec<Option<i64>> = vec![Some(0); 20];
    columns[1507 * 20 / 3000] = Some(FULL);
    let rows = screen(&fft(Some(&columns), None, AudioState::Streaming), 20, 5);
    let loud: Vec<usize> =
        rows[0].chars().enumerate().filter(|(_, c)| *c == '█').map(|(i, _)| i).collect();
    assert_eq!(loud, vec![10]);
}

#[test]
fn the_passband_edges_are_marked_in_the_setting_colour() {
    let passband = Passband { low_hz: 300, high_hz: 2_700 };
    let cells = fft(None, Some(passband), AudioState::Configured);
    let rows = screen(&cells, 20, 5);
    assert_eq!(rows[4].chars().nth(2), Some('┃'));
    assert_eq!(rows[4].chars().nth(18), Some('┃'));
    let last = cells.iter().filter(|c| c.x == 2 && c.y == 4).last().unwrap();
    assert_eq!(last.fg, Colour::Yellow);
}

#[test]
fn a_passband_edge_outside_the_span_is_dropped_rather_than_clamped() {
    let passband = Passband { low_hz: -500, high_hz: 9_000 };
    let rows = screen(&fft(None, Some(passband), AudioState::Configured), 20, 5);
    assert!(!rows[4].contains('┃'));
    let limits = Passband { low_hz: 0, high_hz: 3_000 };
    let rows = screen(&fft(None, Some(limits), AudioState::Configured), 20, 5);
    assert_eq!(rows[4].matches('┃').count(), 1, "the span ends before its upper limit");
}

#[test]
fn an_edge_belongs_to_one_column() {
    assert_eq!(edge_column(0, 20), Some(0));
    assert_eq!(edge_column(300, 20), Some(2));
    assert_eq!(edge_column(2_999, 20), Some(19));
    assert_eq!(edge_column(3_000, 20), None);
    assert_eq!(edge_column(-1, 20), None);
    assert_eq!(edge_column(2_700, 0), Some(0));
}

#[test]
fn the_header_names_the_state_in_every_state() {
    for state in [AudioState::Absent, AudioState::Configured, AudioState::Streaming] {
        let text = af_header("AF FFT", state, Colour::White, Colour::DarkGray).text();
        assert!(text.starts_with("AF FFT"));
        assert!(text.contains(state.label()));
    }
}

#[test]
fn pending_is_the_default_states_label_and_it_is_not_an_error_word() {
    assert_eq!(AudioState::Configured.label(), "PENDING");
    assert_eq!(AudioState::Absent.label(), "NONE");
    assert_eq!(AudioState::Streaming.label(), "LIVE");
}
