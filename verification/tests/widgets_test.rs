use std::collections::BTreeMap;
use wifichecker::models::ColorMetric;
use wifichecker::models::Measurement;
use wifichecker::models::RealBits;
use wifichecker::models::ScanEntry;
use wifichecker::models::SignalSource;
use wifichecker::models::color_metric::MetricValue;
use wifichecker::order::Level;
use wifichecker::services::WifiInfo;
use wifichecker::text::truncate;
use wifichecker::text_map::TextMap;
use wifichecker::widgets::channel_report::aggregate_by_channel;
use wifichecker::widgets::channel_report::band_channel_freq;
use wifichecker::widgets::channel_report::band_channels;
use wifichecker::widgets::channel_report::band_freq_range;
use wifichecker::widgets::channel_report::bar_lobes;
use wifichecker::widgets::channel_report::bar_emphasis;
use wifichecker::widgets::channel_report::channel_freq;
use wifichecker::widgets::channel_report::chart_hit_test;
use wifichecker::widgets::channel_report::draw_order;
use wifichecker::widgets::channel_report::is_free_channel;
use wifichecker::widgets::channel_report::measurement_label;
use wifichecker::widgets::channel_report::point_bars;
use wifichecker::widgets::channel_report::point_notice;
use wifichecker::widgets::channel_report::point_rows;
use wifichecker::widgets::channel_report::report_points;
use wifichecker::widgets::channel_report::report_title;
use wifichecker::widgets::channel_report::sightings_of;
use wifichecker::widgets::channel_report::strongest_texts;
use wifichecker::widgets::channel_report::survey_bars;
use wifichecker::widgets::channel_report::survey_channels;
use wifichecker::widgets::channel_report::survey_count_text;
use wifichecker::widgets::channel_report::survey_notice;
use wifichecker::widgets::channel_report::survey_rows;
use wifichecker::widgets::channel_report::survey_sightings;
use wifichecker::widgets::channel_report::Aggregation;
use wifichecker::widgets::channel_report::BandSync;
use wifichecker::widgets::channel_report::ChannelAgg;
use wifichecker::widgets::channel_report::Emphasis;
use wifichecker::widgets::channel_report::HoverKey;
use wifichecker::widgets::channel_report::Sighting;
use wifichecker::widgets::legend_bar::legend_ticks;
use wifichecker::widgets::legend_bar::LegendBar;
use wifichecker::widgets::measurement_panel::current_signal;
use wifichecker::widgets::measurement_panel::format_ap_table;
use wifichecker::widgets::measurement_panel::format_scan_list_section;
use wifichecker::widgets::measurement_panel::make_row;
use wifichecker::widgets::measurement_panel::measurement_row;
use wifichecker::widgets::measurement_panel::same_ssid_group_text;
use wifichecker::widgets::measurement_panel::signal_quality_str;
use wifichecker::widgets::measurement_panel::MeasurementPanel;

fn number(v: f64) -> RealBits {
    RealBits { bits: v.to_bits() }
}

fn no_aliases() -> TextMap<String> {
    TextMap::new()
}

// ── Measurement panel ──────────────────────────────────────────────────────

fn ap(bssid: &str, ssid: &str, dbm: i32, active: bool) -> WifiInfo {
    WifiInfo {
        ssid: ssid.to_string(),
        bssid: bssid.to_string(),
        frequency_mhz: 5180,
        channel: 36,
        signal_dbm: dbm,
        link_speed_mbps: None,
        device: "wlan0".to_string(),
        is_active: active,
        channel_width_mhz: None,
        center_freq_mhz: None,
        center_freq2_mhz: None,
    }
}

fn entry(bssid: &str, ssid: &str, dbm: i32, active: bool) -> ScanEntry {
    ScanEntry {
        ssid: ssid.to_string(),
        bssid: bssid.to_string(),
        frequency_mhz: 5180,
        channel: 36,
        signal_dbm: dbm,
        is_active: active,
        channel_width_mhz: None,
        center_freq_mhz: None,
        center_freq2_mhz: None,
    }
}

#[test]
fn same_ssid_group_lists_all_aps_of_ssid() {
    let list = vec![
        ap("AA:BB:CC:DD:EE:01", "Home", -55, true),
        ap("AA:BB:CC:DD:EE:02", "Home", -70, false),
        ap("AA:BB:CC:DD:EE:03", "Home", -84, false),
        ap("FF:FF:FF:FF:FF:FF", "Other", -40, false),
    ];
    let text = same_ssid_group_text("Home", &list, &no_aliases()).unwrap();
    assert!(text.contains("This SSID in range (3 APs)"));
    assert!(text.contains("● AA:BB:CC:DD:EE:01  -55 dBm ch36 5 GHz"));
    assert!(text.contains("AA:BB:CC:DD:EE:02  -70 dBm ch36 5 GHz"));
    assert!(text.contains("AA:BB:CC:DD:EE:03  -84 dBm ch36 5 GHz"));
    assert!(!text.contains("FF:FF:FF:FF:FF:FF"));
}

#[test]
fn same_ssid_group_hidden_for_single_ap() {
    let list = vec![ap("AA:BB:CC:DD:EE:01", "Home", -55, true)];
    assert!(same_ssid_group_text("Home", &list, &no_aliases()).is_none());
    assert!(same_ssid_group_text("Home", &Vec::new(), &no_aliases()).is_none());
}

#[test]
fn same_ssid_group_shows_aliases() {
    let list = vec![
        ap("AA:BB:CC:DD:EE:01", "Home", -55, true),
        ap("AA:BB:CC:DD:EE:02", "Home", -70, false),
    ];
    let mut aliases = no_aliases();
    aliases.insert("AA:BB:CC:DD:EE:02".to_string(), "Office-AP-1".to_string());
    let text = same_ssid_group_text("Home", &list, &aliases).unwrap();
    // Alias is the primary label, MAC in parentheses, band included.
    assert!(text.contains("Office-AP-1 (AA:BB:CC:DD:EE:02)  -70 dBm ch36 5 GHz"));
}

#[test]
fn ap_table_columns_are_aligned() {
    let mut e24 = entry("AA:BB:CC:DD:EE:01", "Home", -55, true);
    e24.frequency_mhz = 2437;
    e24.channel = 6;
    let e1 = entry("FF:FF:FF:FF:FF:01", "VeryLongNetworkNameHere", -60, false);
    let e2 = entry("FF:FF:FF:FF:FF:02", "Noise", -100, false);
    let scan = vec![&e24, &e1, &e2];
    let text = format_ap_table(&scan, &no_aliases(), &Vec::new());
    let lines: Vec<&str> = text.trim_end().split('\n').collect();
    // Header + separator + 3 rows.
    assert_eq!(lines.len(), 5);
    assert!(lines[0].starts_with("SSID"));
    // Fixed-width columns → every row has exactly the same length
    // (monospace font renders this as aligned columns).
    let w = lines[1].len();
    for l in &lines {
        assert_eq!(l.len(), w, "row widths differ: {l:?}");
    }
    // The dBm value is right-aligned: it ends right before the CH column.
    assert!(lines[2].contains("      -55"));
}

#[test]
fn ap_table_empty_ssid_shows_hidden() {
    let mut e = entry("AA:BB:CC:DD:EE:01", "Home", -55, true);
    e.ssid = String::new();
    let scan = vec![&e];
    let text = format_ap_table(&scan, &no_aliases(), &Vec::new());
    assert!(text.contains("(hidden)"));
}

/// The lines of a table, after checking that they line up.
fn aligned_lines(text: &str) -> Vec<String> {
    let lines: Vec<String> = text.lines().map(|l| l.to_string()).collect();
    let w = lines[1].chars().count();
    for l in &lines {
        assert_eq!(l.chars().count(), w, "row widths differ: {l:?}");
    }
    lines
}

#[test]
fn ap_table_with_a_short_width_tag_is_aligned() {
    let mut e = entry("AA:BB:CC:DD:EE:01", "Home", -55, true);
    e.channel_width_mhz = Some(40);
    let f = entry("AA:BB:CC:DD:EE:02", "Home", -65, false);
    let lines = aligned_lines(&format_ap_table(&vec![&e, &f], &no_aliases(), &Vec::new()));
    assert_eq!(
        lines,
        vec![
            "SSID  AP                  SIGNAL   CH  WIDTH     BAND",
            "----  -----------------  -------  ---  -----  -------",
            "Home  AA:BB:CC:DD:EE:01      -55   36  40M      5 GHz",
            "Home  AA:BB:CC:DD:EE:02      -65   36           5 GHz",
        ]
    );
}

#[test]
fn ap_table_without_width_tags_has_no_width_column() {
    let mut e = entry("AA:BB:CC:DD:EE:01", "Home", -55, true);
    e.channel_width_mhz = Some(20);
    let lines = aligned_lines(&format_ap_table(&vec![&e], &no_aliases(), &Vec::new()));
    assert_eq!(lines[0], "SSID  AP                  SIGNAL   CH     BAND");
}

#[test]
fn ap_table_with_a_long_ssid_is_aligned() {
    let long = "ABCDEFGHIJKLMNOPQRSTUVWXYZ012345";
    let a = entry("AA:BB:CC:DD:EE:01", long, -55, true);
    let b = entry("AA:BB:CC:DD:EE:02", "Café", -65, false);
    let lines = aligned_lines(&format_ap_table(
        &vec![&a, &b],
        &no_aliases(),
        &vec!["AA:BB:CC:DD:EE:01".to_string()],
    ));
    assert_eq!(lines.len(), 4);
    assert!(lines[2].starts_with("● ABCDEFGHIJKLMNOPQRSTUVWXYZ012345  "));
    assert!(lines[3].starts_with("Café  "));
}

#[test]
fn ap_table_ssid_column_has_up_to_26_bytes() {
    let width = |ssid: &str, marked: bool| -> usize {
        let e = entry("AA:BB:CC:DD:EE:01", ssid, -55, true);
        let marks = if marked { vec!["AA:BB:CC:DD:EE:01".to_string()] } else { Vec::new() };
        let lines = aligned_lines(&format_ap_table(&vec![&e], &no_aliases(), &marks));
        lines[1].find(' ').unwrap()
    };
    assert_eq!(width("A", false), 4);
    assert_eq!(width("Home", true), 8);
    assert_eq!(width("Café", false), 5);
    // More than 26 bytes, but not more than 26 characters.
    assert_eq!(width("ABCDEFGHIJKLMNOPQRSTUVWX", true), 26);
    assert_eq!(width("абвгдежзийклмн", false), 26);
    // More than 26 characters.
    assert_eq!(width("ABCDEFGHIJKLMNOPQRSTUVWXYZ0", false), 27);
}

#[test]
fn ap_table_marks_the_target() {
    let a = entry("AA:BB:CC:DD:EE:01", "Home", -55, true);
    let b = entry("AA:BB:CC:DD:EE:02", "Home", -65, false);
    let text = format_ap_table(&vec![&a, &b], &no_aliases(), &vec!["AA:BB:CC:DD:EE:02".to_string()]);
    let marked: Vec<&str> = text.lines().filter(|l| l.contains('●')).collect();
    assert_eq!(marked.len(), 1);
    assert!(marked[0].contains("AA:BB:CC:DD:EE:02"));
}

#[test]
fn scan_list_section_shows_own_ssid_aps_only() {
    let scan = vec![
        entry("AA:BB:CC:DD:EE:01", "Home", -55, true),
        entry("AA:BB:CC:DD:EE:02", "Home", -70, false),
        entry("FF:FF:FF:FF:FF:01", "Other", -60, false),
        entry("FF:FF:FF:FF:FF:02", "Net2", -65, false),
    ];
    let text = format_scan_list_section(&scan, "Home", &no_aliases());
    // Own SSID group header + its APs; the other networks are only in
    // the popup (not in the details text).
    assert!(text.contains("── Home (2 APs) ──"));
    assert!(text.contains("● AA:BB:CC:DD:EE:01  -55 dBm"));
    assert!(text.contains("AA:BB:CC:DD:EE:02  -70 dBm"));
    assert!(!text.contains("FF:FF:FF:FF:FF:01"));
    assert!(!text.contains("Other networks"));
}

#[test]
fn scan_list_section_empty_scan_gives_empty_text() {
    assert_eq!(format_scan_list_section(&Vec::new(), "Home", &no_aliases()), "");
}

#[test]
fn scan_list_section_no_own_aps_gives_empty_text() {
    // The measured SSID's APs are not in the scan list (shouldn't happen
    // in practice) → no inline section; the popup button still works.
    let scan = vec![entry("FF:FF:FF:FF:FF:01", "Other", -60, false)];
    assert_eq!(format_scan_list_section(&scan, "Home", &no_aliases()), "");
}

#[test]
fn quality_names() {
    assert_eq!(signal_quality_str(-50), "Excellent");
    assert_eq!(signal_quality_str(-51), "Good");
    assert_eq!(signal_quality_str(-70), "Fair");
    assert_eq!(signal_quality_str(-80), "Poor");
    assert_eq!(signal_quality_str(-81), "No signal");
}

fn point(id: &str, ssid: &str, dbm: i32) -> Measurement {
    let mut m = Measurement::new(
        number(0.5),
        number(0.5),
        ssid.to_string(),
        "AA:BB:CC:DD:EE:01".to_string(),
        5180,
        36,
        dbm,
    );
    m.id = id.to_string();
    m
}

#[test]
fn list_rows() {
    let source = SignalSource::ConnectedAp;
    let mut m = point("a", "Home", -55);
    assert_eq!(measurement_row(&m, "12:34:56", &source, "", ""), "Home | -55 dBm | 12:34:56");
    m.smb_mbps = Some(number(90.0));
    assert_eq!(
        measurement_row(&m, "12:34:56", &source, "", "90M"),
        "Home | -55 dBm | 12:34:56 | 🗂90M"
    );
    m.iperf_mbps = Some(number(120.0));
    assert_eq!(
        measurement_row(&m, "12:34:56", &source, "120M", "90M"),
        "Home | -55 dBm | 12:34:56 | ⚡120M"
    );
    let gone = SignalSource::Bssid("99".to_string());
    m.iperf_mbps = None;
    m.smb_mbps = None;
    assert_eq!(measurement_row(&m, "12:34:56", &gone, "", ""), "Home | — | 12:34:56");
    let mut dead = Measurement::no_signal(number(0.1), number(0.1));
    assert_eq!(measurement_row(&dead, "12:34:56", &source, "", ""), "⚫ No signal | 12:34:56");
    dead.scan_results = vec![entry("01", "Home", -80, false)];
    assert_eq!(measurement_row(&dead, "12:34:56", &source, "", ""), "⚫ No connection | 12:34:56");
    // The time in the row is the measurement's time of day.
    let row = make_row(&m, &source, "", "");
    assert_eq!(row, format!("Home | -55 dBm | {}", m.timestamp.time_text()));
}

#[test]
fn panel_selection_and_rows() {
    let mut panel = MeasurementPanel::new();
    assert_eq!(panel.current_label("", ""), "No WiFi data");
    let mut a = point("a", "Home", -55);
    a.scan_results = vec![entry("AA:BB:CC:DD:EE:01", "Home", -55, true)];
    panel.set_measurements(vec![a, point("b", "Attic", -65)]);
    // The newest measurement has the first row.
    assert_eq!(panel.rows, vec!["b", "a"]);
    assert_eq!(panel.set_selected_by_id(Some("a".to_string())), Some(1));
    let s = panel.selection("", "");
    assert!(s.details.contains("Home"));
    assert!(s.details.contains("-55 dBm (Good)"));
    assert_eq!(s.networks_button, Some("All networks in range (1 APs) ▸".to_string()));
    let popup = panel.networks_popup().unwrap();
    assert_eq!(popup.title, "All networks in range — 1 APs");
    assert!(popup.body.starts_with("1 APs in range at this point:\n\n"));
    // Without a scan there is no button and no popup.
    assert_eq!(panel.set_selected_by_id(Some("b".to_string())), Some(0));
    assert_eq!(panel.selection("", "").networks_button, None);
    assert!(panel.networks_popup().is_none());
    assert_eq!(panel.set_selected_by_id(Some("zzz".to_string())), None);
    assert_eq!(panel.set_selected_by_id(None), None);
    assert_eq!(
        panel.selection("", "").details,
        "No measurement selected — use the Select tool and click a point on the map."
    );
}

#[test]
fn panel_details_follow_source_and_aliases() {
    let mut panel = MeasurementPanel::new();
    let mut a = point("a", "Home", -55);
    a.scan_results = vec![
        entry("AA:BB:CC:DD:EE:01", "Home", -55, true),
        entry("AA:BB:CC:DD:EE:02", "Home", -72, false),
    ];
    panel.set_measurements(vec![a]);
    panel.set_selected_by_id(Some("a".to_string()));
    panel.set_signal_source(SignalSource::Bssid("AA:BB:CC:DD:EE:02".to_string()));
    assert!(panel.selection("", "").details.contains("-72 dBm"));
    let mut aliases = no_aliases();
    aliases.insert("AA:BB:CC:DD:EE:02".to_string(), "Attic AP".to_string());
    panel.set_aliases(aliases);
    assert!(panel.selection("", "").details.contains("Attic AP"));
}

#[test]
fn panel_current_signal() {
    let mut panel = MeasurementPanel::new();
    let info = ap("AA:BB:CC:DD:EE:01", "Home", -55, true);
    panel.refresh_live_signal(&info, None);
    assert_eq!(
        panel.current_label("", ""),
        "SSID: Home\nBSSID: AA:BB:CC:DD:EE:01\nSignal: -55 dBm (Good)\nBand: 5 GHz | Ch: 36\nCard: wlan0"
    );
    panel.update_current_wifi(current_signal(&info, Some(number(120.0)), None, None));
    assert!(panel.current_label("120 Mbit/s", "").ends_with("\niperf3: 120 Mbit/s"));
    panel.set_no_wifi();
    assert_eq!(panel.current_label("", ""), "No WiFi connection detected");
    panel.set_measuring(true, "Scanning WiFi…");
    assert_eq!(panel.status, Some("Scanning WiFi…".to_string()));
    panel.set_measuring(false, "");
    assert_eq!(panel.status, None);
    panel.set_network_warning(Some("warning".to_string()));
    assert_eq!(panel.network_warning, Some("warning".to_string()));
}

#[test]
fn panel_card_selector() {
    let mut panel = MeasurementPanel::new();
    let one = vec!["wlan0".to_string()];
    let two = vec!["wlan0".to_string(), "wlan1".to_string()];
    assert!(!panel.set_card_selector(&one, Some("wlan0")));
    assert!(!panel.cards_visible);
    assert!(panel.set_card_selector(&two, Some("wlan1")));
    assert!(panel.cards_visible);
    assert_eq!(panel.active_card, Some(1));
    // The same cards are not filled in again; an unknown one highlights the first.
    assert!(!panel.set_card_selector(&two, Some("wlan9")));
    assert_eq!(panel.active_card, Some(0));
    // What the program set is no choice of the user's.
    assert_eq!(panel.card_changed(Some(0)), None);
    assert_eq!(panel.card_changed(Some(1)), Some("wlan1".to_string()));
    assert_eq!(panel.card_changed(None), None);
}

// ── Legend ─────────────────────────────────────────────────────────────────

#[test]
fn legend_scale_and_ticks() {
    let mut legend = LegendBar::new();
    assert_eq!((legend.min, legend.max, legend.active), (-90, -50, false));
    assert_eq!(
        legend_ticks(legend.metric),
        vec![(-90, "Very poor"), (-80, "Poor"), (-70, "Fair"), (-60, "Good"), (-50, "Excellent")]
    );
    legend.set_color_metric(ColorMetric::SmbMbps);
    assert_eq!((legend.min, legend.max), (0, 1000));
    assert_eq!(
        legend_ticks(legend.metric),
        vec![(0, "0"), (250, "250"), (500, "500"), (750, "750"), (1000, "1 Gbit")]
    );
    legend.set_measurements(&Vec::new());
    assert!(legend.active);
}

#[test]
fn legend_marker() {
    let source = SignalSource::ConnectedAp;
    let mut legend = LegendBar::new();
    assert_eq!(legend.marker_value(&source), None);
    legend.set_current_signal(Some(-61));
    assert_eq!(legend.marker_value(&source), Some(MetricValue::Dbm(-61)));
    legend.set_selected_measurement(Some(point("a", "Home", -55)));
    assert_eq!(legend.marker_value(&source), Some(MetricValue::Dbm(-55)));
    // A no-signal point has no value, and the live signal does not stand in.
    legend.set_selected_measurement(Some(Measurement::no_signal(number(0.1), number(0.1))));
    assert_eq!(legend.marker_value(&source), None);
    legend.set_selected_measurement(None);
    legend.set_color_metric(ColorMetric::IperfMbps);
    assert_eq!(legend.marker_value(&source), None);
}

// ── Channel report ─────────────────────────────────────────────────────────

fn scan_entry(ssid: &str, bssid: &str, ch: u8, freq: u32, dbm: i32, width: Option<u32>) -> ScanEntry {
    ScanEntry {
        ssid: ssid.to_string(),
        bssid: bssid.to_string(),
        frequency_mhz: freq,
        channel: ch,
        signal_dbm: dbm,
        is_active: false,
        channel_width_mhz: width,
        center_freq_mhz: None,
        center_freq2_mhz: None,
    }
}

fn m_with_scan(scan: Vec<ScanEntry>) -> Measurement {
    let mut m = point("a", "Home", -55);
    m.scan_results = scan;
    m
}

fn sig(ch: u8, bssid: &str, dbm: i32) -> Sighting {
    Sighting {
        channel: ch,
        frequency_mhz: 5000 + ch as u32 * 5,
        ssid: "Home".into(),
        bssid: bssid.to_string(),
        signal_dbm: dbm,
        width_mhz: None,
        center_freq_mhz: None,
        center_freq2_mhz: None,
    }
}

fn mean(level: &Level) -> f64 {
    level.sum as f64 / level.count as f64
}

fn lobes(primary: u32, width: Option<u32>, center: Option<u32>, center2: Option<u32>) -> Vec<(f64, f64)> {
    bar_lobes(primary, width, center, center2)
        .iter()
        .map(|l| (l.left_half_mhz as f64 / 2.0, l.span_mhz as f64))
        .collect()
}

#[test]
fn band_channels_lists() {
    assert_eq!(band_channels("2.4 GHz"), (1..=14).collect::<Vec<u8>>());
    let g5 = band_channels("5 GHz");
    assert!(g5.contains(&36) && g5.contains(&144) && g5.contains(&149) && g5.contains(&177));
    assert_eq!(g5[0], 36);
    assert_eq!(g5.last(), Some(&177));
    let g6 = band_channels("6 GHz");
    assert_eq!(g6[0], 2); // 5935 MHz is the lowest 6 GHz channel
    assert_eq!(g6[1], 1);
    assert_eq!(g6.last(), Some(&233));
    assert_eq!(g6.len(), 60);
    assert!(band_channels("weird").is_empty());
}

#[test]
fn band_freq_ranges_and_channel_freq() {
    assert_eq!(band_freq_range("2.4 GHz"), (2400, 2500));
    assert_eq!(band_freq_range("5 GHz"), (5150, 5925));
    assert_eq!(band_freq_range("6 GHz"), (5925, 7125));
    assert_eq!(channel_freq(1), 2412);
    assert_eq!(channel_freq(6), 2437);
    assert_eq!(channel_freq(36), 5180);
    assert_eq!(channel_freq(149), 5745);
    // 6 GHz: its own numbering
    assert_eq!(band_channel_freq("6 GHz", 2), 5935);
    assert_eq!(band_channel_freq("6 GHz", 1), 5955);
    assert_eq!(band_channel_freq("6 GHz", 233), 7115);
    assert_eq!(band_channel_freq("5 GHz", 36), 5180);
    assert_eq!(band_channel_freq("2.4 GHz", 6), 2437);
}

#[test]
fn bar_lobes_cover_the_actual_spectrum() {
    // 20 MHz (width unknown): centered on the channel frequency.
    assert_eq!(lobes(5180, None, None, None), vec![(5170.0, 20.0)]);
    assert_eq!(lobes(2437, Some(20), None, None), vec![(2427.0, 20.0)]);
    // 40 MHz with recorded center: 5180 + center 5190 → 5170–5210.
    assert_eq!(lobes(5180, Some(40), Some(5190), None), vec![(5170.0, 40.0)]);
    // 40 MHz without center: derived from the base (5180 + 10 = 5190).
    assert_eq!(lobes(5180, Some(40), None, None), vec![(5170.0, 40.0)]);
    // 80 MHz: base + 30 = center, so 5180 → 5170–5250.
    assert_eq!(lobes(5180, Some(80), Some(5210), None), vec![(5170.0, 80.0)]);
    // 160 MHz: base + 70 = center 5250 → 5180 → 5170–5330.
    assert_eq!(lobes(5180, Some(160), None, None), vec![(5170.0, 160.0)]);
    // 80+80 (stored as 160 with a second center): two 80 MHz lobes.
    assert_eq!(
        lobes(5180, Some(160), Some(5190), Some(5270)),
        vec![(5150.0, 80.0), (5230.0, 80.0)]
    );
}

#[test]
fn sightings_filter_by_band() {
    let m = m_with_scan(vec![
        scan_entry("Home", "AA:BB:CC:DD:EE:01", 6, 2437, -60, None),
        scan_entry("Home", "AA:BB:CC:DD:EE:02", 36, 5180, -55, Some(40)),
        scan_entry("Home", "AA:BB:CC:DD:EE:03", 1, 5955, -70, None),
    ]);
    assert_eq!(sightings_of(&m, "2.4 GHz").len(), 1);
    assert_eq!(sightings_of(&m, "5 GHz").len(), 1);
    assert_eq!(sightings_of(&m, "6 GHz").len(), 1);
    assert_eq!(sightings_of(&m, "5 GHz")[0].channel, 36);
    assert_eq!(sightings_of(&m, "5 GHz")[0].width_mhz, Some(40));
}

#[test]
fn sightings_fall_back_to_measurement_width() {
    // A point whose scan entries lack width/center (old data), but
    // whose measurement recorded them for the measured AP.
    let mut m = m_with_scan(vec![
        scan_entry("Home", "AA:BB:CC:DD:EE:01", 36, 5180, -55, None),
        scan_entry("Other", "AA:BB:CC:DD:EE:02", 36, 5180, -70, None),
    ]);
    m.channel_width_mhz = Some(40);
    m.center_freq_mhz = Some(5190);
    let ss = sightings_of(&m, "5 GHz");
    assert_eq!(ss.len(), 2);
    let own = ss.iter().find(|s| s.bssid == "AA:BB:CC:DD:EE:01").unwrap();
    assert_eq!(own.width_mhz, Some(40));
    assert_eq!(own.center_freq_mhz, Some(5190));
    let other = ss.iter().find(|s| s.bssid == "AA:BB:CC:DD:EE:02").unwrap();
    assert_eq!(other.width_mhz, None);
}

#[test]
fn aggregate_strongest_and_average() {
    let mut ss = vec![
        sig(36, "AA:BB:CC:DD:EE:01", -60),
        sig(36, "AA:BB:CC:DD:EE:01", -70),
        sig(36, "AA:BB:CC:DD:EE:02", -50),
        sig(40, "AA:BB:CC:DD:EE:02", -55),
    ];
    ss[2].width_mhz = Some(40);
    let strong: BTreeMap<u8, ChannelAgg> = aggregate_by_channel(&ss, Aggregation::Strongest);
    assert_eq!(strong.len(), 2);
    let ch36 = &strong[&36];
    assert_eq!(ch36.aps.len(), 2);
    let a1 = ch36.aps.iter().find(|a| a.bssid == "AA:BB:CC:DD:EE:01").unwrap();
    assert_eq!(mean(&a1.signal_dbm), -60.0);
    assert_eq!(a1.sightings, 2);
    assert_eq!(a1.freq_mhz, 5180);
    assert_eq!(mean(&ch36.channel_dbm), -50.0); // strongest across the channel
    let ch40 = &strong[&40];
    assert_eq!(mean(&ch40.channel_dbm), -55.0);
    let a2 = ch36.aps.iter().find(|a| a.bssid == "AA:BB:CC:DD:EE:02").unwrap();
    assert_eq!(a2.width_mhz, Some(40));

    let avg = aggregate_by_channel(&ss, Aggregation::Average);
    let ch36 = &avg[&36];
    let a1 = ch36.aps.iter().find(|a| a.bssid == "AA:BB:CC:DD:EE:01").unwrap();
    assert!((mean(&a1.signal_dbm) - (-65.0)).abs() < 1e-9);
    assert!((mean(&ch36.channel_dbm) - (-60.0)).abs() < 1e-9); // (-60-70-50)/3
}

#[test]
fn measurement_label_format() {
    let m = m_with_scan(vec![scan_entry("Home", "AA:BB:CC:DD:EE:01", 36, 5180, -55, None)]);
    let s = measurement_label(&m, "2024-01-01", "00:00", "0.50", "0.50");
    assert!(s.contains("Home (ch 36)"), "{s}");
    assert!(s.contains("(0.50, 0.50)"), "{s}");
    assert!(s.contains("—"), "{s}");
}

#[test]
fn measurement_label_no_signal() {
    let mut m = m_with_scan(vec![
        scan_entry("Other", "AA:BB:CC:DD:EE:02", 6, 2437, -80, None),
        scan_entry("Third", "AA:BB:CC:DD:EE:03", 36, 5180, -70, None),
    ]);
    m.no_signal = true;
    let s = measurement_label(&m, "2024-01-01", "00:00", "0.50", "0.50");
    assert!(s.contains("No connection (2 APs)"), "{s}");
}

#[test]
fn truncation() {
    assert_eq!(truncate("short", 10), "short");
    let t = truncate("aabbccddee", 4);
    assert_eq!(t.chars().count(), 4);
    assert!(t.ends_with('…'));
}

#[test]
fn aggregation_choice() {
    assert_eq!(Aggregation::from_index(0), Aggregation::Strongest);
    assert_eq!(Aggregation::from_index(1), Aggregation::Average);
    assert_eq!(Aggregation::from_index(99), Aggregation::Strongest);
}

#[test]
fn point_report_is_strongest_first() {
    let ss = vec![sig(36, "01", -70), sig(40, "02", -50), sig(44, "03", -60)];
    let bars = point_bars(&ss, &no_aliases());
    let drawn: Vec<&str> = bars.iter().map(|b| b.bssid.as_str()).collect();
    assert_eq!(drawn.len(), 3);
    let colors = vec!["#111111".to_string(), "#222222".to_string(), "#333333".to_string()];
    let rows = point_rows(&ss, &no_aliases(), &colors);
    let keys: Vec<&str> =
        rows.iter().filter_map(|r| r.key.as_ref().map(|k| k.bssid.as_str())).collect();
    assert_eq!(keys, vec!["02", "03", "01"]);
}

#[test]
fn survey_report() {
    let ss = vec![sig(36, "01", -70), sig(36, "02", -50), sig(44, "03", -60)];
    let agg = aggregate_by_channel(&ss, Aggregation::Strongest);
    let channels = survey_channels(&agg);
    let order: Vec<u8> = channels.iter().map(|c| c.channel).collect();
    assert_eq!(order, vec![36, 44]);
    let texts = strongest_texts(&channels);
    assert_eq!(texts[0].channel.trim(), "-50");
    let bars = survey_bars(&channels, &no_aliases(), &texts);
    assert_eq!(bars.len(), 3);
    let colors = vec!["#111111".to_string(), "#222222".to_string()];
    let rows = survey_rows(channels[0], &no_aliases(), &texts[0], &colors);
    let keys: Vec<&str> =
        rows.iter().filter_map(|r| r.key.as_ref().map(|k| k.bssid.as_str())).collect();
    assert_eq!(keys, vec!["02", "01"]);
    // 5180 is covered by bars, 5805 is not.
    assert!(!is_free_channel(&bars, 5180));
    assert!(is_free_channel(&bars, 5805));
}

#[test]
fn hovering() {
    let ss = vec![sig(36, "01", -70), sig(40, "02", -50)];
    let bars = point_bars(&ss, &no_aliases());
    let key = HoverKey { channel: 36, bssid: "01".to_string() };
    let order = draw_order(&bars, &Some(key.clone()));
    assert_eq!(order.len(), bars.len());
    // The hovered bar is drawn last, on top of the others.
    assert_eq!(bars[*order.last().unwrap()].bssid, "01");
    for b in &bars {
        let want = if b.bssid == "01" { Emphasis::Highlighted } else { Emphasis::Dimmed };
        assert!(bar_emphasis(b, &Some(key.clone())) == want);
        assert!(bar_emphasis(b, &None) == Emphasis::Normal);
    }
    assert_eq!(chart_hit_test(&vec![false, false]), None);
    assert!(chart_hit_test(&vec![false, true]).is_some());

    let mut sync = BandSync::new();
    sync.add_row(key.clone());
    sync.add_row(HoverKey { channel: 40, bssid: "02".to_string() });
    assert_eq!(sync.set_hover(Some(key.clone())), Some(vec![true, false]));
    // Nothing changes, nothing to redraw.
    assert_eq!(sync.set_hover(Some(key.clone())), None);
    assert!(sync.is_hovered(&key));
    assert_eq!(sync.leave_row(&key), Some(vec![false, false]));
}

#[test]
fn report_texts() {
    let a = m_with_scan(vec![scan_entry("Home", "01", 36, 5180, -55, None)]);
    let b = point("b", "Home", -60);
    let points = vec![a, b];
    assert_eq!(report_points(&points), vec![0]);
    assert!(report_title("Ground floor").contains("Ground floor"));
    assert!(point_notice(None).is_some());
    assert!(point_notice(Some(&points[0])).is_none());
    assert!(point_notice(Some(&points[1])).is_some());
    let both = vec![true, true];
    let none = vec![false, false];
    assert!(survey_count_text(&both).contains('2'));
    assert_eq!(survey_sightings(&points, &both, "5 GHz").len(), 1);
    assert_eq!(survey_sightings(&points, &none, "5 GHz").len(), 0);
    assert!(survey_notice(&points, &both).is_none());
    assert!(survey_notice(&points, &none).is_some());
}

#[test]
fn every_channel_lies_in_its_band() {
    for band in ["2.4 GHz", "5 GHz", "6 GHz"] {
        let (lo, hi) = band_freq_range(band);
        let freqs: Vec<u32> =
            band_channels(band).iter().map(|c| band_channel_freq(band, *c)).collect();
        assert!(freqs.iter().all(|f| lo < *f && *f < hi));
        assert!(freqs.windows(2).all(|w| w[0] < w[1]));
    }
}

#[test]
fn averages_stay_below_the_strongest() {
    let ss = vec![sig(36, "01", -60), sig(36, "01", -61), sig(36, "02", -90)];
    let strong = aggregate_by_channel(&ss, Aggregation::Strongest);
    let avg = aggregate_by_channel(&ss, Aggregation::Average);
    assert!(mean(&avg[&36].channel_dbm) <= mean(&strong[&36].channel_dbm));
    // Every sighting is counted once.
    let seen: usize = strong[&36].aps.iter().map(|a| a.sightings).sum();
    assert_eq!(seen, ss.len());
    // An odd level is not rounded.
    assert_eq!(mean(&avg[&36].aps[0].signal_dbm), -60.5);
}

#[test]
fn order_of_sightings_does_not_matter() {
    let ss = vec![
        sig(36, "02", -70),
        sig(36, "01", -61),
        sig(44, "01", -90),
        sig(36, "01", -60),
        sig(36, "02", -40),
    ];
    let mut turned = ss.clone();
    turned.reverse();
    turned.swap(0, 2);
    for agg in [Aggregation::Strongest, Aggregation::Average] {
        let a = aggregate_by_channel(&ss, agg);
        let b = aggregate_by_channel(&turned, agg);
        let keys: Vec<u8> = a.keys().cloned().collect();
        assert_eq!(keys, vec![36, 44]);
        assert_eq!(keys, b.keys().cloned().collect::<Vec<u8>>());
        let mut counted = 0;
        for ch in keys {
            assert_eq!(a[&ch].channel_dbm, b[&ch].channel_dbm);
            let of = |c: &ChannelAgg| -> Vec<(String, usize, Level)> {
                c.aps.iter().map(|ap| (ap.bssid.clone(), ap.sightings, ap.signal_dbm)).collect()
            };
            assert_eq!(of(&a[&ch]), of(&b[&ch]));
            counted += of(&a[&ch]).iter().map(|ap| ap.1).sum::<usize>();
        }
        assert_eq!(counted, ss.len());
    }
    let strong = aggregate_by_channel(&ss, Aggregation::Strongest);
    let aps: Vec<(&str, i64)> =
        strong[&36].aps.iter().map(|ap| (ap.bssid.as_str(), ap.signal_dbm.sum)).collect();
    assert_eq!(aps, vec![("01", -60), ("02", -40)]);
    assert_eq!(strong[&36].channel_dbm, Level { sum: -40, count: 1 });
}
