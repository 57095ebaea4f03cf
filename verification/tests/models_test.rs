use wifichecker::clock;
use wifichecker::clock::Timestamp;
use wifichecker::models::band_label;
use wifichecker::models::center_label;
use wifichecker::models::color_metric::metric_value;
use wifichecker::models::color_metric::no_signal_metric_value;
use wifichecker::models::color_metric::MetricValue;
use wifichecker::models::signal_for;
use wifichecker::models::signal_source::find_best_of_ssid;
use wifichecker::models::width_center_suffix;
use wifichecker::models::width_label;
use wifichecker::models::width_tag;
use wifichecker::models::ColorMetric;
use wifichecker::models::Floor;
use wifichecker::models::Measurement;
use wifichecker::models::Project;
use wifichecker::models::RealBits;
use wifichecker::models::ScanEntry;
use wifichecker::models::SignalSource;

fn number(v: f64) -> RealBits {
    RealBits { bits: v.to_bits() }
}

fn point(x: f64, y: f64, ssid: &str, bssid: &str, freq: u32, channel: u8, dbm: i32) -> Measurement {
    Measurement::new(number(x), number(y), ssid.to_string(), bssid.to_string(), freq, channel, dbm)
}

fn heard(ssid: &str, bssid: &str, freq: u32, channel: u8, dbm: i32, active: bool) -> ScanEntry {
    ScanEntry {
        ssid: ssid.to_string(),
        bssid: bssid.to_string(),
        frequency_mhz: freq,
        channel,
        signal_dbm: dbm,
        is_active: active,
        channel_width_mhz: None,
        center_freq_mhz: None,
        center_freq2_mhz: None,
    }
}

// ── Labels ─────────────────────────────────────────────────────────────────

#[test]
fn band_labels() {
    assert_eq!(band_label(2437), "2.4 GHz");
    assert_eq!(band_label(5180), "5 GHz");
    assert_eq!(band_label(5955), "6 GHz");
}

#[test]
fn width_labels() {
    assert_eq!(width_label(None, None), None);
    assert_eq!(width_label(Some(20), None), Some("20 MHz".to_string()));
    assert_eq!(width_label(Some(40), None), Some("40 MHz".to_string()));
    assert_eq!(width_label(Some(80), None), Some("80 MHz".to_string()));
    assert_eq!(width_label(Some(160), None), Some("160 MHz".to_string()));
    assert_eq!(width_label(Some(160), Some(5690)), Some("80+80 MHz".to_string()));
    assert_eq!(width_label(Some(320), None), Some("320 MHz".to_string()));
}

#[test]
fn center_labels() {
    assert_eq!(center_label(None, Some(5190), None), None);
    assert_eq!(center_label(Some(20), Some(5180), None), None);
    assert_eq!(center_label(Some(40), Some(5190), None), Some("ctr 5190 MHz".to_string()));
    assert_eq!(
        center_label(Some(160), Some(5190), Some(5690)),
        Some("ctr 5190 + 5690 MHz".to_string())
    );
    assert_eq!(center_label(Some(80), None, None), None);
}

#[test]
fn width_center_suffixes() {
    assert_eq!(width_center_suffix(None, None, None), "");
    assert_eq!(width_center_suffix(Some(20), Some(5180), None), "");
    assert_eq!(width_center_suffix(Some(40), Some(5190), None), " | 40 MHz | ctr 5190 MHz");
    assert_eq!(
        width_center_suffix(Some(160), Some(5190), Some(5690)),
        " | 80+80 MHz | ctr 5190 + 5690 MHz"
    );
}

#[test]
fn width_tags() {
    assert_eq!(width_tag(None, None), None);
    assert_eq!(width_tag(Some(20), None), None);
    assert_eq!(width_tag(Some(40), None), Some("40M".to_string()));
    assert_eq!(width_tag(Some(160), Some(5690)), Some("80+80M".to_string()));
    assert_eq!(width_tag(Some(320), None), Some("320M".to_string()));
}

// ── Colour metric ──────────────────────────────────────────────────────────

#[test]
fn default_metric_is_signal() {
    assert_eq!(ColorMetric::default(), ColorMetric::SignalDbm);
}

#[test]
fn reference_range_signal() {
    assert_eq!(ColorMetric::SignalDbm.reference_range(), (-90, -50));
}

#[test]
fn reference_range_bandwidth_is_1_gbit() {
    assert_eq!(ColorMetric::IperfMbps.reference_range(), (0, 1000));
    assert_eq!(ColorMetric::SmbMbps.reference_range(), (0, 1000));
}

#[test]
fn metric_labels_and_units() {
    assert_eq!(ColorMetric::SignalDbm.label(), "Signal");
    assert_eq!(ColorMetric::IperfMbps.label(), "iperf");
    assert_eq!(ColorMetric::SmbMbps.label(), "Samba");
    assert_eq!(ColorMetric::SignalDbm.unit(), "dBm");
    assert_eq!(ColorMetric::SmbMbps.unit(), "Mbit/s");
}

#[test]
fn metric_value_no_signal_is_none() {
    let m = Measurement::no_signal(number(0.5), number(0.5));
    // No-signal points have no value on the scale (they are "no data").
    assert_eq!(metric_value(&m, ColorMetric::SignalDbm, &SignalSource::ConnectedAp), None);
    assert_eq!(metric_value(&m, ColorMetric::IperfMbps, &SignalSource::ConnectedAp), None);
    assert_eq!(metric_value(&m, ColorMetric::SmbMbps, &SignalSource::ConnectedAp), None);
}

#[test]
fn metric_value_signal_resolves_through_source() {
    let mut m = point(0.5, 0.5, "Home", "AA:BB:CC:DD:EE:01", 5180, 36, -55);
    m.scan_results = vec![
        heard("Home", "AA:BB:CC:DD:EE:01", 5180, 36, -55, true),
        heard("Home", "AA:BB:CC:DD:EE:02", 2437, 6, -72, false),
    ];
    // Connected AP source → the associated AP's dBm.
    assert_eq!(
        metric_value(&m, ColorMetric::SignalDbm, &SignalSource::ConnectedAp),
        Some(MetricValue::Dbm(-55))
    );
    // A specific BSSID source → that AP's dBm.
    assert_eq!(
        metric_value(
            &m,
            ColorMetric::SignalDbm,
            &SignalSource::Bssid("AA:BB:CC:DD:EE:02".to_string())
        ),
        Some(MetricValue::Dbm(-72))
    );
    // A BSSID not in range → no data.
    assert_eq!(
        metric_value(
            &m,
            ColorMetric::SignalDbm,
            &SignalSource::Bssid("AA:BB:CC:DD:EE:99".to_string())
        ),
        None
    );
    // Throughput metrics ignore the source.
    m.iperf_mbps = Some(number(120.0));
    assert_eq!(
        metric_value(
            &m,
            ColorMetric::IperfMbps,
            &SignalSource::Bssid("AA:BB:CC:DD:EE:99".to_string())
        ),
        Some(MetricValue::Mbps(number(120.0)))
    );
}

#[test]
fn no_signal_metric_value_resolves_from_scan() {
    let mut m = Measurement::no_signal(number(0.5), number(0.5));
    m.scan_results = vec![
        heard("Home", "AA:BB:CC:DD:EE:01", 5180, 36, -60, false),
        heard("Home", "AA:BB:CC:DD:EE:02", 5180, 40, -75, false),
        heard("OtherNet", "AA:BB:CC:DD:EE:09", 2437, 6, -45, false),
    ];
    let wanted = vec!["Home".to_string()];
    // Connected AP: by definition unconnected → no data (gray + cross).
    assert_eq!(no_signal_metric_value(&m, &SignalSource::ConnectedAp, &wanted), None);
    // Named SSID → strongest AP of that SSID in the scan.
    assert_eq!(
        no_signal_metric_value(&m, &SignalSource::Ssid("Home".to_string()), &wanted),
        Some(-60)
    );
    // Generic SSID source → best AP among the floor's wanted SSIDs
    // ("OtherNet" is in range but not wanted → ignored).
    assert_eq!(no_signal_metric_value(&m, &SignalSource::Ssid(String::new()), &wanted), Some(-60));
    // Specific BSSID → that AP's signal.
    assert_eq!(
        no_signal_metric_value(&m, &SignalSource::Bssid("AA:BB:CC:DD:EE:02".to_string()), &wanted),
        Some(-75)
    );
    // Wanted SSID / BSSID absent from the scan → no data.
    assert_eq!(no_signal_metric_value(&m, &SignalSource::Ssid("Gone".to_string()), &wanted), None);
    assert_eq!(
        no_signal_metric_value(&m, &SignalSource::Bssid("AA:BB:CC:DD:EE:99".to_string()), &wanted),
        None
    );

    // No scan at all (radio off / old point) → no data for any source.
    let bare = Measurement::no_signal(number(0.5), number(0.5));
    assert_eq!(
        no_signal_metric_value(&bare, &SignalSource::Ssid("Home".to_string()), &wanted),
        None
    );
    assert_eq!(no_signal_metric_value(&bare, &SignalSource::Ssid(String::new()), &wanted), None);
    // Regular points are never resolved through this path.
    let reg = point(0.5, 0.5, "Home", "AA:BB:CC:DD:EE:01", 5180, 36, -55);
    assert_eq!(
        no_signal_metric_value(&reg, &SignalSource::Bssid("AA:BB:CC:DD:EE:01".into()), &wanted),
        None
    );
}

// ── Measurements ───────────────────────────────────────────────────────────

fn make_measurement(signal_dbm: i32) -> Measurement {
    point(0.5, 0.5, "TestSSID", "AA:BB:CC:DD:EE:FF", 2412, 1, signal_dbm)
}

#[test]
fn test_signal_quality_excellent() {
    assert_eq!(make_measurement(-30).signal_quality_percent(), 100);
}

#[test]
fn test_signal_quality_no_signal() {
    assert_eq!(make_measurement(-90).signal_quality_percent(), 0);
}

#[test]
fn test_signal_quality_midpoint() {
    // (-60 + 90) * 100 / 60 = 50
    assert_eq!(make_measurement(-60).signal_quality_percent(), 50);
}

#[test]
fn test_signal_quality_clamped_above() {
    assert_eq!(make_measurement(-20).signal_quality_percent(), 100);
}

#[test]
fn test_signal_quality_clamped_below() {
    assert_eq!(make_measurement(-100).signal_quality_percent(), 0);
}

#[test]
fn test_signal_quality_near_boundaries() {
    // -31 dBm → (59 * 100) / 60 = 98
    assert_eq!(make_measurement(-31).signal_quality_percent(), 98);
    // -89 dBm → (1 * 100) / 60 = 1
    assert_eq!(make_measurement(-89).signal_quality_percent(), 1);
}

#[test]
fn signal_quality_of_extreme_levels() {
    assert_eq!(make_measurement(i32::MIN).signal_quality_percent(), 0);
    assert_eq!(make_measurement(i32::MAX).signal_quality_percent(), 100);
}

#[test]
fn test_measurement_new_optional_fields_are_none() {
    let m = make_measurement(-60);
    assert!(m.noise_dbm.is_none());
    assert!(m.link_speed_mbps.is_none());
    assert!(m.iperf_mbps.is_none());
    assert!(m.smb_mbps.is_none());
}

#[test]
fn test_measurement_new_fields() {
    let m = point(0.3, 0.7, "SSID", "AA:BB:CC:DD:EE:FF", 5180, 36, -65);
    assert_eq!(m.x, number(0.3));
    assert_eq!(m.y, number(0.7));
    assert_eq!(m.frequency_mhz, 5180);
    assert_eq!(m.channel, 36);
    assert_eq!(m.signal_dbm, -65);
    assert_eq!(m.ssid, "SSID");
    assert_eq!(m.bssid, "AA:BB:CC:DD:EE:FF");
}

#[test]
fn test_no_signal_measurement() {
    let m = Measurement::no_signal(number(0.2), number(0.8));
    assert!(m.no_signal);
    assert_eq!(m.x, number(0.2));
    assert_eq!(m.y, number(0.8));
    assert!(m.ssid.is_empty());
    assert!(m.bssid.is_empty());
    assert_eq!(m.signal_dbm, -90);
    assert!(m.iperf_mbps.is_none());
    assert!(m.smb_mbps.is_none());
}

#[test]
fn test_regular_measurement_is_not_no_signal() {
    let m = make_measurement(-60);
    assert!(!m.no_signal);
}

#[test]
fn test_uuid_format() {
    let m = make_measurement(-60);
    assert!(!m.id.is_empty());
    // UUID-like format: 5 groups separated by dashes
    let parts: Vec<&str> = m.id.split('-').collect();
    assert_eq!(parts.len(), 5);
    // All parts are non-empty hex strings
    for part in &parts {
        assert!(!part.is_empty());
        assert!(part.chars().all(|c| c.is_ascii_hexdigit()), "non-hex char in part: {part}");
    }
    // First group is exactly 8 hex chars (formatted with {:08x})
    assert_eq!(parts[0].len(), 8);
    // Second group is exactly 4 hex chars
    assert_eq!(parts[1].len(), 4);
    // Third group starts with '4' (version marker)
    assert!(parts[2].starts_with('4'));
    // Fourth group is exactly 4 hex chars
    assert_eq!(parts[3].len(), 4);
}

#[test]
fn test_uuid_version_and_variant_bits() {
    let m = make_measurement(-60);
    let parts: Vec<&str> = m.id.split('-').collect();
    // Version 4: third group starts with '4'
    assert!(parts[2].starts_with('4'));
    // Variant: fourth group starts with '8', '9', 'a', or 'b'
    let variant = parts[3].chars().next().unwrap();
    assert!(matches!(variant, '8' | '9' | 'a' | 'b'));
}

#[test]
fn scan_entry_band() {
    assert_eq!(heard("A", "B", 2412, 1, -50, false).band(), "2.4 GHz");
    assert_eq!(heard("A", "B", 6115, 33, -50, false).band(), "6 GHz");
}

// ── Time ───────────────────────────────────────────────────────────────────

#[test]
fn timestamps_are_shown_in_utc() {
    // 2024-01-01T00:00:00Z is 1704067200.
    let t = Timestamp::from_parts(1704067200, 0).unwrap();
    assert_eq!(t.time_text(), "00:00:00");
    assert_eq!(t.day_time_text(), "01-01 00:00:00");
    let t = Timestamp::from_parts(1704067200 + 45296, 999_999_999).unwrap();
    assert_eq!(t.time_text(), "12:34:56");
    assert_eq!(t.secs(), 1704112496);
    assert_eq!(t.nanos(), 999_999_999);
}

#[test]
fn timestamps_outside_the_calendar_are_refused() {
    assert!(Timestamp::from_parts(i64::MAX, 0).is_none());
    assert!(Timestamp::from_parts(i64::MIN, 0).is_none());
    assert!(Timestamp::from_parts(0, 4_000_000_000).is_none());
}

#[test]
fn a_new_measurement_has_the_current_time() {
    let before = Timestamp::now().secs();
    let m = make_measurement(-60);
    let after = Timestamp::now().secs();
    assert!(before <= m.timestamp.secs() && m.timestamp.secs() <= after);
    assert!(m.timestamp.nanos() < 1_000_000_000);
    // Well after the first version of this program.
    assert!(m.timestamp.secs() > 1_700_000_000);
}

#[test]
fn uuid_of_a_known_time() {
    let id = clock::uuid_from_nanos(0x0123_4567);
    let parts: Vec<&str> = id.split('-').collect();
    assert_eq!(parts.len(), 5);
    assert_eq!(parts[0], "01234567");
    assert_eq!(clock::uuid_from_nanos(0x0123_4567), id);
    assert_ne!(clock::uuid_from_nanos(0x0123_4568), id);
}

// ── Floors ─────────────────────────────────────────────────────────────────

#[test]
fn removing_a_measurement_by_id() {
    let mut f = Floor::new("F");
    for (id, dbm) in [("a", -50), ("b", -60), ("a", -70), ("c", -80)] {
        let mut m = make_measurement(dbm);
        m.id = id.to_string();
        f.add_measurement(m);
    }
    f.remove_measurement("missing");
    assert_eq!(f.measurements.len(), 4);
    f.remove_measurement("a");
    let left: Vec<&str> = f.measurements.iter().map(|m| m.id.as_str()).collect();
    assert_eq!(left, vec!["b", "c"]);
    // Removing what was just added undoes the addition.
    let mut m = make_measurement(-40);
    m.id = "new".to_string();
    f.add_measurement(m);
    f.remove_measurement("new");
    let left: Vec<&str> = f.measurements.iter().map(|m| m.id.as_str()).collect();
    assert_eq!(left, vec!["b", "c"]);
}

// ── Projects ───────────────────────────────────────────────────────────────

#[test]
fn test_project_new() {
    let p = Project::new("My Project");
    assert_eq!(p.name, "My Project");
    assert!(p.floors.is_empty());
}

#[test]
fn test_add_floor() {
    let mut p = Project::new("Test");
    p.add_floor(Floor::new("Floor 1"));
    assert_eq!(p.floors.len(), 1);
    assert_eq!(p.floors[0].name, "Floor 1");
    p.add_floor(Floor::new("Floor 2"));
    assert_eq!(p.floors.len(), 2);
}

#[test]
fn test_remove_floor_at_index() {
    let mut p = Project::new("Test");
    p.add_floor(Floor::new("Floor 1"));
    p.add_floor(Floor::new("Floor 2"));
    p.add_floor(Floor::new("Floor 3"));
    p.remove_floor(1);
    assert_eq!(p.floors.len(), 2);
    assert_eq!(p.floors[0].name, "Floor 1");
    assert_eq!(p.floors[1].name, "Floor 3");
}

#[test]
fn test_remove_floor_first() {
    let mut p = Project::new("Test");
    p.add_floor(Floor::new("Floor 1"));
    p.add_floor(Floor::new("Floor 2"));
    p.remove_floor(0);
    assert_eq!(p.floors.len(), 1);
    assert_eq!(p.floors[0].name, "Floor 2");
}

#[test]
fn test_remove_floor_out_of_bounds_does_not_panic() {
    let mut p = Project::new("Test");
    p.remove_floor(0);
    p.remove_floor(5);
    assert!(p.floors.is_empty());
}

#[test]
fn test_remove_last_floor() {
    let mut p = Project::new("Test");
    p.add_floor(Floor::new("Only Floor"));
    p.remove_floor(0);
    assert!(p.floors.is_empty());
}

#[test]
fn test_project_new_with_owned_string() {
    let p = Project::new(&String::from("My Building"));
    assert_eq!(p.name, "My Building");
}

#[test]
fn test_set_alias_insert_clear() {
    let mut p = Project::new("T");
    p.set_alias("AA:BB:CC:DD:EE:01", Some("Office AP".to_string()));
    assert_eq!(p.alias_for("AA:BB:CC:DD:EE:01"), Some("Office AP"));
    assert_eq!(p.ap_label("AA:BB:CC:DD:EE:01"), "Office AP");
    // Unknown BSSID falls back to the BSSID itself
    assert_eq!(p.ap_label("AA:BB:CC:DD:EE:02"), "AA:BB:CC:DD:EE:02");
    // Empty alias clears it
    p.set_alias("AA:BB:CC:DD:EE:01", Some(String::new()));
    assert_eq!(p.alias_for("AA:BB:CC:DD:EE:01"), None);
    p.set_alias("AA:BB:CC:DD:EE:01", None);
    assert!(p.bssid_aliases.is_empty());
}

#[test]
fn aliases_are_trimmed() {
    let mut p = Project::new("T");
    p.set_alias("01", Some("\u{3000} Hall\tAP \n".to_string()));
    assert_eq!(p.alias_for("01"), Some("Hall\tAP"));
    p.set_alias("02", Some("Attic".to_string()));
    // A blank alias clears only its own entry.
    p.set_alias("01", Some(" \u{a0}\t ".to_string()));
    assert_eq!(p.alias_for("01"), None);
    assert_eq!(p.ap_label("01"), "01");
    assert_eq!(p.ap_label("02"), "Attic");
    assert_eq!(p.bssid_aliases.len(), 1);
}

#[test]
fn test_known_bssids_collects_active_and_scan() {
    let mut p = Project::new("T");
    let mut f = Floor::new("F1");
    let mut m1 = point(0.1, 0.1, "Home", "AA:BB:CC:DD:EE:01", 5180, 36, -55);
    m1.scan_results = vec![
        heard("Home", "AA:BB:CC:DD:EE:01", 5180, 36, -55, true),
        heard("Home", "AA:BB:CC:DD:EE:02", 2437, 6, -70, false),
    ];
    let m2 = Measurement::no_signal(number(0.2), number(0.2));
    f.add_measurement(m1);
    f.add_measurement(m2);
    p.add_floor(f);
    // No-signal points contribute nothing; duplicates are collapsed.
    assert_eq!(p.known_bssids(), vec!["AA:BB:CC:DD:EE:01", "AA:BB:CC:DD:EE:02"]);
}

#[test]
fn test_measured_ssids_and_bssids_of_ssid() {
    let mut p = Project::new("T");
    let mut f = Floor::new("F1");
    let mut m1 = point(0.1, 0.1, "Home", "AA:BB:CC:DD:EE:01", 5180, 36, -55);
    m1.scan_results = vec![
        heard("Home", "AA:BB:CC:DD:EE:01", 5180, 36, -55, true),
        heard("Home", "AA:BB:CC:DD:EE:02", 2437, 6, -70, false),
        heard("GuestNet", "FF:FF:FF:FF:FF:01", 2412, 1, -60, false),
    ];
    // A second floor measuring a different SSID.
    let m2 = point(0.3, 0.3, "Office", "BB:BB:BB:BB:BB:01", 5180, 36, -58);
    f.add_measurement(m1);
    p.add_floor(f);
    let mut f2 = Floor::new("F2");
    f2.add_measurement(m2);
    p.add_floor(f2);

    // Only SSIDs with saved measurements are offered (GuestNet, which is
    // only seen in a scan list, is excluded).
    assert_eq!(p.measured_ssids(), vec!["Home", "Office"]);
    // BSSIDs of a measured SSID come from its scan entries.
    assert_eq!(p.bssids_of_ssid("Home"), vec!["AA:BB:CC:DD:EE:01", "AA:BB:CC:DD:EE:02"]);
    // A measurement without a scan list: its connected AP is not in the
    // BSSID list (only scan entries count).
    assert_eq!(p.bssids_of_ssid("Office"), Vec::<String>::new());
    assert_eq!(p.bssids_of_ssid("GuestNet"), vec!["FF:FF:FF:FF:FF:01"]);
}

#[test]
fn test_measured_ap_sections_and_unmeasured_bssids() {
    let mut p = Project::new("T");
    let mut f = Floor::new("F1");
    // Measurement WITH a scan list (Home + GuestNet visible).
    let mut m1 = point(0.1, 0.1, "Home", "AA:BB:CC:DD:EE:01", 5180, 36, -55);
    m1.scan_results = vec![
        heard("Home", "AA:BB:CC:DD:EE:01", 5180, 36, -55, true),
        heard("Home", "AA:BB:CC:DD:EE:02", 2437, 6, -70, false),
        heard("GuestNet", "FF:FF:FF:FF:FF:01", 2412, 1, -60, false),
    ];
    // Old measurement WITHOUT a scan list (connected AP must still show
    // up under its SSID section).
    let m2 = point(0.2, 0.2, "Home", "AA:BB:CC:DD:EE:03", 5180, 40, -61);
    f.add_measurement(m1);
    f.add_measurement(m2);
    p.add_floor(f);

    let sections = p.measured_ap_sections();
    assert_eq!(sections.len(), 1);
    assert_eq!(sections[0].0, "Home");
    assert_eq!(
        sections[0].1,
        vec!["AA:BB:CC:DD:EE:01", "AA:BB:CC:DD:EE:02", "AA:BB:CC:DD:EE:03"]
    );
    // GuestNet has no measurements → its APs are "unmeasured".
    assert_eq!(p.unmeasured_bssids(), vec!["FF:FF:FF:FF:FF:01"]);
}

#[test]
fn test_last_ssid_for_prefers_recent() {
    let mut p = Project::new("T");
    let mut f = Floor::new("F1");
    let mut m1 = point(0.1, 0.1, "OldName", "AA:BB:CC:DD:EE:01", 5180, 36, -55);
    m1.scan_results = vec![heard("ScanOld", "AA:BB:CC:DD:EE:02", 5180, 36, -60, false)];
    let m2 = point(0.2, 0.2, "NewName", "AA:BB:CC:DD:EE:01", 5180, 36, -60);
    f.add_measurement(m1);
    f.add_measurement(m2);
    p.add_floor(f);
    assert_eq!(p.last_ssid_for("AA:BB:CC:DD:EE:01"), Some("NewName".to_string()));
    assert_eq!(p.last_ssid_for("AA:BB:CC:DD:EE:02"), Some("ScanOld".to_string()));
    assert_eq!(p.last_ssid_for("AA:BB:CC:DD:EE:99"), None);
}

#[test]
fn sections_and_unmeasured_split_the_known_aps() {
    let mut p = Project::new("T");
    let mut f = Floor::new("F1");
    let mut m1 = point(0.1, 0.1, "B-net", "02", 5180, 36, -55);
    // An access point that was heard under two names belongs to one section.
    m1.scan_results = vec![
        heard("B-net", "02", 5180, 36, -55, true),
        heard("A-net", "03", 5180, 36, -65, false),
        heard("C-net", "04", 5180, 36, -75, false),
    ];
    let mut m2 = point(0.2, 0.2, "A-net", "01", 5180, 36, -58);
    m2.scan_results = vec![
        heard("A-net", "01", 5180, 36, -58, true),
        heard("B-net", "03", 5180, 36, -66, false),
    ];
    f.add_measurement(m1);
    f.add_measurement(m2);
    p.add_floor(f);
    let mut all: Vec<String> = Vec::new();
    for (_, aps) in p.measured_ap_sections() {
        all.extend(aps);
    }
    all.extend(p.unmeasured_bssids());
    all.sort();
    let mut known = p.known_bssids();
    known.sort();
    assert_eq!(all, known);
    assert_eq!(known, vec!["01", "02", "03", "04"]);
}

#[test]
fn access_point_of_a_hidden_measurement_is_no_other_network() {
    let mut p = Project::new("T");
    let mut f = Floor::new("F1");
    f.add_measurement(point(0.1, 0.1, "", "AA:BB:CC:DD:EE:01", 5180, 36, -55));
    p.add_floor(f);
    assert_eq!(p.known_bssids(), vec!["AA:BB:CC:DD:EE:01"]);
    assert!(p.measured_ap_sections().is_empty());
    assert!(p.unmeasured_bssids().is_empty());

    // Nor does it become one when another point hears it.
    let mut m = point(0.2, 0.2, "Home", "AA:BB:CC:DD:EE:02", 5180, 36, -60);
    m.scan_results = vec![
        heard("", "AA:BB:CC:DD:EE:01", 5180, 36, -70, false),
        heard("Other", "FF:FF:FF:FF:FF:01", 5180, 36, -80, false),
    ];
    p.floors[0].add_measurement(m);
    assert_eq!(p.unmeasured_bssids(), vec!["FF:FF:FF:FF:FF:01"]);
    assert_eq!(
        p.measured_ap_sections(),
        vec![("Home".to_string(), vec!["AA:BB:CC:DD:EE:02".to_string()])]
    );
}

// ── Signal sources ─────────────────────────────────────────────────────────

fn m_with_scan(dbm: i32, scan: Vec<ScanEntry>) -> Measurement {
    let mut m = point(0.5, 0.5, "MyHome", "AA:BB:CC:DD:EE:01", 5180, 36, dbm);
    m.scan_results = scan;
    m
}

fn entry(ssid: &str, bssid: &str, dbm: i32, active: bool) -> ScanEntry {
    heard(ssid, bssid, 5180, 36, dbm, active)
}

#[test]
fn best_of_ssid_is_its_strongest_entry() {
    let scan = vec![
        entry("Home", "01", -70, false),
        entry("Other", "02", -30, false),
        entry("Home", "03", -55, false),
        entry("Home", "04", -80, true),
    ];
    assert_eq!(find_best_of_ssid(&scan, "Home"), Some(-55));
    assert_eq!(find_best_of_ssid(&scan, "Other"), Some(-30));
    assert_eq!(find_best_of_ssid(&scan, "Gone"), None);
}

#[test]
fn default_source_is_connected_ap() {
    assert!(SignalSource::default().is_connected_ap());
}

#[test]
fn connected_ap_uses_measurement_dbm() {
    let m = m_with_scan(-55, vec![entry("MyHome", "AA:BB:CC:DD:EE:01", -55, true)]);
    assert_eq!(signal_for(&m, &SignalSource::ConnectedAp), Some(-55));
}

#[test]
fn ssid_uses_best_ap_of_same_ssid() {
    let m = m_with_scan(
        -55,
        vec![
            entry("MyHome", "AA:BB:CC:DD:EE:01", -55, true),
            entry("MyHome", "AA:BB:CC:DD:EE:02", -70, false),
            entry("MyHome", "AA:BB:CC:DD:EE:03", -62, false),
            entry("OtherNet", "AA:BB:CC:DD:EE:09", -40, false),
        ],
    );
    // Best MyHome AP is the active one at -55.
    assert_eq!(signal_for(&m, &SignalSource::Ssid(String::new())), Some(-55));
    // Named SSID resolves to the same best AP…
    assert_eq!(signal_for(&m, &SignalSource::Ssid("MyHome".to_string())), Some(-55));
    // …and a different SSID uses its own (stronger) AP.
    assert_eq!(signal_for(&m, &SignalSource::Ssid("OtherNet".to_string())), Some(-40));
}

#[test]
fn named_ssid_absent_is_no_data() {
    let m = m_with_scan(-55, vec![entry("MyHome", "AA:BB:CC:DD:EE:01", -55, true)]);
    assert_eq!(signal_for(&m, &SignalSource::Ssid("Gone".to_string())), None);
    // Legacy generic (empty) still falls back to the connected AP.
    assert_eq!(signal_for(&m, &SignalSource::Ssid(String::new())), Some(-55));
}

#[test]
fn ssid_falls_back_to_connected_ap_when_no_scan_list() {
    let m = m_with_scan(-61, vec![]);
    assert_eq!(signal_for(&m, &SignalSource::Ssid(String::new())), Some(-61));
    // A named SSID can't be resolved without a scan list.
    assert_eq!(signal_for(&m, &SignalSource::Ssid("MyHome".to_string())), None);
}

#[test]
fn bssid_found_in_scan_list() {
    let m = m_with_scan(
        -55,
        vec![
            entry("MyHome", "AA:BB:CC:DD:EE:01", -55, true),
            entry("MyHome", "AA:BB:CC:DD:EE:02", -70, false),
        ],
    );
    assert_eq!(signal_for(&m, &SignalSource::Bssid("AA:BB:CC:DD:EE:02".to_string())), Some(-70));
}

#[test]
fn bssid_absent_is_no_data() {
    let m = m_with_scan(-55, vec![entry("MyHome", "AA:BB:CC:DD:EE:01", -55, true)]);
    assert_eq!(signal_for(&m, &SignalSource::Bssid("AA:BB:CC:DD:EE:99".to_string())), None);
}

#[test]
fn bssid_falls_back_to_connected_ap_for_old_measurements() {
    // Old measurement: no scan list, requested BSSID is the connected one.
    let m = m_with_scan(-60, vec![]);
    assert_eq!(signal_for(&m, &SignalSource::Bssid("AA:BB:CC:DD:EE:01".to_string())), Some(-60));
    // ... but a different BSSID has no data.
    assert_eq!(signal_for(&m, &SignalSource::Bssid("AA:BB:CC:DD:EE:02".to_string())), None);
}

#[test]
fn no_signal_point_has_no_value_for_any_source() {
    let m = Measurement::no_signal(number(0.2), number(0.3));
    assert_eq!(signal_for(&m, &SignalSource::ConnectedAp), None);
    assert_eq!(signal_for(&m, &SignalSource::Ssid(String::new())), None);
    assert_eq!(signal_for(&m, &SignalSource::Bssid("AA:BB:CC:DD:EE:01".to_string())), None);
}

#[test]
fn signal_source_serde_roundtrip() {
    for src in [
        SignalSource::ConnectedAp,
        SignalSource::Ssid(String::new()),
        SignalSource::Ssid("My Home".to_string()),
        SignalSource::Bssid("AA:BB:CC:DD:EE:02".to_string()),
    ] {
        let json = serde_json::to_string(&src.encode()).unwrap();
        let text: String = serde_json::from_str(&json).unwrap();
        let src2: SignalSource = SignalSource::decode(&text).unwrap();
        assert_eq!(src, src2);
    }
}

#[test]
fn signal_source_legacy_strings_load() {
    // The unit variant "Ssid" written by older builds → generic SSID source.
    let text: String = serde_json::from_str("\"Ssid\"").unwrap();
    assert_eq!(SignalSource::decode(&text), Some(SignalSource::Ssid(String::new())));
    let text: String = serde_json::from_str("\"Bssid:AA:BB:CC:DD:EE:01\"").unwrap();
    assert_eq!(
        SignalSource::decode(&text),
        Some(SignalSource::Bssid("AA:BB:CC:DD:EE:01".to_string()))
    );
    let text: String = serde_json::from_str("\"Ssid:My Home\"").unwrap();
    assert_eq!(SignalSource::decode(&text), Some(SignalSource::Ssid("My Home".to_string())));
}

#[test]
fn unknown_signal_source_is_refused() {
    assert_eq!(SignalSource::decode("Nonsense"), None);
    assert_eq!(SignalSource::decode(""), None);
}
