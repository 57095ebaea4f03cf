use wifichecker::services::nl80211::bss_center_fits;
use wifichecker::services::nl80211::bss_channel_info;
use wifichecker::services::nl80211::bssid_to_str;
use wifichecker::services::nl80211::ie_center_fits;
use wifichecker::services::nl80211::ie_width_center;
use wifichecker::services::nl80211::interface_channel;
use wifichecker::services::nl80211::scan_channels;
use wifichecker::services::nl80211::vht_width_center;
use wifichecker::services::nl80211::width_to_mhz;
use wifichecker::services::nl80211::BssAttr;
use wifichecker::services::nl80211::ChannelInfo;
use wifichecker::services::nl80211::ChannelWidth;
use wifichecker::services::nl80211::InterfaceAttr;
use wifichecker::services::nl80211::ScanChannels;
use wifichecker::services::nl80211::VhtOp;
use wifichecker::services::nl80211::HT_SEC_ABOVE;
use wifichecker::services::nl80211::HT_SEC_BELOW;
use wifichecker::services::nl80211::HT_SEC_NONE;
use wifichecker::services::nm_dbus::find_wifi_device;
use wifichecker::services::nm_dbus::first_phase;
use wifichecker::services::nm_dbus::freq_to_channel;
use wifichecker::services::nm_dbus::has_active_ap;
use wifichecker::services::nm_dbus::is_wifi_device;
use wifichecker::services::nm_dbus::link_speed_mbps;
use wifichecker::services::nm_dbus::merge_nl_scan;
use wifichecker::services::nm_dbus::next_phase;
use wifichecker::services::nm_dbus::query_wifi_device_names;
use wifichecker::services::nm_dbus::strength_to_dbm;
use wifichecker::services::nm_dbus::ApProperties;
use wifichecker::services::nm_dbus::DeviceReport;
use wifichecker::services::nm_dbus::NmError;
use wifichecker::services::nm_dbus::ScanEvent;
use wifichecker::services::nm_dbus::ScanPhase;
use wifichecker::services::nm_dbus::ScanReport;
use wifichecker::services::WifiInfo;
use wifichecker::services::WifiScanner;

// ── Information elements ───────────────────────────────────────────────────

/// Build a TLV stream of single elements: (id, payload) pairs.
fn ies(elements: &[(u8, &[u8])]) -> Vec<u8> {
    let mut v = Vec::new();
    for (id, p) in elements {
        v.push(*id);
        v.push(p.len() as u8);
        v.extend_from_slice(p);
    }
    v
}

/// A realistic 2.4 GHz HT op element (len 22): primary channel 6, secondary
/// offset `sec`.
fn ht_op(primary: u8, sec: u8) -> (u8, Vec<u8>) {
    let mut p = vec![0u8; 22];
    p[0] = primary;
    p[1] = sec;
    (61, p)
}

fn vht_op(width: u8, c0: u8, c1: u8, len: usize) -> (u8, Vec<u8>) {
    let mut p = vec![width, c0, c1];
    p.resize(len, 0);
    (192, p)
}

fn freq5180() -> Option<u32> {
    Some(5180)
}

#[test]
fn no_operation_elements_yields_none() {
    let v = ies(&[(3, &[1, 2, 3]), (92, &[0])]); // id 92, not an op element
    assert_eq!(ie_width_center(&v, freq5180()), None);
    assert_eq!(ie_width_center(&[], freq5180()), None);
}

#[test]
fn ht_20_mhz_is_none() {
    let (id, p) = ht_op(6, HT_SEC_NONE);
    let v = ies(&[(id, &p)]);
    assert_eq!(ie_width_center(&v, freq5180()), None);
}

#[test]
fn ht_40_above_center_primary_plus_10() {
    let (id, p) = ht_op(36, HT_SEC_ABOVE);
    let v = ies(&[(id, &p)]);
    // ch36 (5180) + secondary above → 40 MHz, center 5190.
    assert_eq!(ie_width_center(&v, freq5180()), Some((40, Some(5190), None)));
}

#[test]
fn ht_40_below_center_primary_minus_10() {
    let (id, p) = ht_op(38, HT_SEC_BELOW);
    let v = ies(&[(id, &p)]);
    assert_eq!(ie_width_center(&v, Some(5190)), Some((40, Some(5180), None)));
}

#[test]
fn vht_80_mhz() {
    // 80 MHz on ch54: center segment 55 → 5000 + 55·5 = 5275.
    let (id, p) = vht_op(1, 55, 0, 5);
    let v = ies(&[(id, &p)]);
    assert_eq!(ie_width_center(&v, Some(5180)), Some((80, Some(5275), None)));
}

#[test]
fn vht_160_mhz() {
    // 160 MHz, center segment 66 → 5330.
    let (id, p) = vht_op(2, 66, 0, 5);
    let v = ies(&[(id, &p)]);
    assert_eq!(ie_width_center(&v, Some(5180)), Some((160, Some(5330), None)));
}

#[test]
fn vht_80plus80_two_centers() {
    // 80+80: c0 = 44 (5220), c1 = 132 (5660).
    let (id, p) = vht_op(3, 44, 132, 6);
    let v = ies(&[(id, &p)]);
    assert_eq!(ie_width_center(&v, Some(5180)), Some((160, Some(5220), Some(5660))));
}

#[test]
fn vht_20or40_resolves_via_ht_offset() {
    // VHT says "20 or 40", HT offset says above → 40 MHz. The center is
    // derived from the HT op's primary channel (36 → 5180) + 10 = 5190.
    let (vid, vp) = vht_op(0, 36, 0, 5);
    let (hid, hp) = ht_op(36, HT_SEC_ABOVE);
    let v = ies(&[(vid, &vp), (hid, &hp)]);
    assert_eq!(ie_width_center(&v, freq5180()), Some((40, Some(5190), None)));
}

#[test]
fn vht_20or40_ignores_ambiguous_vht_segment() {
    // VHT width 0 with center segment = 38 (the AP advertises the *center*
    // channel, not the primary), HT op primary 36, secondary above. Correct
    // center: 5180 + 10 = 5190 (not 5190 + 10 = 5200).
    let (vid, vp) = vht_op(0, 38, 0, 5);
    let (hid, hp) = ht_op(36, HT_SEC_ABOVE);
    let v = ies(&[(vid, &vp), (hid, &hp)]);
    assert_eq!(ie_width_center(&v, freq5180()), Some((40, Some(5190), None)));
}

#[test]
fn vht_20or40_without_ht_is_20() {
    let (id, p) = vht_op(0, 36, 0, 5);
    let v = ies(&[(id, &p)]);
    assert_eq!(ie_width_center(&v, freq5180()), Some((20, None, None)));
}

/// HE op extension element: [255, len, 36, <params LE32>, <mcs LE16>,
/// <optional…>].
fn he_op(params: u32, optional: &[u8]) -> (u8, Vec<u8>) {
    let mut p = params.to_le_bytes().to_vec();
    p.extend_from_slice(&[0, 0]); // basic HE-MCS/NSS set
    p.extend_from_slice(optional);
    (255, vec![36].into_iter().chain(p).collect())
}

#[test]
fn he_6ghz_80_mhz() {
    // 6 GHz op info: [primary, control, c0, c1, minrate], control & 3 = 2 (80).
    // Center segment 14 → 5955 + 13·5 = 6020.
    let optional = [13u8, 2, 14, 14, 80];
    let (id, p) = he_op(0x0002_0000, &optional);
    let v = ies(&[(id, &p)]);
    assert_eq!(ie_width_center(&v, Some(5955)), Some((80, Some(6020), None)));
}

#[test]
fn he_6ghz_20_mhz() {
    let optional = [1u8, 0, 1, 1, 80]; // control & 3 = 0 → 20
    let (id, p) = he_op(0x0002_0000, &optional);
    let v = ies(&[(id, &p)]);
    assert_eq!(ie_width_center(&v, Some(5955)), Some((20, Some(5955), None)));
}

#[test]
fn he_5ghz_vht_info_80() {
    // VHT op info present: [width, c0, c1], width = 1 (80).
    let optional = [1u8, 55, 0];
    let (id, p) = he_op(0x0000_4000, &optional);
    let v = ies(&[(id, &p)]);
    assert_eq!(ie_width_center(&v, freq5180()), Some((80, Some(5275), None)));
}

#[test]
fn he_optional_fields_in_spec_order() {
    // VHT op info (3B) + co-hosted (1B) + 6 GHz op info (5B): the 6 GHz
    // field starts at offset 6+3+1 = 10.
    let mut optional = vec![1u8, 55, 0]; // VHT info (80 MHz — ignored, 6GHz wins)
    optional.push(1); // co-hosted max BSSID
    optional.extend_from_slice(&[13u8, 3, 40, 40, 80]); // 6 GHz: 160 MHz, c0 = 40
    let (id, p) = he_op(0x0002_0000 | 0x0000_8000 | 0x0000_4000, &optional);
    let v = ies(&[(id, &p)]);
    // 6 GHz info: control & 3 = 3 → 160 MHz, center = 5955 + 39·5 = 6150.
    assert_eq!(ie_width_center(&v, Some(5955)), Some((160, Some(6150), None)));
}

/// EHT op extension element: [255, len, 106, params, <mcs 4B>, <op info…>].
fn eht_op(op_info: Option<&[u8]>) -> (u8, Vec<u8>) {
    let mut p = vec![0u8]; // params
    p.extend_from_slice(&[0; 4]); // basic MCS/NSS
    if let Some(info) = op_info {
        p[0] |= 1;
        p.extend_from_slice(info);
    }
    (255, vec![106].into_iter().chain(p).collect())
}

#[test]
fn eht_320_mhz() {
    // control & 7 = 4 → 320 MHz, c0 = 44 → 5955 + 43·5 = 6170.
    let (id, p) = eht_op(Some(&[4u8, 44, 0]));
    let v = ies(&[(id, &p)]);
    assert_eq!(ie_width_center(&v, Some(5955)), Some((320, Some(6170), None)));
}

#[test]
fn eht_40_mhz() {
    let (id, p) = eht_op(Some(&[1u8, 2, 0]));
    let v = ies(&[(id, &p)]);
    assert_eq!(ie_width_center(&v, Some(5955)), Some((40, Some(5960), None)));
}

#[test]
fn eht_without_op_info_yields_none() {
    let (id, p) = eht_op(None);
    let v = ies(&[(id, &p)]);
    assert_eq!(ie_width_center(&v, Some(5955)), None);
}

#[test]
fn eht_takes_priority_over_he() {
    let (hid, hp) = he_op(0x0002_0000, &[13u8, 2, 14, 14, 80]); // HE: 80
    let (eid, ep) = eht_op(Some(&[3u8, 40, 0])); // EHT: 160
    let v = ies(&[(hid, &hp), (eid, &ep)]);
    assert_eq!(ie_width_center(&v, Some(5955)), Some((160, Some(6150), None)));
}

#[test]
fn eht_decides_wherever_it_stands() {
    let (eid, ep) = eht_op(Some(&[4u8, 44, 0]));
    let (hid, hp) = he_op(0x0002_0000, &[13u8, 2, 14, 14, 80]);
    let (vid, vp) = vht_op(1, 55, 0, 5);
    let (tid, tp) = ht_op(36, HT_SEC_ABOVE);
    let x = ies(&[(eid, &ep)]);
    let y = ies(&[
        (0, b"Home"),
        (1, &[0x82, 0x84]),
        (3, &[36]),
        (tid, &tp),
        (vid, &vp),
        (hid, &hp),
        (221, &[0, 0x50, 0xf2, 2]),
    ]);
    let alone = ie_width_center(&x, Some(5955));
    assert_eq!(alone, Some((320, Some(6170), None)));
    assert_eq!(ie_width_center(&[x.clone(), y.clone()].concat(), Some(5955)), alone);
    assert_eq!(ie_width_center(&[y.clone(), x.clone()].concat(), Some(5955)), alone);
    // Without it the older PHY is heard.
    assert_eq!(ie_width_center(&y, Some(5955)), Some((80, Some(6020), None)));
    // A malformed channel element spoils the whole stream.
    let bad = ies(&[(3, &[1, 2, 3])]);
    assert_eq!(ie_width_center(&[x, bad].concat(), Some(5955)), None);
}

#[test]
fn narrow_vht_segments_do_not_matter() {
    for (c0, c1, len) in [(0, 0, 3), (38, 0, 5), (255, 132, 6)] {
        let (vid, vp) = vht_op(0, c0, c1, len);
        let vht = ies(&[(vid, &vp)]);
        assert_eq!(ie_width_center(&vht, Some(5180)), Some((20, None, None)));
        let (hid, hp) = ht_op(40, HT_SEC_BELOW);
        let below = ies(&[(vid, &vp), (hid, &hp)]);
        assert_eq!(ie_width_center(&below, Some(5180)), Some((40, Some(5190), None)));
        // Without a primary channel the frequency of the BSS is the base.
        let (hid, hp) = ht_op(0, HT_SEC_ABOVE);
        let above = ies(&[(vid, &vp), (hid, &hp)]);
        assert_eq!(ie_width_center(&above, Some(5180)), Some((40, Some(5190), None)));
        assert_eq!(ie_width_center(&above, None), Some((40, None, None)));
    }
}

#[test]
fn typed_elements_have_to_be_well_formed() {
    let (eid, ep) = eht_op(Some(&[4u8, 44, 0]));
    let accepts = |id: u8, payload: &[u8]| -> bool {
        let v = ies(&[(id, payload), (eid, &ep)]);
        ie_width_center(&v, Some(5955)).is_some()
    };
    // The SSID is a text, perhaps with a zero at its end.
    assert!(accepts(0, b""));
    assert!(accepts(0, "Café".as_bytes()));
    assert!(accepts(0, b"Home\0"));
    assert!(accepts(0, b"\0\0"));
    assert!(!accepts(0, &[0xff]));
    assert!(!accepts(0, &[0xc3, 0]));
    assert!(accepts(3, &[36]));
    assert!(!accepts(3, &[]));
    assert!(!accepts(3, &[36, 0]));
    assert!(accepts(7, b"SE \x01\x0d\x14"));
    assert!(accepts(7, b"SE \x01\x0d\x14\x00"));
    assert!(!accepts(7, b"SE \x01\x0d"));
    assert!(!accepts(7, &[0xff, 0x45, 0x20, 1, 13, 20]));
    // A character that spans more than the two bytes of the code.
    assert!(!accepts(7, &[0x53, 0xc3, 0xa9, 1, 13, 20]));
    for (id, least) in [(45u8, 26usize), (48, 2), (191, 12), (244, 1)] {
        assert!(accepts(id, &vec![0u8; least]), "{id}");
        assert!(accepts(id, &vec![0xffu8; least + 7]), "{id}");
        assert!(!accepts(id, &vec![0u8; least - 1]), "{id}");
    }
    let he_cap = |len: usize| -> Vec<u8> {
        let mut p = vec![0xffu8; len];
        p[0] = 35;
        p
    };
    assert!(accepts(255, &he_cap(22)));
    assert!(accepts(255, &he_cap(60)));
    assert!(!accepts(255, &he_cap(21)));
    assert!(!accepts(255, &he_cap(1)));
    // Rates, vendor elements and raw ones are never refused.
    assert!(accepts(1, &[]));
    assert!(accepts(221, &[]));
    assert!(accepts(255, &[]));
    assert!(accepts(42, &[0xff]));
}

#[test]
fn centers_at_the_end_of_the_numbers() {
    let top = Some(u32::MAX);
    let (hid, above) = ht_op(36, HT_SEC_ABOVE);
    let (_, below) = ht_op(36, HT_SEC_BELOW);
    // Only a center above the frequency of the BSS does not fit.
    assert!(!ie_center_fits(&ies(&[(hid, &above)]), top));
    assert!(ie_center_fits(&ies(&[(hid, &above)]), Some(u32::MAX - 10)));
    assert!(ie_center_fits(&ies(&[(hid, &above)]), None));
    let v = ies(&[(hid, &below)]);
    assert!(ie_center_fits(&v, top));
    assert_eq!(ie_width_center(&v, top), Some((40, Some(u32::MAX - 10), None)));
    // The primary channel of the HT operation is a base that fits.
    let (vid, vp) = vht_op(0, 0, 0, 5);
    let v = ies(&[(vid, &vp), (hid, &above)]);
    assert!(ie_center_fits(&v, top));
    assert_eq!(ie_width_center(&v, top), Some((40, Some(6140), None)));
    let (_, nowhere) = ht_op(0, HT_SEC_ABOVE);
    assert!(!ie_center_fits(&ies(&[(vid, &vp), (hid, &nowhere)]), top));
    // A BSS fits when its first stream that gives a width does.
    let attrs = vec![
        BssAttr::Bssid([2, 0, 0, 0, 0, 1]),
        BssAttr::Frequency(u32::MAX),
        BssAttr::Elements(ies(&[(hid, &above)])),
    ];
    assert!(!bss_center_fits(&attrs));
    let mut beacon_first = attrs.clone();
    beacon_first.push(BssAttr::BeaconElements(ies(&[(hid, &below)])));
    assert!(bss_center_fits(&beacon_first));
    let (_, ch) = bss_channel_info(&beacon_first).unwrap();
    assert_eq!(ch.center_freq_mhz, Some(u32::MAX - 10));
    // Without a BSSID nothing is decoded.
    let nameless = attrs[1..].to_vec();
    assert!(bss_center_fits(&nameless));
    assert!(bss_channel_info(&nameless).is_none());
}

#[test]
fn narrow_vht_follows_the_ht_operation() {
    for (c0, c1, has_c1) in [(0u8, 0u8, false), (38, 132, true)] {
        let op = VhtOp { width: 0, c0, c1, has_c1 };
        assert_eq!(vht_width_center(op, None, Some(5180)), (20, None, None));
        assert_eq!(vht_width_center(op, Some((36, 2)), Some(5180)), (20, None, None));
        assert_eq!(vht_width_center(op, Some((36, 1)), Some(5500)), (40, Some(5190), None));
        assert_eq!(vht_width_center(op, Some((0, 1)), Some(5500)), (40, Some(5510), None));
        assert_eq!(vht_width_center(op, Some((6, 3)), Some(2437)), (40, Some(2427), None));
        assert_eq!(vht_width_center(op, Some((6, 3)), Some(4)), (40, Some(0), None));
        assert_eq!(vht_width_center(op, Some((6, 1)), None), (40, None, None));
    }
}

#[test]
fn no_centers_without_a_primary_frequency() {
    let (vid, vp) = vht_op(3, 44, 132, 6);
    assert_eq!(ie_width_center(&ies(&[(vid, &vp)]), None), Some((160, None, None)));
    let (eid, ep) = eht_op(Some(&[2u8, 7, 0]));
    assert_eq!(ie_width_center(&ies(&[(eid, &ep)]), None), Some((80, None, None)));
}

#[test]
fn malformed_ie_stream_is_handled() {
    // Truncated element, then a valid HT op.
    let mut v = vec![61u8, 100, 36, HT_SEC_ABOVE]; // claims len 100, has 2 bytes
    v.extend_from_slice(&[191, 5, 1, 55, 0, 0, 0]);
    // The TLV walker breaks on the truncated element, so nothing parses —
    // that is fine (returns None, no panic).
    assert_eq!(ie_width_center(&v, freq5180()), None);
}

#[test]
fn bssid_to_str_format() {
    assert_eq!(bssid_to_str(&[0xba, 0xfb, 0xe4, 0x12, 0x14, 0xfa]), "ba:fb:e4:12:14:fa");
}

#[test]
fn bssid_to_str_keeps_leading_zeros() {
    assert_eq!(bssid_to_str(&[0, 1, 0x0a, 0xff, 0, 0]), "00:01:0a:ff:00:00");
}

// ── Scan channels ──────────────────────────────────────────────────────────

fn ht_40_above(primary: u8) -> Vec<u8> {
    let (id, p) = ht_op(primary, HT_SEC_ABOVE);
    ies(&[(id, &p)])
}

#[test]
fn bss_width_from_beacon_or_frame() {
    let mac = [0xba, 0xfb, 0xe4, 0x12, 0x14, 0xfa];
    let attrs = vec![
        BssAttr::Bssid(mac),
        BssAttr::Frequency(5180),
        BssAttr::BeaconElements(ies(&[(0, b"Home")])),
        BssAttr::Elements(ht_40_above(36)),
    ];
    let (bssid, ch) = bss_channel_info(&attrs).unwrap();
    assert_eq!(bssid, "ba:fb:e4:12:14:fa");
    assert_eq!(ch.primary_freq_mhz, Some(5180));
    assert_eq!(ch.width_mhz, Some(40));
    assert_eq!(ch.center_freq_mhz, Some(5190));
    assert_eq!(ch.center_freq2_mhz, None);
    // Without an address there is no entry.
    assert!(bss_channel_info(&vec![BssAttr::Frequency(5180), BssAttr::Other]).is_none());
}

#[test]
fn scan_channels_are_keyed_by_bssid() {
    let a = vec![
        BssAttr::Bssid([1, 2, 3, 4, 5, 6]),
        BssAttr::Frequency(5180),
        BssAttr::BeaconElements(ht_40_above(36)),
    ];
    let b = vec![BssAttr::Other];
    let map = scan_channels(&vec![a, b]);
    assert_eq!(map.len(), 1);
    assert_eq!(map.get("01:02:03:04:05:06").unwrap().width_mhz, Some(40));
    assert!(map.get("01:02:03:04:05:07").is_none());
}

#[test]
fn interface_widths() {
    assert_eq!(width_to_mhz(&ChannelWidth::NoHt20), Some(20));
    assert_eq!(width_to_mhz(&ChannelWidth::Mhz(40)), Some(40));
    assert_eq!(width_to_mhz(&ChannelWidth::Mhz80Plus80), Some(160));
    assert_eq!(width_to_mhz(&ChannelWidth::Other(9)), None);
}

#[test]
fn interface_channel_is_found_by_name() {
    let other = vec![
        InterfaceAttr::IfName("wlan1".to_string()),
        InterfaceAttr::IfIndex(4),
        InterfaceAttr::WiphyFreq(2412),
    ];
    let own = vec![
        InterfaceAttr::IfName("wlan0".to_string()),
        InterfaceAttr::IfIndex(3),
        InterfaceAttr::WiphyFreq(5180),
        InterfaceAttr::ChannelWidth(ChannelWidth::Mhz(40)),
        InterfaceAttr::CenterFreq1(5190),
        InterfaceAttr::Other,
    ];
    let messages = vec![other, own];
    let found = interface_channel("wlan0", &messages).unwrap();
    assert_eq!(found.ifindex, 3);
    assert_eq!(found.channel.primary_freq_mhz, Some(5180));
    assert_eq!(found.channel.width_mhz, Some(40));
    assert_eq!(found.channel.center_freq_mhz, Some(5190));
    assert!(interface_channel("wlan7", &messages).is_none());
}

// ── NetworkManager ─────────────────────────────────────────────────────────

#[test]
fn test_freq_to_channel_24ghz_ch1() {
    assert_eq!(freq_to_channel(2412), 1);
}

#[test]
fn test_freq_to_channel_24ghz_ch6() {
    // (2437 - 2412) / 5 + 1 = 5 + 1 = 6
    assert_eq!(freq_to_channel(2437), 6);
}

#[test]
fn test_freq_to_channel_24ghz_ch11() {
    assert_eq!(freq_to_channel(2462), 11);
}

#[test]
fn test_freq_to_channel_24ghz_ch13() {
    assert_eq!(freq_to_channel(2472), 13);
}

#[test]
fn test_freq_to_channel_24ghz_ch14() {
    assert_eq!(freq_to_channel(2484), 14);
}

#[test]
fn test_freq_to_channel_5ghz_ch32() {
    // (5160 - 5000) / 5 = 32
    assert_eq!(freq_to_channel(5160), 32);
}

#[test]
fn test_freq_to_channel_5ghz_ch36() {
    // (5180 - 5000) / 5 = 36
    assert_eq!(freq_to_channel(5180), 36);
}

#[test]
fn test_freq_to_channel_5ghz_ch100() {
    // (5500 - 5000) / 5 = 100
    assert_eq!(freq_to_channel(5500), 100);
}

#[test]
fn test_freq_to_channel_6ghz_ch1() {
    // Wi-Fi 6E: (5955 - 5955) / 5 + 1 = 1
    assert_eq!(freq_to_channel(5955), 1);
}

#[test]
fn test_freq_to_channel_unknown_returns_zero() {
    assert_eq!(freq_to_channel(0), 0);
    assert_eq!(freq_to_channel(3000), 0);
    assert_eq!(freq_to_channel(2473), 0); // gap between ch13 and ch14
}

#[test]
fn test_signal_dbm_conversion_from_strength() {
    // NM Strength 0-100 → dBm: (strength / 2) - 100
    // Strength 100 → (100 / 2) - 100 = -50
    // Strength 0   → (0 / 2)   - 100 = -100
    assert_eq!(strength_to_dbm(100), -50);
    assert_eq!(strength_to_dbm(0), -100);
    assert_eq!(strength_to_dbm(50), -75);
}

#[test]
fn devices_and_paths() {
    assert!(is_wifi_device(2));
    assert!(!is_wifi_device(1));
    assert!(!has_active_ap("/"));
    assert!(has_active_ap("/org/freedesktop/NetworkManager/AccessPoint/7"));
    assert_eq!(link_speed_mbps(540000), Some(540));
    assert_eq!(link_speed_mbps(0), None);
}

fn props(ssid: &[u8], bssid: &str, freq: u32, strength: u8) -> ApProperties {
    ApProperties {
        ssid: ssid.to_vec(),
        hw_address: bssid.to_string(),
        frequency: freq,
        strength,
        max_bitrate: 270000,
    }
}

fn device(kind: u32, name: &str, path: &str, ap: Option<ApProperties>) -> DeviceReport {
    DeviceReport {
        device_type: kind,
        interface: name.to_string(),
        active_ap_path: path.to_string(),
        active_ap: ap,
    }
}

#[test]
fn active_cards_are_read() {
    let reports = vec![
        device(1, "eth0", "/", None),
        device(2, "wlan0", "/", None),
        device(2, "wlan1", "/ap/1", Some(props(b"Home", "AA:BB:CC:DD:EE:01", 5180, 90))),
        device(2, "wlan2", "/ap/2", Some(props(b"Attic", "AA:BB:CC:DD:EE:02", 2437, 40))),
    ];
    let all = WifiScanner::scan_all(&reports).unwrap();
    assert_eq!(all.len(), 2);
    assert_eq!(all[0].device, "wlan1");
    assert_eq!(all[0].ssid, "Home");
    assert_eq!(all[0].channel, 36);
    assert_eq!(all[0].signal_dbm, -55);
    assert_eq!(all[0].link_speed_mbps, Some(270));
    assert!(all[0].is_active);
    assert_eq!(all[1].device, "wlan2");
    assert_eq!(WifiScanner::scan(&reports).unwrap().unwrap().device, "wlan1");
    assert!(WifiScanner::scan(&vec![device(1, "eth0", "/", None)]).unwrap().is_none());
    // A card whose access point cannot be read makes the query fail.
    let broken = vec![device(2, "wlan0", "/ap/1", None)];
    assert_eq!(WifiScanner::scan_all(&broken).unwrap_err(), NmError::ActiveApUnreadable);
    assert_eq!(WifiScanner::scan(&broken).unwrap_err(), NmError::ActiveApUnreadable);
}

#[test]
fn ssids_that_are_not_utf8_are_replaced() {
    let reports = vec![device(
        2,
        "wlan0",
        "/ap/1",
        Some(props(&[b'C', b'a', b'f', 0xe9], "AA:BB:CC:DD:EE:01", 5180, 90)),
    )];
    assert_eq!(WifiScanner::scan(&reports).unwrap().unwrap().ssid, "Caf\u{fffd}");
    let reports = vec![device(
        2,
        "wlan0",
        "/ap/1",
        Some(props("Café".as_bytes(), "AA:BB:CC:DD:EE:01", 5180, 90)),
    )];
    assert_eq!(WifiScanner::scan(&reports).unwrap().unwrap().ssid, "Café");
}

#[test]
fn wifi_devices_are_found_by_name() {
    let devices = vec![
        (1, "eth0".to_string()),
        (2, "wlan0".to_string()),
        (2, "wlan1".to_string()),
    ];
    assert_eq!(find_wifi_device(&devices, None), Some(1));
    assert_eq!(find_wifi_device(&devices, Some("wlan1")), Some(2));
    assert_eq!(find_wifi_device(&devices, Some("eth0")), None);
    assert_eq!(query_wifi_device_names(&devices), vec!["wlan0", "wlan1"]);
}

fn report(last_scan: i64) -> ScanReport {
    ScanReport {
        device_name: "wlan0".to_string(),
        last_scan,
        active_bssid: Some("02".to_string()),
        aps: vec![
            Some(props(b"Weak", "01", 2412, 10)),
            Some(props(b"Own", "02", 5180, 60)),
            None,
            Some(props(b"Strong", "03", 5955, 80)),
        ],
    }
}

#[test]
fn scan_list_is_strongest_first() {
    let r = report(5);
    let list = WifiScanner::scan_list(Some(&r));
    let order: Vec<&str> = list.iter().map(|i| i.bssid.as_str()).collect();
    assert_eq!(order, vec!["03", "02", "01"]);
    assert!(list.windows(2).all(|w| w[0].signal_dbm >= w[1].signal_dbm));
    let active: Vec<bool> = list.iter().map(|i| i.is_active).collect();
    assert_eq!(active, vec![false, true, false]);
    assert!(list.iter().all(|i| i.device == "wlan0"));
    assert!(WifiScanner::scan_list(None).is_empty());
}

#[test]
fn scan_list_only_if_newer() {
    let r = report(5);
    assert!(WifiScanner::scan_list_if_newer(Some(&r), 5).is_none());
    assert!(WifiScanner::scan_list_if_newer(None, -1).is_none());
    let (last, list) = WifiScanner::scan_list_if_newer(Some(&r), 4).unwrap();
    assert_eq!(last, 5);
    assert_eq!(list.len(), 3);
}

#[test]
fn fresh_scan_phases() {
    // Without a request the cached list is read.
    assert_eq!(first_phase(false), ScanPhase::Read);
    let mut phase = first_phase(true);
    assert_eq!(phase, ScanPhase::RequestDevice);
    // An old NetworkManager refuses the device's request; the root takes it.
    phase = next_phase(phase, ScanEvent::Refused, 7);
    assert_eq!(phase, ScanPhase::RequestRoot);
    phase = next_phase(phase, ScanEvent::Accepted, 7);
    assert_eq!(phase, ScanPhase::Poll);
    phase = next_phase(phase, ScanEvent::LastScan(7), 7);
    assert_eq!(phase, ScanPhase::Poll);
    phase = next_phase(phase, ScanEvent::Elapsed(6000), 7);
    assert_eq!(phase, ScanPhase::Poll);
    assert_eq!(next_phase(phase, ScanEvent::LastScan(8), 7), ScanPhase::Read);
    assert_eq!(next_phase(phase, ScanEvent::Elapsed(6001), 7), ScanPhase::Read);
    assert_eq!(next_phase(phase, ScanEvent::Unreadable, 7), ScanPhase::Read);
    // Neither request is available: the cached list has to do.
    assert_eq!(next_phase(ScanPhase::RequestRoot, ScanEvent::Refused, 7), ScanPhase::Read);
    assert_eq!(next_phase(ScanPhase::Read, ScanEvent::Refused, 7), ScanPhase::Read);
}

fn info(bssid: &str) -> WifiInfo {
    WifiInfo {
        ssid: "Home".to_string(),
        bssid: bssid.to_string(),
        frequency_mhz: 5180,
        channel: 36,
        signal_dbm: -50,
        link_speed_mbps: None,
        device: "wlan0".to_string(),
        is_active: false,
        channel_width_mhz: None,
        center_freq_mhz: None,
        center_freq2_mhz: None,
    }
}

#[test]
fn channel_widths_are_matched_without_regard_to_case() {
    // NetworkManager writes B4:FB:…, the kernel's key is b4:fb:….
    let mut nl: ScanChannels = ScanChannels::new();
    nl.insert(
        "b4:fb:e4:12:14:fa".to_string(),
        ChannelInfo {
            primary_freq_mhz: Some(5180),
            width_mhz: Some(40),
            center_freq_mhz: Some(5190),
            center_freq2_mhz: None,
        },
    );
    let list = vec![info("B4:FB:E4:12:14:FA"), info("B4:FB:E4:12:14:FB")];
    let merged = merge_nl_scan(&list, &nl);
    assert_eq!(merged.len(), 2);
    assert_eq!(merged[0].channel_width_mhz, Some(40));
    assert_eq!(merged[0].center_freq_mhz, Some(5190));
    assert_eq!(merged[0].bssid, "B4:FB:E4:12:14:FA");
    assert_eq!(merged[1].channel_width_mhz, None);
}
