//! What NetworkManager reports about WiFi devices and access points.

use crate::order;
use crate::order::Level;
use crate::services::nl80211;
use crate::services::nl80211::ScanChannels;
use crate::services::wifi_scanner::WifiInfo;
use crate::text;
use vstd::prelude::*;

verus! {

/// NetworkManager's device type for 802.11 wireless.
pub const DEVICE_TYPE_WIFI: u32 = 2;

/// Whether a device type is that of a WiFi device.
pub fn is_wifi_device(device_type: u32) -> (r: bool)
    ensures
        r == (device_type == DEVICE_TYPE_WIFI),
{
    device_type == DEVICE_TYPE_WIFI
}

/// Whether an access point path names one; "/" means there is none.
pub fn has_active_ap(path: &str) -> (r: bool)
    ensures
        r == (path@ != "/"@),
{
    !text::str_eq(path, "/")
}

/// The 802.11 channel number of a frequency; 0 for a frequency outside the
/// channels.
pub open spec fn channel_number(freq: u32) -> int {
    if 2412 <= freq <= 2472 {
        (freq - 2412) / 5 + 1
    } else if freq == 2484 {
        14
    } else if 5160 <= freq <= 5885 {
        (freq - 5000) / 5
    } else if 5955 <= freq <= 7115 {
        (freq - 5955) / 5 + 1
    } else {
        0
    }
}

/// Convert a WiFi frequency in MHz to an 802.11 channel number.
pub fn freq_to_channel(freq_mhz: u32) -> (r: u8)
    ensures
        r == channel_number(freq_mhz),
{
    if 2412 <= freq_mhz && freq_mhz <= 2472 {
        ((freq_mhz - 2412) / 5 + 1) as u8
    } else if freq_mhz == 2484 {
        14
    } else if 5160 <= freq_mhz && freq_mhz <= 5885 {
        ((freq_mhz - 5000) / 5) as u8
    } else if 5955 <= freq_mhz && freq_mhz <= 7115 {
        ((freq_mhz - 5955) / 5 + 1) as u8
    } else {
        0
    }
}

/// The signal level (dBm) of NetworkManager's strength (0-100 quality).
pub open spec fn dbm_of(strength: u8) -> int {
    strength as int / 2 - 100
}

/// Convert NetworkManager's strength (0-100 quality) to dBm.
pub fn strength_to_dbm(strength: u8) -> (r: i32)
    ensures
        r == dbm_of(strength),
{
    (strength as i32 / 2) - 100
}

/// The link speed (Mbit/s) of a maximum bit rate (kbit/s); 0 means unknown.
pub fn link_speed_mbps(max_bitrate_kbps: u32) -> (r: Option<u32>)
    ensures
        r == (if max_bitrate_kbps > 0 {
            Some((max_bitrate_kbps / 1000) as u32)
        } else {
            None
        }),
{
    if max_bitrate_kbps > 0 {
        Some(max_bitrate_kbps / 1000)
    } else {
        None
    }
}

/// The text of bytes, with the replacement character for what is not UTF-8, as
/// `String::from_utf8_lossy` gives it.
pub uninterp spec fn lossy_text(bytes: Seq<u8>) -> Seq<char>;

/// `String::from_utf8_lossy`: a function of the bytes, and exact on valid
/// UTF-8. What stands for invalid bytes is left unsaid.
#[verifier::external_body]
fn utf8_lossy(bytes: &[u8]) -> (r: String)
    ensures
        r@ == lossy_text(bytes@),
        vstd::utf8::valid_utf8(bytes@) ==> r@ == vstd::utf8::decode_utf8(bytes@),
{
    String::from_utf8_lossy(bytes).into_owned()
}

// ── Access points ──────────────────────────────────────────────────────────

/// The properties of an access point as NetworkManager reports them.
#[derive(Debug, Clone)]
pub struct ApProperties {
    pub ssid: Vec<u8>,
    pub hw_address: String,
    pub frequency: u32,
    pub strength: u8,
    pub max_bitrate: u32,
}

/// `info` is the reading of the access point `ap` by `device`. NetworkManager
/// does not know channel widths.
pub open spec fn is_reading(
    info: WifiInfo,
    ap: ApProperties,
    device: Seq<char>,
    is_active: bool,
) -> bool {
    &&& info.ssid@ == lossy_text(ap.ssid@)
    &&& info.bssid@ == ap.hw_address@
    &&& info.frequency_mhz == ap.frequency
    &&& info.channel == channel_number(ap.frequency)
    &&& info.signal_dbm == dbm_of(ap.strength)
    &&& info.link_speed_mbps == (if ap.max_bitrate > 0 {
        Some((ap.max_bitrate / 1000) as u32)
    } else {
        None
    })
    &&& info.device@ == device
    &&& info.is_active == is_active
    &&& info.channel_width_mhz is None
    &&& info.center_freq_mhz is None
    &&& info.center_freq2_mhz is None
}

/// Convert an access point's properties to a reading.
pub fn read_ap(ap: &ApProperties, device: &str, is_active: bool) -> (r: WifiInfo)
    ensures
        is_reading(r, *ap, device@, is_active),
        vstd::utf8::valid_utf8(ap.ssid@) ==> r.ssid@ == vstd::utf8::decode_utf8(ap.ssid@),
{
    WifiInfo {
        ssid: utf8_lossy(ap.ssid.as_slice()),
        bssid: ap.hw_address.clone(),
        frequency_mhz: ap.frequency,
        channel: freq_to_channel(ap.frequency),
        signal_dbm: strength_to_dbm(ap.strength),
        link_speed_mbps: link_speed_mbps(ap.max_bitrate),
        device: device.to_owned(),
        is_active,
        channel_width_mhz: None,
        center_freq_mhz: None,
        center_freq2_mhz: None,
    }
}

// ── Active devices ─────────────────────────────────────────────────────────

/// One device as NetworkManager reports it. What was not asked for stays
/// empty.
#[derive(Debug, Clone)]
pub struct DeviceReport {
    pub device_type: u32,
    /// Interface name (e.g. "wlan0"), empty when unavailable.
    pub interface: String,
    /// Path of the active access point; "/" means none.
    pub active_ap_path: String,
    /// The active access point; `None` when there is none or it could not be
    /// read.
    pub active_ap: Option<ApProperties>,
}

/// Why the active access points are not known.
#[derive(Debug, Clone, Copy, PartialEq, Eq, Structural)]
pub enum NmError {
    /// The active access point of a WiFi device could not be read.
    ActiveApUnreadable,
}

/// A WiFi device with an active access point that could not be read.
pub open spec fn is_unreadable(d: DeviceReport) -> bool {
    d.device_type == DEVICE_TYPE_WIFI && d.active_ap_path@ != "/"@ && d.active_ap is None
}

pub open spec fn any_unreadable(reports: Seq<DeviceReport>) -> bool {
    exists|i: int| 0 <= i < reports.len() && is_unreadable(#[trigger] reports[i])
}

/// A WiFi device with an active access point.
pub open spec fn is_active_device(d: DeviceReport) -> bool {
    d.device_type == DEVICE_TYPE_WIFI && d.active_ap_path@ != "/"@ && d.active_ap is Some
}

/// The name of a device: its interface name, or the BSSID of its access point
/// if that is unavailable.
pub open spec fn device_name(d: DeviceReport) -> Seq<char> {
    if d.interface@.len() > 0 {
        d.interface@
    } else {
        d.active_ap->0.hw_address@
    }
}

/// The indices of the active devices, in order.
pub open spec fn active_indices(reports: Seq<DeviceReport>) -> Seq<int>
    decreases reports.len(),
{
    if reports.len() == 0 {
        Seq::empty()
    } else if is_active_device(reports.last()) {
        active_indices(reports.drop_last()).push(reports.len() - 1)
    } else {
        active_indices(reports.drop_last())
    }
}

/// `info` is the reading of an active device.
pub open spec fn is_device_reading(info: WifiInfo, d: DeviceReport) -> bool {
    is_reading(info, d.active_ap->0, device_name(d), true)
}

/// `infos` are the readings of the active devices, in order.
pub open spec fn are_active(infos: Seq<WifiInfo>, reports: Seq<DeviceReport>) -> bool {
    let at = active_indices(reports);
    &&& infos.len() == at.len()
    &&& forall|i: int|
        0 <= i < infos.len() ==> is_device_reading(#[trigger] infos[i], reports[at[i]])
}

/// `info` is the reading of the first active device, if there is one.
pub open spec fn is_first_active(info: Option<WifiInfo>, reports: Seq<DeviceReport>) -> bool {
    let at = active_indices(reports);
    match info {
        Some(info) => at.len() > 0 && is_device_reading(info, reports[at[0]]),
        None => at.len() == 0,
    }
}

fn read_device(d: &DeviceReport) -> (r: Result<Option<WifiInfo>, NmError>)
    ensures
        match r {
            Ok(Some(info)) => is_active_device(*d) && is_device_reading(info, *d),
            Ok(None) => !is_active_device(*d) && !is_unreadable(*d),
            Err(_) => is_unreadable(*d),
        },
{
    if !is_wifi_device(d.device_type) || !has_active_ap(d.active_ap_path.as_str()) {
        return Ok(None);
    }
    match &d.active_ap {
        Some(ap) => if d.interface.as_str().is_empty() {
            Ok(Some(read_ap(ap, ap.hw_address.as_str(), true)))
        } else {
            Ok(Some(read_ap(ap, d.interface.as_str(), true)))
        },
        None => Err(NmError::ActiveApUnreadable),
    }
}

/// The readings of all WiFi devices that currently have an active access
/// point. Each carries the device's interface name (e.g. `wlan0`), so the user
/// can choose between multiple cards. Fails when one of them could not be
/// read.
pub fn query_active_wifi_devices(reports: &Vec<DeviceReport>) -> (r: Result<Vec<WifiInfo>, NmError>)
    ensures
        r is Err <==> any_unreadable(reports@),
        r matches Ok(infos) ==> are_active(infos@, reports@),
{
    let mut r: Vec<WifiInfo> = Vec::new();
    let n: usize = reports.len();
    for i in 0..n
        invariant
            n == reports@.len(),
            are_active(r@, reports@.take(i as int)),
            forall|k: int| 0 <= k < i ==> !is_unreadable(#[trigger] reports@[k]),
    {
        let ghost before = reports@.take(i as int);
        let ghost after = reports@.take(i + 1);
        proof {
            assert(after.drop_last() =~= before);
            lemma_indices_in_range(before);
        }
        match read_device(&reports[i]) {
            Ok(Some(info)) => {
                r.push(info);
            },
            Ok(None) => {},
            Err(e) => {
                return Err(e);
            },
        }
        proof {
            let at = active_indices(after);
            assert forall|k: int| 0 <= k < r@.len() implies is_device_reading(
                #[trigger] r@[k],
                after[at[k]],
            ) by {
                if k < active_indices(before).len() {
                    assert(at[k] == active_indices(before)[k]);
                    assert(before[at[k]] == after[at[k]]);
                }
            }
        }
    }
    assert(reports@.take(n as int) =~= reports@);
    Ok(r)
}

proof fn lemma_indices_in_range(reports: Seq<DeviceReport>)
    ensures
        forall|i: int|
            0 <= i < active_indices(reports).len() ==> 0 <= #[trigger] active_indices(reports)[i]
                < reports.len(),
    decreases reports.len(),
{
    if reports.len() > 0 {
        let before = active_indices(reports.drop_last());
        lemma_indices_in_range(reports.drop_last());
        assert forall|i: int| 0 <= i < active_indices(reports).len() implies 0
            <= #[trigger] active_indices(reports)[i] < reports.len() by {
            if i < before.len() {
                assert(active_indices(reports)[i] == before[i]);
            }
        }
    }
}

/// The reading of the active access point on the first active WiFi device.
pub fn query_active_ap(reports: &Vec<DeviceReport>) -> (r: Result<Option<WifiInfo>, NmError>)
    ensures
        r is Err <==> any_unreadable(reports@),
        r matches Ok(info) ==> is_first_active(info, reports@),
{
    match query_active_wifi_devices(reports) {
        Ok(all) => if all.len() > 0 {
            Ok(Some(all[0].clone()))
        } else {
            Ok(None)
        },
        Err(e) => Err(e),
    }
}

// ── Choosing a device ──────────────────────────────────────────────────────

/// The device is a WiFi device, and the wanted one where one is named.
pub open spec fn is_choice(device: (u32, String), wanted: Option<Seq<char>>) -> bool {
    &&& device.0 == DEVICE_TYPE_WIFI
    &&& wanted matches Some(name) ==> device.1@ == name
}

pub open spec fn str_view(s: Option<&str>) -> Option<Seq<char>> {
    match s {
        Some(s) => Some(s@),
        None => None,
    }
}

/// Find the target WiFi device among `(device type, interface name)` pairs: the
/// requested interface name, else the first WiFi device.
pub fn find_wifi_device(devices: &Vec<(u32, String)>, iface: Option<&str>) -> (r: Option<usize>)
    ensures
        match r {
            Some(i) => {
                &&& i < devices@.len()
                &&& is_choice(devices@[i as int], str_view(iface))
                &&& forall|j: int| 0 <= j < i ==> !is_choice(#[trigger] devices@[j], str_view(iface))
            },
            None => forall|j: int|
                0 <= j < devices@.len() ==> !is_choice(#[trigger] devices@[j], str_view(iface)),
        },
{
    let n: usize = devices.len();
    for i in 0..n
        invariant
            n == devices@.len(),
            forall|j: int| 0 <= j < i ==> !is_choice(#[trigger] devices@[j], str_view(iface)),
    {
        if is_wifi_device(devices[i].0) {
            let wanted = match iface {
                Some(name) => text::str_eq(devices[i].1.as_str(), name),
                None => true,
            };
            if wanted {
                return Some(i);
            }
        }
    }
    None
}

/// The WiFi devices among `(device type, interface name)` pairs that have a
/// name, connected or not.
pub open spec fn wifi_names(devices: Seq<(u32, String)>) -> Seq<Seq<char>>
    decreases devices.len(),
{
    if devices.len() == 0 {
        Seq::empty()
    } else if devices.last().0 == DEVICE_TYPE_WIFI && devices.last().1@.len() > 0 {
        wifi_names(devices.drop_last()).push(devices.last().1@)
    } else {
        wifi_names(devices.drop_last())
    }
}

/// The interface names of all WiFi devices, connected or not.
pub fn query_wifi_device_names(devices: &Vec<(u32, String)>) -> (r: Vec<String>)
    ensures
        crate::names::views(r@) == wifi_names(devices@),
{
    let mut r: Vec<String> = Vec::new();
    let n: usize = devices.len();
    assert(crate::names::views(r@) =~= wifi_names(devices@.take(0)));
    for i in 0..n
        invariant
            n == devices@.len(),
            crate::names::views(r@) == wifi_names(devices@.take(i as int)),
    {
        assert(devices@.take(i + 1).drop_last() =~= devices@.take(i as int));
        if is_wifi_device(devices[i].0) && !devices[i].1.as_str().is_empty() {
            let ghost before = r@;
            r.push(devices[i].1.clone());
            assert(crate::names::views(r@) =~= crate::names::views(before).push(
                devices@[i as int].1@,
            ));
        }
    }
    assert(devices@.take(n as int) =~= devices@);
    r
}

// ── Scan lists ─────────────────────────────────────────────────────────────

/// What a WiFi device reports for its scan list.
#[derive(Debug, Clone)]
pub struct ScanReport {
    pub device_name: String,
    /// The device's `LastScan` counter, 0 when it could not be read.
    pub last_scan: i64,
    /// BSSID of the associated access point, if there is one that could be
    /// read.
    pub active_bssid: Option<String>,
    /// The access points in range; those that could not be read are `None`.
    pub aps: Vec<Option<ApProperties>>,
}

/// The access points that could be read, in order.
pub open spec fn readable(aps: Seq<Option<ApProperties>>) -> Seq<ApProperties>
    decreases aps.len(),
{
    if aps.len() == 0 {
        Seq::empty()
    } else {
        match aps.last() {
            Some(ap) => readable(aps.drop_last()).push(ap),
            None => readable(aps.drop_last()),
        }
    }
}

/// The levels of access points.
pub open spec fn ap_levels(aps: Seq<ApProperties>) -> Seq<Level> {
    aps.map_values(|ap: ApProperties| order::single(dbm_of(ap.strength)))
}

/// The access point at `i` is the associated one: the first with its BSSID.
pub open spec fn is_associated(aps: Seq<ApProperties>, active: Option<String>, i: int) -> bool {
    match active {
        Some(b) => aps[i].hw_address@ == b@ && forall|j: int|
            0 <= j < i ==> (#[trigger] aps[j]).hw_address@ != b@,
        None => false,
    }
}

/// `list` is the scan list of a report: a reading of each access point that
/// could be read, strongest first (equal ones in the reported order), with the
/// associated one flagged.
pub open spec fn is_scan_list(list: Seq<WifiInfo>, report: ScanReport) -> bool {
    let aps = readable(report.aps@);
    let perm = order::descending(ap_levels(aps));
    &&& list.len() == aps.len()
    &&& order::is_descending(ap_levels(aps), perm)
    &&& forall|i: int|
        0 <= i < list.len() ==> is_reading(
            #[trigger] list[i],
            aps[perm[i]],
            report.device_name@,
            is_associated(aps, report.active_bssid, perm[i]),
        )
}

spec fn referred(aps: Seq<&ApProperties>) -> Seq<ApProperties> {
    aps.map_values(|ap: &ApProperties| *ap)
}

fn readable_refs(aps: &Vec<Option<ApProperties>>) -> (r: Vec<&ApProperties>)
    ensures
        referred(r@) == readable(aps@),
{
    let mut r: Vec<&ApProperties> = Vec::new();
    let n: usize = aps.len();
    assert(referred(r@) =~= readable(aps@.take(0)));
    for i in 0..n
        invariant
            n == aps@.len(),
            referred(r@) == readable(aps@.take(i as int)),
    {
        assert(aps@.take(i + 1).drop_last() =~= aps@.take(i as int));
        if let Some(ap) = &aps[i] {
            let ghost before = r@;
            r.push(ap);
            assert(referred(r@) =~= referred(before).push(*ap));
        }
    }
    assert(aps@.take(n as int) =~= aps@);
    r
}

fn associated_index(aps: &Vec<&ApProperties>, active: &Option<String>) -> (r: Option<usize>)
    ensures
        forall|i: int|
            0 <= i < aps@.len() ==> #[trigger] is_associated(referred(aps@), *active, i) == (
            r matches Some(k) && k == i),
{
    let ghost all = referred(aps@);
    if let Some(b) = active {
        let n: usize = aps.len();
        for i in 0..n
            invariant
                n == aps@.len(),
                all == referred(aps@),
                *active == Some(*b),
                forall|j: int| 0 <= j < i ==> (#[trigger] all[j]).hw_address@ != b@,
        {
            assert(all[i as int] == *aps@[i as int]);
            if text::str_eq(aps[i].hw_address.as_str(), b.as_str()) {
                assert(all[i as int].hw_address@ == b@);
                return Some(i);
            }
        }
    }
    None
}

/// The scan list of a device, flagging the associated AP and sorting strongest
/// first.
pub fn read_device_ap_list(report: &ScanReport) -> (r: Vec<WifiInfo>)
    ensures
        is_scan_list(r@, *report),
{
    let aps = readable_refs(&report.aps);
    let ghost all = readable(report.aps@);
    let mut levels: Vec<Level> = Vec::new();
    let n: usize = aps.len();
    for i in 0..n
        invariant
            n == aps@.len(),
            all == referred(aps@),
            levels@ == ap_levels(all).take(i as int),
    {
        assert(all[i as int] == *aps@[i as int]);
        levels.push(Level { sum: strength_to_dbm(aps[i].strength) as i64, count: 1 });
        assert(levels@ =~= ap_levels(all).take(i + 1));
    }
    assert(levels@ =~= ap_levels(all));
    let perm = order::order_descending(&levels);
    let ghost p = order::as_ints(perm@);
    let associated = associated_index(&aps, &report.active_bssid);
    let mut r: Vec<WifiInfo> = Vec::new();
    for i in 0..n
        invariant
            n == aps@.len(),
            n == perm@.len(),
            all == referred(aps@),
            p == order::as_ints(perm@),
            order::is_permutation(p, n as nat),
            forall|k: int|
                0 <= k < n ==> #[trigger] is_associated(all, report.active_bssid, k) == (
                associated matches Some(a) && a == k),
            r@.len() == i,
            forall|k: int|
                0 <= k < i ==> is_reading(
                    #[trigger] r@[k],
                    all[p[k]],
                    report.device_name@,
                    is_associated(all, report.active_bssid, p[k]),
                ),
    {
        let at: usize = perm[i];
        assert(p[i as int] == at);
        assert(all[at as int] == *aps@[at as int]);
        let is_active = match associated {
            Some(a) => a == at,
            None => false,
        };
        r.push(read_ap(aps[at], report.device_name.as_str(), is_active));
    }
    r
}

/// The scan list for one WiFi device, empty when there is no such device.
pub fn query_scan_list(report: Option<&ScanReport>) -> (r: Vec<WifiInfo>)
    ensures
        match report {
            Some(report) => is_scan_list(r@, *report),
            None => r@.len() == 0,
        },
{
    match report {
        Some(report) => read_device_ap_list(report),
        None => Vec::new(),
    }
}

/// Whether a scan has completed since the last read.
pub fn is_newer_scan(last_scan: i64, prev_last_scan: i64) -> (r: bool)
    ensures
        r == (last_scan > prev_last_scan),
{
    last_scan > prev_last_scan
}

/// The scan list only when the device's `LastScan` counter has advanced past
/// `prev_last_scan`: `(new_last_scan, list)` when it changed, else `None`.
pub fn query_scan_list_if_newer(report: Option<&ScanReport>, prev_last_scan: i64) -> (r: Option<
    (i64, Vec<WifiInfo>),
>)
    ensures
        match report {
            Some(report) => if report.last_scan > prev_last_scan {
                r matches Some((last_scan, list)) && last_scan == report.last_scan && is_scan_list(
                    list@,
                    *report,
                )
            } else {
                r is None
            },
            None => r is None,
        },
{
    match report {
        Some(report) => if is_newer_scan(report.last_scan, prev_last_scan) {
            Some((report.last_scan, read_device_ap_list(report)))
        } else {
            None
        },
        None => None,
    }
}

// ── Requesting a scan ──────────────────────────────────────────────────────

/// How far a scan request has come.
#[derive(Debug, Clone, Copy, PartialEq, Eq, Structural)]
pub enum ScanPhase {
    /// Ask the device itself (NetworkManager 1.44 and later).
    RequestDevice,
    /// Ask NetworkManager's root object (older versions).
    RequestRoot,
    /// Wait for the device's `LastScan` counter to advance.
    Poll,
    /// Read the access point list as it is.
    Read,
}

/// What happened in a phase.
#[derive(Debug, Clone, Copy, PartialEq, Eq, Structural)]
pub enum ScanEvent {
    /// The request was accepted.
    Accepted,
    /// The request was refused.
    Refused,
    /// Milliseconds since polling began.
    Elapsed(u64),
    /// The device's `LastScan` counter.
    LastScan(i64),
    /// The counter could not be read.
    Unreadable,
}

/// How long to wait for a scan to complete, in milliseconds.
pub const SCAN_TIMEOUT_MS: u64 = 6000;

pub open spec fn phase_after(phase: ScanPhase, event: ScanEvent, prev_last_scan: i64) -> ScanPhase {
    match (phase, event) {
        (ScanPhase::RequestDevice, ScanEvent::Accepted) => ScanPhase::Poll,
        (ScanPhase::RequestDevice, ScanEvent::Refused) => ScanPhase::RequestRoot,
        (ScanPhase::RequestRoot, ScanEvent::Accepted) => ScanPhase::Poll,
        // Neither request is available: the cached list has to do.
        (ScanPhase::RequestRoot, ScanEvent::Refused) => ScanPhase::Read,
        (ScanPhase::Poll, ScanEvent::Elapsed(ms)) => if ms > SCAN_TIMEOUT_MS {
            ScanPhase::Read
        } else {
            ScanPhase::Poll
        },
        (ScanPhase::Poll, ScanEvent::LastScan(now)) => if now > prev_last_scan {
            ScanPhase::Read
        } else {
            ScanPhase::Poll
        },
        (ScanPhase::Poll, ScanEvent::Unreadable) => ScanPhase::Read,
        _ => phase,
    }
}

/// The first phase: without a fresh scan the cached list is read.
pub fn first_phase(fresh: bool) -> (r: ScanPhase)
    ensures
        r == (if fresh {
            ScanPhase::RequestDevice
        } else {
            ScanPhase::Read
        }),
{
    if fresh {
        ScanPhase::RequestDevice
    } else {
        ScanPhase::Read
    }
}

/// The next phase of a scan request.
pub fn next_phase(phase: ScanPhase, event: ScanEvent, prev_last_scan: i64) -> (r: ScanPhase)
    ensures
        r == phase_after(phase, event, prev_last_scan),
{
    match (phase, event) {
        (ScanPhase::RequestDevice, ScanEvent::Accepted) => ScanPhase::Poll,
        (ScanPhase::RequestDevice, ScanEvent::Refused) => ScanPhase::RequestRoot,
        (ScanPhase::RequestRoot, ScanEvent::Accepted) => ScanPhase::Poll,
        (ScanPhase::RequestRoot, ScanEvent::Refused) => ScanPhase::Read,
        (ScanPhase::Poll, ScanEvent::Elapsed(ms)) => if ms > SCAN_TIMEOUT_MS {
            ScanPhase::Read
        } else {
            ScanPhase::Poll
        },
        (ScanPhase::Poll, ScanEvent::LastScan(now)) => if now > prev_last_scan {
            ScanPhase::Read
        } else {
            ScanPhase::Poll
        },
        (ScanPhase::Poll, ScanEvent::Unreadable) => ScanPhase::Read,
        _ => phase,
    }
}

/// A scan request never goes back: once the list is to be read it stays so, and
/// waiting ends at the latest with the timeout.
pub proof fn law_scan_request_ends(event: ScanEvent, prev_last_scan: i64, ms: u64)
    ensures
        phase_after(ScanPhase::Read, event, prev_last_scan) == ScanPhase::Read,
        phase_after(ScanPhase::Poll, event, prev_last_scan) == ScanPhase::Poll || phase_after(
            ScanPhase::Poll,
            event,
            prev_last_scan,
        ) == ScanPhase::Read,
        ms > SCAN_TIMEOUT_MS ==> phase_after(
            ScanPhase::Poll,
            ScanEvent::Elapsed(ms),
            prev_last_scan,
        ) == ScanPhase::Read,
{
}

// ── Channel widths ─────────────────────────────────────────────────────────

/// An ASCII letter in lower case; other characters as they are.
pub open spec fn ascii_lower(c: char) -> char {
    if 'A' <= c && c <= 'Z' {
        (c as u32 + 32) as char
    } else {
        c
    }
}

pub open spec fn ascii_lower_text(s: Seq<char>) -> Seq<char> {
    s.map_values(|c: char| ascii_lower(c))
}

/// `str::to_ascii_lowercase`: the letters A to Z become a to z, all other
/// characters stay.
pub assume_specification[ str::to_ascii_lowercase ](s: &str) -> (r: String)
    ensures
        r@ == ascii_lower_text(s@),
;

/// A reading with the channel width that the kernel knows for its BSSID.
/// NetworkManager writes BSSIDs in upper case, the kernel's are keyed in lower
/// case.
pub open spec fn enriched(info: WifiInfo, nl: Map<Seq<char>, nl80211::ChannelInfo>) -> WifiInfo {
    let key = ascii_lower_text(info.bssid@);
    if nl.contains_key(key) {
        WifiInfo {
            channel_width_mhz: nl[key].width_mhz,
            center_freq_mhz: nl[key].center_freq_mhz,
            center_freq2_mhz: nl[key].center_freq2_mhz,
            ..info
        }
    } else {
        info
    }
}

fn enrich(info: &WifiInfo, nl: &ScanChannels) -> (r: WifiInfo)
    ensures
        r == enriched(*info, nl@),
{
    let mut r = info.clone();
    let key = info.bssid.as_str().to_ascii_lowercase();
    if let Some(ch) = nl.get(key.as_str()) {
        r.channel_width_mhz = ch.width_mhz;
        r.center_freq_mhz = ch.center_freq_mhz;
        r.center_freq2_mhz = ch.center_freq2_mhz;
    }
    r
}

/// Add the kernel's channel widths and centers to a scan list. BSSIDs are
/// matched without regard to case.
pub fn merge_nl_scan(list: &Vec<WifiInfo>, nl: &ScanChannels) -> (r: Vec<WifiInfo>)
    ensures
        r@ == list@.map_values(|info: WifiInfo| enriched(info, nl@)),
{
    let mut r: Vec<WifiInfo> = Vec::new();
    let n: usize = list.len();
    for i in 0..n
        invariant
            n == list@.len(),
            r@ == list@.take(i as int).map_values(|info: WifiInfo| enriched(info, nl@)),
    {
        r.push(enrich(&list[i], nl));
        assert(r@ =~= list@.take(i + 1).map_values(|info: WifiInfo| enriched(info, nl@)));
    }
    assert(list@.take(n as int) =~= list@);
    r
}

// ── Laws ───────────────────────────────────────────────────────────────────

/// A scan list is sorted strongest first.
pub proof fn law_scan_list_is_sorted(list: Seq<WifiInfo>, report: ScanReport)
    requires
        is_scan_list(list, report),
    ensures
        forall|i: int, j: int|
            0 <= i < j < list.len() ==> (#[trigger] list[i]).signal_dbm >= (
            #[trigger] list[j]).signal_dbm,
{
    let aps = readable(report.aps@);
    let keys = ap_levels(aps);
    let perm = order::descending(keys);
    assert forall|i: int, j: int| 0 <= i < j < list.len() implies (#[trigger] list[i]).signal_dbm
        >= (#[trigger] list[j]).signal_dbm by {
        assert(order::before(keys, perm[i], perm[j]));
        assert(0 <= perm[i] < aps.len());
        assert(0 <= perm[j] < aps.len());
        order::lemma_single_higher(keys[perm[j]], keys[perm[i]]);
        order::lemma_single_higher(keys[perm[i]], keys[perm[j]]);
    }
}

/// At most one access point of a scan list is flagged as the associated one.
pub proof fn law_one_active_ap(list: Seq<WifiInfo>, report: ScanReport, i: int, j: int)
    requires
        is_scan_list(list, report),
        0 <= i < j < list.len(),
    ensures
        !(list[i].is_active && list[j].is_active),
{
    let aps = readable(report.aps@);
    let keys = ap_levels(aps);
    let perm = order::descending(keys);
    assert(order::before(keys, perm[i], perm[j]));
    assert(perm[i] != perm[j]);
    assert(0 <= perm[i] < aps.len());
    assert(0 <= perm[j] < aps.len());
}

/// Channel widths are found whatever the case of the BSSID.
pub proof fn law_enrich_ignores_case(
    a: WifiInfo,
    b: WifiInfo,
    nl: Map<Seq<char>, nl80211::ChannelInfo>,
)
    requires
        ascii_lower_text(a.bssid@) == ascii_lower_text(b.bssid@),
        nl.contains_key(ascii_lower_text(a.bssid@)),
    ensures
        enriched(a, nl).channel_width_mhz == enriched(b, nl).channel_width_mhz,
        enriched(a, nl).center_freq_mhz == enriched(b, nl).center_freq_mhz,
        enriched(a, nl).center_freq2_mhz == enriched(b, nl).center_freq2_mhz,
{
}

/// The channel numbers of each band, and 0 exactly outside the bands.
pub proof fn law_channel_numbers(freq: u32)
    ensures
        0 <= channel_number(freq) <= 233,
        2412 <= freq <= 2472 ==> 1 <= channel_number(freq) <= 13,
        5160 <= freq <= 5885 ==> 32 <= channel_number(freq) <= 177,
        5955 <= freq <= 7115 ==> 1 <= channel_number(freq) <= 233,
        channel_number(freq) == 0 <==> !(2412 <= freq <= 2472 || freq == 2484 || 5160 <= freq
            <= 5885 || 5955 <= freq <= 7115),
{
}

/// Channels lie 5 MHz apart: a frequency belongs to the channel that starts at
/// or below it. Channel 14 stands alone at 2484 MHz.
pub proof fn law_channels_are_5_mhz_apart(freq: u32)
    ensures
        2412 <= freq <= 2472 ==> 2407 + 5 * channel_number(freq) <= freq < 2407 + 5 * (
        channel_number(freq) + 1),
        channel_number(2484) == 14,
        5160 <= freq <= 5885 ==> 5000 + 5 * channel_number(freq) <= freq < 5000 + 5 * (
        channel_number(freq) + 1),
        5955 <= freq <= 7115 ==> 5950 + 5 * channel_number(freq) <= freq < 5950 + 5 * (
        channel_number(freq) + 1),
{
}

/// Every channel number is that of its own center frequency, in each band.
pub proof fn law_channel_of_center(n: int)
    ensures
        1 <= n <= 13 ==> channel_number((2407 + 5 * n) as u32) == n,
        32 <= n <= 177 ==> channel_number((5000 + 5 * n) as u32) == n,
        1 <= n <= 233 ==> channel_number((5950 + 5 * n) as u32) == n,
{
}

/// Two steps of strength are 1 dB, and strength 0 is -100 dBm.
pub proof fn law_strength_in_dbm(strength: u8)
    ensures
        2 * (dbm_of(strength) + 100) <= strength < 2 * (dbm_of(strength) + 100) + 2,
        dbm_of(0) == -100,
        strength < 254 ==> dbm_of((strength + 2) as u8) == dbm_of(strength) + 1,
{
}

/// What a reading takes from an access point: its address, frequency and
/// channel, its level, and its bit rate in whole Mbit/s where it is known.
pub proof fn law_reading(info: WifiInfo, ap: ApProperties, device: Seq<char>, is_active: bool)
    requires
        is_reading(info, ap, device, is_active),
    ensures
        info.ssid@ == lossy_text(ap.ssid@),
        info.bssid@ == ap.hw_address@,
        info.frequency_mhz == ap.frequency,
        5955 <= ap.frequency <= 7115 ==> 5950 + 5 * info.channel <= ap.frequency < 5955 + 5
            * info.channel,
        2 * (info.signal_dbm + 100) <= ap.strength < 2 * (info.signal_dbm + 100) + 2,
        info.link_speed_mbps is Some <==> ap.max_bitrate > 0,
        info.link_speed_mbps matches Some(mbps) ==> 1000 * mbps <= ap.max_bitrate < 1000 * mbps
            + 1000,
        info.device@ == device,
        info.is_active == is_active,
        info.channel_width_mhz is None && info.center_freq_mhz is None && info.center_freq2_mhz
            is None,
{
}

/// The device is a WiFi device (type 2) that has an access point.
pub open spec fn has_ap(d: DeviceReport) -> bool {
    d.device_type == 2 && d.active_ap_path@ != "/"@
}

/// A look at the devices fails exactly when a WiFi device has an access point
/// that could not be read; otherwise an active device is one that has one.
pub proof fn law_unreadable_devices(reports: Seq<DeviceReport>, i: int)
    requires
        0 <= i < reports.len(),
    ensures
        any_unreadable(reports) <==> exists|k: int|
            0 <= k < reports.len() && has_ap(#[trigger] reports[k]) && reports[k].active_ap is None,
        !any_unreadable(reports) ==> is_active_device(reports[i]) == has_ap(reports[i]),
        !has_ap(reports[i]) ==> !is_active_device(reports[i]),
{
    if any_unreadable(reports) {
        let k = choose|k: int| 0 <= k < reports.len() && is_unreadable(#[trigger] reports[k]);
        assert(has_ap(reports[k]));
    }
    if exists|k: int|
        0 <= k < reports.len() && has_ap(#[trigger] reports[k]) && reports[k].active_ap is None {
        let k = choose|k: int|
            0 <= k < reports.len() && has_ap(#[trigger] reports[k]) && reports[k].active_ap is None;
        assert(is_unreadable(reports[k]));
    }
    assert(!any_unreadable(reports) ==> !is_unreadable(reports[i]));
}

/// The indices of the active devices ascend, and every active device has its
/// index among them.
pub proof fn law_active_indices(reports: Seq<DeviceReport>)
    ensures
        forall|a: int, b: int|
            0 <= a < b < active_indices(reports).len() ==> #[trigger] active_indices(reports)[a]
                < #[trigger] active_indices(reports)[b],
        forall|a: int|
            0 <= a < active_indices(reports).len() ==> 0 <= #[trigger] active_indices(reports)[a]
                < reports.len() && is_active_device(reports[active_indices(reports)[a]]),
        forall|i: int|
            0 <= i < reports.len() && is_active_device(#[trigger] reports[i]) ==> active_indices(
                reports,
            ).contains(i),
    decreases reports.len(),
{
    if reports.len() > 0 {
        let rest = reports.drop_last();
        let n = reports.len() - 1;
        law_active_indices(rest);
        let before = active_indices(rest);
        let all = active_indices(reports);
        assert(reports.last() == reports[n]);
        assert forall|a: int| 0 <= a < all.len() implies 0 <= #[trigger] all[a] < reports.len()
            && is_active_device(reports[all[a]]) by {
            if a < before.len() {
                assert(all[a] == before[a]);
                assert(rest[all[a]] == reports[all[a]]);
            }
        }
        assert forall|a: int, b: int| 0 <= a < b < all.len() implies #[trigger] all[a]
            < #[trigger] all[b] by {
            assert(all[a] == before[a]);
            if b < before.len() {
                assert(all[b] == before[b]);
            }
        }
        assert forall|i: int| 0 <= i < reports.len() && is_active_device(
            #[trigger] reports[i],
        ) implies all.contains(i) by {
            if i < n {
                assert(rest[i] == reports[i]);
                let a = choose|a: int| 0 <= a < before.len() && before[a] == i;
                assert(all[a] == i);
            } else {
                assert(all[all.len() - 1] == n);
            }
        }
    }
}

/// Every WiFi device whose access point could be read has its reading, flagged
/// as active and named after its interface (after the access point where the
/// interface has no name); and every reading is that of such a device.
pub proof fn law_active_devices_are_read(infos: Seq<WifiInfo>, reports: Seq<DeviceReport>)
    requires
        are_active(infos, reports),
    ensures
        forall|i: int|
            0 <= i < reports.len() && has_ap(#[trigger] reports[i]) && reports[i].active_ap is Some
                ==> exists|k: int|
                0 <= k < infos.len() && is_reading(
                    #[trigger] infos[k],
                    reports[i].active_ap->0,
                    if reports[i].interface@.len() > 0 {
                        reports[i].interface@
                    } else {
                        reports[i].active_ap->0.hw_address@
                    },
                    true,
                ),
        forall|k: int|
            0 <= k < infos.len() ==> (#[trigger] infos[k]).is_active && exists|i: int|
                0 <= i < reports.len() && has_ap(#[trigger] reports[i]) && reports[i].active_ap
                    is Some && infos[k].bssid@ == reports[i].active_ap->0.hw_address@,
{
    law_active_indices(reports);
    let at = active_indices(reports);
    assert forall|i: int|
        0 <= i < reports.len() && has_ap(#[trigger] reports[i]) && reports[i].active_ap
            is Some implies exists|k: int|
        0 <= k < infos.len() && is_reading(
            #[trigger] infos[k],
            reports[i].active_ap->0,
            if reports[i].interface@.len() > 0 {
                reports[i].interface@
            } else {
                reports[i].active_ap->0.hw_address@
            },
            true,
        ) by {
        assert(is_active_device(reports[i]));
        let k = choose|k: int| 0 <= k < at.len() && at[k] == i;
        assert(is_device_reading(infos[k], reports[at[k]]));
    }
    assert forall|k: int| 0 <= k < infos.len() implies (#[trigger] infos[k]).is_active && exists|
        i: int,
    |
        0 <= i < reports.len() && has_ap(#[trigger] reports[i]) && reports[i].active_ap is Some
            && infos[k].bssid@ == reports[i].active_ap->0.hw_address@ by {
        assert(is_device_reading(infos[k], reports[at[k]]));
        assert(is_active_device(reports[at[k]]));
        assert(has_ap(reports[at[k]]));
    }
}

/// The first WiFi device with an access point gives the current reading; there
/// is none exactly where no device has one.
pub proof fn law_first_device_is_current(
    info: Option<WifiInfo>,
    reports: Seq<DeviceReport>,
    i: int,
)
    requires
        is_first_active(info, reports),
        0 <= i <= reports.len(),
        i < reports.len() ==> has_ap(reports[i]) && reports[i].active_ap is Some,
        forall|j: int| 0 <= j < i ==> !has_ap(#[trigger] reports[j]),
    ensures
        i == reports.len() ==> info is None,
        i < reports.len() ==> info is Some && is_device_reading(info->0, reports[i]),
{
    law_active_indices(reports);
    let at = active_indices(reports);
    if at.len() > 0 {
        assert(is_active_device(reports[at[0]]));
        assert(has_ap(reports[at[0]]));
    }
    if i < reports.len() {
        assert(is_active_device(reports[i]));
        let k = choose|k: int| 0 <= k < at.len() && at[k] == i;
        assert(at[0] <= at[k]);
    }
}

/// A device is chosen only if it is a WiFi device, and under its own name where
/// one is asked for.
pub proof fn law_choice(device: (u32, String), name: Seq<char>)
    ensures
        is_choice(device, None) <==> device.0 == 2,
        is_choice(device, Some(name)) <==> device.0 == 2 && device.1@ == name,
{
}

/// The names of devices are listed in order: those of a list and of a second
/// one behind it are listed one behind the other, and a single device has a
/// name there exactly if it is a WiFi device (type 2) with a name.
pub proof fn law_wifi_names(a: Seq<(u32, String)>, b: Seq<(u32, String)>, d: (u32, String))
    ensures
        wifi_names(a + b) == wifi_names(a) + wifi_names(b),
        wifi_names(seq![d]) == (if d.0 == 2 && d.1@.len() > 0 {
            seq![d.1@]
        } else {
            Seq::<Seq<char>>::empty()
        }),
    decreases b.len(),
{
    assert(seq![d].drop_last() =~= Seq::empty());
    assert(wifi_names(seq![d].drop_last()) =~= Seq::empty());
    assert(wifi_names(seq![d]) =~= (if d.0 == 2 && d.1@.len() > 0 {
        seq![d.1@]
    } else {
        Seq::<Seq<char>>::empty()
    }));
    if b.len() == 0 {
        assert(a + b =~= a);
        assert(wifi_names(a + b) =~= wifi_names(a) + wifi_names(b));
    } else {
        law_wifi_names(a, b.drop_last(), d);
        assert((a + b).drop_last() =~= a + b.drop_last());
        assert((a + b).last() == b.last());
        assert(wifi_names(a + b) =~= wifi_names(a) + wifi_names(b));
    }
}

/// The access points that could be read keep their order, and none that could
/// be read is left out.
pub proof fn law_readable(
    a: Seq<Option<ApProperties>>,
    b: Seq<Option<ApProperties>>,
    ap: ApProperties,
)
    ensures
        readable(a + b) == readable(a) + readable(b),
        readable(seq![Some(ap)]) == seq![ap],
        readable(seq![None]) == Seq::<ApProperties>::empty(),
    decreases b.len(),
{
    assert(seq![Some(ap)].drop_last() =~= Seq::empty());
    assert(readable(seq![Some(ap)].drop_last()) =~= Seq::empty());
    assert(readable(seq![Some(ap)]) =~= seq![ap]);
    assert(seq![None::<ApProperties>].drop_last() =~= Seq::empty());
    assert(readable(seq![None::<ApProperties>]) =~= Seq::empty());
    if b.len() == 0 {
        assert(a + b =~= a);
        assert(readable(a + b) =~= readable(a) + readable(b));
    } else {
        law_readable(a, b.drop_last(), ap);
        assert((a + b).drop_last() =~= a + b.drop_last());
        assert((a + b).last() == b.last());
        assert(readable(a + b) =~= readable(a) + readable(b));
    }
}

/// Every access point that could be read is in the scan list, as a reading of
/// the report's device.
pub proof fn law_scan_list_is_complete(list: Seq<WifiInfo>, report: ScanReport, k: int)
    requires
        is_scan_list(list, report),
        0 <= k < readable(report.aps@).len(),
    ensures
        list.len() == readable(report.aps@).len(),
        exists|i: int|
            0 <= i < list.len() && is_reading(
                #[trigger] list[i],
                readable(report.aps@)[k],
                report.device_name@,
                list[i].is_active,
            ),
{
    let aps = readable(report.aps@);
    let perm = order::descending(ap_levels(aps));
    assert(perm.contains(k));
    let i = choose|i: int| 0 <= i < perm.len() && perm[i] == k;
    assert(is_reading(
        list[i],
        aps[perm[i]],
        report.device_name@,
        is_associated(aps, report.active_bssid, perm[i]),
    ));
    assert(is_reading(list[i], aps[k], report.device_name@, list[i].is_active));
}

/// A flagged access point has the associated BSSID; one is flagged exactly if
/// an access point with that BSSID could be read.
pub proof fn law_active_flag(list: Seq<WifiInfo>, report: ScanReport, i: int)
    requires
        is_scan_list(list, report),
        0 <= i < list.len(),
    ensures
        report.active_bssid is None ==> !list[i].is_active,
        list[i].is_active ==> list[i].bssid@ == report.active_bssid->0@,
        report.active_bssid is Some && list[i].bssid@ == report.active_bssid->0@ ==> exists|k: int|
            0 <= k < list.len() && (#[trigger] list[k]).is_active,
{
    let aps = readable(report.aps@);
    let perm = order::descending(ap_levels(aps));
    assert(is_reading(
        list[i],
        aps[perm[i]],
        report.device_name@,
        is_associated(aps, report.active_bssid, perm[i]),
    ));
    if report.active_bssid is Some && list[i].bssid@ == report.active_bssid->0@ {
        let b = report.active_bssid->0;
        lemma_first_with_address(aps, b, perm[i]);
        let first = choose|first: int|
            0 <= first < aps.len() && #[trigger] is_associated(aps, Some(b), first);
        assert(perm.contains(first));
        let k = choose|k: int| 0 <= k < perm.len() && perm[k] == first;
        assert(is_reading(
            list[k],
            aps[perm[k]],
            report.device_name@,
            is_associated(aps, report.active_bssid, perm[k]),
        ));
        assert(list[k].is_active);
    }
}

proof fn lemma_first_with_address(aps: Seq<ApProperties>, b: String, i: int)
    requires
        0 <= i < aps.len(),
        aps[i].hw_address@ == b@,
    ensures
        exists|first: int|
            0 <= first < aps.len() && #[trigger] is_associated(aps, Some(b), first),
    decreases i,
{
    if forall|j: int| 0 <= j < i ==> (#[trigger] aps[j]).hw_address@ != b@ {
        assert(is_associated(aps, Some(b), i));
    } else {
        let j = choose|j: int| 0 <= j < i && (#[trigger] aps[j]).hw_address@ == b@;
        lemma_first_with_address(aps, b, j);
    }
}

/// A request that the device refuses goes to the root object, and one that this
/// refuses too ends with the list as it is; an accepted one waits until the
/// counter has advanced, for six seconds at most.
pub proof fn law_scan_phases(prev_last_scan: i64, now: i64, ms: u64)
    ensures
        phase_after(ScanPhase::RequestDevice, ScanEvent::Accepted, prev_last_scan) is Poll,
        phase_after(ScanPhase::RequestRoot, ScanEvent::Accepted, prev_last_scan) is Poll,
        phase_after(ScanPhase::RequestDevice, ScanEvent::Refused, prev_last_scan) is RequestRoot,
        phase_after(ScanPhase::RequestRoot, ScanEvent::Refused, prev_last_scan) is Read,
        phase_after(ScanPhase::Poll, ScanEvent::LastScan(now), prev_last_scan) is Read <==> now
            > prev_last_scan,
        phase_after(ScanPhase::Poll, ScanEvent::LastScan(now), prev_last_scan) is Poll <==> now
            <= prev_last_scan,
        phase_after(ScanPhase::Poll, ScanEvent::Elapsed(ms), prev_last_scan) is Read <==> ms
            > 6 * 1000,
        phase_after(ScanPhase::Poll, ScanEvent::Elapsed(ms), prev_last_scan) is Poll <==> ms <= 6
            * 1000,
        phase_after(ScanPhase::Poll, ScanEvent::Unreadable, prev_last_scan) is Read,
{
}

/// What does not belong to a phase does not end it: requests wait for their
/// answer, and polling for the counter or the timeout.
pub proof fn law_other_events_are_ignored(
    phase: ScanPhase,
    event: ScanEvent,
    prev_last_scan: i64,
)
    requires
        phase is RequestDevice || phase is RequestRoot ==> event is Elapsed || event is LastScan
            || event is Unreadable,
        phase is Poll ==> event is Accepted || event is Refused,
    ensures
        phase_after(phase, event, prev_last_scan) == phase,
{
}

/// The kernel's widths change nothing but the width and the centers of a
/// reading, and only where the kernel knows its BSSID; they are then the
/// kernel's, also where it knows none.
pub proof fn law_enrich_keeps_the_rest(
    info: WifiInfo,
    nl: Map<Seq<char>, nl80211::ChannelInfo>,
    ch: nl80211::ChannelInfo,
)
    ensures
        ({
            let r = enriched(info, nl);
            &&& r.ssid == info.ssid && r.bssid == info.bssid
            &&& r.frequency_mhz == info.frequency_mhz && r.channel == info.channel
            &&& r.signal_dbm == info.signal_dbm && r.link_speed_mbps == info.link_speed_mbps
            &&& r.device == info.device && r.is_active == info.is_active
        }),
        !nl.contains_key(ascii_lower_text(info.bssid@)) ==> enriched(info, nl) == info,
        ({
            let r = enriched(info, nl.insert(ascii_lower_text(info.bssid@), ch));
            &&& r.channel_width_mhz == ch.width_mhz
            &&& r.center_freq_mhz == ch.center_freq_mhz
            &&& r.center_freq2_mhz == ch.center_freq2_mhz
        }),
{
}

} // verus!
