//! Survey points and the networks heard at them.

use crate::clock;
use crate::clock::Timestamp;
use vstd::prelude::*;

verus! {

/// A double-precision number, carried as its IEEE 754 bit pattern. The model
/// stores such numbers and hands them out; it never computes with them.
#[derive(Debug, Clone, Copy, PartialEq, Eq, Structural)]
pub struct RealBits {
    pub bits: u64,
}

/// One access point heard when a point was measured.
#[derive(Debug, Clone)]
pub struct ScanEntry {
    pub ssid: String,
    pub bssid: String,
    pub frequency_mhz: u32,
    pub channel: u8,
    pub signal_dbm: i32,
    /// True for the access point that the computer was associated with.
    pub is_active: bool,
    pub channel_width_mhz: Option<u32>,
    pub center_freq_mhz: Option<u32>,
    /// Second center (80+80 only).
    pub center_freq2_mhz: Option<u32>,
}

impl ScanEntry {
    /// Band label of the entry's frequency.
    pub fn band(&self) -> (r: &'static str)
        ensures
            r@ == super::band_text(self.frequency_mhz),
    {
        super::band_label(self.frequency_mhz)
    }
}

/// A single WiFi measurement at a position on the floor plan. `x` and `y` are
/// relative coordinates in [0, 1].
#[derive(Debug, Clone)]
pub struct Measurement {
    pub id: String,
    /// Relative x coordinate on the floor plan image (0 = left, 1 = right).
    pub x: RealBits,
    /// Relative y coordinate on the floor plan image (0 = top, 1 = bottom).
    pub y: RealBits,
    pub timestamp: Timestamp,
    pub ssid: String,
    pub bssid: String,
    pub frequency_mhz: u32,
    pub channel: u8,
    pub signal_dbm: i32,
    pub noise_dbm: Option<i32>,
    pub link_speed_mbps: Option<u32>,
    pub iperf_mbps: Option<RealBits>,
    pub smb_mbps: Option<RealBits>,
    /// True when this point records "no WiFi reception" (WiFi off or not
    /// connected): it marks a dead zone on the coverage map.
    pub no_signal: bool,
    /// All access points in range when the point was measured.
    pub scan_results: Vec<ScanEntry>,
    pub channel_width_mhz: Option<u32>,
    pub center_freq_mhz: Option<u32>,
    /// Second center (80+80 only).
    pub center_freq2_mhz: Option<u32>,
    /// The WiFi card that was used (e.g. "wlan0"), empty when unknown.
    pub device: String,
}

/// Signal quality of a level: 0 at -90 dBm and below, 100 at -30 dBm and above,
/// linear (rounded down) in between.
pub open spec fn quality_percent(dbm: int) -> int {
    if dbm <= -90 {
        0
    } else if dbm >= -30 {
        100
    } else {
        (dbm + 90) * 100 / 60
    }
}

impl Measurement {
    /// The optional readings are all unknown.
    pub open spec fn is_bare(&self) -> bool {
        &&& self.noise_dbm is None
        &&& self.link_speed_mbps is None
        &&& self.iperf_mbps is None
        &&& self.smb_mbps is None
        &&& self.scan_results@.len() == 0
        &&& self.channel_width_mhz is None
        &&& self.center_freq_mhz is None
        &&& self.center_freq2_mhz is None
        &&& self.device@.len() == 0
    }

    /// A fresh measurement, stamped with the current time and with a new
    /// identifier.
    pub fn new(
        x: RealBits,
        y: RealBits,
        ssid: String,
        bssid: String,
        frequency_mhz: u32,
        channel: u8,
        signal_dbm: i32,
    ) -> (r: Measurement)
        ensures
            exists|t: u32| t < 1_000_000_000 && r.id@ == #[trigger] clock::uuid_text(t),
            clock::is_time(r.timestamp.spec_secs() as int, r.timestamp.spec_nanos() as int),
            r.timestamp.spec_nanos() < 1_000_000_000,
            r.x == x && r.y == y,
            r.ssid == ssid && r.bssid == bssid,
            r.frequency_mhz == frequency_mhz,
            r.channel == channel,
            r.signal_dbm == signal_dbm,
            !r.no_signal,
            r.is_bare(),
    {
        Measurement {
            id: clock::uuid_v4(),
            x,
            y,
            timestamp: Timestamp::now(),
            ssid,
            bssid,
            frequency_mhz,
            channel,
            signal_dbm,
            noise_dbm: None,
            link_speed_mbps: None,
            iperf_mbps: None,
            smb_mbps: None,
            no_signal: false,
            scan_results: Vec::new(),
            channel_width_mhz: None,
            center_freq_mhz: None,
            center_freq2_mhz: None,
            device: String::new(),
        }
    }

    /// A measurement recording "no WiFi reception" at a position (WiFi off or
    /// not connected). Marks a dead zone on the coverage map.
    pub fn no_signal(x: RealBits, y: RealBits) -> (r: Measurement)
        ensures
            exists|t: u32| t < 1_000_000_000 && r.id@ == #[trigger] clock::uuid_text(t),
            clock::is_time(r.timestamp.spec_secs() as int, r.timestamp.spec_nanos() as int),
            r.timestamp.spec_nanos() < 1_000_000_000,
            r.x == x && r.y == y,
            r.ssid@.len() == 0 && r.bssid@.len() == 0,
            r.frequency_mhz == 0,
            r.channel == 0,
            r.signal_dbm == -90,
            r.no_signal,
            r.is_bare(),
    {
        let mut m = Measurement::new(x, y, String::new(), String::new(), 0, 0, -90);
        m.no_signal = true;
        m
    }

    /// Signal quality in percent (0-100).
    pub fn signal_quality_percent(&self) -> (r: u8)
        ensures
            r == quality_percent(self.signal_dbm as int),
    {
        let clamped: i32 = if self.signal_dbm < -90 {
            -90
        } else if self.signal_dbm > -30 {
            -30
        } else {
            self.signal_dbm
        };
        ((clamped + 90) * 100 / 60) as u8
    }
}

/// Quality is a percentage, and a stronger signal never has less of it.
pub proof fn law_quality_is_monotone(a: int, b: int)
    requires
        a <= b,
    ensures
        0 <= quality_percent(a) <= quality_percent(b) <= 100,
{
}

/// Quality counts the way from -90 to -30 dBm in whole percents: 60 dB are 100
/// percent. It is nothing below and full above.
pub proof fn law_quality_is_linear(dbm: int)
    ensures
        -90 <= dbm <= -30 ==> 60 * quality_percent(dbm) <= 100 * (dbm + 90) < 60 * (quality_percent(
            dbm,
        ) + 1),
        dbm < -90 ==> quality_percent(dbm) == 0,
        dbm > -30 ==> quality_percent(dbm) == 100,
{
}

/// A fresh measurement knows none of the optional readings.
pub proof fn law_bare(m: Measurement)
    requires
        m.is_bare(),
    ensures
        m.noise_dbm is None && m.link_speed_mbps is None,
        m.iperf_mbps is None && m.smb_mbps is None,
        m.channel_width_mhz is None && m.center_freq_mhz is None && m.center_freq2_mhz is None,
        m.scan_results@.len() == 0 && m.device@.len() == 0,
{
}

} // verus!
