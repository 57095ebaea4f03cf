//! Readings of access points, and the scanner that hands them out.

use crate::services::nm_dbus;
use crate::services::nm_dbus::DeviceReport;
use crate::services::nm_dbus::NmError;
use crate::services::nm_dbus::ScanReport;
use vstd::prelude::*;

verus! {

/// A reading of one access point.
#[derive(Debug)]
pub struct WifiInfo {
    pub ssid: String,
    pub bssid: String,
    pub frequency_mhz: u32,
    pub channel: u8,
    pub signal_dbm: i32,
    pub link_speed_mbps: Option<u32>,
    /// The WiFi device/interface this reading came from (e.g. "wlan0").
    pub device: String,
    /// True when this AP is the one the computer is associated with.
    pub is_active: bool,
    pub channel_width_mhz: Option<u32>,
    pub center_freq_mhz: Option<u32>,
    /// Second center (80+80 only).
    pub center_freq2_mhz: Option<u32>,
}

impl Clone for WifiInfo {
    fn clone(&self) -> (r: WifiInfo)
        ensures
            r == *self,
    {
        WifiInfo {
            ssid: self.ssid.clone(),
            bssid: self.bssid.clone(),
            frequency_mhz: self.frequency_mhz,
            channel: self.channel,
            signal_dbm: self.signal_dbm,
            link_speed_mbps: self.link_speed_mbps,
            device: self.device.clone(),
            is_active: self.is_active,
            channel_width_mhz: self.channel_width_mhz,
            center_freq_mhz: self.center_freq_mhz,
            center_freq2_mhz: self.center_freq2_mhz,
        }
    }
}

/// Hands out readings from what NetworkManager reported.
pub struct WifiScanner;

impl WifiScanner {
    /// The currently connected AP on the first active WiFi card.
    pub fn scan(reports: &Vec<DeviceReport>) -> (r: Result<Option<WifiInfo>, NmError>)
        ensures
            r is Err <==> nm_dbus::any_unreadable(reports@),
            r matches Ok(info) ==> nm_dbus::is_first_active(info, reports@),
    {
        nm_dbus::query_active_ap(reports)
    }

    /// All WiFi cards that currently have an active connection, each tagged
    /// with its interface name in `device`.
    pub fn scan_all(reports: &Vec<DeviceReport>) -> (r: Result<Vec<WifiInfo>, NmError>)
        ensures
            r is Err <==> nm_dbus::any_unreadable(reports@),
            r matches Ok(infos) ==> nm_dbus::are_active(infos@, reports@),
    {
        nm_dbus::query_active_wifi_devices(reports)
    }

    /// All APs in range for one WiFi card (its full scan list), strongest
    /// first, with the associated AP flagged `is_active`. Empty when there is
    /// no such card.
    pub fn scan_list(report: Option<&ScanReport>) -> (r: Vec<WifiInfo>)
        ensures
            match report {
                Some(report) => nm_dbus::is_scan_list(r@, *report),
                None => r@.len() == 0,
            },
    {
        nm_dbus::query_scan_list(report)
    }

    /// The scan list for one WiFi card, if a new scan has completed since
    /// `prev_last_scan`: `(new_last_scan, list)`, else `None`.
    pub fn scan_list_if_newer(report: Option<&ScanReport>, prev_last_scan: i64) -> (r: Option<
        (i64, Vec<WifiInfo>),
    >)
        ensures
            match report {
                Some(report) => if report.last_scan > prev_last_scan {
                    r matches Some((last_scan, list)) && last_scan == report.last_scan
                        && nm_dbus::is_scan_list(list@, *report)
                } else {
                    r is None
                },
                None => r is None,
            },
    {
        nm_dbus::query_scan_list_if_newer(report, prev_last_scan)
    }
}

} // verus!
