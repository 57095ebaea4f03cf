//! What the kernel (nl80211) and NetworkManager report, turned into the
//! survey's own values.

pub mod nl80211;
pub mod nm_dbus;
pub mod wifi_scanner;

pub use wifi_scanner::WifiInfo;
pub use wifi_scanner::WifiScanner;
