[package]
name = "wifichecker"
version = "0.2.2"
edition = "2021"
publish = false

[dependencies]
anyhow = "1"
async-channel = "2"
cairo-rs = "*"
chrono = { version = "0.4", features = ["serde"] }
env_logger = "*"
futures = "0.3"
gtk4 = { version = "*", features = ["v4_10"] }
libadwaita = { version = "*", features = ["v1_4"] }
log = "0.4"
poppler = "*"
serde = { version = "1", features = ["derive"] }
serde_json = "1"
tokio = { version = "1", features = ["rt", "net"] }
wl-nl80211 = "0.7"
zbus = "5"
