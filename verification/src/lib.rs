//! Core of a WiFi site-survey program: the survey data model, the decoding of
//! what the kernel and NetworkManager report, and every rule and text that the
//! user interface shows. Nothing here does I/O.

pub mod clock;
pub mod find;
pub mod models;
pub mod names;
pub mod order;
pub mod services;
pub mod text;
pub mod text_map;
pub mod widgets;
pub mod window;
