//! What the widgets show: every text, order and choice, without the drawing.

pub mod aggregation;
pub mod channel_report;
pub mod charting;
pub mod legend_bar;
pub mod measurement_panel;
pub mod wording;
