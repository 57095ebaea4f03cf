//! The colour legend under the floor plan: its scale, its ticks and what its
//! pointer marks.

use crate::models::color_metric;
use crate::models::signal_source;
use crate::models::ColorMetric;
use crate::models::Measurement;
use crate::models::SignalSource;
use vstd::prelude::*;

verus! {

/// The legend, as what it shows.
pub struct LegendBar {
    pub metric: ColorMetric,
    /// Scale value at the red end.
    pub min: i32,
    /// Scale value at the green end.
    pub max: i32,
    /// Nothing is drawn before the first floor is shown.
    pub active: bool,
    /// The selected measurement, if any: the pointer marks its value for the
    /// current metric.
    pub selected: Option<Measurement>,
    /// Live current WiFi signal (dBm). Marked by the pointer when no
    /// measurement is selected and the metric is signal strength.
    pub current_signal_dbm: Option<i32>,
}

/// The value that the pointer marks: the selected measurement's value, or the
/// live current signal for the signal-strength metric when nothing is selected.
/// A no-signal point has no value on the scale.
pub open spec fn marked_value(s: LegendBar, source: signal_source::SourceView) -> Option<
    color_metric::MetricValue,
> {
    match s.selected {
        Some(m) => color_metric::value_of(m, s.metric, source),
        None => match s.metric {
            ColorMetric::SignalDbm => color_metric::dbm_value(s.current_signal_dbm),
            _ => None,
        },
    }
}

impl LegendBar {
    /// The scale is the fixed reference range of the metric.
    pub open spec fn is_scaled(&self) -> bool {
        match self.metric {
            ColorMetric::SignalDbm => self.min == -90 && self.max == -50,
            _ => self.min == 0 && self.max == 1000,
        }
    }

    /// An inactive legend for the signal strength.
    pub fn new() -> (r: LegendBar)
        ensures
            r.metric == ColorMetric::SignalDbm,
            r.is_scaled(),
            !r.active,
            r.selected is None && r.current_signal_dbm is None,
    {
        let (min, max) = ColorMetric::SignalDbm.reference_range();
        LegendBar {
            metric: ColorMetric::SignalDbm,
            min,
            max,
            active: false,
            selected: None,
            current_signal_dbm: None,
        }
    }

    /// A floor is shown. The legend is drawn from now on, whatever the
    /// measurements are: it shows the fixed reference scale of the metric.
    pub fn set_measurements(&mut self, _measurements: &Vec<Measurement>)
        ensures
            *final(self) == (LegendBar { active: true, ..*old(self) }),
    {
        self.active = true;
    }

    /// Set the selected measurement (or `None` to clear).
    pub fn set_selected_measurement(&mut self, m: Option<Measurement>)
        ensures
            *final(self) == (LegendBar { selected: m, ..*old(self) }),
    {
        self.selected = m;
    }

    /// Set the live current WiFi signal (dBm).
    pub fn set_current_signal(&mut self, dbm: Option<i32>)
        ensures
            *final(self) == (LegendBar { current_signal_dbm: dbm, ..*old(self) }),
    {
        self.current_signal_dbm = dbm;
    }

    /// Set the colour metric (and its fixed reference range).
    pub fn set_color_metric(&mut self, metric: ColorMetric)
        ensures
            final(self).metric == metric,
            final(self).is_scaled(),
            *final(self) == (LegendBar {
                metric,
                min: final(self).min,
                max: final(self).max,
                ..*old(self)
            }),
    {
        let (min, max) = metric.reference_range();
        self.metric = metric;
        self.min = min;
        self.max = max;
    }

    /// The value that the pointer marks, if any.
    pub fn marker_value(&self, source: &SignalSource) -> (r: Option<color_metric::MetricValue>)
        ensures
            r == marked_value(*self, source@),
    {
        match &self.selected {
            Some(m) => color_metric::metric_value(m, self.metric, source),
            None => match (self.metric, self.current_signal_dbm) {
                (ColorMetric::SignalDbm, Some(dbm)) => Some(color_metric::MetricValue::Dbm(dbm)),
                _ => None,
            },
        }
    }
}

/// The tick values and labels of a metric's scale.
pub open spec fn ticks_of(metric: ColorMetric) -> Seq<(int, Seq<char>)> {
    match metric {
        ColorMetric::SignalDbm => seq![
            (-90, "Very poor"@),
            (-80, "Poor"@),
            (-70, "Fair"@),
            (-60, "Good"@),
            (-50, "Excellent"@),
        ],
        _ => seq![(0, "0"@), (250, "250"@), (500, "500"@), (750, "750"@), (1000, "1 Gbit"@)],
    }
}

pub open spec fn tick_views(ticks: Seq<(i32, &'static str)>) -> Seq<(int, Seq<char>)> {
    ticks.map_values(|t: (i32, &'static str)| (t.0 as int, t.1@))
}

/// Tick positions and labels for the legend. Signal shows the rating names
/// (per the common WiFi signal scale); throughput shows Mbit/s values.
pub fn legend_ticks(metric: ColorMetric) -> (r: Vec<(i32, &'static str)>)
    ensures
        tick_views(r@) == ticks_of(metric),
{
    let mut r: Vec<(i32, &'static str)> = Vec::new();
    match metric {
        ColorMetric::SignalDbm => {
            r.push((-90, "Very poor"));
            r.push((-80, "Poor"));
            r.push((-70, "Fair"));
            r.push((-60, "Good"));
            r.push((-50, "Excellent"));
        },
        ColorMetric::IperfMbps | ColorMetric::SmbMbps => {
            r.push((0, "0"));
            r.push((250, "250"));
            r.push((500, "500"));
            r.push((750, "750"));
            r.push((1000, "1 Gbit"));
        },
    }
    assert(tick_views(r@) =~= ticks_of(metric));
    r
}

/// The ticks divide the scale evenly, from its red end to its green end.
pub proof fn law_ticks_span_the_scale(s: LegendBar, i: int)
    requires
        s.is_scaled(),
        0 <= i < ticks_of(s.metric).len(),
    ensures
        ticks_of(s.metric).len() == 5,
        4 * (ticks_of(s.metric)[i].0 - s.min) == i * (s.max - s.min),
{
    assert(i == 0 || i == 1 || i == 2 || i == 3 || i == 4);
}

/// A no-signal point takes the pointer off the scale, and the live signal does
/// not put it back.
pub proof fn law_no_signal_is_not_marked(
    s: LegendBar,
    m: Measurement,
    source: signal_source::SourceView,
)
    requires
        s.selected == Some(m),
        m.no_signal,
    ensures
        marked_value(s, source) is None,
{
}

/// The pointer marks the value of the selected measurement, whatever the live
/// signal is; without a selection it marks the live signal, on the signal scale
/// alone.
pub proof fn law_marked_value(s: LegendBar, source: signal_source::SourceView)
    ensures
        s.selected matches Some(m) ==> marked_value(s, source) == color_metric::value_of(
            m,
            s.metric,
            source,
        ),
        s.selected is None && s.metric == ColorMetric::SignalDbm ==> (match s.current_signal_dbm {
            Some(dbm) => marked_value(s, source) == Some(color_metric::MetricValue::Dbm(dbm)),
            None => marked_value(s, source) is None,
        }),
        s.selected is None && s.metric != ColorMetric::SignalDbm ==> marked_value(s, source) is None,
{
}

/// The scale of every metric reaches from its first tick to its last, and its
/// green end is the higher one.
pub proof fn law_scale_ends(metric: ColorMetric)
    ensures
        ticks_of(metric)[0].0 == color_metric::range_of(metric).0,
        ticks_of(metric).last().0 == color_metric::range_of(metric).1,
        color_metric::range_of(metric).0 < color_metric::range_of(metric).1,
        color_metric::range_of(ColorMetric::IperfMbps) == color_metric::range_of(
            ColorMetric::SmbMbps,
        ),
{
}

} // verus!
