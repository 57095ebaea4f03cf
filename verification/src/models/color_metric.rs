//! Which measurement value the floor-plan colours are based on.

use crate::models::signal_source;
use crate::models::Measurement;
use crate::models::RealBits;
use crate::models::ScanEntry;
use crate::models::SignalSource;
use crate::names;
use vstd::prelude::*;

verus! {

/// Which measurement value the floor-plan cell colours are based on.
///
/// The colour scale itself is absolute (fixed reference range), so a sample's
/// colour is stable regardless of what other samples exist.
#[derive(Debug, Clone, Copy, PartialEq, Eq, Structural)]
pub enum ColorMetric {
    SignalDbm,
    IperfMbps,
    SmbMbps,
}

impl Default for ColorMetric {
    fn default() -> (r: ColorMetric)
        ensures
            r == ColorMetric::SignalDbm,
    {
        ColorMetric::SignalDbm
    }
}

/// The ends of a metric's colour scale: red, then green.
pub open spec fn range_of(metric: ColorMetric) -> (int, int) {
    match metric {
        ColorMetric::SignalDbm => (-90, -50),
        _ => (0, 1000),
    }
}

impl ColorMetric {
    /// Fixed (absolute) reference range for the colour scale: red at the
    /// first value, green at the second. Values outside are clamped.
    ///
    /// - Signal: -90 dBm (very poor) to -50 dBm (excellent).
    /// - Bandwidth: 0 to 1 Gbit/s (1000 Mbit/s).
    pub fn reference_range(self) -> (r: (i32, i32))
        ensures
            r == (match self {
                ColorMetric::SignalDbm => (-90i32, -50i32),
                _ => (0i32, 1000i32),
            }),
            (r.0 as int, r.1 as int) == range_of(self),
    {
        match self {
            ColorMetric::SignalDbm => (-90, -50),
            ColorMetric::IperfMbps | ColorMetric::SmbMbps => (0, 1000),
        }
    }

    /// Short display name (used in the legend).
    pub fn label(self) -> (r: &'static str)
        ensures
            r@ == (match self {
                ColorMetric::SignalDbm => "Signal"@,
                ColorMetric::IperfMbps => "iperf"@,
                ColorMetric::SmbMbps => "Samba"@,
            }),
    {
        match self {
            ColorMetric::SignalDbm => "Signal",
            ColorMetric::IperfMbps => "iperf",
            ColorMetric::SmbMbps => "Samba",
        }
    }

    /// Unit label for the scale endpoints (used in the legend).
    pub fn unit(self) -> (r: &'static str)
        ensures
            r@ == (match self {
                ColorMetric::SignalDbm => "dBm"@,
                _ => "Mbit/s"@,
            }),
    {
        match self {
            ColorMetric::SignalDbm => "dBm",
            _ => "Mbit/s",
        }
    }
}

/// A value on the colour scale.
#[derive(Debug, Clone, Copy, PartialEq, Eq, Structural)]
pub enum MetricValue {
    /// A signal level.
    Dbm(i32),
    /// A throughput in Mbit/s.
    Mbps(RealBits),
}

pub open spec fn dbm_value(v: Option<i32>) -> Option<MetricValue> {
    match v {
        Some(dbm) => Some(MetricValue::Dbm(dbm)),
        None => None,
    }
}

pub open spec fn mbps_value(v: Option<RealBits>) -> Option<MetricValue> {
    match v {
        Some(mbps) => Some(MetricValue::Mbps(mbps)),
        None => None,
    }
}

/// The value of a point for a metric: a no-signal point has none, and only the
/// signal metric depends on the source.
pub open spec fn value_of(
    m: Measurement,
    metric: ColorMetric,
    source: signal_source::SourceView,
) -> Option<MetricValue> {
    if m.no_signal {
        None
    } else {
        match metric {
            ColorMetric::SmbMbps => mbps_value(m.smb_mbps),
            ColorMetric::IperfMbps => mbps_value(m.iperf_mbps),
            ColorMetric::SignalDbm => dbm_value(signal_source::signal_of(m, source)),
        }
    }
}

/// The value of a measurement for a given metric, if that metric is present.
///
/// For the signal metric the value is resolved through `signal_source`;
/// `None` means that there is no data at this point (cell left uncolored).
pub fn metric_value(m: &Measurement, metric: ColorMetric, signal_source: &SignalSource) -> (r:
    Option<MetricValue>)
    ensures
        r == value_of(*m, metric, signal_source@),
{
    if m.no_signal {
        return None;
    }
    match metric {
        ColorMetric::SmbMbps => match m.smb_mbps {
            Some(v) => Some(MetricValue::Mbps(v)),
            None => None,
        },
        ColorMetric::IperfMbps => match m.iperf_mbps {
            Some(v) => Some(MetricValue::Mbps(v)),
            None => None,
        },
        ColorMetric::SignalDbm => match signal_source::signal_for(m, signal_source) {
            Some(v) => Some(MetricValue::Dbm(v)),
            None => None,
        },
    }
}

/// The strongest entry whose SSID is wanted.
pub open spec fn best_wanted(entries: Seq<ScanEntry>, wanted: Seq<Seq<char>>) -> Option<i32> {
    signal_source::strongest(entries, |e: ScanEntry| wanted.contains(e.ssid@))
}

fn find_best_wanted(entries: &Vec<ScanEntry>, wanted_ssids: &Vec<String>) -> (r: Option<i32>)
    ensures
        r == best_wanted(entries@, names::views(wanted_ssids@)),
{
    let ghost wanted = names::views(wanted_ssids@);
    let ghost pick = |e: ScanEntry| wanted.contains(e.ssid@);
    let mut best: Option<i32> = None;
    let n: usize = entries.len();
    for i in 0..n
        invariant
            n == entries@.len(),
            wanted == names::views(wanted_ssids@),
            pick == (|e: ScanEntry| wanted.contains(e.ssid@)),
            best == signal_source::strongest(entries@.take(i as int), pick),
    {
        assert(entries@.take(i + 1).drop_last() =~= entries@.take(i as int));
        if names::contains(wanted_ssids, entries[i].ssid.as_str()) {
            let dbm: i32 = entries[i].signal_dbm;
            best = match best {
                Some(b) => if dbm >= b {
                    Some(dbm)
                } else {
                    best
                },
                None => Some(dbm),
            };
        }
    }
    assert(entries@.take(n as int) =~= entries@);
    best
}

/// The value of a no-signal point: its scan list may still show the wanted
/// network, just not associated.
///
/// - the connected AP: nothing (the point is by definition unconnected);
/// - a named SSID: its strongest AP in the scan;
/// - the unnamed SSID: the strongest AP of the wanted SSIDs;
/// - a BSSID: that AP's signal in the scan.
pub open spec fn no_signal_value(
    m: Measurement,
    source: signal_source::SourceView,
    wanted: Seq<Seq<char>>,
) -> Option<i32> {
    if !m.no_signal {
        None
    } else {
        match source {
            signal_source::SourceView::ConnectedAp => None,
            signal_source::SourceView::Ssid(s) => if s.len() == 0 {
                best_wanted(m.scan_results@, wanted)
            } else {
                signal_source::best_of_ssid(m.scan_results@, s)
            },
            signal_source::SourceView::Bssid(b) => match signal_source::first_of_bssid(
                m.scan_results@,
                b,
            ) {
                Some(e) => Some(e.signal_dbm),
                None => None,
            },
        }
    }
}

/// The scale value (dBm) for a **no-signal** point, if one of the wanted APs
/// was actually in range when the point was recorded (its scan list).
///
/// `None`: the cell is drawn gray with a blue cross ("no data for this
/// selection at this point").
pub fn no_signal_metric_value(
    m: &Measurement,
    signal_source: &SignalSource,
    wanted_ssids: &Vec<String>,
) -> (r: Option<i32>)
    ensures
        r == no_signal_value(*m, signal_source@, names::views(wanted_ssids@)),
{
    if !m.no_signal {
        return None;
    }
    match signal_source {
        SignalSource::ConnectedAp => None,
        SignalSource::Ssid(s) => if s.as_str().is_empty() {
            find_best_wanted(&m.scan_results, wanted_ssids)
        } else {
            signal_source::find_best_of_ssid(&m.scan_results, s.as_str())
        },
        SignalSource::Bssid(b) => match signal_source::find_first_of_bssid(
            &m.scan_results,
            b.as_str(),
        ) {
            Some(e) => Some(e.signal_dbm),
            None => None,
        },
    }
}

/// A point is placed on the signal scale in one way only: a regular point by
/// its own value, a no-signal point by its scan list.
pub proof fn law_one_scale_value(
    m: Measurement,
    source: signal_source::SourceView,
    wanted: Seq<Seq<char>>,
)
    ensures
        value_of(m, ColorMetric::SignalDbm, source) is None || no_signal_value(m, source, wanted)
            is None,
        m.no_signal ==> value_of(m, ColorMetric::SignalDbm, source) is None && value_of(
            m,
            ColorMetric::IperfMbps,
            source,
        ) is None && value_of(m, ColorMetric::SmbMbps, source) is None,
        !m.no_signal ==> no_signal_value(m, source, wanted) is None,
        m.scan_results@.len() == 0 ==> no_signal_value(m, source, wanted) is None,
{
}

/// Throughput metrics do not depend on the signal source.
pub proof fn law_throughput_ignores_source(
    m: Measurement,
    a: signal_source::SourceView,
    b: signal_source::SourceView,
)
    ensures
        value_of(m, ColorMetric::IperfMbps, a) == value_of(m, ColorMetric::IperfMbps, b),
        value_of(m, ColorMetric::SmbMbps, a) == value_of(m, ColorMetric::SmbMbps, b),
{
}

/// A regular point has a value for a throughput metric exactly where that
/// throughput is recorded, and it is that throughput.
pub proof fn law_throughput_metrics(m: Measurement, source: signal_source::SourceView)
    requires
        !m.no_signal,
    ensures
        match value_of(m, ColorMetric::SmbMbps, source) {
            Some(v) => m.smb_mbps is Some && v == MetricValue::Mbps(m.smb_mbps->0),
            None => m.smb_mbps is None,
        },
        match value_of(m, ColorMetric::IperfMbps, source) {
            Some(v) => m.iperf_mbps is Some && v == MetricValue::Mbps(m.iperf_mbps->0),
            None => m.iperf_mbps is None,
        },
{
}

/// The two throughputs do not mix: points that differ in nothing but one of
/// them have the same value for the other, and the same signal.
pub proof fn law_throughputs_do_not_mix(
    m: Measurement,
    iperf: Option<RealBits>,
    smb: Option<RealBits>,
    source: signal_source::SourceView,
)
    ensures
        value_of((Measurement { iperf_mbps: iperf, ..m }), ColorMetric::SmbMbps, source) == value_of(
            m,
            ColorMetric::SmbMbps,
            source,
        ),
        value_of((Measurement { smb_mbps: smb, ..m }), ColorMetric::IperfMbps, source) == value_of(
            m,
            ColorMetric::IperfMbps,
            source,
        ),
        value_of(
            (Measurement { iperf_mbps: iperf, smb_mbps: smb, ..m }),
            ColorMetric::SignalDbm,
            source,
        ) == value_of(m, ColorMetric::SignalDbm, source),
{
}

/// The value for the signal metric is the signal of the source, where there is
/// one.
pub proof fn law_signal_metric(m: Measurement, source: signal_source::SourceView)
    ensures
        match signal_source::signal_of(m, source) {
            Some(dbm) => value_of(m, ColorMetric::SignalDbm, source) == Some(MetricValue::Dbm(dbm)),
            None => value_of(m, ColorMetric::SignalDbm, source) is None,
        },
{
}

/// The strongest wanted signal is that of an entry whose SSID is wanted, and no
/// such entry is stronger; there is none exactly when no entry's SSID is wanted.
pub proof fn law_best_wanted(entries: Seq<ScanEntry>, wanted: Seq<Seq<char>>)
    ensures
        match best_wanted(entries, wanted) {
            Some(dbm) => {
                &&& exists|i: int|
                    0 <= i < entries.len() && wanted.contains((#[trigger] entries[i]).ssid@)
                        && entries[i].signal_dbm == dbm
                &&& forall|i: int|
                    0 <= i < entries.len() && wanted.contains((#[trigger] entries[i]).ssid@)
                        ==> entries[i].signal_dbm <= dbm
            },
            None => forall|i: int|
                0 <= i < entries.len() ==> !wanted.contains((#[trigger] entries[i]).ssid@),
        },
    decreases entries.len(),
{
    if entries.len() > 0 {
        let rest = entries.drop_last();
        let last = entries.len() - 1;
        law_best_wanted(rest, wanted);
        assert(best_wanted(entries, wanted) == (match best_wanted(rest, wanted) {
            Some(best) => if wanted.contains(entries[last].ssid@) && entries[last].signal_dbm
                >= best {
                Some(entries[last].signal_dbm)
            } else {
                Some(best)
            },
            None => if wanted.contains(entries[last].ssid@) {
                Some(entries[last].signal_dbm)
            } else {
                None
            },
        }));
        assert forall|i: int| 0 <= i < last implies rest[i] == #[trigger] entries[i] by {}
        if let Some(best) = best_wanted(rest, wanted) {
            let i = choose|i: int|
                0 <= i < rest.len() && wanted.contains((#[trigger] rest[i]).ssid@)
                    && rest[i].signal_dbm == best;
            assert(entries[i] == rest[i]);
        }
    }
}

/// A no-signal point with a named SSID, or with none (the wanted ones), has the
/// signal of a fitting scan entry than which no fitting entry is stronger, and
/// none exactly when no entry fits. The wanted SSIDs count only without a name.
pub proof fn law_no_signal_ssid(
    m: Measurement,
    ssid: Seq<char>,
    wanted: Seq<Seq<char>>,
    others: Seq<Seq<char>>,
)
    requires
        m.no_signal,
    ensures
        ({
            let entries = m.scan_results@;
            let fits = |e: ScanEntry|
                if ssid.len() == 0 {
                    wanted.contains(e.ssid@)
                } else {
                    e.ssid@ == ssid
                };
            match no_signal_value(m, signal_source::SourceView::Ssid(ssid), wanted) {
                Some(dbm) => {
                    &&& exists|i: int|
                        0 <= i < entries.len() && fits(#[trigger] entries[i])
                            && entries[i].signal_dbm == dbm
                    &&& forall|i: int|
                        0 <= i < entries.len() && fits(#[trigger] entries[i])
                            ==> entries[i].signal_dbm <= dbm
                },
                None => forall|i: int| 0 <= i < entries.len() ==> !fits(#[trigger] entries[i]),
            }
        }),
        ssid.len() > 0 ==> no_signal_value(m, signal_source::SourceView::Ssid(ssid), wanted)
            == no_signal_value(m, signal_source::SourceView::Ssid(ssid), others),
{
    let entries = m.scan_results@;
    let fits = |e: ScanEntry|
        if ssid.len() == 0 {
            wanted.contains(e.ssid@)
        } else {
            e.ssid@ == ssid
        };
    law_best_wanted(entries, wanted);
    signal_source::law_best_of_ssid(entries, ssid);
    if let Some(dbm) = no_signal_value(m, signal_source::SourceView::Ssid(ssid), wanted) {
        if ssid.len() == 0 {
            let i = choose|i: int|
                0 <= i < entries.len() && wanted.contains((#[trigger] entries[i]).ssid@)
                    && entries[i].signal_dbm == dbm;
            assert(fits(entries[i]));
        } else {
            let i = choose|i: int|
                0 <= i < entries.len() && (#[trigger] entries[i]).ssid@ == ssid
                    && entries[i].signal_dbm == dbm;
            assert(fits(entries[i]));
        }
    }
}

/// A no-signal point with a BSSID has the signal of that BSSID's first scan
/// entry, and none where it has no entry; the connected AP has none.
pub proof fn law_no_signal_bssid(m: Measurement, bssid: Seq<char>, wanted: Seq<Seq<char>>, i: int)
    requires
        m.no_signal,
        0 <= i <= m.scan_results@.len(),
        i < m.scan_results@.len() ==> m.scan_results@[i].bssid@ == bssid,
        forall|j: int| 0 <= j < i ==> (#[trigger] m.scan_results@[j]).bssid@ != bssid,
    ensures
        no_signal_value(m, signal_source::SourceView::Bssid(bssid), wanted) == (if i
            < m.scan_results@.len() {
            Some(m.scan_results@[i].signal_dbm)
        } else {
            None
        }),
        no_signal_value(m, signal_source::SourceView::ConnectedAp, wanted) is None,
{
    if i < m.scan_results@.len() {
        signal_source::law_first_of_bssid(m.scan_results@, bssid, i);
    } else {
        signal_source::law_none_of_bssid(m.scan_results@, bssid);
    }
}

} // verus!
