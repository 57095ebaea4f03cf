//! Laws of the channel report's charts and tables: where their sightings come
//! from, which of them each bar and row shows, and in what order.

use crate::find;
use crate::models;
use crate::models::Measurement;
use crate::models::ScanEntry;
use crate::order;
use crate::order::Level;
use crate::text;
use crate::widgets::aggregation;
use crate::widgets::channel_report;
use crate::widgets::channel_report::Aggregation;
use crate::widgets::channel_report::ApAgg;
use crate::widgets::channel_report::ChannelAgg;
use crate::widgets::channel_report::ChartBar;
use crate::widgets::channel_report::HoverKey;
use crate::widgets::channel_report::Lobe;
use crate::widgets::channel_report::Sighting;
use vstd::prelude::*;

verus! {

// ── Sightings ──────────────────────────────────────────────────────────────

/// A sighting shows its scan entry. A width or center that the entry lacks is
/// the measurement's own, where the entry is the access point that was
/// measured; it is not known otherwise.
pub proof fn law_sighting(m: Measurement, e: ScanEntry)
    ensures
        ({
            let x = channel_report::sighting_of(m, e);
            let own = e.bssid@ == m.bssid@;
            &&& x.channel == e.channel && x.frequency_mhz == e.frequency_mhz
            &&& x.ssid == e.ssid && x.bssid == e.bssid && x.signal_dbm == e.signal_dbm
            &&& e.channel_width_mhz is Some ==> x.width_mhz == e.channel_width_mhz
            &&& e.center_freq_mhz is Some ==> x.center_freq_mhz == e.center_freq_mhz
            &&& e.center_freq2_mhz is Some ==> x.center_freq2_mhz == e.center_freq2_mhz
            &&& e.channel_width_mhz is None && own ==> x.width_mhz == m.channel_width_mhz
            &&& e.center_freq_mhz is None && own ==> x.center_freq_mhz == m.center_freq_mhz
            &&& e.center_freq2_mhz is None && own ==> x.center_freq2_mhz == m.center_freq2_mhz
            &&& e.channel_width_mhz is None && !own ==> x.width_mhz is None
            &&& e.center_freq_mhz is None && !own ==> x.center_freq_mhz is None
            &&& e.center_freq2_mhz is None && !own ==> x.center_freq2_mhz is None
        }),
{
}

/// The sightings on a band follow the scan list: those of two lists one behind
/// the other are those of each, and a single entry is sighted exactly on the
/// band of its frequency.
pub proof fn law_band_sightings(
    m: Measurement,
    a: Seq<ScanEntry>,
    b: Seq<ScanEntry>,
    e: ScanEntry,
    band: Seq<char>,
)
    ensures
        channel_report::band_sightings(m, a + b, band) == channel_report::band_sightings(m, a, band)
            + channel_report::band_sightings(m, b, band),
        models::band_text(e.frequency_mhz) == band ==> channel_report::band_sightings(
            m,
            seq![e],
            band,
        ) == seq![channel_report::sighting_of(m, e)],
        models::band_text(e.frequency_mhz) != band ==> channel_report::band_sightings(
            m,
            seq![e],
            band,
        ) == Seq::<Sighting>::empty(),
    decreases b.len(),
{
    assert(seq![e].drop_last() =~= Seq::empty());
    assert(channel_report::band_sightings(m, seq![e].drop_last(), band) =~= Seq::empty());
    assert(models::band_text(e.frequency_mhz) == band ==> channel_report::band_sightings(
        m,
        seq![e],
        band,
    ) =~= seq![channel_report::sighting_of(m, e)]);
    assert(models::band_text(e.frequency_mhz) != band ==> channel_report::band_sightings(
        m,
        seq![e],
        band,
    ) =~= Seq::<Sighting>::empty());
    if b.len() == 0 {
        assert(a + b =~= a);
        assert(channel_report::band_sightings(m, a + b, band) =~= channel_report::band_sightings(
            m,
            a,
            band,
        ) + channel_report::band_sightings(m, b, band));
    } else {
        law_band_sightings(m, a, b.drop_last(), e, band);
        assert((a + b).drop_last() =~= a + b.drop_last());
        assert((a + b).last() == b.last());
        assert(channel_report::band_sightings(m, a + b, band) =~= channel_report::band_sightings(
            m,
            a,
            band,
        ) + channel_report::band_sightings(m, b, band));
    }
}

/// The sightings on a channel, and those of a BSSID, are picked from two
/// sequences one behind the other as from each; a single one is picked exactly
/// by its own channel and BSSID.
pub proof fn law_picked_sightings(
    a: Seq<Sighting>,
    b: Seq<Sighting>,
    x: Sighting,
    ch: u8,
    bssid: Seq<char>,
)
    ensures
        channel_report::on_channel(a + b, ch) == channel_report::on_channel(a, ch)
            + channel_report::on_channel(b, ch),
        channel_report::of_bssid(a + b, bssid) == channel_report::of_bssid(a, bssid)
            + channel_report::of_bssid(b, bssid),
        channel_report::on_channel(seq![x], ch) == (if x.channel == ch {
            seq![x]
        } else {
            Seq::<Sighting>::empty()
        }),
        channel_report::of_bssid(seq![x], bssid) == (if x.bssid@ == bssid {
            seq![x]
        } else {
            Seq::<Sighting>::empty()
        }),
    decreases b.len(),
{
    assert(seq![x].drop_last() =~= Seq::empty());
    assert(channel_report::on_channel(seq![x].drop_last(), ch) =~= Seq::empty());
    assert(channel_report::of_bssid(seq![x].drop_last(), bssid) =~= Seq::empty());
    assert(channel_report::on_channel(seq![x], ch) =~= (if x.channel == ch {
        seq![x]
    } else {
        Seq::<Sighting>::empty()
    }));
    assert(channel_report::of_bssid(seq![x], bssid) =~= (if x.bssid@ == bssid {
        seq![x]
    } else {
        Seq::<Sighting>::empty()
    }));
    if b.len() == 0 {
        assert(a + b =~= a);
        assert(channel_report::on_channel(a + b, ch) =~= channel_report::on_channel(a, ch)
            + channel_report::on_channel(b, ch));
        assert(channel_report::of_bssid(a + b, bssid) =~= channel_report::of_bssid(a, bssid)
            + channel_report::of_bssid(b, bssid));
    } else {
        law_picked_sightings(a, b.drop_last(), x, ch, bssid);
        assert((a + b).drop_last() =~= a + b.drop_last());
        assert((a + b).last() == b.last());
        assert(channel_report::on_channel(a + b, ch) =~= channel_report::on_channel(a, ch)
            + channel_report::on_channel(b, ch));
        assert(channel_report::of_bssid(a + b, bssid) =~= channel_report::of_bssid(a, bssid)
            + channel_report::of_bssid(b, bssid));
    }
}

// ── Levels ─────────────────────────────────────────────────────────────────

/// The sum of signals is that of two parts together, and of a single sighting
/// its own signal.
pub proof fn law_sum_of_signals(a: Seq<Sighting>, b: Seq<Sighting>, x: Sighting)
    ensures
        channel_report::sum_dbm(a + b) == channel_report::sum_dbm(a) + channel_report::sum_dbm(b),
        channel_report::sum_dbm(seq![x]) == x.signal_dbm,
    decreases b.len(),
{
    assert(seq![x].drop_last() =~= Seq::empty());
    assert(channel_report::sum_dbm(seq![x].drop_last()) == 0);
    if b.len() == 0 {
        assert(a + b =~= a);
    } else {
        law_sum_of_signals(a, b.drop_last(), x);
        assert((a + b).drop_last() =~= a + b.drop_last());
        assert((a + b).last() == b.last());
    }
}

/// The average level is the sum of the signals over their number; the strongest
/// level is a single signal that one sighting has and none exceeds.
pub proof fn law_levels(s: Seq<Sighting>)
    requires
        s.len() > 0,
        i64::MIN <= channel_report::sum_dbm(s) <= i64::MAX,
        s.len() <= u64::MAX,
    ensures
        channel_report::level_of(s, Aggregation::Average).sum == channel_report::sum_dbm(s),
        channel_report::level_of(s, Aggregation::Average).count == s.len(),
        channel_report::level_of(s, Aggregation::Strongest).count == 1,
        exists|i: int|
            0 <= i < s.len() && (#[trigger] s[i]).signal_dbm == channel_report::level_of(
                s,
                Aggregation::Strongest,
            ).sum,
        forall|i: int|
            0 <= i < s.len() ==> (#[trigger] s[i]).signal_dbm <= channel_report::level_of(
                s,
                Aggregation::Strongest,
            ).sum,
{
    channel_report::law_max_dbm(s);
}

/// An access point's summary: its address, the frequency of its first sighting
/// and how often it was seen.
pub proof fn law_ap_summary(a: ApAgg, g: Seq<Sighting>, agg: Aggregation)
    requires
        channel_report::is_ap_agg(a, g, agg),
    ensures
        a.sightings == g.len(),
        g.len() > 0,
        a.bssid@ == g[0].bssid@,
        a.freq_mhz == g[0].frequency_mhz,
{
}

/// The width in a summary is the latest known one: that of the last sighting
/// that has one. So is each center.
pub proof fn law_latest_known(a: ApAgg, g: Seq<Sighting>, agg: Aggregation, k: int)
    requires
        channel_report::is_ap_agg(a, g, agg),
        0 <= k < g.len(),
    ensures
        g[k].width_mhz is Some && (forall|j: int|
            k < j < g.len() ==> (#[trigger] g[j]).width_mhz is None) ==> a.width_mhz
            == g[k].width_mhz,
        g[k].center_freq_mhz is Some && (forall|j: int|
            k < j < g.len() ==> (#[trigger] g[j]).center_freq_mhz is None) ==> a.center_freq_mhz
            == g[k].center_freq_mhz,
        g[k].center_freq2_mhz is Some && (forall|j: int|
            k < j < g.len() ==> (#[trigger] g[j]).center_freq2_mhz is None) ==> a.center2_freq_mhz
            == g[k].center_freq2_mhz,
{
    let of_width = |x: Sighting| x.width_mhz;
    let of_c1 = |x: Sighting| x.center_freq_mhz;
    let of_c2 = |x: Sighting| x.center_freq2_mhz;
    assert(a.width_mhz == find::last_found(g, of_width));
    assert(a.center_freq_mhz == find::last_found(g, of_c1));
    assert(a.center2_freq_mhz == find::last_found(g, of_c2));
    if g[k].width_mhz is Some && forall|j: int|
        k < j < g.len() ==> (#[trigger] g[j]).width_mhz is None {
        find::law_last_found(g, of_width, k);
    }
    if g[k].center_freq_mhz is Some && forall|j: int|
        k < j < g.len() ==> (#[trigger] g[j]).center_freq_mhz is None {
        find::law_last_found(g, of_c1, k);
    }
    if g[k].center_freq2_mhz is Some && forall|j: int|
        k < j < g.len() ==> (#[trigger] g[j]).center_freq2_mhz is None {
        find::law_last_found(g, of_c2, k);
    }
}

/// What no sighting of an access point knows, its summary does not know.
pub proof fn law_unknown_stays_unknown(a: ApAgg, g: Seq<Sighting>, agg: Aggregation)
    requires
        channel_report::is_ap_agg(a, g, agg),
    ensures
        (forall|j: int| 0 <= j < g.len() ==> (#[trigger] g[j]).width_mhz is None) ==> a.width_mhz
            is None,
        (forall|j: int| 0 <= j < g.len() ==> (#[trigger] g[j]).center_freq_mhz is None)
            ==> a.center_freq_mhz is None,
        (forall|j: int| 0 <= j < g.len() ==> (#[trigger] g[j]).center_freq2_mhz is None)
            ==> a.center2_freq_mhz is None,
{
    let of_width = |x: Sighting| x.width_mhz;
    let of_c1 = |x: Sighting| x.center_freq_mhz;
    let of_c2 = |x: Sighting| x.center_freq2_mhz;
    assert(a.width_mhz == find::last_found(g, of_width));
    assert(a.center_freq_mhz == find::last_found(g, of_c1));
    assert(a.center2_freq_mhz == find::last_found(g, of_c2));
    if forall|j: int| 0 <= j < g.len() ==> (#[trigger] g[j]).width_mhz is None {
        find::law_nothing_found(g, of_width);
    }
    if forall|j: int| 0 <= j < g.len() ==> (#[trigger] g[j]).center_freq_mhz is None {
        find::law_nothing_found(g, of_c1);
    }
    if forall|j: int| 0 <= j < g.len() ==> (#[trigger] g[j]).center_freq2_mhz is None {
        find::law_nothing_found(g, of_c2);
    }
}

// ── Bars ───────────────────────────────────────────────────────────────────

/// Each stretch of an access point has a bar of its own, as high as the access
/// point's level and marked with its channel and BSSID.
pub proof fn law_bars_of_an_ap(
    lobes: Seq<Lobe>,
    dbm: Level,
    channel: u8,
    bssid: Seq<char>,
    info: Seq<char>,
    i: int,
)
    requires
        0 <= i < lobes.len(),
    ensures
        ({
            let bars = channel_report::bars_of(lobes, dbm, channel, bssid, info);
            &&& bars.len() == lobes.len()
            &&& bars[i].lobe == lobes[i]
            &&& bars[i].dbm == dbm
            &&& bars[i].channel == channel
            &&& bars[i].bssid == bssid
            &&& bars[i].info == info
        }),
{
}

/// The value is the first one that is known, if any is.
pub open spec fn is_first_known(values: Seq<Option<u32>>, value: Option<u32>) -> bool {
    match value {
        Some(v) => exists|k: int|
            0 <= k < values.len() && #[trigger] values[k] == Some(v) && forall|j: int|
                0 <= j < k ==> #[trigger] values[j] is None,
        None => forall|j: int| 0 <= j < values.len() ==> #[trigger] values[j] is None,
    }
}

proof fn lemma_first_known(
    g: Seq<Sighting>,
    field: spec_fn(Sighting) -> Option<u32>,
    value: Option<u32>,
)
    requires
        is_first_known(g.map_values(field), value),
    ensures
        find::first_found(g, field) == value,
{
    let values = g.map_values(field);
    match value {
        Some(v) => {
            let k = choose|k: int|
                0 <= k < values.len() && #[trigger] values[k] == Some(v) && forall|j: int|
                    0 <= j < k ==> #[trigger] values[j] is None;
            assert(field(g[k]) == values[k]);
            assert forall|j: int| 0 <= j < k implies field(#[trigger] g[j]) is None by {
                assert(values[j] is None);
            }
            find::law_first_found(g, field, k);
        },
        None => {
            assert forall|j: int| 0 <= j < g.len() implies field(#[trigger] g[j]) is None by {
                assert(values[j] is None);
            }
            find::law_nothing_found(g, field);
        },
    }
}

/// In the point view an access point is as high as its strongest sighting, and
/// spans what the first known width and centers of its sightings give at the
/// frequency of the first one.
pub proof fn law_point_bars_of_an_ap(
    g: Seq<Sighting>,
    ch: u8,
    bssid: Seq<char>,
    aliases: Map<Seq<char>, String>,
    width: Option<u32>,
    center: Option<u32>,
    center2: Option<u32>,
)
    requires
        g.len() > 0,
        is_first_known(g.map_values(|x: Sighting| x.width_mhz), width),
        is_first_known(g.map_values(|x: Sighting| x.center_freq_mhz), center),
        is_first_known(g.map_values(|x: Sighting| x.center_freq2_mhz), center2),
    ensures
        ({
            let bars = channel_report::point_ap_bars(g, ch, bssid, aliases);
            let spans = channel_report::lobes(g[0].frequency_mhz, width, center, center2);
            &&& bars.len() == spans.len()
            &&& forall|i: int|
                0 <= i < bars.len() ==> {
                    &&& (#[trigger] bars[i]).lobe == spans[i]
                    &&& bars[i].channel == ch && bars[i].bssid == bssid
                    &&& bars[i].dbm.count == 1
                    &&& exists|k: int|
                        0 <= k < g.len() && (#[trigger] g[k]).signal_dbm == bars[i].dbm.sum
                    &&& forall|k: int|
                        0 <= k < g.len() ==> (#[trigger] g[k]).signal_dbm <= bars[i].dbm.sum
                }
        }),
{
    let of_width = |x: Sighting| x.width_mhz;
    let of_c1 = |x: Sighting| x.center_freq_mhz;
    let of_c2 = |x: Sighting| x.center_freq2_mhz;
    lemma_first_known(g, of_width, width);
    lemma_first_known(g, of_c1, center);
    lemma_first_known(g, of_c2, center2);
    channel_report::law_max_dbm(g);
}

/// An access point has at least one bar in the point view, and all of them are
/// as high as its strongest sighting.
proof fn lemma_point_ap_bars(
    g: Seq<Sighting>,
    ch: u8,
    bssid: Seq<char>,
    aliases: Map<Seq<char>, String>,
)
    requires
        g.len() > 0,
    ensures
        channel_report::point_ap_bars(g, ch, bssid, aliases).len() > 0,
        forall|i: int|
            0 <= i < channel_report::point_ap_bars(g, ch, bssid, aliases).len() ==> {
                let bar = #[trigger] channel_report::point_ap_bars(g, ch, bssid, aliases)[i];
                &&& bar.channel == ch && bar.bssid == bssid
                &&& bar.dbm.count == 1
                &&& exists|k: int| 0 <= k < g.len() && (#[trigger] g[k]).signal_dbm == bar.dbm.sum
                &&& forall|k: int|
                    0 <= k < g.len() ==> (#[trigger] g[k]).signal_dbm <= bar.dbm.sum
            },
{
    channel_report::law_max_dbm(g);
}

/// The bar shows a sighting among `s`: its channel and BSSID, and its signal.
pub open spec fn shows_one_of(bar: channel_report::BarView, s: Seq<Sighting>) -> bool {
    exists|k: int|
        0 <= k < s.len() && (#[trigger] s[k]).channel == bar.channel && s[k].bssid@ == bar.bssid
            && s[k].signal_dbm == bar.dbm.sum
}

/// The bar is that of an access point at least as strong as the sighting.
pub open spec fn shows(bar: channel_report::BarView, x: Sighting) -> bool {
    bar.channel == x.channel && bar.bssid == x.bssid@ && bar.dbm.count == 1 && bar.dbm.sum
        >= x.signal_dbm
}

proof fn lemma_point_channel_bars(
    s: Seq<Sighting>,
    ch: u8,
    bssids: Seq<Seq<char>>,
    aliases: Map<Seq<char>, String>,
)
    requires
        bssids.len() <= channel_report::bssids_of(channel_report::on_channel(s, ch)).len(),
        bssids == channel_report::bssids_of(channel_report::on_channel(s, ch)).take(
            bssids.len() as int,
        ),
    ensures
        ({
            let g = channel_report::on_channel(s, ch);
            let bars = channel_report::point_channel_bars(g, bssids, ch, aliases);
            &&& forall|i: int|
                0 <= i < bars.len() ==> (#[trigger] bars[i]).channel == ch && shows_one_of(bars[i], s)
            &&& forall|k: int|
                0 <= k < s.len() && (#[trigger] s[k]).channel == ch && bssids.contains(s[k].bssid@)
                    ==> exists|i: int| 0 <= i < bars.len() && shows(#[trigger] bars[i], s[k])
        }),
    decreases bssids.len(),
{
    let g = channel_report::on_channel(s, ch);
    let all = channel_report::bssids_of(g);
    let bars = channel_report::point_channel_bars(g, bssids, ch, aliases);
    aggregation::lemma_on_channel(s, ch);
    aggregation::lemma_bssids(g);
    if bssids.len() > 0 {
        let rest = bssids.drop_last();
        let b = bssids.last();
        assert(rest =~= all.take(rest.len() as int));
        lemma_point_channel_bars(s, ch, rest, aliases);
        let before = channel_report::point_channel_bars(g, rest, ch, aliases);
        let own = channel_report::of_bssid(g, b);
        aggregation::lemma_of_bssid(g, b);
        assert(all[bssids.len() - 1] == b);
        assert(all.contains(b));
        let m = choose|m: int| 0 <= m < g.len() && (#[trigger] g[m]).bssid@ == b;
        assert(g.contains(g[m]));
        assert(own.contains(g[m]));
        let extra = channel_report::point_ap_bars(own, ch, b, aliases);
        lemma_point_ap_bars(own, ch, b, aliases);
        assert(bars == before + extra);
        assert forall|i: int| 0 <= i < bars.len() implies (#[trigger] bars[i]).channel == ch
            && shows_one_of(bars[i], s) by {
            if i < before.len() {
                assert(bars[i] == before[i]);
            } else {
                let bar = extra[i - before.len()];
                assert(bars[i] == bar);
                let k = choose|k: int|
                    0 <= k < own.len() && (#[trigger] own[k]).signal_dbm == bar.dbm.sum;
                assert(own.contains(own[k]));
                assert(g.contains(own[k]));
                assert(s.contains(own[k]));
                let at = choose|at: int| 0 <= at < s.len() && s[at] == own[k];
                assert(s[at].channel == bar.channel);
            }
        }
        assert forall|k: int|
            0 <= k < s.len() && (#[trigger] s[k]).channel == ch && bssids.contains(
                s[k].bssid@,
            ) implies exists|i: int| 0 <= i < bars.len() && shows(#[trigger] bars[i], s[k]) by {
            if s[k].bssid@ == b {
                assert(s.contains(s[k]));
                assert(g.contains(s[k]));
                assert(own.contains(s[k]));
                let at = choose|at: int| 0 <= at < own.len() && own[at] == s[k];
                assert(own[at].signal_dbm <= extra[0].dbm.sum);
                assert(bars[before.len() as int] == extra[0]);
                assert(shows(bars[before.len() as int], s[k]));
            } else {
                let at = choose|at: int| 0 <= at < bssids.len() && bssids[at] == s[k].bssid@;
                assert(rest[at] == s[k].bssid@);
                let i = choose|i: int| 0 <= i < before.len() && shows(#[trigger] before[i], s[k]);
                assert(bars[i] == before[i]);
            }
        }
    }
}

/// Every sighting is shown by a bar of its access point on its channel that is
/// no lower than it; every bar shows a sighting, at its height; and the bars
/// stand in ascending order of their channels.
pub proof fn law_point_bars(s: Seq<Sighting>, n: nat, aliases: Map<Seq<char>, String>)
    requires
        n <= 256,
    ensures
        ({
            let bars = channel_report::point_bars_below(s, n, aliases);
            &&& forall|k: int|
                0 <= k < s.len() && (#[trigger] s[k]).channel < n ==> exists|i: int|
                    0 <= i < bars.len() && shows(#[trigger] bars[i], s[k])
            &&& forall|i: int|
                0 <= i < bars.len() ==> (#[trigger] bars[i]).channel < n && shows_one_of(bars[i], s)
            &&& forall|i: int, j: int|
                0 <= i < j < bars.len() ==> (#[trigger] bars[i]).channel <= (
                #[trigger] bars[j]).channel
        }),
    decreases n,
{
    if n > 0 {
        let ch = (n - 1) as u8;
        let bars = channel_report::point_bars_below(s, n, aliases);
        law_point_bars(s, (n - 1) as nat, aliases);
        let before = channel_report::point_bars_below(s, (n - 1) as nat, aliases);
        let g = channel_report::on_channel(s, ch);
        let all = channel_report::bssids_of(g);
        assert(all =~= all.take(all.len() as int));
        lemma_point_channel_bars(s, ch, all, aliases);
        aggregation::lemma_on_channel(s, ch);
        aggregation::lemma_bssids(g);
        let own = channel_report::point_channel_bars(g, all, ch, aliases);
        assert(bars == before + own);
        assert forall|i: int| 0 <= i < bars.len() implies (#[trigger] bars[i]).channel < n
            && shows_one_of(bars[i], s) by {
            if i < before.len() {
                assert(bars[i] == before[i]);
            } else {
                assert(bars[i] == own[i - before.len()]);
            }
        }
        assert forall|i: int, j: int| 0 <= i < j < bars.len() implies (#[trigger] bars[i]).channel
            <= (#[trigger] bars[j]).channel by {
            if i < before.len() {
                assert(bars[i] == before[i]);
            } else {
                assert(bars[i] == own[i - before.len()]);
            }
            if j < before.len() {
                assert(bars[j] == before[j]);
            } else {
                assert(bars[j] == own[j - before.len()]);
            }
        }
        assert forall|k: int| 0 <= k < s.len() && (#[trigger] s[k]).channel < n implies exists|
            i: int,
        |
            0 <= i < bars.len() && shows(#[trigger] bars[i], s[k]) by {
            if s[k].channel < n - 1 {
                let i = choose|i: int| 0 <= i < before.len() && shows(#[trigger] before[i], s[k]);
                assert(bars[i] == before[i]);
            } else {
                assert(s.contains(s[k]));
                assert(g.contains(s[k]));
                let at = choose|at: int| 0 <= at < g.len() && g[at] == s[k];
                assert(all.contains(g[at].bssid@));
                let i = choose|i: int| 0 <= i < own.len() && shows(#[trigger] own[i], s[k]);
                assert(bars[before.len() + i] == own[i]);
            }
        }
    }
}

/// In the survey view an access point is as high as its summary, and spans what
/// its summary's width and centers give.
pub proof fn law_survey_bars_of_an_ap(
    a: ApAgg,
    ch: u8,
    aliases: Map<Seq<char>, String>,
    sig: Seq<char>,
    i: int,
)
    requires
        0 <= i < channel_report::survey_ap_bars(a, ch, aliases, sig).len(),
    ensures
        ({
            let bars = channel_report::survey_ap_bars(a, ch, aliases, sig);
            let spans = channel_report::lobes(
                a.freq_mhz,
                a.width_mhz,
                a.center_freq_mhz,
                a.center2_freq_mhz,
            );
            &&& bars.len() == spans.len()
            &&& bars[i].lobe == spans[i]
            &&& bars[i].dbm == a.signal_dbm
            &&& bars[i].channel == ch
            &&& bars[i].bssid == a.bssid@
        }),
{
}

/// An access point has a bar among `bars`, on its channel and at its level.
pub open spec fn has_bar(bars: Seq<channel_report::BarView>, channel: u8, a: ApAgg) -> bool {
    exists|i: int| 0 <= i < bars.len() && is_bar_of(#[trigger] bars[i], channel, a)
}

/// The bar is that of an access point of the channel.
pub open spec fn is_on_channel(bar: channel_report::BarView, c: ChannelAgg) -> bool {
    exists|a: int| 0 <= a < c.aps@.len() && is_bar_of(bar, c.channel, #[trigger] c.aps@[a])
}

/// Every access point of a survey has a bar on its channel at its own level,
/// and every bar is that of one.
pub proof fn law_survey_bars(
    channels: Seq<ChannelAgg>,
    aliases: Map<Seq<char>, String>,
    texts: Seq<channel_report::SignalTexts>,
    n: nat,
)
    requires
        n <= channels.len(),
    ensures
        ({
            let bars = channel_report::survey_bars_of(channels, aliases, texts, n);
            &&& forall|c: int, a: int|
                0 <= c < n && 0 <= a < channels[c].aps@.len() ==> has_bar(
                    bars,
                    channels[c].channel,
                    #[trigger] channels[c].aps@[a],
                )
            &&& forall|i: int|
                0 <= i < bars.len() ==> exists|c: int|
                    0 <= c < n && is_on_channel(#[trigger] bars[i], #[trigger] channels[c])
        }),
    decreases n,
{
    let bars = channel_report::survey_bars_of(channels, aliases, texts, n);
    if n > 0 {
        let last = n - 1;
        law_survey_bars(channels, aliases, texts, (n - 1) as nat);
        let before = channel_report::survey_bars_of(channels, aliases, texts, (n - 1) as nat);
        let m = channels[last].aps@.len();
        lemma_survey_channel_bars(channels[last], aliases, texts[last], m);
        let own = channel_report::survey_channel_bars(channels[last], aliases, texts[last], m);
        assert(bars == before + own);
        assert forall|c: int, a: int| 0 <= c < n && 0 <= a < channels[c].aps@.len() implies has_bar(
            bars,
            channels[c].channel,
            #[trigger] channels[c].aps@[a],
        ) by {
            if c < last {
                lemma_has_bar(before, own, channels[c].channel, channels[c].aps@[a]);
            } else {
                assert(has_bar(own, channels[c].channel, channels[c].aps@[a]));
                lemma_has_bar(before, own, channels[c].channel, channels[c].aps@[a]);
            }
        }
        assert forall|i: int| 0 <= i < bars.len() implies exists|c: int|
            0 <= c < n && is_on_channel(#[trigger] bars[i], #[trigger] channels[c]) by {
            if i < before.len() {
                assert(bars[i] == before[i]);
                let c = choose|c: int|
                    0 <= c < last && is_on_channel(before[i], #[trigger] channels[c]);
                assert(is_on_channel(bars[i], channels[c]));
            } else {
                assert(bars[i] == own[i - before.len()]);
                assert(is_on_channel(bars[i], channels[last]));
            }
        }
    }
}

proof fn lemma_has_bar(
    x: Seq<channel_report::BarView>,
    y: Seq<channel_report::BarView>,
    channel: u8,
    a: ApAgg,
)
    ensures
        has_bar(x, channel, a) || has_bar(y, channel, a) ==> has_bar(x + y, channel, a),
{
    if has_bar(x, channel, a) {
        let i = choose|i: int| 0 <= i < x.len() && is_bar_of(#[trigger] x[i], channel, a);
        assert((x + y)[i] == x[i]);
    } else if has_bar(y, channel, a) {
        let i = choose|i: int| 0 <= i < y.len() && is_bar_of(#[trigger] y[i], channel, a);
        assert((x + y)[x.len() + i] == y[i]);
    }
}

/// The bar is that of the access point `a` on a channel, at its level.
pub open spec fn is_bar_of(bar: channel_report::BarView, channel: u8, a: ApAgg) -> bool {
    bar.channel == channel && bar.bssid == a.bssid@ && bar.dbm == a.signal_dbm
}

proof fn lemma_survey_channel_bars(
    c: ChannelAgg,
    aliases: Map<Seq<char>, String>,
    texts: channel_report::SignalTexts,
    n: nat,
)
    requires
        n <= c.aps@.len(),
    ensures
        ({
            let bars = channel_report::survey_channel_bars(c, aliases, texts, n);
            &&& forall|a: int| 0 <= a < n ==> has_bar(bars, c.channel, #[trigger] c.aps@[a])
            &&& forall|i: int| 0 <= i < bars.len() ==> is_on_channel(#[trigger] bars[i], c)
        }),
    decreases n,
{
    let bars = channel_report::survey_channel_bars(c, aliases, texts, n);
    if n > 0 {
        let last = n - 1;
        lemma_survey_channel_bars(c, aliases, texts, (n - 1) as nat);
        let before = channel_report::survey_channel_bars(c, aliases, texts, (n - 1) as nat);
        let own = channel_report::survey_ap_bars(
            c.aps@[last],
            c.channel,
            aliases,
            texts.aps@[last]@,
        );
        assert(bars == before + own);
        assert(own.len() > 0);
        assert(is_bar_of(own[0], c.channel, c.aps@[last]));
        assert forall|a: int| 0 <= a < n implies has_bar(bars, c.channel, #[trigger] c.aps@[a]) by {
            lemma_has_bar(before, own, c.channel, c.aps@[a]);
        }
        assert forall|i: int| 0 <= i < bars.len() implies is_on_channel(#[trigger] bars[i], c) by {
            if i < before.len() {
                assert(bars[i] == before[i]);
            } else {
                assert(bars[i] == own[i - before.len()]);
                assert(is_bar_of(bars[i], c.channel, c.aps@[last]));
            }
        }
    }
}

/// A frequency is free exactly if it lies outside every bar: left of its left
/// edge or right of its right edge. One more bar can only make it busy.
pub proof fn law_free_channels(bars: Seq<ChartBar>, bar: ChartBar, freq: u32)
    ensures
        channel_report::is_free(bars, freq) <==> forall|i: int|
            0 <= i < bars.len() ==> 2 * freq < (#[trigger] bars[i]).lobe.left_half_mhz || 2 * freq
                > bars[i].lobe.left_half_mhz + 2 * bars[i].lobe.span_mhz,
        channel_report::is_free(bars.push(bar), freq) ==> channel_report::is_free(bars, freq),
        channel_report::is_free(Seq::empty(), freq),
{
    if channel_report::is_free(bars.push(bar), freq) {
        assert forall|i: int| 0 <= i < bars.len() implies !channel_report::covers(
            (#[trigger] bars[i]).lobe,
            freq,
        ) by {
            assert(bars.push(bar)[i] == bars[i]);
        }
    }
    assert forall|i: int| 0 <= i < bars.len() implies channel_report::covers(
        (#[trigger] bars[i]).lobe,
        freq,
    ) == !(2 * freq < bars[i].lobe.left_half_mhz || 2 * freq > bars[i].lobe.left_half_mhz + 2
        * bars[i].lobe.span_mhz) by {}
}

/// The ticks of an axis are the channels of its band, each at its own center
/// frequency.
pub proof fn law_ticks(band: Seq<char>, i: int)
    requires
        0 <= i < channel_report::channels_of_band(band).len(),
    ensures
        channel_report::ticks_of(band).len() == channel_report::channels_of_band(band).len(),
        channel_report::ticks_of(band)[i].1 == channel_report::channels_of_band(band)[i],
        channel_report::ticks_of(band)[i].0 == channel_report::freq_of_band_channel(
            band,
            channel_report::channels_of_band(band)[i],
        ),
{
}

// ── Order ──────────────────────────────────────────────────────────────────

/// Of two sightings the one with the stronger signal ranks higher, and of two
/// that are as strong the one on the higher channel.
pub proof fn law_point_rank(a: Sighting, b: Sighting)
    ensures
        order::higher(channel_report::point_rank(a), channel_report::point_rank(b)) <==> (
        a.signal_dbm > b.signal_dbm || (a.signal_dbm == b.signal_dbm && a.channel > b.channel)),
{
    order::lemma_single_higher(channel_report::point_rank(a), channel_report::point_rank(b));
}

/// The rows of the point table start with the strongest sightings.
pub proof fn law_point_rows_descend(s: Seq<Sighting>, i: int, j: int)
    requires
        order::is_descending(
            channel_report::point_ranks(s),
            order::descending(channel_report::point_ranks(s)),
        ),
        0 <= i < j < s.len(),
    ensures
        ({
            let perm = order::descending(channel_report::point_ranks(s));
            &&& s[perm[i]].signal_dbm >= s[perm[j]].signal_dbm
            &&& s[perm[i]].signal_dbm == s[perm[j]].signal_dbm ==> s[perm[i]].channel
                >= s[perm[j]].channel
        }),
{
    let keys = channel_report::point_ranks(s);
    let perm = order::descending(keys);
    order::law_ties_keep_their_order(keys, perm, i, j);
    assert(order::before(keys, perm[i], perm[j]));
    assert(0 <= perm[i] < s.len() && 0 <= perm[j] < s.len());
    law_point_rank(s[perm[i]], s[perm[j]]);
    law_point_rank(s[perm[j]], s[perm[i]]);
}

/// The channels of a survey are listed in ascending order, each with its own
/// summary, and none is left out.
pub proof fn law_survey_channels(m: Map<u8, ChannelAgg>, n: nat)
    requires
        n <= 256,
        forall|ch: u8| #[trigger] m.contains_key(ch) ==> m[ch].channel == ch,
    ensures
        forall|i: int, j: int|
            0 <= i < j < channel_report::channels_below(m, n).len()
                ==> (#[trigger] channel_report::channels_below(m, n)[i]).channel < (
            #[trigger] channel_report::channels_below(m, n)[j]).channel,
        forall|i: int|
            0 <= i < channel_report::channels_below(m, n).len() ==> {
                let c = #[trigger] channel_report::channels_below(m, n)[i];
                c.channel < n && m.contains_key(c.channel) && m[c.channel] == c
            },
        forall|ch: u8| #[trigger]
            m.contains_key(ch) && ch < n ==> channel_report::channels_below(m, n).contains(m[ch]),
    decreases n,
{
    if n > 0 {
        let below = (n - 1) as nat;
        law_survey_channels(m, below);
        let before = channel_report::channels_below(m, below);
        let all = channel_report::channels_below(m, n);
        let last = (n - 1) as u8;
        assert forall|i: int| 0 <= i < all.len() implies {
            let c = #[trigger] all[i];
            c.channel < n && m.contains_key(c.channel) && m[c.channel] == c
        } by {
            if i < before.len() {
                assert(all[i] == before[i]);
            } else {
                assert(all[i] == m[last]);
            }
        }
        assert forall|i: int, j: int| 0 <= i < j < all.len() implies (#[trigger] all[i]).channel < (
        #[trigger] all[j]).channel by {
            assert(all[i] == before[i]);
            if j < before.len() {
                assert(all[j] == before[j]);
            }
        }
        assert forall|ch: u8| #[trigger] m.contains_key(ch) && ch < n implies all.contains(
            m[ch],
        ) by {
            if ch < below {
                assert(before.contains(m[ch]));
                let i = choose|i: int| 0 <= i < before.len() && before[i] == m[ch];
                assert(all[i] == m[ch]);
            } else {
                assert(ch == last);
                assert(all[all.len() - 1] == m[ch]);
            }
        }
    }
}

/// The bar of the hovered access point is drawn last, in front of all others;
/// before it, and where none is hovered, higher bars are drawn before lower
/// ones, and bars of the same height in their order.
pub proof fn law_hovered_bar_in_front(bars: Seq<ChartBar>, key: Option<HoverKey>, i: int, j: int)
    requires
        order::is_descending(
            channel_report::bar_levels(bars),
            order::descending(channel_report::bar_levels(bars)),
        ),
        0 <= i < j < bars.len(),
    ensures
        ({
            let r = channel_report::drawing_order(bars, key);
            let hovered = key is Some && exists|b: int|
                0 <= b < bars.len() && (#[trigger] bars[b]).channel == key->0.channel
                    && bars[b].bssid@ == key->0.bssid@;
            &&& r.len() == bars.len()
            &&& hovered ==> bars[r.last()].channel == key->0.channel && bars[r.last()].bssid@
                == key->0.bssid@
            &&& j < bars.len() - 1 || !hovered ==> !order::higher(bars[r[j]].dbm, bars[r[i]].dbm)
            &&& (j < bars.len() - 1 || !hovered) && !order::higher(bars[r[i]].dbm, bars[r[j]].dbm)
                ==> r[i] < r[j]
        }),
{
    let keys = channel_report::bar_levels(bars);
    let perm = order::descending(keys);
    let r = channel_report::drawing_order(bars, key);
    lemma_last_key(bars, perm, key, perm.len());
    let last = channel_report::last_key(bars, perm, key, perm.len());
    let hovered = key is Some && exists|b: int|
        0 <= b < bars.len() && (#[trigger] bars[b]).channel == key->0.channel && bars[b].bssid@
            == key->0.bssid@;
    if hovered {
        let b = choose|b: int|
            0 <= b < bars.len() && (#[trigger] bars[b]).channel == key->0.channel && bars[b].bssid@
                == key->0.bssid@;
        assert(perm.contains(b));
        let a = choose|a: int| 0 <= a < perm.len() && perm[a] == b;
        assert(channel_report::is_key(bars[perm[a]], key));
        assert(last is Some);
    }
    match last {
        Some(k) => {
            let x = if i < k {
                i
            } else {
                i + 1
            };
            let y = if j < k {
                j
            } else {
                j + 1
            };
            assert(r.last() == perm[k]);
            assert(0 <= perm[k] < bars.len());
            assert(bars[perm[k]].channel == key->0.channel && bars[perm[k]].bssid@
                == key->0.bssid@);
            assert(hovered);
            if j < bars.len() - 1 {
                assert(r[i] == perm[x] && r[j] == perm[y]);
                assert(order::before(keys, perm[x], perm[y]));
                lemma_not_both_higher(keys[perm[x]], keys[perm[y]]);
            }
        },
        None => {
            assert(order::before(keys, perm[i], perm[j]));
            lemma_not_both_higher(keys[perm[i]], keys[perm[j]]);
        },
    }
}

proof fn lemma_not_both_higher(a: Level, b: Level)
    ensures
        !(order::higher(a, b) && order::higher(b, a)),
{
}

proof fn lemma_last_key(bars: Seq<ChartBar>, perm: Seq<int>, key: Option<HoverKey>, n: nat)
    requires
        n <= perm.len(),
    ensures
        match channel_report::last_key(bars, perm, key, n) {
            Some(k) => 0 <= k < n && channel_report::is_key(bars[perm[k]], key),
            None => forall|a: int|
                0 <= a < n ==> !channel_report::is_key(bars[#[trigger] perm[a]], key),
        },
    decreases n,
{
    if n > 0 && !channel_report::is_key(bars[perm[n - 1]], key) {
        lemma_last_key(bars, perm, key, (n - 1) as nat);
    }
}

// ── The selection ──────────────────────────────────────────────────────────

/// The report is about the measurements with scan data, in order.
pub proof fn law_report_points(ms: Seq<Measurement>)
    ensures
        forall|a: int, b: int|
            0 <= a < b < channel_report::with_scan(ms).len() ==> #[trigger] channel_report::with_scan(
                ms,
            )[a] < #[trigger] channel_report::with_scan(ms)[b],
        forall|a: int|
            0 <= a < channel_report::with_scan(ms).len() ==> 0 <= #[trigger] channel_report::with_scan(
                ms,
            )[a] < ms.len() && ms[channel_report::with_scan(ms)[a]].scan_results@.len() > 0,
        forall|i: int|
            0 <= i < ms.len() && (#[trigger] ms[i]).scan_results@.len() > 0
                ==> channel_report::with_scan(ms).contains(i),
    decreases ms.len(),
{
    if ms.len() > 0 {
        let rest = ms.drop_last();
        let n = ms.len() - 1;
        law_report_points(rest);
        let before = channel_report::with_scan(rest);
        let all = channel_report::with_scan(ms);
        assert(ms.last() == ms[n]);
        assert forall|a: int| 0 <= a < all.len() implies 0 <= #[trigger] all[a] < ms.len()
            && ms[all[a]].scan_results@.len() > 0 by {
            if a < before.len() {
                assert(all[a] == before[a]);
                assert(rest[all[a]] == ms[all[a]]);
            }
        }
        assert forall|a: int, b: int| 0 <= a < b < all.len() implies #[trigger] all[a]
            < #[trigger] all[b] by {
            assert(all[a] == before[a]);
            if b < before.len() {
                assert(all[b] == before[b]);
            }
        }
        assert forall|i: int|
            0 <= i < ms.len() && (#[trigger] ms[i]).scan_results@.len() > 0 implies all.contains(
            i,
        ) by {
            if i < n {
                assert(rest[i] == ms[i]);
                let a = choose|a: int| 0 <= a < before.len() && before[a] == i;
                assert(all[a] == i);
            } else {
                assert(all[all.len() - 1] == n);
            }
        }
    }
}

/// Selected points are counted one by one.
pub proof fn law_selected_are_counted(a: Seq<bool>, b: Seq<bool>)
    ensures
        channel_report::count_selected(a + b) == channel_report::count_selected(a)
            + channel_report::count_selected(b),
        channel_report::count_selected(seq![true]) == 1,
        channel_report::count_selected(seq![false]) == 0,
        channel_report::count_selected(a) <= a.len(),
    decreases a.len() + b.len(),
{
    reveal_with_fuel(channel_report::count_selected, 2);
    if b.len() == 0 {
        assert(a + b =~= a);
        if a.len() > 0 {
            law_selected_are_counted(a.drop_last(), b);
        }
    } else {
        law_selected_are_counted(a, b.drop_last());
        assert((a + b).drop_last() =~= a + b.drop_last());
        assert((a + b).last() == b.last());
    }
}

/// A selected point adds its sightings on the band behind those of the points
/// before it; a point that is not selected adds nothing.
pub proof fn law_selected_sightings(
    points: Seq<Measurement>,
    sel: Seq<bool>,
    m: Measurement,
    on: bool,
    band: Seq<char>,
)
    requires
        points.len() == sel.len(),
    ensures
        channel_report::selected_sightings(points.push(m), sel.push(on), band, points.len() + 1)
            == channel_report::selected_sightings(points, sel, band, points.len()) + (if on {
            channel_report::band_sightings(m, m.scan_results@, band)
        } else {
            Seq::<Sighting>::empty()
        }),
        channel_report::selected_sightings(Seq::empty(), Seq::empty(), band, 0) == Seq::<
            Sighting,
        >::empty(),
{
    lemma_selected_prefix(points, sel, m, on, band, points.len());
    let before = channel_report::selected_sightings(points, sel, band, points.len());
    assert(points.push(m)[points.len() as int] == m);
    assert(sel.push(on)[points.len() as int] == on);
    assert(before + Seq::<Sighting>::empty() =~= before);
}

proof fn lemma_selected_prefix(
    points: Seq<Measurement>,
    sel: Seq<bool>,
    m: Measurement,
    on: bool,
    band: Seq<char>,
    n: nat,
)
    requires
        points.len() == sel.len(),
        n <= points.len(),
    ensures
        channel_report::selected_sightings(points.push(m), sel.push(on), band, n)
            == channel_report::selected_sightings(points, sel, band, n),
    decreases n,
{
    if n > 0 {
        lemma_selected_prefix(points, sel, m, on, band, (n - 1) as nat);
        assert(points.push(m)[n - 1] == points[n - 1]);
        assert(sel.push(on)[n - 1] == sel[n - 1]);
    }
}

/// The strips of free channels stand side by side: they are as wide as the
/// first two channels of the band are apart, and no two of them overlap.
pub proof fn law_free_strips(band: Seq<char>, i: int)
    requires
        band == "2.4 GHz"@ || band == "5 GHz"@ || band == "6 GHz"@,
        0 <= i < channel_report::ticks_of(band).len() - 1,
    ensures
        channel_report::ticks_of(band)[1].0 - channel_report::ticks_of(band)[0].0
            == channel_report::strip_of(band),
        channel_report::ticks_of(band)[i + 1].0 - channel_report::ticks_of(band)[i].0
            >= channel_report::strip_of(band),
{
    reveal_strlit("2.4 GHz");
    reveal_strlit("5 GHz");
    reveal_strlit("6 GHz");
    assert("5 GHz"@[0] == '5' && "6 GHz"@[0] == '6' && "2.4 GHz"@[0] == '2');
    let c = channel_report::channels_of_band(band);
    if band == "2.4 GHz"@ {
        assert(c[0] == 1 && c[1] == 2 && c[i] == i + 1 && c[i + 1] == i + 2);
    } else if band == "5 GHz"@ {
        assert(c[0] == 36 && c[1] == 40);
        assert(c[i] == (if i < 28 {
            36 + 4 * i
        } else {
            149 + 4 * (i - 28)
        }));
        assert(c[i + 1] == (if i + 1 < 28 {
            36 + 4 * (i + 1)
        } else {
            149 + 4 * (i + 1 - 28)
        }));
    } else {
        assert(c[0] == 2 && c[1] == 1 && c[2] == 5);
        assert(i >= 2 ==> c[i] == 5 + 4 * (i - 2));
        assert(i >= 1 ==> c[i + 1] == 5 + 4 * (i - 1));
    }
}

/// The signal column is titled after the way in which signals are combined.
pub proof fn law_survey_titles()
    ensures
        channel_report::agg_title(Aggregation::Strongest) == "strongest"@,
        channel_report::agg_title(Aggregation::Average) == "average"@,
{
}

// ── Texts ──────────────────────────────────────────────────────────────────

/// An access point is named by its alias, and by its BSSID without one; the
/// alias column has the alias, cut to 14 characters, or nothing. An access
/// point without a width tag is shown with 20 MHz.
pub proof fn law_names_and_widths(
    aliases: Map<Seq<char>, String>,
    bssid: Seq<char>,
    width: Option<u32>,
    center2: Option<u32>,
)
    ensures
        aliases.contains_key(bssid) ==> channel_report::name_of(aliases, bssid) == aliases[bssid]@
            && channel_report::short_alias(aliases, bssid) == text::shortened(aliases[bssid]@, 14),
        !aliases.contains_key(bssid) ==> channel_report::name_of(aliases, bssid) == bssid
            && channel_report::short_alias(aliases, bssid).len() == 0,
        models::tag_text(width, center2) is Some ==> channel_report::shown_width(width, center2)
            == models::tag_text(width, center2)->0,
        models::tag_text(width, center2) is None ==> channel_report::shown_width(width, center2)
            == "20M"@,
{
}

/// The hover text of the point view tells the access point, channel, frequency,
/// width and level, in this order.
pub proof fn law_point_info(ap: Seq<char>, ch: u8, freq: u32, width: Seq<char>, dbm: int)
    ensures
        ({
            let t = channel_report::point_info(ap, ch, freq, width, dbm);
            &&& text::starts_with(t, ap)
            &&& text::mentions(t, " · ch "@ + text::dec(ch as nat))
            &&& text::mentions(t, " · "@ + text::dec(freq as nat))
            &&& text::mentions(t, " MHz · "@ + width)
            &&& text::ends_with(t, " · "@ + text::dec_int(dbm) + " dBm"@)
        }),
{
    let a = " · ch "@ + text::dec(ch as nat);
    let b = " · "@ + text::dec(freq as nat);
    let c = " MHz · "@ + width;
    let d = " · "@ + text::dec_int(dbm) + " dBm"@;
    let one = ap + a;
    text::lemma_grouping(ap, " · ch "@, text::dec(ch as nat));
    let two = one + b;
    text::lemma_grouping(one, " · "@, text::dec(freq as nat));
    let three = two + c;
    text::lemma_grouping(two, " MHz · "@, width);
    text::lemma_grouping(three, " · "@, text::dec_int(dbm));
    text::lemma_grouping(three, " · "@ + text::dec_int(dbm), " dBm"@);
    assert(channel_report::point_info(ap, ch, freq, width, dbm) == three + d);
    lemma_four_parts(ap, a, b, c, d);
}

/// The hover text of the survey view tells the access point, channel, frequency
/// and level, and how often it was seen.
pub proof fn law_survey_info(ap: Seq<char>, ch: u8, freq: u32, sig: Seq<char>, sightings: nat)
    ensures
        ({
            let t = channel_report::survey_info(ap, ch, freq, sig, sightings);
            &&& text::starts_with(t, ap)
            &&& text::mentions(t, " · ch "@ + text::dec(ch as nat))
            &&& text::mentions(t, " · "@ + text::dec(freq as nat))
            &&& text::mentions(t, " MHz · "@ + sig)
            &&& text::ends_with(t, " dBm (×"@ + text::dec(sightings) + ")"@)
        }),
{
    let a = " · ch "@ + text::dec(ch as nat);
    let b = " · "@ + text::dec(freq as nat);
    let c = " MHz · "@ + sig;
    let d = " dBm (×"@ + text::dec(sightings) + ")"@;
    let one = ap + a;
    text::lemma_grouping(ap, " · ch "@, text::dec(ch as nat));
    let two = one + b;
    text::lemma_grouping(one, " · "@, text::dec(freq as nat));
    let three = two + c;
    text::lemma_grouping(two, " MHz · "@, sig);
    text::lemma_grouping(three, " dBm (×"@, text::dec(sightings));
    text::lemma_grouping(three, " dBm (×"@ + text::dec(sightings), ")"@);
    assert(channel_report::survey_info(ap, ch, freq, sig, sightings) == three + d);
    lemma_four_parts(ap, a, b, c, d);
}

proof fn lemma_four_parts(s: Seq<char>, a: Seq<char>, b: Seq<char>, c: Seq<char>, d: Seq<char>)
    ensures
        ({
            let t = s + a + b + c + d;
            &&& text::starts_with(t, s)
            &&& text::mentions(t, a) && text::mentions(t, b) && text::mentions(t, c)
            &&& text::mentions(t, d) && text::ends_with(t, d)
        }),
{
    text::law_parts(a, s);
    text::lemma_more_behind(s + a, b, s);
    text::lemma_more_behind(s + a + b, c, s);
    text::lemma_more_behind(s + a + b + c, d, s);
    text::lemma_mentions_last(s, a);
    text::lemma_more_behind(s + a, b, a);
    text::lemma_more_behind(s + a + b, c, a);
    text::lemma_more_behind(s + a + b + c, d, a);
    text::lemma_mentions_last(s + a, b);
    text::lemma_more_behind(s + a + b, c, b);
    text::lemma_more_behind(s + a + b + c, d, b);
    text::lemma_mentions_last(s + a + b, c);
    text::lemma_more_behind(s + a + b + c, d, c);
    text::lemma_mentions_last(s + a + b + c, d);
    text::law_parts(s + a + b + c, d);
}

/// A padded cell mentions its text: a left-aligned one starts with it, a
/// right-aligned one ends with it.
proof fn lemma_cell(s: Seq<char>, w: nat)
    ensures
        text::mentions(text::pad_right(s, w, ' '), s),
        text::mentions(text::pad_left(s, w, ' '), s),
        text::starts_with(text::pad_right(s, w, ' '), s),
        text::ends_with(text::pad_left(s, w, ' '), s),
{
    let fill = text::repeat(' ', text::missing(s.len(), w));
    text::law_parts(fill, s);
    text::lemma_mentions_last(fill, s);
    text::lemma_mentions(Seq::empty(), s, fill);
    assert(Seq::empty() + s + fill =~= s + fill);
}

/// A line of the point table starts with the channel and ends with the level;
/// between them stand the frequency, width, SSID, BSSID and alias.
pub proof fn law_point_columns(
    ch: Seq<char>,
    freq: Seq<char>,
    width: Seq<char>,
    ssid: Seq<char>,
    bssid: Seq<char>,
    ap: Seq<char>,
    dbm: Seq<char>,
)
    ensures
        ({
            let t = channel_report::point_columns(ch, freq, width, ssid, bssid, ap, dbm);
            &&& text::starts_with(t, ch)
            &&& text::mentions(t, freq) && text::mentions(t, width) && text::mentions(t, ssid)
            &&& text::mentions(t, bssid) && text::mentions(t, ap)
            &&& text::ends_with(t, dbm)
            &&& ch.len() <= 5 ==> text::stands_at(t, freq, 6)
            &&& ch.len() <= 5 && freq.len() <= 9 ==> text::stands_at(t, width, 16)
            &&& ch.len() <= 5 && freq.len() <= 9 && width.len() <= 7 ==> text::stands_at(t, ssid, 24)
            &&& ch.len() <= 5 && freq.len() <= 9 && width.len() <= 7 && ssid.len() <= 16
                ==> text::stands_at(t, bssid, 41)
        }),
{
    reveal_strlit(" ");
    let t = channel_report::point_columns(ch, freq, width, ssid, bssid, ap, dbm);
    let c1 = text::pad_right(ch, 5, ' ');
    let c2 = text::pad_right(freq, 9, ' ');
    let c3 = text::pad_right(width, 7, ' ');
    let c4 = text::pad_right(ssid, 16, ' ');
    let c5 = text::pad_right(bssid, 19, ' ');
    let c6 = text::pad_right(ap, 14, ' ');
    let c7 = text::pad_left(dbm, 5, ' ');
    let at2 = c1.len() + 1;
    let at3 = at2 + c2.len() + 1;
    let at4 = at3 + c3.len() + 1;
    let at5 = at4 + c4.len() + 1;
    let at6 = at5 + c5.len() + 1;
    let at7 = at6 + c6.len() + 1;
    assert(t == c1 + " "@ + c2 + " "@ + c3 + " "@ + c4 + " "@ + c5 + " "@ + c6 + " "@ + c7);
    assert(t.take(ch.len() as int) =~= ch);
    assert(t.subrange(at2 as int, at2 + freq.len() as int) =~= freq);
    assert(text::stands_at(t, freq, at2 as int));
    assert(t.subrange(at3 as int, at3 + width.len() as int) =~= width);
    assert(text::stands_at(t, width, at3 as int));
    assert(t.subrange(at4 as int, at4 + ssid.len() as int) =~= ssid);
    assert(text::stands_at(t, ssid, at4 as int));
    assert(t.subrange(at5 as int, at5 + bssid.len() as int) =~= bssid);
    assert(text::stands_at(t, bssid, at5 as int));
    assert(t.subrange(at6 as int, at6 + ap.len() as int) =~= ap);
    assert(text::stands_at(t, ap, at6 as int));
    assert(t.skip(t.len() - dbm.len()) =~= dbm);
}

/// The row of a sighting is about that sighting: it starts with its channel and
/// ends with its level, shows its frequency, width, SSID (cut to 16
/// characters), BSSID behind a dot in the given color and alias, and is found
/// again by its channel and BSSID.
pub proof fn law_point_row(x: Sighting, aliases: Map<Seq<char>, String>, color: Seq<char>)
    ensures
        ({
            let (t, key) = channel_report::point_row_of(x, aliases, color);
            &&& key == Some((x.channel, x.bssid@))
            &&& text::starts_with(t, text::dec(x.channel as nat))
            &&& text::mentions(t, text::dec(x.frequency_mhz as nat))
            &&& text::mentions(
                t,
                channel_report::shown_width(x.width_mhz, x.center_freq2_mhz),
            )
            &&& text::mentions(t, text::shortened(x.ssid@, 16))
            &&& text::mentions(t, "<span foreground=\""@ + color + "\">●</span> "@ + x.bssid@)
            &&& text::mentions(t, channel_report::short_alias(aliases, x.bssid@))
            &&& text::ends_with(t, text::dec_int(x.signal_dbm as int))
        }),
{
    law_point_columns(
        text::dec(x.channel as nat),
        text::dec(x.frequency_mhz as nat),
        channel_report::shown_width(x.width_mhz, x.center_freq2_mhz),
        text::shortened(x.ssid@, 16),
        channel_report::dot(color) + x.bssid@,
        channel_report::short_alias(aliases, x.bssid@),
        text::dec_int(x.signal_dbm as int),
    );
}

/// The row of a surveyed channel starts with its number, tells how many access
/// points it has and ends with its level; it is no access point's row.
pub proof fn law_survey_channel_row(c: ChannelAgg, sig: Seq<char>)
    ensures
        ({
            let (t, key) = channel_report::survey_channel_row(c, sig);
            &&& key is None
            &&& text::starts_with(t, text::dec(c.channel as nat))
            &&& text::mentions(t, text::dec(c.aps@.len()))
            &&& text::ends_with(t, sig)
        }),
{
    let ch = text::dec(c.channel as nat);
    let n = text::dec(c.aps@.len());
    let (t, _key) = channel_report::survey_channel_row(c, sig);
    let a = text::pad_right(ch, 5, ' ');
    let b = text::pad_right(n, 8, ' ');
    let d = text::pad_left(sig, 8, ' ');
    let sp = " "@;
    assert(t == a + sp + b + sp + d);
    lemma_four_parts(a, sp, b, sp, d);
    lemma_cell(ch, 5);
    lemma_cell(n, 8);
    lemma_cell(sig, 8);
    text::lemma_more_behind(a, sp, ch);
    text::lemma_more_behind(a + sp, b, ch);
    text::lemma_more_behind(a + sp + b, sp, ch);
    text::lemma_more_behind(a + sp + b + sp, d, ch);
    text::lemma_mentions_deep(a + sp, b, sp, n);
    text::lemma_more_behind(a + sp + b + sp, d, n);
    assert(t.skip(t.len() - sig.len()) =~= d.skip(d.len() - sig.len()));
}

/// The row of a surveyed access point shows its BSSID behind a dot in the given
/// color, its level and how often it was seen, ends with its alias, and is
/// found again by its channel and BSSID.
pub proof fn law_survey_ap_row(
    a: ApAgg,
    ch: u8,
    aliases: Map<Seq<char>, String>,
    sig: Seq<char>,
    color: Seq<char>,
)
    ensures
        ({
            let (t, key) = channel_report::survey_ap_row(a, ch, aliases, sig, color);
            &&& key == Some((ch, a.bssid@))
            &&& text::mentions(t, "<span foreground=\""@ + color + "\">●</span> "@)
            &&& text::mentions(t, a.bssid@)
            &&& text::mentions(t, sig)
            &&& text::ends_with(
                t,
                " (×"@ + text::dec(a.sightings as nat) + ")  "@ + channel_report::short_alias(
                    aliases,
                    a.bssid@,
                ),
            )
        }),
{
    let (t, _key) = channel_report::survey_ap_row(a, ch, aliases, sig, color);
    let d = channel_report::dot(color);
    let b = text::pad_right(a.bssid@, 17, ' ');
    let s = text::pad_left(sig, 6, ' ');
    let n = text::dec(a.sightings as nat);
    let alias = channel_report::short_alias(aliases, a.bssid@);
    let end = " (×"@ + n + ")  "@ + alias;
    let sp = "  "@;
    let head = sp + d + b + sp + s;
    text::lemma_grouping(head, " (×"@, n);
    text::lemma_grouping(head, " (×"@ + n, ")  "@);
    text::lemma_grouping(head, " (×"@ + n + ")  "@, alias);
    assert(t == head + end);
    text::law_parts(head, end);
    lemma_four_parts(sp, d, b, sp, s);
    lemma_cell(a.bssid@, 17);
    lemma_cell(sig, 6);
    text::lemma_more_behind(head, end, d);
    text::lemma_mentions_deep(sp + d, b, sp, a.bssid@);
    text::lemma_more_behind(sp + d + b + sp, s, a.bssid@);
    text::lemma_more_behind(head, end, a.bssid@);
    text::lemma_mentions_deep(sp + d + b + sp, s, end, sig);
}

} // verus!
