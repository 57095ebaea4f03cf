//! Channel report: per-point and site-survey views of the recorded channel /
//! AP / signal data.
//!
//! Pure post-processing of the scan lists stored with each measurement. Charts
//! have frequency (MHz) on the x-axis, with channel numbers as ticks, and one
//! bar per AP, as wide as its channel bandwidth; the survey view marks free
//! channels (no AP in range).

use crate::find;
use crate::models;
use crate::models::Measurement;
use crate::models::ScanEntry;
use crate::names;
use crate::order;
use crate::order::Level;
use crate::services::nm_dbus;
use crate::text;
use crate::text_map::TextMap;
use std::collections::BTreeMap;
use vstd::prelude::*;
use vstd::string::StringExecFns;

verus! {

/// How per-channel (and per-AP) signals are combined across measurement points
/// in the site-survey view.
#[derive(Clone, Copy, Debug, PartialEq, Eq, Structural)]
pub enum Aggregation {
    /// Max signal seen (default).
    Strongest,
    /// Mean of all sightings.
    Average,
}

impl Aggregation {
    /// The names of the choices, in dropdown order.
    pub const LABELS: [&'static str; 2] = ["Strongest", "Average"];

    /// The choice at a dropdown position.
    pub fn from_index(i: u32) -> (r: Aggregation)
        ensures
            r == (if i == 1 {
                Aggregation::Average
            } else {
                Aggregation::Strongest
            }),
    {
        if i == 1 {
            Aggregation::Average
        } else {
            Aggregation::Strongest
        }
    }
}

// ── Bands and channels ─────────────────────────────────────────────────────

/// The channel numbers that exist in each band, ascending by frequency:
/// 2.4 GHz 1-14; 5 GHz 36-144 and 149-177 in steps of 4; 6 GHz 2, 1, 5, 9, ...,
/// 233.
pub open spec fn channels_of_band(band: Seq<char>) -> Seq<u8> {
    if band == "2.4 GHz"@ {
        Seq::new(14, |i: int| (i + 1) as u8)
    } else if band == "5 GHz"@ {
        Seq::new(28, |i: int| (36 + 4 * i) as u8) + Seq::new(8, |i: int| (149 + 4 * i) as u8)
    } else if band == "6 GHz"@ {
        seq![2u8, 1u8] + Seq::new(58, |i: int| (5 + 4 * i) as u8)
    } else {
        Seq::empty()
    }
}

fn push_steps(v: &mut Vec<u8>, first: u8, step: u8, n: u8)
    requires
        first + step * n <= 255,
    ensures
        final(v)@ == old(v)@ + Seq::new(n as nat, |i: int| (first + step * i) as u8),
{
    let mut c: u8 = first;
    assert(step * 0 == 0) by (nonlinear_arith);
    assert(v@ =~= old(v)@ + Seq::new(0, |i: int| (first + step * i) as u8));
    for k in 0..n
        invariant
            first + step * n <= 255,
            c == first + step * k,
            v@ == old(v)@ + Seq::new(k as nat, |i: int| (first + step * i) as u8),
    {
        v.push(c);
        assert(step * (k + 1) == step * k + step) by (nonlinear_arith);
        assert(step * (k + 1) <= step * n) by (nonlinear_arith)
            requires
                k + 1 <= n,
                step >= 0,
        ;
        c = c + step;
        assert(v@ =~= old(v)@ + Seq::new((k + 1) as nat, |i: int| (first + step * i) as u8));
    }
}

/// The channel numbers that exist in each band, ascending by frequency; none
/// for an unknown band.
pub fn band_channels(band: &str) -> (r: Vec<u8>)
    ensures
        r@ == channels_of_band(band@),
{
    let mut v: Vec<u8> = Vec::new();
    if text::str_eq(band, "2.4 GHz") {
        push_steps(&mut v, 1, 1, 14);
    } else if text::str_eq(band, "5 GHz") {
        push_steps(&mut v, 36, 4, 28);
        push_steps(&mut v, 149, 4, 8);
    } else if text::str_eq(band, "6 GHz") {
        v.push(2);
        v.push(1);
        push_steps(&mut v, 5, 4, 58);
    }
    proof {
        reveal_strlit("2.4 GHz");
        reveal_strlit("5 GHz");
        reveal_strlit("6 GHz");
        assert(v@ =~= channels_of_band(band@));
    }
    v
}

/// The (min, max) frequency (MHz) of a band's x-axis.
pub open spec fn freq_range(band: Seq<char>) -> (u32, u32) {
    if band == "2.4 GHz"@ {
        (2400, 2500)
    } else if band == "5 GHz"@ {
        (5150, 5925)
    } else if band == "6 GHz"@ {
        (5925, 7125)
    } else {
        (0, 1)
    }
}

/// The (min, max) frequency (MHz) used for a band's x-axis.
pub fn band_freq_range(band: &str) -> (r: (u32, u32))
    ensures
        r == freq_range(band@),
{
    if text::str_eq(band, "2.4 GHz") {
        (2400, 2500)
    } else if text::str_eq(band, "5 GHz") {
        (5150, 5925)
    } else if text::str_eq(band, "6 GHz") {
        (5925, 7125)
    } else {
        (0, 1)
    }
}

/// Center frequency (MHz) of a channel number (2.4 GHz and 5 GHz bands).
pub open spec fn freq_of_channel(ch: u8) -> u32 {
    if ch <= 14 {
        (2407 + ch * 5) as u32
    } else {
        (5000 + ch * 5) as u32
    }
}

/// Center frequency (MHz) of a channel number (2.4 GHz and 5 GHz bands).
pub fn channel_freq(ch: u8) -> (r: u32)
    ensures
        r == freq_of_channel(ch),
{
    if ch <= 14 {
        2407 + ch as u32 * 5
    } else {
        5000 + ch as u32 * 5
    }
}

/// Center frequency (MHz) of a channel within a band: the 6 GHz band uses its
/// own numbering (channel n at 5950 + 5n, channel 2 at 5935).
pub open spec fn freq_of_band_channel(band: Seq<char>, ch: u8) -> u32 {
    if band == "6 GHz"@ {
        if ch == 2 {
            5935
        } else {
            (5950 + ch * 5) as u32
        }
    } else {
        freq_of_channel(ch)
    }
}

/// Center frequency (MHz) of channel `ch` within `band`.
pub fn band_channel_freq(band: &str, ch: u8) -> (r: u32)
    ensures
        r == freq_of_band_channel(band@, ch),
{
    if text::str_eq(band, "6 GHz") {
        if ch == 2 {
            5935
        } else {
            5950 + ch as u32 * 5
        }
    } else {
        channel_freq(ch)
    }
}

/// The band names, in display order.
pub const BANDS: [&'static str; 3] = ["2.4 GHz", "5 GHz", "6 GHz"];

/// Each channel of a band lies on the band's axis, and its frequency belongs to
/// the band.
pub proof fn law_channels_lie_in_band(band: Seq<char>, i: int)
    requires
        0 <= i < channels_of_band(band).len(),
    ensures
        freq_range(band).0 <= freq_of_band_channel(band, channels_of_band(band)[i])
            <= freq_range(band).1,
        models::band_text(freq_of_band_channel(band, channels_of_band(band)[i])) == band,
{
    reveal_strlit("2.4 GHz");
    reveal_strlit("5 GHz");
    reveal_strlit("6 GHz");
    assert("5 GHz"@ != "6 GHz"@) by {
        assert("5 GHz"@[0] == '5' && "6 GHz"@[0] == '6');
    }
    assert("2.4 GHz"@ != "6 GHz"@ && "2.4 GHz"@ != "5 GHz"@) by {
        assert("2.4 GHz"@[0] == '2' && "6 GHz"@[0] == '6' && "5 GHz"@[0] == '5');
    }
    let ch = channels_of_band(band)[i];
    if band == "2.4 GHz"@ {
        assert(ch == i + 1);
    } else if band == "5 GHz"@ {
        if i < 28 {
            assert(ch == 36 + 4 * i);
        } else {
            assert(ch == 149 + 4 * (i - 28));
        }
    } else {
        if i == 0 {
            assert(ch == 2);
        } else if i == 1 {
            assert(ch == 1);
        } else {
            assert(ch == 5 + 4 * (i - 2));
        }
    }
}

/// The channels of a band are listed by ascending frequency.
pub proof fn law_channels_ascend(band: Seq<char>, i: int, j: int)
    requires
        0 <= i < j < channels_of_band(band).len(),
    ensures
        freq_of_band_channel(band, channels_of_band(band)[i]) < freq_of_band_channel(
            band,
            channels_of_band(band)[j],
        ),
{
    reveal_strlit("2.4 GHz");
    reveal_strlit("5 GHz");
    reveal_strlit("6 GHz");
    assert("5 GHz"@[0] == '5' && "6 GHz"@[0] == '6' && "2.4 GHz"@[0] == '2');
    let a = channels_of_band(band)[i];
    let b = channels_of_band(band)[j];
    if band == "2.4 GHz"@ {
        assert(a == i + 1 && b == j + 1);
    } else if band == "5 GHz"@ {
        assert(a == (if i < 28 {
            36 + 4 * i
        } else {
            149 + 4 * (i - 28)
        }));
        assert(b == (if j < 28 {
            36 + 4 * j
        } else {
            149 + 4 * (j - 28)
        }));
    } else {
        assert(i > 1 ==> a == 5 + 4 * (i - 2));
        assert(j > 1 ==> b == 5 + 4 * (j - 2));
    }
}

/// Channel numbers and center frequencies belong together: in each band the
/// channel at a center frequency has that center frequency. Channel 2 of the
/// 6 GHz band has a center outside the raster, and channel 14 one of its own.
pub proof fn law_channel_centers(ch: u8)
    ensures
        1 <= ch <= 13 ==> nm_dbus::channel_number(freq_of_band_channel("2.4 GHz"@, ch)) == ch,
        32 <= ch <= 177 ==> nm_dbus::channel_number(freq_of_band_channel("5 GHz"@, ch)) == ch,
        1 <= ch <= 233 && ch != 2 ==> nm_dbus::channel_number(freq_of_band_channel("6 GHz"@, ch))
            == ch,
        freq_of_band_channel("6 GHz"@, 2) == 5935,
{
    lemma_band_names_differ();
}

proof fn lemma_band_names_differ()
    ensures
        "2.4 GHz"@ != "5 GHz"@,
        "2.4 GHz"@ != "6 GHz"@,
        "5 GHz"@ != "6 GHz"@,
{
    reveal_strlit("2.4 GHz");
    reveal_strlit("5 GHz");
    reveal_strlit("6 GHz");
    assert("5 GHz"@[0] == '5' && "6 GHz"@[0] == '6' && "2.4 GHz"@[0] == '2');
}

/// The channel number of a center frequency leads back to that frequency in its
/// band. (2484 MHz and 5960 MHz have the numbers of other centers.)
pub proof fn law_centers_of_channel_numbers(freq: u32)
    requires
        2412 <= freq <= 2472 && freq % 5 == 2 || 5160 <= freq <= 5885 && freq % 5 == 0 || 5955
            <= freq <= 7115 && freq % 5 == 0 && freq != 5960,
    ensures
        freq_of_band_channel(models::band_text(freq), nm_dbus::channel_number(freq) as u8) == freq,
{
    lemma_band_names_differ();
}

/// The channels of each band: 1 to 14; every fourth one from 36 to 144 and from
/// 149 to 177; 2, and every fourth one from 1 to 233.
pub proof fn law_channels_of_bands(ch: u8)
    ensures
        channels_of_band("2.4 GHz"@).contains(ch) <==> 1 <= ch <= 14,
        channels_of_band("5 GHz"@).contains(ch) <==> (36 <= ch <= 144 && ch % 4 == 0) || (149 <= ch
            <= 177 && ch % 4 == 1),
        channels_of_band("6 GHz"@).contains(ch) <==> ch == 2 || (1 <= ch <= 233 && ch % 4 == 1),
{
    lemma_band_names_differ();
    let a = channels_of_band("2.4 GHz"@);
    let b = channels_of_band("5 GHz"@);
    let c = channels_of_band("6 GHz"@);
    assert(forall|i: int| 0 <= i < 14 ==> #[trigger] a[i] == i + 1);
    assert(forall|i: int|
        0 <= i < 36 ==> #[trigger] b[i] == (if i < 28 {
            36 + 4 * i
        } else {
            149 + 4 * (i - 28)
        }));
    assert(forall|i: int| 2 <= i < 60 ==> #[trigger] c[i] == 5 + 4 * (i - 2));
    assert(c[0] == 2 && c[1] == 1);
    if 1 <= ch <= 14 {
        assert(a[ch - 1] == ch);
    }
    if 36 <= ch <= 144 && ch % 4 == 0 {
        assert(b[(ch - 36) / 4] == ch);
    }
    if 149 <= ch <= 177 && ch % 4 == 1 {
        assert(b[28 + (ch - 149) / 4] == ch);
    }
    if 5 <= ch <= 233 && ch % 4 == 1 {
        assert(c[2 + (ch - 5) / 4] == ch);
    }
}

// ── Sightings ──────────────────────────────────────────────────────────────

/// One AP sighting on a channel (from one measurement's scan list).
#[derive(Debug)]
pub struct Sighting {
    pub channel: u8,
    pub frequency_mhz: u32,
    pub ssid: String,
    pub bssid: String,
    pub signal_dbm: i32,
    pub width_mhz: Option<u32>,
    pub center_freq_mhz: Option<u32>,
    pub center_freq2_mhz: Option<u32>,
}

impl Clone for Sighting {
    fn clone(&self) -> (r: Sighting)
        ensures
            r == *self,
    {
        Sighting {
            channel: self.channel,
            frequency_mhz: self.frequency_mhz,
            ssid: self.ssid.clone(),
            bssid: self.bssid.clone(),
            signal_dbm: self.signal_dbm,
            width_mhz: self.width_mhz,
            center_freq_mhz: self.center_freq_mhz,
            center_freq2_mhz: self.center_freq2_mhz,
        }
    }
}

/// The entry's own value, else the measurement's for the AP it was measuring.
pub open spec fn or_measured(own: Option<u32>, is_measured: bool, measured: Option<u32>) -> Option<
    u32,
> {
    match own {
        Some(v) => Some(v),
        None => if is_measured {
            measured
        } else {
            None
        },
    }
}

/// The sighting of a scan entry. Old points predate the width and center fields
/// in the scan list, but the measurement itself still records them for the AP
/// it was measuring.
pub open spec fn sighting_of(m: Measurement, e: ScanEntry) -> Sighting {
    let measured = e.bssid@ == m.bssid@;
    Sighting {
        channel: e.channel,
        frequency_mhz: e.frequency_mhz,
        ssid: e.ssid,
        bssid: e.bssid,
        signal_dbm: e.signal_dbm,
        width_mhz: or_measured(e.channel_width_mhz, measured, m.channel_width_mhz),
        center_freq_mhz: or_measured(e.center_freq_mhz, measured, m.center_freq_mhz),
        center_freq2_mhz: or_measured(e.center_freq2_mhz, measured, m.center_freq2_mhz),
    }
}

/// The sightings of scan entries on a band, in order.
pub open spec fn band_sightings(
    m: Measurement,
    entries: Seq<ScanEntry>,
    band: Seq<char>,
) -> Seq<Sighting>
    decreases entries.len(),
{
    if entries.len() == 0 {
        Seq::empty()
    } else if models::band_text(entries.last().frequency_mhz) == band {
        band_sightings(m, entries.drop_last(), band).push(sighting_of(m, entries.last()))
    } else {
        band_sightings(m, entries.drop_last(), band)
    }
}

fn or_value(own: Option<u32>, is_measured: bool, measured: Option<u32>) -> (r: Option<u32>)
    ensures
        r == or_measured(own, is_measured, measured),
{
    match own {
        Some(v) => Some(v),
        None => if is_measured {
            measured
        } else {
            None
        },
    }
}

/// All AP sightings of one measurement on the given band.
pub fn sightings_of(m: &Measurement, band: &str) -> (r: Vec<Sighting>)
    ensures
        r@ == band_sightings(*m, m.scan_results@, band@),
{
    let mut r: Vec<Sighting> = Vec::new();
    let n: usize = m.scan_results.len();
    for i in 0..n
        invariant
            n == m.scan_results@.len(),
            r@ == band_sightings(*m, m.scan_results@.take(i as int), band@),
    {
        assert(m.scan_results@.take(i + 1).drop_last() =~= m.scan_results@.take(i as int));
        let e = &m.scan_results[i];
        if text::str_eq(e.band(), band) {
            let measured = text::str_eq(e.bssid.as_str(), m.bssid.as_str());
            r.push(
                Sighting {
                    channel: e.channel,
                    frequency_mhz: e.frequency_mhz,
                    ssid: e.ssid.clone(),
                    bssid: e.bssid.clone(),
                    signal_dbm: e.signal_dbm,
                    width_mhz: or_value(e.channel_width_mhz, measured, m.channel_width_mhz),
                    center_freq_mhz: or_value(e.center_freq_mhz, measured, m.center_freq_mhz),
                    center_freq2_mhz: or_value(e.center_freq2_mhz, measured, m.center_freq2_mhz),
                },
            );
        }
    }
    assert(m.scan_results@.take(n as int) =~= m.scan_results@);
    r
}

/// Each scan entry is sighted on exactly one band.
pub proof fn law_bands_split_the_scan(m: Measurement, entries: Seq<ScanEntry>)
    ensures
        band_sightings(m, entries, "2.4 GHz"@).len() + band_sightings(m, entries, "5 GHz"@).len()
            + band_sightings(m, entries, "6 GHz"@).len() == entries.len(),
    decreases entries.len(),
{
    reveal_strlit("2.4 GHz");
    reveal_strlit("5 GHz");
    reveal_strlit("6 GHz");
    assert("5 GHz"@[0] == '5' && "6 GHz"@[0] == '6' && "2.4 GHz"@[0] == '2');
    if entries.len() > 0 {
        law_bands_split_the_scan(m, entries.drop_last());
    }
}

// ── Aggregation ────────────────────────────────────────────────────────────

/// One AP's aggregated presence on a channel (across the selected points).
#[derive(Debug, Clone)]
pub struct ApAgg {
    pub bssid: String,
    /// The AP's base (primary) frequency (MHz) for this channel.
    pub freq_mhz: u32,
    /// Aggregated signal (strongest or average, per the selected mode).
    pub signal_dbm: Level,
    /// How many times this AP was seen on this channel.
    pub sightings: usize,
    /// Latest known channel width (for the bar span), if any.
    pub width_mhz: Option<u32>,
    /// Latest known center frequency 1 (MHz), if any.
    pub center_freq_mhz: Option<u32>,
    /// Latest known center frequency 2 (MHz; 80+80), if any.
    pub center2_freq_mhz: Option<u32>,
}

/// One channel's aggregated state.
#[derive(Debug, Clone)]
pub struct ChannelAgg {
    pub channel: u8,
    pub aps: Vec<ApAgg>,
    /// Channel-level value for the table: strongest (max) or average over all
    /// sightings on the channel.
    pub channel_dbm: Level,
}

/// The sightings on a channel, in order.
pub open spec fn on_channel(s: Seq<Sighting>, ch: u8) -> Seq<Sighting>
    decreases s.len(),
{
    if s.len() == 0 {
        Seq::empty()
    } else if s.last().channel == ch {
        on_channel(s.drop_last(), ch).push(s.last())
    } else {
        on_channel(s.drop_last(), ch)
    }
}

/// The sightings of a BSSID, in order.
pub open spec fn of_bssid(s: Seq<Sighting>, bssid: Seq<char>) -> Seq<Sighting>
    decreases s.len(),
{
    if s.len() == 0 {
        Seq::empty()
    } else if s.last().bssid@ == bssid {
        of_bssid(s.drop_last(), bssid).push(s.last())
    } else {
        of_bssid(s.drop_last(), bssid)
    }
}

/// The BSSIDs of sightings, ascending, each once.
pub open spec fn bssids_of(s: Seq<Sighting>) -> Seq<Seq<char>> {
    names::sorted_distinct(s.map_values(|x: Sighting| x.bssid@))
}

/// The strongest signal of sightings (of at least one).
pub open spec fn max_dbm(s: Seq<Sighting>) -> int
    decreases s.len(),
{
    if s.len() <= 1 {
        s.last().signal_dbm as int
    } else {
        let rest = max_dbm(s.drop_last());
        if s.last().signal_dbm > rest {
            s.last().signal_dbm as int
        } else {
            rest
        }
    }
}

pub open spec fn sum_dbm(s: Seq<Sighting>) -> int
    decreases s.len(),
{
    if s.len() == 0 {
        0
    } else {
        sum_dbm(s.drop_last()) + s.last().signal_dbm
    }
}

/// The aggregated signal of sightings: their maximum, or their exact mean.
pub open spec fn level_of(s: Seq<Sighting>, agg: Aggregation) -> Level {
    match agg {
        Aggregation::Strongest => order::single(max_dbm(s)),
        Aggregation::Average => Level { sum: sum_dbm(s) as i64, count: s.len() as u64 },
    }
}

/// `a` aggregates the sightings `g` of one AP: frequency of the first, latest
/// known width and centers.
pub open spec fn is_ap_agg(a: ApAgg, g: Seq<Sighting>, agg: Aggregation) -> bool {
    &&& g.len() > 0
    &&& a.bssid@ == g[0].bssid@
    &&& a.freq_mhz == g[0].frequency_mhz
    &&& a.signal_dbm == level_of(g, agg)
    &&& a.sightings == g.len()
    &&& a.width_mhz == find::last_found(g, |x: Sighting| x.width_mhz)
    &&& a.center_freq_mhz == find::last_found(g, |x: Sighting| x.center_freq_mhz)
    &&& a.center2_freq_mhz == find::last_found(g, |x: Sighting| x.center_freq2_mhz)
}

/// `c` aggregates the sightings `g` of one channel: one entry per AP, by
/// ascending BSSID.
pub open spec fn is_channel_agg(c: ChannelAgg, g: Seq<Sighting>, ch: u8, agg: Aggregation) -> bool {
    &&& c.channel == ch
    &&& c.channel_dbm == level_of(g, agg)
    &&& c.aps@.len() == bssids_of(g).len()
    &&& forall|i: int|
        0 <= i < c.aps@.len() ==> is_ap_agg(
            #[trigger] c.aps@[i],
            of_bssid(g, bssids_of(g)[i]),
            agg,
        )
}

pub open spec fn referred(s: Seq<&Sighting>) -> Seq<Sighting> {
    s.map_values(|x: &Sighting| *x)
}

fn sightings_on_channel(s: &Vec<Sighting>, ch: u8) -> (r: Vec<&Sighting>)
    ensures
        referred(r@) == on_channel(s@, ch),
        r@.len() <= s@.len(),
{
    let mut r: Vec<&Sighting> = Vec::new();
    let n: usize = s.len();
    assert(referred(r@) =~= on_channel(s@.take(0), ch));
    for i in 0..n
        invariant
            n == s@.len(),
            r@.len() <= i,
            referred(r@) == on_channel(s@.take(i as int), ch),
    {
        assert(s@.take(i + 1).drop_last() =~= s@.take(i as int));
        if s[i].channel == ch {
            let ghost before = r@;
            r.push(&s[i]);
            assert(referred(r@) =~= referred(before).push(s@[i as int]));
        }
    }
    assert(s@.take(n as int) =~= s@);
    r
}

fn sightings_of_bssid<'a>(s: &Vec<&'a Sighting>, bssid: &str) -> (r: Vec<&'a Sighting>)
    ensures
        referred(r@) == of_bssid(referred(s@), bssid@),
        r@.len() <= s@.len(),
{
    let mut r: Vec<&'a Sighting> = Vec::new();
    let n: usize = s.len();
    let ghost all = referred(s@);
    assert(referred(r@) =~= of_bssid(all.take(0), bssid@));
    for i in 0..n
        invariant
            n == s@.len(),
            all == referred(s@),
            r@.len() <= i,
            referred(r@) == of_bssid(all.take(i as int), bssid@),
    {
        proof {
            assert(all.take(i + 1).drop_last() =~= all.take(i as int));
            assert(all.take(i + 1).last() == *s@[i as int]);
        }
        if text::str_eq(s[i].bssid.as_str(), bssid) {
            let ghost before = r@;
            r.push(s[i]);
            assert(referred(r@) =~= referred(before).push(*s@[i as int]));
        }
    }
    assert(all.take(n as int) =~= all);
    r
}

fn sorted_bssids(s: &Vec<&Sighting>) -> (r: Vec<String>)
    ensures
        names::views(r@) == bssids_of(referred(s@)),
{
    let mut r: Vec<String> = Vec::new();
    let n: usize = s.len();
    let ghost all = referred(s@).map_values(|x: Sighting| x.bssid@);
    assert(names::views(r@) =~= names::sorted_distinct(all.take(0)));
    for i in 0..n
        invariant
            n == s@.len(),
            all == referred(s@).map_values(|x: Sighting| x.bssid@),
            names::views(r@) == names::sorted_distinct(all.take(i as int)),
    {
        proof {
            assert(all.take(i + 1).drop_last() =~= all.take(i as int));
            assert(all.take(i + 1).last() == s@[i as int].bssid@);
        }
        names::push_sorted(&mut r, s[i].bssid.as_str());
    }
    assert(all.take(n as int) =~= all);
    r
}

/// A BSSID of sightings has at least one sighting.
proof fn lemma_of_bssid_present(s: Seq<Sighting>, bssid: Seq<char>)
    ensures
        bssids_of(s).contains(bssid) ==> of_bssid(s, bssid).len() > 0,
        forall|i: int|
            0 <= i < of_bssid(s, bssid).len() ==> (#[trigger] of_bssid(s, bssid)[i]).bssid@
                == bssid,
{
    names::lemma_sorted_distinct(s.map_values(|x: Sighting| x.bssid@));
    lemma_of_bssid(s, bssid);
}

proof fn lemma_of_bssid(s: Seq<Sighting>, bssid: Seq<char>)
    ensures
        s.map_values(|x: Sighting| x.bssid@).contains(bssid) ==> of_bssid(s, bssid).len() > 0,
        forall|i: int|
            0 <= i < of_bssid(s, bssid).len() ==> (#[trigger] of_bssid(s, bssid)[i]).bssid@
                == bssid,
    decreases s.len(),
{
    if s.len() > 0 {
        lemma_of_bssid(s.drop_last(), bssid);
        let all = s.map_values(|x: Sighting| x.bssid@);
        let rest = s.drop_last().map_values(|x: Sighting| x.bssid@);
        if all.contains(bssid) && s.last().bssid@ != bssid {
            let i = choose|i: int| 0 <= i < all.len() && all[i] == bssid;
            assert(rest[i] == bssid);
        }
    }
}

/// So many sightings can be aggregated: the sum of an average has to fit.
pub open spec fn is_countable(n: nat, agg: Aggregation) -> bool {
    agg == Aggregation::Average ==> n <= u32::MAX
}

fn strongest_signal(s: &Vec<&Sighting>) -> (r: i32)
    requires
        0 < s@.len(),
    ensures
        r == max_dbm(referred(s@)),
{
    let ghost all = referred(s@);
    let n: usize = s.len();
    let mut max: i32 = s[0].signal_dbm;
    assert(all.take(1).last() == *s@[0]);
    let mut i: usize = 1;
    while i < n
        invariant
            1 <= i <= n,
            n == s@.len(),
            all == referred(s@),
            max == max_dbm(all.take(i as int)),
        decreases n - i,
    {
        proof {
            assert(all.take(i + 1).drop_last() =~= all.take(i as int));
            assert(all.take(i + 1).last() == *s@[i as int]);
        }
        if s[i].signal_dbm > max {
            max = s[i].signal_dbm;
        }
        i = i + 1;
    }
    assert(all.take(n as int) =~= all);
    max
}

fn sum_of_signals(s: &Vec<&Sighting>) -> (r: i64)
    requires
        s@.len() <= u32::MAX,
    ensures
        r == sum_dbm(referred(s@)),
{
    let ghost all = referred(s@);
    let n: usize = s.len();
    let mut sum: i64 = 0;
    for i in 0..n
        invariant
            n == s@.len(),
            n <= u32::MAX,
            all == referred(s@),
            sum == sum_dbm(all.take(i as int)),
            -0x8000_0000 * i <= sum <= 0x7fff_ffff * i,
    {
        proof {
            assert(all.take(i + 1).drop_last() =~= all.take(i as int));
            assert(all.take(i + 1).last() == *s@[i as int]);
        }
        sum = sum + s[i].signal_dbm as i64;
    }
    assert(all.take(n as int) =~= all);
    sum
}

fn aggregate_level(s: &Vec<&Sighting>, agg: Aggregation) -> (r: Level)
    requires
        0 < s@.len(),
        is_countable(s@.len(), agg),
    ensures
        r == level_of(referred(s@), agg),
        order::is_level(r),
{
    match agg {
        Aggregation::Strongest => Level { sum: strongest_signal(s) as i64, count: 1 },
        Aggregation::Average => Level { sum: sum_of_signals(s), count: s.len() as u64 },
    }
}

fn latest_known(s: &Vec<&Sighting>) -> (r: (Option<u32>, Option<u32>, Option<u32>))
    ensures
        r.0 == find::last_found(referred(s@), |x: Sighting| x.width_mhz),
        r.1 == find::last_found(referred(s@), |x: Sighting| x.center_freq_mhz),
        r.2 == find::last_found(referred(s@), |x: Sighting| x.center_freq2_mhz),
{
    let ghost all = referred(s@);
    let ghost of_width = |x: Sighting| x.width_mhz;
    let ghost of_c1 = |x: Sighting| x.center_freq_mhz;
    let ghost of_c2 = |x: Sighting| x.center_freq2_mhz;
    let mut width: Option<u32> = None;
    let mut c1: Option<u32> = None;
    let mut c2: Option<u32> = None;
    let n: usize = s.len();
    for i in 0..n
        invariant
            n == s@.len(),
            all == referred(s@),
            of_width == (|x: Sighting| x.width_mhz),
            of_c1 == (|x: Sighting| x.center_freq_mhz),
            of_c2 == (|x: Sighting| x.center_freq2_mhz),
            width == find::last_found(all.take(i as int), of_width),
            c1 == find::last_found(all.take(i as int), of_c1),
            c2 == find::last_found(all.take(i as int), of_c2),
    {
        proof {
            assert(all.take(i + 1).drop_last() =~= all.take(i as int));
            assert(all.take(i + 1).last() == *s@[i as int]);
        }
        if s[i].width_mhz.is_some() {
            width = s[i].width_mhz;
        }
        if s[i].center_freq_mhz.is_some() {
            c1 = s[i].center_freq_mhz;
        }
        if s[i].center_freq2_mhz.is_some() {
            c2 = s[i].center_freq2_mhz;
        }
    }
    assert(all.take(n as int) =~= all);
    (width, c1, c2)
}

fn aggregate_ap(s: &Vec<&Sighting>, agg: Aggregation) -> (r: ApAgg)
    requires
        0 < s@.len(),
        is_countable(s@.len(), agg),
    ensures
        is_ap_agg(r, referred(s@), agg),
        order::is_level(r.signal_dbm),
{
    assert(referred(s@)[0] == *s@[0]);
    let (width_mhz, center_freq_mhz, center2_freq_mhz) = latest_known(s);
    ApAgg {
        bssid: s[0].bssid.clone(),
        freq_mhz: s[0].frequency_mhz,
        signal_dbm: aggregate_level(s, agg),
        sightings: s.len(),
        width_mhz,
        center_freq_mhz,
        center2_freq_mhz,
    }
}

fn aggregate_channel(s: &Vec<&Sighting>, ch: u8, agg: Aggregation) -> (r: ChannelAgg)
    requires
        0 < s@.len(),
        is_countable(s@.len(), agg),
    ensures
        is_channel_agg(r, referred(s@), ch, agg),
        order::is_level(r.channel_dbm),
        order::all_levels(ap_levels(r.aps@)),
{
    let bssids = sorted_bssids(s);
    let ghost g = referred(s@);
    let mut aps: Vec<ApAgg> = Vec::new();
    let n: usize = bssids.len();
    for i in 0..n
        invariant
            n == bssids@.len(),
            g == referred(s@),
            names::views(bssids@) == bssids_of(g),
            is_countable(s@.len(), agg),
            aps@.len() == i,
            forall|k: int|
                0 <= k < i ==> is_ap_agg(#[trigger] aps@[k], of_bssid(g, bssids_of(g)[k]), agg),
            forall|k: int| 0 <= k < i ==> order::is_level((#[trigger] aps@[k]).signal_dbm),
    {
        let own = sightings_of_bssid(s, bssids[i].as_str());
        proof {
            assert(bssids_of(g)[i as int] == bssids@[i as int]@);
            assert(bssids_of(g).contains(bssids_of(g)[i as int]));
            lemma_of_bssid_present(g, bssids_of(g)[i as int]);
            assert(referred(own@).len() == own@.len());
        }
        aps.push(aggregate_ap(&own, agg));
    }
    ChannelAgg { channel: ch, aps, channel_dbm: aggregate_level(s, agg) }
}

fn channel_at(n: u16) -> (r: u8)
    requires
        n < 256,
    ensures
        r == n,
{
    n as u8
}

/// The channel has a sighting.
pub open spec fn is_seen(s: Seq<Sighting>, ch: u8) -> bool {
    on_channel(s, ch).len() > 0
}

/// `m` aggregates sightings per channel: the channels that have one, each with
/// its own sightings.
pub open spec fn is_survey(m: Map<u8, ChannelAgg>, s: Seq<Sighting>, agg: Aggregation) -> bool {
    &&& forall|ch: u8| #[trigger] m.contains_key(ch) <==> is_seen(s, ch)
    &&& forall|ch: u8| #[trigger]
        m.contains_key(ch) ==> is_channel_agg(m[ch], on_channel(s, ch), ch, agg)
}

/// All levels of a channel are averages over at least one reading.
pub open spec fn has_levels(c: ChannelAgg) -> bool {
    order::is_level(c.channel_dbm) && order::all_levels(ap_levels(c.aps@))
}

/// Aggregate sightings (from one or more measurements) per channel.
///
/// Per channel: one `ApAgg` per distinct AP (BSSID), aggregated with `agg`;
/// `channel_dbm` is the strongest or average over all sightings on the channel.
/// Channels with no sightings are absent from the result.
pub fn aggregate_by_channel(sightings: &Vec<Sighting>, agg: Aggregation) -> (r: BTreeMap<
    u8,
    ChannelAgg,
>)
    requires
        is_countable(sightings@.len(), agg),
    ensures
        is_survey(r@, sightings@, agg),
        forall|ch: u8| #[trigger] r@.contains_key(ch) ==> has_levels(r@[ch]),
{
    broadcast use vstd::std_specs::btree::group_btree_axioms;
    broadcast use vstd::laws_cmp::group_laws_cmp;

    let mut out: BTreeMap<u8, ChannelAgg> = BTreeMap::new();
    let mut next: u16 = 0;
    while next < 256
        invariant
            next <= 256,
            is_countable(sightings@.len(), agg),
            forall|ch: u8| #[trigger]
                out@.contains_key(ch) <==> ch < next && is_seen(sightings@, ch),
            forall|ch: u8|
                #[trigger] out@.contains_key(ch) ==> is_channel_agg(
                    out@[ch],
                    on_channel(sightings@, ch),
                    ch,
                    agg,
                ),
            forall|ch: u8| #[trigger] out@.contains_key(ch) ==> has_levels(out@[ch]),
        decreases 256 - next,
    {
        let ch: u8 = channel_at(next);
        let group = sightings_on_channel(sightings, ch);
        assert(referred(group@).len() == group@.len());
        if group.len() > 0 {
            out.insert(ch, aggregate_channel(&group, ch, agg));
        }
        next = next + 1;
    }
    out
}

/// The strongest signal is reached by some sighting and exceeded by none.
pub proof fn law_max_dbm(s: Seq<Sighting>)
    requires
        s.len() > 0,
    ensures
        exists|i: int| 0 <= i < s.len() && (#[trigger] s[i]).signal_dbm == max_dbm(s),
        forall|i: int| 0 <= i < s.len() ==> (#[trigger] s[i]).signal_dbm <= max_dbm(s),
    decreases s.len(),
{
    if s.len() == 1 {
        assert(s[0].signal_dbm == max_dbm(s));
    } else {
        let rest = s.drop_last();
        law_max_dbm(rest);
        let k = choose|k: int| 0 <= k < rest.len() && (#[trigger] rest[k]).signal_dbm == max_dbm(
            rest,
        );
        assert(s[k] == rest[k]);
        assert(s[s.len() - 1] == s.last());
        assert forall|i: int| 0 <= i < s.len() implies (#[trigger] s[i]).signal_dbm <= max_dbm(
            s,
        ) by {
            if i < rest.len() {
                assert(rest[i] == s[i]);
            }
        }
    }
}

/// An average never exceeds the strongest of its readings.
pub proof fn law_average_below_strongest(s: Seq<Sighting>)
    requires
        0 < s.len() <= u32::MAX,
    ensures
        !order::higher(level_of(s, Aggregation::Average), level_of(s, Aggregation::Strongest)),
{
    law_max_dbm(s);
    lemma_sum_below_max(s, max_dbm(s));
    let max = max_dbm(s);
    let n = s.len() as int;
    assert(sum_dbm(s) * 1 <= max * n);
}

proof fn lemma_sum_below_max(s: Seq<Sighting>, max: int)
    requires
        forall|i: int| 0 <= i < s.len() ==> (#[trigger] s[i]).signal_dbm <= max,
    ensures
        sum_dbm(s) <= max * s.len(),
        -0x8000_0000 * s.len() <= sum_dbm(s) <= 0x7fff_ffff * s.len(),
    decreases s.len(),
{
    if s.len() > 0 {
        let rest = s.drop_last();
        assert forall|i: int| 0 <= i < rest.len() implies (#[trigger] rest[i]).signal_dbm
            <= max by {
            assert(s[i] == rest[i]);
        }
        lemma_sum_below_max(rest, max);
        assert(s.last() == s[s.len() - 1]);
        assert(max * s.len() == max * rest.len() + max) by (nonlinear_arith)
            requires
                s.len() == rest.len() + 1,
        ;
    } else {
        assert(max * 0 == 0) by (nonlinear_arith);
    }
}

/// Every sighting on a channel is counted for exactly one AP.
pub proof fn law_sightings_are_counted_once(g: Seq<Sighting>)
    ensures
        counted(g, bssids_of(g)) == g.len(),
{
    names::lemma_sorted_distinct(g.map_values(|x: Sighting| x.bssid@));
    lemma_counted(g, bssids_of(g));
    lemma_all_counted(g, bssids_of(g));
}

/// How many sightings are of the given BSSIDs.
pub open spec fn counted(g: Seq<Sighting>, bssids: Seq<Seq<char>>) -> int
    decreases bssids.len(),
{
    if bssids.len() == 0 {
        0
    } else {
        counted(g, bssids.drop_last()) + of_bssid(g, bssids.last()).len()
    }
}

/// The sightings whose BSSID is listed.
spec fn listed(g: Seq<Sighting>, bssids: Seq<Seq<char>>) -> int
    decreases g.len(),
{
    if g.len() == 0 {
        0
    } else {
        listed(g.drop_last(), bssids) + (if bssids.contains(g.last().bssid@) {
            1int
        } else {
            0
        })
    }
}

proof fn lemma_counted(g: Seq<Sighting>, bssids: Seq<Seq<char>>)
    requires
        names::is_ascending(bssids),
    ensures
        counted(g, bssids) == listed(g, bssids),
    decreases bssids.len(),
{
    if bssids.len() == 0 {
        lemma_listed_none(g, bssids);
    } else {
        let rest = bssids.drop_last();
        assert forall|i: int, j: int| 0 <= i < j < rest.len() implies text::less(
            #[trigger] rest[i],
            #[trigger] rest[j],
        ) by {
            assert(bssids[i] == rest[i] && bssids[j] == rest[j]);
        }
        lemma_counted(g, rest);
        assert(!rest.contains(bssids.last())) by {
            if rest.contains(bssids.last()) {
                let i = choose|i: int| 0 <= i < rest.len() && rest[i] == bssids.last();
                assert(text::less(bssids[i], bssids[bssids.len() - 1]));
                text::lemma_less_total(bssids[i], bssids[i]);
            }
        }
        lemma_listed_push(g, rest, bssids.last());
        assert(rest.push(bssids.last()) =~= bssids);
    }
}

proof fn lemma_listed_none(g: Seq<Sighting>, bssids: Seq<Seq<char>>)
    requires
        bssids.len() == 0,
    ensures
        listed(g, bssids) == 0,
    decreases g.len(),
{
    if g.len() > 0 {
        lemma_listed_none(g.drop_last(), bssids);
    }
}

proof fn lemma_listed_push(g: Seq<Sighting>, bssids: Seq<Seq<char>>, b: Seq<char>)
    requires
        !bssids.contains(b),
    ensures
        listed(g, bssids.push(b)) == listed(g, bssids) + of_bssid(g, b).len(),
    decreases g.len(),
{
    if g.len() > 0 {
        lemma_listed_push(g.drop_last(), bssids, b);
        names::lemma_contains_push(bssids, b, g.last().bssid@);
    }
}

proof fn lemma_all_counted(g: Seq<Sighting>, bssids: Seq<Seq<char>>)
    requires
        forall|n: Seq<char>|
            g.map_values(|x: Sighting| x.bssid@).contains(n) ==> #[trigger] bssids.contains(n),
    ensures
        listed(g, bssids) == g.len(),
    decreases g.len(),
{
    if g.len() > 0 {
        let rest = g.drop_last();
        let all = g.map_values(|x: Sighting| x.bssid@);
        let part = rest.map_values(|x: Sighting| x.bssid@);
        assert forall|n: Seq<char>| part.contains(n) implies #[trigger] bssids.contains(n) by {
            let i = choose|i: int| 0 <= i < part.len() && part[i] == n;
            assert(all[i] == n);
        }
        lemma_all_counted(rest, bssids);
        assert(all[g.len() - 1] == g.last().bssid@);
        assert(all.contains(g.last().bssid@));
    }
}

// ── Bars ───────────────────────────────────────────────────────────────────

/// A stretch of occupied spectrum: its left edge in half MHz, and its width in
/// MHz.
#[derive(Debug, Clone, Copy, PartialEq, Eq, Structural)]
pub struct Lobe {
    pub left_half_mhz: i64,
    pub span_mhz: u32,
}

/// The spectrum an AP occupies: centered on the recorded center frequency (a
/// 40 MHz AP on 5180 with center 5190 covers 5170-5210), or, when that is not
/// recorded, starting 10 MHz below its base frequency (channels are numbered
/// from their primary). 80+80 (recorded as 160 MHz with a second center) is two
/// stretches of 80 MHz. An unknown width counts as 20 MHz.
pub open spec fn lobes(
    primary: u32,
    width: Option<u32>,
    center: Option<u32>,
    center2: Option<u32>,
) -> Seq<Lobe> {
    let w = match width {
        Some(w) => w,
        None => 20,
    };
    match (center, center2) {
        (Some(c1), Some(c2)) => if width == Some(160u32) {
            seq![
                Lobe { left_half_mhz: (2 * c1 - 80) as i64, span_mhz: 80 },
                Lobe { left_half_mhz: (2 * c2 - 80) as i64, span_mhz: 80 },
            ]
        } else {
            seq![Lobe { left_half_mhz: (2 * c1 - w) as i64, span_mhz: w }]
        },
        (Some(c1), None) => seq![Lobe { left_half_mhz: (2 * c1 - w) as i64, span_mhz: w }],
        _ => seq![Lobe { left_half_mhz: (2 * primary - 20) as i64, span_mhz: w }],
    }
}

/// The bar lobe(s) for an AP heard on `primary_mhz` with the given width and
/// center frequencies.
pub fn bar_lobes(
    primary_mhz: u32,
    width_mhz: Option<u32>,
    center_mhz: Option<u32>,
    center2_mhz: Option<u32>,
) -> (r: Vec<Lobe>)
    ensures
        r@ == lobes(primary_mhz, width_mhz, center_mhz, center2_mhz),
{
    let mut r: Vec<Lobe> = Vec::new();
    let w: u32 = match width_mhz {
        Some(w) => w,
        None => 20,
    };
    match center_mhz {
        Some(c1) => {
            if let Some(c2) = center2_mhz {
                if width_mhz.is_some() && w == 160 {
                    r.push(Lobe { left_half_mhz: 2 * c1 as i64 - 80, span_mhz: 80 });
                    r.push(Lobe { left_half_mhz: 2 * c2 as i64 - 80, span_mhz: 80 });
                    assert(r@ =~= lobes(primary_mhz, width_mhz, center_mhz, center2_mhz));
                    return r;
                }
            }
            r.push(Lobe { left_half_mhz: 2 * c1 as i64 - w as i64, span_mhz: w });
        },
        None => {
            r.push(Lobe { left_half_mhz: 2 * primary_mhz as i64 - 20, span_mhz: w });
        },
    }
    assert(r@ =~= lobes(primary_mhz, width_mhz, center_mhz, center2_mhz));
    r
}

/// The frequency lies in the stretch (its edges included).
pub open spec fn covers(l: Lobe, freq: u32) -> bool {
    l.left_half_mhz <= 2 * freq <= l.left_half_mhz + 2 * l.span_mhz
}

/// Without a recorded center, and with one at its middle, an AP of at least
/// 20 MHz covers its own base channel.
pub proof fn law_lobe_covers_primary(primary: u32, width: Option<u32>, freq: u32)
    requires
        width matches Some(w) ==> w >= 20,
        primary - 10 <= freq <= primary + 10,
    ensures
        lobes(primary, width, None, None).len() == 1,
        covers(lobes(primary, width, None, None)[0], freq),
        width is None ==> lobes(primary, width, Some(primary), None) == lobes(
            primary,
            width,
            None,
            None,
        ),
{
    assert(width is None ==> lobes(primary, width, Some(primary), None) =~= lobes(
        primary,
        width,
        None,
        None,
    ));
}

/// With a recorded center an AP occupies one stretch as wide as its channel,
/// with the center in its middle, wherever its primary channel lies.
pub proof fn law_recorded_center(
    primary: u32,
    other: u32,
    width: Option<u32>,
    center: u32,
    center2: Option<u32>,
)
    requires
        width != Some(160u32) || center2 is None,
    ensures
        lobes(primary, width, Some(center), center2).len() == 1,
        ({
            let l = lobes(primary, width, Some(center), center2)[0];
            &&& l.left_half_mhz + l.span_mhz == 2 * center
            &&& width matches Some(w) ==> l.span_mhz == w
            &&& width is None ==> l.span_mhz == 20
        }),
        lobes(primary, width, Some(center), center2) == lobes(other, width, Some(center), None),
{
    assert(lobes(primary, width, Some(center), center2) =~= lobes(
        other,
        width,
        Some(center),
        None,
    ));
}

/// An AP of 80+80 MHz occupies two stretches of 80 MHz, one around each of its
/// centers, wherever its primary channel lies.
pub proof fn law_two_centers(primary: u32, other: u32, center: u32, center2: u32)
    ensures
        ({
            let r = lobes(primary, Some(160), Some(center), Some(center2));
            &&& r.len() == 2
            &&& r[0].left_half_mhz + r[0].span_mhz == 2 * center
            &&& r[1].left_half_mhz + r[1].span_mhz == 2 * center2
            &&& r[0].span_mhz == 80 && r[1].span_mhz == 80
            &&& r == lobes(other, Some(160), Some(center), Some(center2))
        }),
{
}

/// Without a recorded center an AP occupies one stretch as wide as its channel
/// that starts 10 MHz below its primary frequency.
pub proof fn law_no_recorded_center(primary: u32, width: Option<u32>, center2: Option<u32>)
    ensures
        lobes(primary, width, None, center2).len() == 1,
        ({
            let l = lobes(primary, width, None, center2)[0];
            &&& l.left_half_mhz + 2 * 10 == 2 * primary
            &&& width matches Some(w) ==> l.span_mhz == w
            &&& width is None ==> l.span_mhz == 20
        }),
{
}

/// A stretch covers a frequency exactly if that lies no further than half its
/// width from its middle.
pub proof fn law_covers(l: Lobe, freq: u32)
    ensures
        covers(l, freq) <==> -(l.span_mhz as int) <= 2 * freq - (l.left_half_mhz + l.span_mhz)
            <= l.span_mhz,
{
}

/// The hovered AP: shared between the chart and the table rows below it.
#[derive(Debug, Clone)]
pub struct HoverKey {
    pub channel: u8,
    pub bssid: String,
}

/// One bar of a chart.
#[derive(Debug, Clone)]
pub struct ChartBar {
    /// Occupied spectrum.
    pub lobe: Lobe,
    pub dbm: Level,
    /// Which AP this bar is (for list and chart hover sync).
    pub channel: u8,
    pub bssid: String,
    /// Hover banner text.
    pub info: String,
}

/// A [`ChartBar`] over the characters of its texts.
pub struct BarView {
    pub lobe: Lobe,
    pub dbm: Level,
    pub channel: u8,
    pub bssid: Seq<char>,
    pub info: Seq<char>,
}

impl View for ChartBar {
    type V = BarView;

    open spec fn view(&self) -> BarView {
        BarView {
            lobe: self.lobe,
            dbm: self.dbm,
            channel: self.channel,
            bssid: self.bssid@,
            info: self.info@,
        }
    }
}

pub open spec fn bar_views(v: Seq<ChartBar>) -> Seq<BarView> {
    v.map_values(|b: ChartBar| b@)
}

/// One bar per lobe of an AP.
pub open spec fn bars_of(
    lobes: Seq<Lobe>,
    dbm: Level,
    channel: u8,
    bssid: Seq<char>,
    info: Seq<char>,
) -> Seq<BarView> {
    lobes.map_values(|l: Lobe| BarView { lobe: l, dbm, channel, bssid, info })
}

fn push_bars(
    v: &mut Vec<ChartBar>,
    lobes: &Vec<Lobe>,
    dbm: Level,
    channel: u8,
    bssid: &str,
    info: &str,
)
    ensures
        bar_views(final(v)@) == bar_views(old(v)@) + bars_of(
            lobes@,
            dbm,
            channel,
            bssid@,
            info@,
        ),
{
    let ghost before = bar_views(v@);
    let n: usize = lobes.len();
    assert(bar_views(v@) =~= before + bars_of(lobes@.take(0), dbm, channel, bssid@, info@));
    for i in 0..n
        invariant
            n == lobes@.len(),
            bar_views(v@) == before + bars_of(
                lobes@.take(i as int),
                dbm,
                channel,
                bssid@,
                info@,
            ),
    {
        let ghost v0 = v@;
        let bar = ChartBar {
            lobe: lobes[i],
            dbm,
            channel,
            bssid: bssid.to_owned(),
            info: info.to_owned(),
        };
        v.push(bar);
        proof {
            assert(bar_views(v@) =~= bar_views(v0).push(bar@));
            assert(bar_views(v@) =~= before + bars_of(
                lobes@.take(i + 1),
                dbm,
                channel,
                bssid@,
                info@,
            ));
        }
    }
    assert(lobes@.take(n as int) =~= lobes@);
}

/// The AP's display name: its alias when known, otherwise its BSSID.
pub open spec fn name_of(aliases: Map<Seq<char>, String>, bssid: Seq<char>) -> Seq<char> {
    if aliases.contains_key(bssid) {
        aliases[bssid]@
    } else {
        bssid
    }
}

/// The AP's display name: its alias when known, otherwise its BSSID.
pub fn ap_name(aliases: &TextMap<String>, bssid: &str) -> (r: String)
    ensures
        r@ == name_of(aliases@, bssid@),
{
    match aliases.get(bssid) {
        Some(a) => a.clone(),
        None => bssid.to_owned(),
    }
}

/// The width shown for a bar or row: the tag, or "20M".
pub open spec fn shown_width(width: Option<u32>, center2: Option<u32>) -> Seq<char> {
    match models::tag_text(width, center2) {
        Some(t) => t,
        None => "20M"@,
    }
}

fn shown_width_text(width: Option<u32>, center2: Option<u32>) -> (r: String)
    ensures
        r@ == shown_width(width, center2),
{
    match models::width_tag(width, center2) {
        Some(t) => t,
        None => "20M".to_owned(),
    }
}

// ── The point view ─────────────────────────────────────────────────────────

/// The hover text of an AP in the point view.
pub open spec fn point_info(
    ap: Seq<char>,
    ch: u8,
    freq: u32,
    width: Seq<char>,
    dbm: int,
) -> Seq<char> {
    ap + " · ch "@ + text::dec(ch as nat) + " · "@ + text::dec(freq as nat) + " MHz · "@ + width
        + " · "@ + text::dec_int(dbm) + " dBm"@
}

/// The bars of one AP on one channel in the point view: the strongest of its
/// sightings `g`, with the first known width and centers.
pub open spec fn point_ap_bars(
    g: Seq<Sighting>,
    ch: u8,
    bssid: Seq<char>,
    aliases: Map<Seq<char>, String>,
) -> Seq<BarView> {
    let width = find::first_found(g, |x: Sighting| x.width_mhz);
    let c1 = find::first_found(g, |x: Sighting| x.center_freq_mhz);
    let c2 = find::first_found(g, |x: Sighting| x.center_freq2_mhz);
    bars_of(
        lobes(g[0].frequency_mhz, width, c1, c2),
        order::single(max_dbm(g)),
        ch,
        bssid,
        point_info(
            name_of(aliases, bssid),
            ch,
            g[0].frequency_mhz,
            shown_width(width, c2),
            max_dbm(g),
        ),
    )
}

/// The bars of one channel: by ascending BSSID.
pub open spec fn point_channel_bars(
    g: Seq<Sighting>,
    bssids: Seq<Seq<char>>,
    ch: u8,
    aliases: Map<Seq<char>, String>,
) -> Seq<BarView>
    decreases bssids.len(),
{
    if bssids.len() == 0 {
        Seq::empty()
    } else {
        point_channel_bars(g, bssids.drop_last(), ch, aliases) + point_ap_bars(
            of_bssid(g, bssids.last()),
            ch,
            bssids.last(),
            aliases,
        )
    }
}

/// The bars of the channels below `n`, by ascending channel.
pub open spec fn point_bars_below(
    s: Seq<Sighting>,
    n: nat,
    aliases: Map<Seq<char>, String>,
) -> Seq<BarView>
    decreases n,
{
    if n == 0 {
        Seq::empty()
    } else {
        let ch = (n - 1) as u8;
        let g = on_channel(s, ch);
        point_bars_below(s, (n - 1) as nat, aliases) + point_channel_bars(
            g,
            bssids_of(g),
            ch,
            aliases,
        )
    }
}

fn first_known(s: &Vec<&Sighting>) -> (r: (Option<u32>, Option<u32>, Option<u32>))
    ensures
        r.0 == find::first_found(referred(s@), |x: Sighting| x.width_mhz),
        r.1 == find::first_found(referred(s@), |x: Sighting| x.center_freq_mhz),
        r.2 == find::first_found(referred(s@), |x: Sighting| x.center_freq2_mhz),
{
    let ghost all = referred(s@);
    let ghost of_width = |x: Sighting| x.width_mhz;
    let ghost of_c1 = |x: Sighting| x.center_freq_mhz;
    let ghost of_c2 = |x: Sighting| x.center_freq2_mhz;
    let mut width: Option<u32> = None;
    let mut c1: Option<u32> = None;
    let mut c2: Option<u32> = None;
    let n: usize = s.len();
    for i in 0..n
        invariant
            n == s@.len(),
            all == referred(s@),
            of_width == (|x: Sighting| x.width_mhz),
            of_c1 == (|x: Sighting| x.center_freq_mhz),
            of_c2 == (|x: Sighting| x.center_freq2_mhz),
            width == find::first_found(all.take(i as int), of_width),
            c1 == find::first_found(all.take(i as int), of_c1),
            c2 == find::first_found(all.take(i as int), of_c2),
    {
        proof {
            assert(all.take(i + 1).drop_last() =~= all.take(i as int));
            assert(all.take(i + 1).last() == *s@[i as int]);
        }
        if width.is_none() {
            width = s[i].width_mhz;
        }
        if c1.is_none() {
            c1 = s[i].center_freq_mhz;
        }
        if c2.is_none() {
            c2 = s[i].center_freq2_mhz;
        }
    }
    assert(all.take(n as int) =~= all);
    (width, c1, c2)
}

fn push_point_ap_bars(
    v: &mut Vec<ChartBar>,
    g: &Vec<&Sighting>,
    ch: u8,
    bssid: &str,
    aliases: &TextMap<String>,
)
    requires
        0 < g@.len(),
    ensures
        bar_views(final(v)@) == bar_views(old(v)@) + point_ap_bars(
            referred(g@),
            ch,
            bssid@,
            aliases@,
        ),
{
    assert(referred(g@)[0] == *g@[0]);
    let (width, c1, c2) = first_known(g);
    let freq: u32 = g[0].frequency_mhz;
    let level = aggregate_level(g, Aggregation::Strongest);
    let mut info = ap_name(aliases, bssid);
    info.append(" · ch ");
    text::push_dec(&mut info, ch as u64);
    info.append(" · ");
    text::push_dec(&mut info, freq as u64);
    info.append(" MHz · ");
    let shown = shown_width_text(width, c2);
    info.append(shown.as_str());
    info.append(" · ");
    proof {
        law_max_dbm(referred(g@));
    }
    text::push_int(&mut info, level.sum);
    info.append(" dBm");
    let spans = bar_lobes(freq, width, c1, c2);
    push_bars(v, &spans, level, ch, bssid, info.as_str());
}

fn push_point_channel_bars(
    v: &mut Vec<ChartBar>,
    g: &Vec<&Sighting>,
    ch: u8,
    aliases: &TextMap<String>,
)
    ensures
        bar_views(final(v)@) == bar_views(old(v)@) + point_channel_bars(
            referred(g@),
            bssids_of(referred(g@)),
            ch,
            aliases@,
        ),
{
    let ghost before = bar_views(v@);
    let ghost all = referred(g@);
    let bssids = sorted_bssids(g);
    let ghost list = bssids_of(all);
    let n: usize = bssids.len();
    assert(bar_views(v@) =~= before + point_channel_bars(all, list.take(0), ch, aliases@));
    for i in 0..n
        invariant
            n == bssids@.len(),
            all == referred(g@),
            list == bssids_of(all),
            list == names::views(bssids@),
            bar_views(v@) == before + point_channel_bars(all, list.take(i as int), ch, aliases@),
    {
        let own = sightings_of_bssid(g, bssids[i].as_str());
        proof {
            assert(list[i as int] == bssids@[i as int]@);
            assert(list.contains(list[i as int]));
            lemma_of_bssid_present(all, list[i as int]);
            assert(referred(own@).len() == own@.len());
            assert(list.take(i + 1).drop_last() =~= list.take(i as int));
        }
        push_point_ap_bars(v, &own, ch, bssids[i].as_str(), aliases);
        assert(bar_views(v@) =~= before + point_channel_bars(all, list.take(i + 1), ch, aliases@));
    }
    assert(list.take(n as int) =~= list);
}

/// The bars of the point view: one AP per channel and BSSID, by ascending
/// channel and BSSID; repeated sightings keep the strongest.
pub fn point_bars(sightings: &Vec<Sighting>, aliases: &TextMap<String>) -> (r: Vec<ChartBar>)
    ensures
        bar_views(r@) == point_bars_below(sightings@, 256, aliases@),
{
    let mut r: Vec<ChartBar> = Vec::new();
    let mut next: u16 = 0;
    assert(bar_views(r@) =~= point_bars_below(sightings@, 0, aliases@));
    while next < 256
        invariant
            next <= 256,
            bar_views(r@) == point_bars_below(sightings@, next as nat, aliases@),
        decreases 256 - next,
    {
        let ch: u8 = channel_at(next);
        let group = sightings_on_channel(sightings, ch);
        push_point_channel_bars(&mut r, &group, ch, aliases);
        next = next + 1;
    }
    r
}

/// A table row. A row of an AP carries its key, so that hovering it highlights
/// its bars (and vice versa).
#[derive(Debug, Clone)]
pub struct Row {
    pub text: String,
    pub key: Option<HoverKey>,
}

/// A [`Row`] over characters.
pub type RowView = (Seq<char>, Option<(u8, Seq<char>)>);

pub open spec fn key_view(k: Option<HoverKey>) -> Option<(u8, Seq<char>)> {
    match k {
        Some(k) => Some((k.channel, k.bssid@)),
        None => None,
    }
}

pub open spec fn row_view(r: Row) -> RowView {
    (r.text@, key_view(r.key))
}

/// The columns of the point table.
pub open spec fn point_columns(
    ch: Seq<char>,
    freq: Seq<char>,
    width: Seq<char>,
    ssid: Seq<char>,
    bssid: Seq<char>,
    ap: Seq<char>,
    dbm: Seq<char>,
) -> Seq<char> {
    text::pad_right(ch, 5, ' ') + " "@ + text::pad_right(freq, 9, ' ') + " "@ + text::pad_right(
        width,
        7,
        ' ',
    ) + " "@ + text::pad_right(ssid, 16, ' ') + " "@ + text::pad_right(bssid, 19, ' ') + " "@
        + text::pad_right(ap, 14, ' ') + " "@ + text::pad_left(dbm, 5, ' ')
}

fn point_columns_text(
    ch: &str,
    freq: &str,
    width: &str,
    ssid: &str,
    bssid: &str,
    ap: &str,
    dbm: &str,
) -> (r: String)
    ensures
        r@ == point_columns(ch@, freq@, width@, ssid@, bssid@, ap@, dbm@),
{
    proof {
        reveal_strlit(" ");
    }
    let mut s = String::new();
    text::push_padded_right(&mut s, ch, 5, " ");
    s.append(" ");
    text::push_padded_right(&mut s, freq, 9, " ");
    s.append(" ");
    text::push_padded_right(&mut s, width, 7, " ");
    s.append(" ");
    text::push_padded_right(&mut s, ssid, 16, " ");
    s.append(" ");
    text::push_padded_right(&mut s, bssid, 19, " ");
    s.append(" ");
    text::push_padded_right(&mut s, ap, 14, " ");
    s.append(" ");
    text::push_padded_left(&mut s, dbm, 5, " ");
    assert(s@ =~= point_columns(ch@, freq@, width@, ssid@, bssid@, ap@, dbm@));
    s
}

/// A dot in a color, as Pango markup.
pub open spec fn dot(color: Seq<char>) -> Seq<char> {
    "<span foreground=\""@ + color + "\">●</span> "@
}

/// The alias column: the alias, shortened, or nothing.
pub open spec fn short_alias(aliases: Map<Seq<char>, String>, bssid: Seq<char>) -> Seq<char> {
    if aliases.contains_key(bssid) {
        text::shortened(aliases[bssid]@, 14)
    } else {
        Seq::empty()
    }
}

fn short_alias_text(aliases: &TextMap<String>, bssid: &str) -> (r: String)
    ensures
        r@ == short_alias(aliases@, bssid@),
{
    match aliases.get(bssid) {
        Some(a) => text::truncate(a.as_str(), 14),
        None => String::new(),
    }
}

/// The row of one sighting, with its dot in the given color.
pub open spec fn point_row_of(
    x: Sighting,
    aliases: Map<Seq<char>, String>,
    color: Seq<char>,
) -> RowView {
    (
        point_columns(
            text::dec(x.channel as nat),
            text::dec(x.frequency_mhz as nat),
            shown_width(x.width_mhz, x.center_freq2_mhz),
            text::shortened(x.ssid@, 16),
            dot(color) + x.bssid@,
            short_alias(aliases, x.bssid@),
            text::dec_int(x.signal_dbm as int),
        ),
        Some((x.channel, x.bssid@)),
    )
}

fn point_row(x: &Sighting, aliases: &TextMap<String>, color: &str) -> (r: Row)
    ensures
        row_view(r) == point_row_of(*x, aliases@, color@),
{
    let ch = text::dec_text(x.channel as u64);
    let freq = text::dec_text(x.frequency_mhz as u64);
    let width = shown_width_text(x.width_mhz, x.center_freq2_mhz);
    let ssid = text::truncate(x.ssid.as_str(), 16);
    let mut bssid = "<span foreground=\"".to_owned();
    bssid.append(color);
    bssid.append("\">●</span> ");
    bssid.append(x.bssid.as_str());
    let ap = short_alias_text(aliases, x.bssid.as_str());
    let dbm = text::int_text(x.signal_dbm as i64);
    Row {
        text: point_columns_text(
            ch.as_str(),
            freq.as_str(),
            width.as_str(),
            ssid.as_str(),
            bssid.as_str(),
            ap.as_str(),
            dbm.as_str(),
        ),
        key: Some(HoverKey { channel: x.channel, bssid: x.bssid.clone() }),
    }
}

/// The rank of a sighting in the point table: by signal, then by channel.
pub open spec fn point_rank(x: Sighting) -> Level {
    order::single(x.signal_dbm * 256 + x.channel)
}

pub open spec fn point_ranks(s: Seq<Sighting>) -> Seq<Level> {
    s.map_values(|x: Sighting| point_rank(x))
}

/// The header and, strongest signal first, one row per sighting. `colors` are
/// the dot colors of the sightings.
pub fn point_rows(sightings: &Vec<Sighting>, aliases: &TextMap<String>, colors: &Vec<String>) -> (r:
    Vec<Row>)
    requires
        colors@.len() == sightings@.len(),
    ensures
        r@.len() == sightings@.len() + 1,
        row_view(r@[0]) == (
            point_columns("ch"@, "freq MHz"@, "width"@, "SSID"@, "BSSID"@, "AP"@, "dBm"@),
            None::<(u8, Seq<char>)>,
        ),
        order::is_descending(
            point_ranks(sightings@),
            order::descending(point_ranks(sightings@)),
        ),
        forall|i: int|
            0 <= i < sightings@.len() ==> row_view(#[trigger] r@[i + 1]) == point_row_of(
                sightings@[order::descending(point_ranks(sightings@))[i]],
                aliases@,
                colors@[order::descending(point_ranks(sightings@))[i]]@,
            ),
{
    let mut ranks: Vec<Level> = Vec::new();
    let n: usize = sightings.len();
    for i in 0..n
        invariant
            n == sightings@.len(),
            ranks@ == point_ranks(sightings@).take(i as int),
    {
        let rank: i64 = sightings[i].signal_dbm as i64 * 256 + sightings[i].channel as i64;
        ranks.push(Level { sum: rank, count: 1 });
        assert(ranks@ =~= point_ranks(sightings@).take(i + 1));
    }
    assert(ranks@ =~= point_ranks(sightings@));
    let perm = order::order_descending(&ranks);
    let ghost p = order::as_ints(perm@);
    let mut rows: Vec<Row> = Vec::new();
    rows.push(
        Row {
            text: point_columns_text("ch", "freq MHz", "width", "SSID", "BSSID", "AP", "dBm"),
            key: None,
        },
    );
    for i in 0..n
        invariant
            n == sightings@.len(),
            n == colors@.len(),
            n == perm@.len(),
            p == order::as_ints(perm@),
            order::is_permutation(p, n as nat),
            rows@.len() == i + 1,
            row_view(rows@[0]) == (
                point_columns("ch"@, "freq MHz"@, "width"@, "SSID"@, "BSSID"@, "AP"@, "dBm"@),
                None::<(u8, Seq<char>)>,
            ),
            forall|k: int|
                0 <= k < i ==> row_view(#[trigger] rows@[k + 1]) == point_row_of(
                    sightings@[p[k]],
                    aliases@,
                    colors@[p[k]]@,
                ),
    {
        let at: usize = perm[i];
        assert(p[i as int] == at);
        let ghost before = rows@;
        rows.push(point_row(&sightings[at], aliases, colors[at].as_str()));
        assert forall|k: int| 0 <= k < i + 1 implies row_view(#[trigger] rows@[k + 1])
            == point_row_of(sightings@[p[k]], aliases@, colors@[p[k]]@) by {
            if k < i {
                assert(rows@[k + 1] == before[k + 1]);
            }
        }
    }
    rows
}

// ── The survey view ────────────────────────────────────────────────────────

/// The aggregated channels below `n`, by ascending channel.
pub open spec fn channels_below(m: Map<u8, ChannelAgg>, n: nat) -> Seq<ChannelAgg>
    decreases n,
{
    if n == 0 {
        Seq::empty()
    } else {
        let before = channels_below(m, (n - 1) as nat);
        let ch = (n - 1) as u8;
        if m.contains_key(ch) {
            before.push(m[ch])
        } else {
            before
        }
    }
}

pub open spec fn referred_channels(v: Seq<&ChannelAgg>) -> Seq<ChannelAgg> {
    v.map_values(|c: &ChannelAgg| *c)
}

/// The aggregated channels by ascending channel number.
pub fn survey_channels(agg_map: &BTreeMap<u8, ChannelAgg>) -> (r: Vec<&ChannelAgg>)
    ensures
        referred_channels(r@) == channels_below(agg_map@, 256),
{
    broadcast use vstd::std_specs::btree::group_btree_axioms;
    broadcast use vstd::laws_cmp::group_laws_cmp;

    let mut r: Vec<&ChannelAgg> = Vec::new();
    let mut next: u16 = 0;
    assert(referred_channels(r@) =~= channels_below(agg_map@, 0));
    while next < 256
        invariant
            next <= 256,
            referred_channels(r@) =~= below(agg_map@, next),
        decreases 256 - next,
    {
        let ch: u8 = channel_at(next);
        let ghost before = r@;
        if let Some(c) = agg_map.get(&ch) {
            r.push(c);
            assert(referred_channels(r@) =~= referred_channels(before).push(*c));
        }
        next = next + 1;
    }
    r
}

/// The channels below a 16-bit bound.
spec fn below(m: Map<u8, ChannelAgg>, n: u16) -> Seq<ChannelAgg> {
    channels_below(m, n as nat)
}

/// The signal texts of one aggregated channel: its own, and one per AP.
#[derive(Debug, Clone)]
pub struct SignalTexts {
    pub channel: String,
    pub aps: Vec<String>,
}

/// There is a text for each channel and AP.
pub open spec fn texts_fit(channels: Seq<&ChannelAgg>, texts: Seq<SignalTexts>) -> bool {
    &&& texts.len() == channels.len()
    &&& forall|i: int|
        0 <= i < channels.len() ==> (#[trigger] texts[i]).aps@.len() == channels[i].aps@.len()
}

/// The hover text of an AP in the survey view.
pub open spec fn survey_info(
    ap: Seq<char>,
    ch: u8,
    freq: u32,
    sig: Seq<char>,
    sightings: nat,
) -> Seq<char> {
    ap + " · ch "@ + text::dec(ch as nat) + " · "@ + text::dec(freq as nat) + " MHz · "@ + sig
        + " dBm (×"@ + text::dec(sightings) + ")"@
}

/// The bars of one AP in the survey view.
pub open spec fn survey_ap_bars(
    a: ApAgg,
    ch: u8,
    aliases: Map<Seq<char>, String>,
    sig: Seq<char>,
) -> Seq<BarView> {
    bars_of(
        lobes(a.freq_mhz, a.width_mhz, a.center_freq_mhz, a.center2_freq_mhz),
        a.signal_dbm,
        ch,
        a.bssid@,
        survey_info(name_of(aliases, a.bssid@), ch, a.freq_mhz, sig, a.sightings as nat),
    )
}

/// The bars of the first `n` APs of a channel.
pub open spec fn survey_channel_bars(
    c: ChannelAgg,
    aliases: Map<Seq<char>, String>,
    texts: SignalTexts,
    n: nat,
) -> Seq<BarView>
    decreases n,
{
    if n == 0 {
        Seq::empty()
    } else {
        survey_channel_bars(c, aliases, texts, (n - 1) as nat) + survey_ap_bars(
            c.aps@[n - 1],
            c.channel,
            aliases,
            texts.aps@[n - 1]@,
        )
    }
}

/// The bars of the first `n` channels.
pub open spec fn survey_bars_of(
    channels: Seq<ChannelAgg>,
    aliases: Map<Seq<char>, String>,
    texts: Seq<SignalTexts>,
    n: nat,
) -> Seq<BarView>
    decreases n,
{
    if n == 0 {
        Seq::empty()
    } else {
        survey_bars_of(channels, aliases, texts, (n - 1) as nat) + survey_channel_bars(
            channels[n - 1],
            aliases,
            texts[n - 1],
            channels[n - 1].aps@.len(),
        )
    }
}

fn push_survey_channel_bars(
    v: &mut Vec<ChartBar>,
    c: &ChannelAgg,
    aliases: &TextMap<String>,
    texts: &SignalTexts,
)
    requires
        texts.aps@.len() == c.aps@.len(),
    ensures
        bar_views(final(v)@) == bar_views(old(v)@) + survey_channel_bars(
            *c,
            aliases@,
            *texts,
            c.aps@.len(),
        ),
{
    let ghost before = bar_views(v@);
    let n: usize = c.aps.len();
    assert(bar_views(v@) =~= before + survey_channel_bars(*c, aliases@, *texts, 0));
    for i in 0..n
        invariant
            n == c.aps@.len(),
            n == texts.aps@.len(),
            bar_views(v@) == before + survey_channel_bars(*c, aliases@, *texts, i as nat),
    {
        let a = &c.aps[i];
        let mut info = ap_name(aliases, a.bssid.as_str());
        info.append(" · ch ");
        text::push_dec(&mut info, c.channel as u64);
        info.append(" · ");
        text::push_dec(&mut info, a.freq_mhz as u64);
        info.append(" MHz · ");
        info.append(texts.aps[i].as_str());
        info.append(" dBm (×");
        text::push_dec(&mut info, a.sightings as u64);
        info.append(")");
        let spans = bar_lobes(a.freq_mhz, a.width_mhz, a.center_freq_mhz, a.center2_freq_mhz);
        push_bars(v, &spans, a.signal_dbm, c.channel, a.bssid.as_str(), info.as_str());
        assert(bar_views(v@) =~= before + survey_channel_bars(
            *c,
            aliases@,
            *texts,
            (i + 1) as nat,
        ));
    }
}

/// The bars of the survey view, by ascending channel and BSSID. `texts` are the
/// texts of the aggregated signals.
pub fn survey_bars(
    channels: &Vec<&ChannelAgg>,
    aliases: &TextMap<String>,
    texts: &Vec<SignalTexts>,
) -> (r: Vec<ChartBar>)
    requires
        texts_fit(channels@, texts@),
    ensures
        bar_views(r@) == survey_bars_of(
            referred_channels(channels@),
            aliases@,
            texts@,
            channels@.len(),
        ),
{
    let mut r: Vec<ChartBar> = Vec::new();
    let ghost all = referred_channels(channels@);
    let n: usize = channels.len();
    assert(bar_views(r@) =~= survey_bars_of(all, aliases@, texts@, 0));
    for i in 0..n
        invariant
            n == channels@.len(),
            all == referred_channels(channels@),
            texts_fit(channels@, texts@),
            bar_views(r@) == survey_bars_of(all, aliases@, texts@, i as nat),
    {
        assert(all[i as int] == *channels@[i as int]);
        assert(texts@[i as int].aps@.len() == channels@[i as int].aps@.len());
        push_survey_channel_bars(&mut r, channels[i], aliases, &texts[i]);
    }
    r
}

/// The columns of the survey table.
pub open spec fn survey_columns(ch: Seq<char>, aps: Seq<char>, sig: Seq<char>) -> Seq<char> {
    text::pad_right(ch, 5, ' ') + " "@ + text::pad_right(aps, 8, ' ') + " "@ + text::pad_left(
        sig,
        8,
        ' ',
    )
}

fn survey_columns_text(ch: &str, aps: &str, sig: &str) -> (r: String)
    ensures
        r@ == survey_columns(ch@, aps@, sig@),
{
    proof {
        reveal_strlit(" ");
    }
    let mut s = String::new();
    text::push_padded_right(&mut s, ch, 5, " ");
    s.append(" ");
    text::push_padded_right(&mut s, aps, 8, " ");
    s.append(" ");
    text::push_padded_left(&mut s, sig, 8, " ");
    assert(s@ =~= survey_columns(ch@, aps@, sig@));
    s
}

/// The title of the signal column.
pub open spec fn agg_title(agg: Aggregation) -> Seq<char> {
    match agg {
        Aggregation::Strongest => "strongest"@,
        Aggregation::Average => "average"@,
    }
}

/// The header of the survey table.
pub fn survey_header(agg: Aggregation) -> (r: Row)
    ensures
        row_view(r) == (
            survey_columns("ch"@, "APs"@, agg_title(agg)),
            None::<(u8, Seq<char>)>,
        ),
{
    let title = match agg {
        Aggregation::Strongest => "strongest",
        Aggregation::Average => "average",
    };
    Row { text: survey_columns_text("ch", "APs", title), key: None }
}

/// The row of a channel: its number of APs and its signal.
pub open spec fn survey_channel_row(c: ChannelAgg, sig: Seq<char>) -> RowView {
    (survey_columns(text::dec(c.channel as nat), text::dec(c.aps@.len()), sig), None)
}

/// The row of an AP below its channel, with its dot in the given color.
pub open spec fn survey_ap_row(
    a: ApAgg,
    ch: u8,
    aliases: Map<Seq<char>, String>,
    sig: Seq<char>,
    color: Seq<char>,
) -> RowView {
    (
        "  "@ + dot(color) + text::pad_right(a.bssid@, 17, ' ') + "  "@ + text::pad_left(
            sig,
            6,
            ' ',
        ) + " (×"@ + text::dec(a.sightings as nat) + ")  "@ + short_alias(aliases, a.bssid@),
        Some((ch, a.bssid@)),
    )
}

fn survey_ap_row_text(
    a: &ApAgg,
    ch: u8,
    aliases: &TextMap<String>,
    sig: &str,
    color: &str,
) -> (r: Row)
    ensures
        row_view(r) == survey_ap_row(*a, ch, aliases@, sig@, color@),
{
    proof {
        reveal_strlit(" ");
    }
    let mut s = "  ".to_owned();
    let mut mark = "<span foreground=\"".to_owned();
    mark.append(color);
    mark.append("\">●</span> ");
    s.append(mark.as_str());
    text::push_padded_right(&mut s, a.bssid.as_str(), 17, " ");
    s.append("  ");
    text::push_padded_left(&mut s, sig, 6, " ");
    s.append(" (×");
    text::push_dec(&mut s, a.sightings as u64);
    s.append(")  ");
    let alias = short_alias_text(aliases, a.bssid.as_str());
    s.append(alias.as_str());
    Row { text: s, key: Some(HoverKey { channel: ch, bssid: a.bssid.clone() }) }
}

/// The levels of a channel's APs.
pub open spec fn ap_levels(aps: Seq<ApAgg>) -> Seq<Level> {
    aps.map_values(|a: ApAgg| a.signal_dbm)
}

/// The rows of one channel: its own, then its APs strongest first. `texts` are
/// the signal texts, `colors` the dot colors of the APs.
pub fn survey_rows(
    c: &ChannelAgg,
    aliases: &TextMap<String>,
    texts: &SignalTexts,
    colors: &Vec<String>,
) -> (r: Vec<Row>)
    requires
        order::all_levels(ap_levels(c.aps@)),
        texts.aps@.len() == c.aps@.len(),
        colors@.len() == c.aps@.len(),
    ensures
        r@.len() == c.aps@.len() + 1,
        row_view(r@[0]) == survey_channel_row(*c, texts.channel@),
        order::is_descending(ap_levels(c.aps@), order::descending(ap_levels(c.aps@))),
        forall|i: int|
            0 <= i < c.aps@.len() ==> row_view(#[trigger] r@[i + 1]) == survey_ap_row(
                c.aps@[order::descending(ap_levels(c.aps@))[i]],
                c.channel,
                aliases@,
                texts.aps@[order::descending(ap_levels(c.aps@))[i]]@,
                colors@[order::descending(ap_levels(c.aps@))[i]]@,
            ),
{
    let n: usize = c.aps.len();
    let mut levels: Vec<Level> = Vec::new();
    for i in 0..n
        invariant
            n == c.aps@.len(),
            levels@ == ap_levels(c.aps@).take(i as int),
    {
        levels.push(c.aps[i].signal_dbm);
        assert(levels@ =~= ap_levels(c.aps@).take(i + 1));
    }
    assert(levels@ =~= ap_levels(c.aps@));
    let perm = order::order_descending(&levels);
    let ghost p = order::as_ints(perm@);
    let mut rows: Vec<Row> = Vec::new();
    let ch = text::dec_text(c.channel as u64);
    let count = text::dec_text(n as u64);
    rows.push(
        Row {
            text: survey_columns_text(ch.as_str(), count.as_str(), texts.channel.as_str()),
            key: None,
        },
    );
    for i in 0..n
        invariant
            n == c.aps@.len(),
            n == texts.aps@.len(),
            n == colors@.len(),
            n == perm@.len(),
            p == order::as_ints(perm@),
            order::is_permutation(p, n as nat),
            rows@.len() == i + 1,
            row_view(rows@[0]) == survey_channel_row(*c, texts.channel@),
            forall|k: int|
                0 <= k < i ==> row_view(#[trigger] rows@[k + 1]) == survey_ap_row(
                    c.aps@[p[k]],
                    c.channel,
                    aliases@,
                    texts.aps@[p[k]]@,
                    colors@[p[k]]@,
                ),
    {
        let at: usize = perm[i];
        assert(p[i as int] == at);
        let ghost before = rows@;
        rows.push(
            survey_ap_row_text(
                &c.aps[at],
                c.channel,
                aliases,
                texts.aps[at].as_str(),
                colors[at].as_str(),
            ),
        );
        assert forall|k: int| 0 <= k < i + 1 implies row_view(#[trigger] rows@[k + 1])
            == survey_ap_row(
            c.aps@[p[k]],
            c.channel,
            aliases@,
            texts.aps@[p[k]]@,
            colors@[p[k]]@,
        ) by {
            if k < i {
                assert(rows@[k + 1] == before[k + 1]);
            }
        }
    }
    rows
}

/// The signal texts for the strongest signals, which are whole numbers.
pub fn strongest_texts(channels: &Vec<&ChannelAgg>) -> (r: Vec<SignalTexts>)
    ensures
        texts_fit(channels@, r@),
        forall|i: int|
            0 <= i < channels@.len() ==> (#[trigger] r@[i]).channel@ == text::pad_left(
                text::dec_int(channels@[i].channel_dbm.sum as int),
                5,
                ' ',
            ),
        forall|i: int, j: int|
            0 <= i < channels@.len() && 0 <= j < channels@[i].aps@.len()
                ==> #[trigger] r@[i].aps@[j]@ == text::dec_int(
                channels@[i].aps@[j].signal_dbm.sum as int,
            ),
{
    proof {
        reveal_strlit(" ");
    }
    let mut r: Vec<SignalTexts> = Vec::new();
    let n: usize = channels.len();
    for i in 0..n
        invariant
            n == channels@.len(),
            r@.len() == i,
            " "@.len() == 1 && " "@[0] == ' ',
            forall|k: int|
                0 <= k < i ==> (#[trigger] r@[k]).aps@.len() == channels@[k].aps@.len()
                    && r@[k].channel@ == text::pad_left(
                    text::dec_int(channels@[k].channel_dbm.sum as int),
                    5,
                    ' ',
                ),
            forall|k: int, j: int|
                0 <= k < i && 0 <= j < channels@[k].aps@.len() ==> #[trigger] r@[k].aps@[j]@
                    == text::dec_int(channels@[k].aps@[j].signal_dbm.sum as int),
    {
        let c = channels[i];
        let mut aps: Vec<String> = Vec::new();
        let k: usize = c.aps.len();
        for j in 0..k
            invariant
                k == c.aps@.len(),
                aps@.len() == j,
                forall|l: int|
                    0 <= l < j ==> (#[trigger] aps@[l])@ == text::dec_int(
                        c.aps@[l].signal_dbm.sum as int,
                    ),
        {
            aps.push(text::int_text(c.aps[j].signal_dbm.sum));
        }
        let whole = text::int_text(c.channel_dbm.sum);
        let mut channel = String::new();
        text::push_padded_left(&mut channel, whole.as_str(), 5, " ");
        assert(channel@ =~= text::pad_left(whole@, 5, ' '));
        let ghost before = r@;
        r.push(SignalTexts { channel, aps });
        assert forall|a: int, j: int|
            0 <= a < i + 1 && 0 <= j < channels@[a].aps@.len() implies #[trigger] r@[a].aps@[j]@
            == text::dec_int(channels@[a].aps@[j].signal_dbm.sum as int) by {
            if a < i {
                assert(r@[a] == before[a]);
                assert(before[a].aps@[j]@ == text::dec_int(
                    channels@[a].aps@[j].signal_dbm.sum as int,
                ));
            } else {
                assert(r@[a].aps@[j]@ == aps@[j]@);
            }
        }
    }
    r
}

// ── Charts ─────────────────────────────────────────────────────────────────

/// The ticks of a band's axis: frequency and channel number.
pub open spec fn ticks_of(band: Seq<char>) -> Seq<(u32, u8)> {
    channels_of_band(band).map_values(|c: u8| (freq_of_band_channel(band, c), c))
}

/// The ticks of a band's axis: (center frequency in MHz, channel number).
pub fn band_ticks(band: &str) -> (r: Vec<(u32, u8)>)
    ensures
        r@ == ticks_of(band@),
{
    let channels = band_channels(band);
    let mut r: Vec<(u32, u8)> = Vec::new();
    let n: usize = channels.len();
    for i in 0..n
        invariant
            n == channels@.len(),
            channels@ == channels_of_band(band@),
            r@ == ticks_of(band@).take(i as int),
    {
        r.push((band_channel_freq(band, channels[i]), channels[i]));
        assert(r@ =~= ticks_of(band@).take(i + 1));
    }
    assert(r@ =~= ticks_of(band@));
    r
}

/// Width (MHz) of the strip that marks a free channel.
pub open spec fn strip_of(band: Seq<char>) -> u32 {
    if band == "2.4 GHz"@ {
        5
    } else {
        20
    }
}

/// Width (MHz) of the strip that marks a free channel.
pub fn free_strip_mhz(band: &str) -> (r: u32)
    ensures
        r == (if band@ == "2.4 GHz"@ {
            5u32
        } else {
            20u32
        }),
        r == strip_of(band@),
{
    if text::str_eq(band, "2.4 GHz") {
        5
    } else {
        20
    }
}

/// A channel is free when no bar covers its center frequency.
pub open spec fn is_free(bars: Seq<ChartBar>, freq: u32) -> bool {
    forall|i: int| 0 <= i < bars.len() ==> !covers((#[trigger] bars[i]).lobe, freq)
}

/// Whether no bar covers a frequency.
pub fn is_free_channel(bars: &Vec<ChartBar>, freq: u32) -> (r: bool)
    ensures
        r == is_free(bars@, freq),
{
    let n: usize = bars.len();
    for i in 0..n
        invariant
            n == bars@.len(),
            forall|j: int| 0 <= j < i ==> !covers((#[trigger] bars@[j]).lobe, freq),
    {
        let left: i128 = bars[i].lobe.left_half_mhz as i128;
        let at: i128 = 2 * freq as i128;
        if left <= at && at <= left + 2 * bars[i].lobe.span_mhz as i128 {
            assert(covers(bars@[i as int].lobe, freq));
            return false;
        }
    }
    true
}

/// The bar is that of the hovered AP.
pub open spec fn is_key(bar: ChartBar, key: Option<HoverKey>) -> bool {
    match key {
        Some(k) => bar.channel == k.channel && bar.bssid@ == k.bssid@,
        None => false,
    }
}

fn matches_key(bar: &ChartBar, key: &Option<HoverKey>) -> (r: bool)
    ensures
        r == is_key(*bar, *key),
{
    match key {
        Some(k) => bar.channel == k.channel && text::str_eq(bar.bssid.as_str(), k.bssid.as_str()),
        None => false,
    }
}

pub open spec fn bar_levels(bars: Seq<ChartBar>) -> Seq<Level> {
    bars.map_values(|b: ChartBar| b.dbm)
}

/// The last place in `perm` of a bar of the hovered AP.
pub open spec fn last_key(bars: Seq<ChartBar>, perm: Seq<int>, key: Option<HoverKey>, n: nat) -> Option<
    int,
>
    decreases n,
{
    if n == 0 {
        None
    } else if is_key(bars[perm[n - 1]], key) {
        Some(n - 1)
    } else {
        last_key(bars, perm, key, (n - 1) as nat)
    }
}

/// The order in which bars are drawn: tallest first (in back), and the hovered
/// bar last (in front).
pub open spec fn drawing_order(bars: Seq<ChartBar>, key: Option<HoverKey>) -> Seq<int> {
    let perm = order::descending(bar_levels(bars));
    match last_key(bars, perm, key, perm.len()) {
        Some(k) => perm.remove(k).push(perm[k]),
        None => perm,
    }
}

/// The order in which bars are drawn: tallest first (in back), so that all tops
/// stay visible; the hovered bar last (in front).
pub fn draw_order(bars: &Vec<ChartBar>, hovered: &Option<HoverKey>) -> (r: Vec<usize>)
    requires
        order::all_levels(bar_levels(bars@)),
    ensures
        order::as_ints(r@) == drawing_order(bars@, *hovered),
        order::is_descending(bar_levels(bars@), order::descending(bar_levels(bars@))),
{
    let n: usize = bars.len();
    let mut levels: Vec<Level> = Vec::new();
    for i in 0..n
        invariant
            n == bars@.len(),
            levels@ == bar_levels(bars@).take(i as int),
    {
        levels.push(bars[i].dbm);
        assert(levels@ =~= bar_levels(bars@).take(i + 1));
    }
    assert(levels@ =~= bar_levels(bars@));
    let mut perm = order::order_descending(&levels);
    let ghost p = order::as_ints(perm@);
    let mut k: usize = n;
    while k > 0
        invariant
            k <= n,
            n == bars@.len(),
            n == perm@.len(),
            p == order::as_ints(perm@),
            p == order::descending(bar_levels(bars@)),
            order::is_descending(bar_levels(bars@), p),
            last_key(bars@, p, *hovered, p.len()) == last_key(bars@, p, *hovered, k as nat),
        decreases k,
    {
        k = k - 1;
        assert(p[k as int] == perm@[k as int]);
        if matches_key(&bars[perm[k]], hovered) {
            let front: usize = perm.remove(k);
            perm.push(front);
            assert(order::as_ints(perm@) =~= p.remove(k as int).push(p[k as int]));
            return perm;
        }
    }
    perm
}

/// Every bar is drawn exactly once, whatever is hovered.
pub proof fn law_every_bar_is_drawn(bars: Seq<ChartBar>, key: Option<HoverKey>)
    requires
        order::is_descending(bar_levels(bars), order::descending(bar_levels(bars))),
    ensures
        order::is_permutation(drawing_order(bars, key), bars.len()),
{
    let perm = order::descending(bar_levels(bars));
    let r = drawing_order(bars, key);
    lemma_last_key(bars, perm, key, perm.len());
    match last_key(bars, perm, key, perm.len()) {
        Some(k) => {
            assert forall|a: int| 0 <= a < r.len() implies 0 <= #[trigger] r[a] < bars.len() by {
                if a < k {
                    assert(r[a] == perm[a]);
                } else if a < r.len() - 1 {
                    assert(r[a] == perm[a + 1]);
                } else {
                    assert(r[a] == perm[k]);
                }
            }
            assert forall|i: int| 0 <= i < bars.len() implies #[trigger] r.contains(i) by {
                assert(perm.contains(i));
                let a = choose|a: int| 0 <= a < perm.len() && perm[a] == i;
                if a < k {
                    assert(r[a] == i);
                } else if a > k {
                    assert(r[a - 1] == i);
                } else {
                    assert(r[r.len() - 1] == i);
                }
            }
        },
        None => {},
    }
}

proof fn lemma_last_key(bars: Seq<ChartBar>, perm: Seq<int>, key: Option<HoverKey>, n: nat)
    requires
        n <= perm.len(),
    ensures
        last_key(bars, perm, key, n) matches Some(k) ==> 0 <= k < n && is_key(bars[perm[k]], key),
    decreases n,
{
    if n > 0 && !is_key(bars[perm[n - 1]], key) {
        lemma_last_key(bars, perm, key, (n - 1) as nat);
    }
}

/// How a bar stands out while an AP is hovered.
#[derive(Debug, Clone, Copy, PartialEq, Eq, Structural)]
pub enum Emphasis {
    /// Nothing is hovered.
    Normal,
    /// This bar is hovered.
    Highlighted,
    /// Another bar is hovered.
    Dimmed,
}

/// How a bar stands out.
pub fn bar_emphasis(bar: &ChartBar, hovered: &Option<HoverKey>) -> (r: Emphasis)
    ensures
        r == (if is_key(*bar, *hovered) {
            Emphasis::Highlighted
        } else if hovered is Some {
            Emphasis::Dimmed
        } else {
            Emphasis::Normal
        }),
{
    if matches_key(bar, hovered) {
        Emphasis::Highlighted
    } else if hovered.is_some() {
        Emphasis::Dimmed
    } else {
        Emphasis::Normal
    }
}

/// The frontmost hit: of the bars in drawing order that the pointer is over,
/// the one drawn last.
pub fn chart_hit_test(hits: &Vec<bool>) -> (r: Option<usize>)
    ensures
        match r {
            Some(i) => i < hits@.len() && hits@[i as int] && forall|j: int|
                i < j < hits@.len() ==> !#[trigger] hits@[j],
            None => forall|j: int| 0 <= j < hits@.len() ==> !#[trigger] hits@[j],
        },
{
    let mut i: usize = hits.len();
    while i > 0
        invariant
            i <= hits@.len(),
            forall|j: int| i <= j < hits@.len() ==> !#[trigger] hits@[j],
        decreases i,
    {
        i = i - 1;
        if hits[i] {
            return Some(i);
        }
    }
    None
}

// ── Hovering ───────────────────────────────────────────────────────────────

fn same_key(a: &HoverKey, b: &HoverKey) -> (r: bool)
    ensures
        r == (a.channel == b.channel && a.bssid@ == b.bssid@),
{
    a.channel == b.channel && text::str_eq(a.bssid.as_str(), b.bssid.as_str())
}

/// Whether two hover states are the same.
pub fn same_hover(a: &Option<HoverKey>, b: &Option<HoverKey>) -> (r: bool)
    ensures
        r == (key_view(*a) == key_view(*b)),
{
    match (a, b) {
        (Some(x), Some(y)) => same_key(x, y),
        (None, None) => true,
        _ => false,
    }
}

/// Hover state shared between one band's chart and its table rows: the hovered
/// AP, and the keys of the registered rows.
#[derive(Debug, Clone)]
pub struct BandSync {
    pub hover: Option<HoverKey>,
    pub rows: Vec<HoverKey>,
}

impl BandSync {
    /// The row is that of the hovered AP.
    pub open spec fn is_lit(&self, i: int) -> bool {
        key_view(self.hover) == Some((self.rows@[i].channel, self.rows@[i].bssid@))
    }

    pub fn new() -> (r: BandSync)
        ensures
            r.hover is None,
            r.rows@.len() == 0,
    {
        BandSync { hover: None, rows: Vec::new() }
    }

    /// Register a table row for an AP; returns whether it is to be highlighted.
    pub fn add_row(&mut self, key: HoverKey) -> (r: bool)
        ensures
            final(self).hover == old(self).hover,
            final(self).rows@ == old(self).rows@.push(key),
            r == final(self).is_lit(old(self).rows@.len() as int),
    {
        let on = self.is_hovered(&key);
        self.rows.push(key);
        on
    }

    /// Whether an AP is the hovered one.
    pub fn is_hovered(&self, key: &HoverKey) -> (r: bool)
        ensures
            r == (key_view(self.hover) == Some((key.channel, key.bssid@))),
    {
        match &self.hover {
            Some(k) => same_key(k, key),
            None => false,
        }
    }

    /// Set the hovered AP (from the chart or from a row). Where that is a
    /// change, tells for each row whether it is to be highlighted.
    pub fn set_hover(&mut self, key: Option<HoverKey>) -> (r: Option<Vec<bool>>)
        ensures
            key_view(final(self).hover) == key_view(key),
            final(self).rows == old(self).rows,
            r is Some <==> key_view(key) != key_view(old(self).hover),
            r matches Some(lit) ==> lit@.len() == final(self).rows@.len() && forall|i: int|
                0 <= i < lit@.len() ==> #[trigger] lit@[i] == final(self).is_lit(i),
    {
        if same_hover(&self.hover, &key) {
            return None;
        }
        self.hover = key;
        let mut lit: Vec<bool> = Vec::new();
        let n: usize = self.rows.len();
        for i in 0..n
            invariant
                n == self.rows@.len(),
                lit@.len() == i,
                forall|k: int| 0 <= k < i ==> #[trigger] lit@[k] == self.is_lit(k),
        {
            let on = self.is_hovered(&self.rows[i]);
            lit.push(on);
        }
        Some(lit)
    }

    /// Leaving a row clears the hover only if that row's AP still has it.
    pub fn leave_row(&mut self, key: &HoverKey) -> (r: Option<Vec<bool>>)
        ensures
            final(self).rows == old(self).rows,
            key_view(old(self).hover) == Some((key.channel, key.bssid@)) ==> {
                &&& final(self).hover is None
                &&& r matches Some(lit) && lit@.len() == final(self).rows@.len() && forall|i: int|
                    0 <= i < lit@.len() ==> !#[trigger] lit@[i]
            },
            key_view(old(self).hover) != Some((key.channel, key.bssid@)) ==> *final(self) == *old(
                self,
            ) && r is None,
    {
        if self.is_hovered(key) {
            self.set_hover(None)
        } else {
            None
        }
    }
}

// ── The window ─────────────────────────────────────────────────────────────

/// The measurements that the report is about: those with scan data.
pub open spec fn with_scan(ms: Seq<Measurement>) -> Seq<int>
    decreases ms.len(),
{
    if ms.len() == 0 {
        Seq::empty()
    } else if ms.last().scan_results@.len() > 0 {
        with_scan(ms.drop_last()).push(ms.len() - 1)
    } else {
        with_scan(ms.drop_last())
    }
}

/// The places of the measurements with scan data; the others are skipped.
pub fn report_points(measurements: &Vec<Measurement>) -> (r: Vec<usize>)
    ensures
        order::as_ints(r@) == with_scan(measurements@),
{
    let mut r: Vec<usize> = Vec::new();
    let n: usize = measurements.len();
    assert(order::as_ints(r@) =~= with_scan(measurements@.take(0)));
    for i in 0..n
        invariant
            n == measurements@.len(),
            order::as_ints(r@) == with_scan(measurements@.take(i as int)),
    {
        assert(measurements@.take(i + 1).drop_last() =~= measurements@.take(i as int));
        if measurements[i].scan_results.len() > 0 {
            let ghost before = r@;
            r.push(i);
            assert(order::as_ints(r@) =~= order::as_ints(before).push(i as int));
        }
    }
    assert(measurements@.take(n as int) =~= measurements@);
    r
}

/// The window title for a floor.
pub fn report_title(floor_name: &str) -> (r: String)
    ensures
        r@ == "Channel Report — "@ + floor_name@,
{
    let mut s = "Channel Report — ".to_owned();
    s.append(floor_name);
    s
}

/// Dropdown / checkbox label for a measurement: date, network, position. The
/// date and time (in the local time zone) and the coordinates are given as
/// texts.
pub fn measurement_label(m: &Measurement, date: &str, time: &str, x: &str, y: &str) -> (r: String)
    ensures
        r@ == date@ + " "@ + time@ + " — "@ + (if m.no_signal {
            "No connection ("@ + text::dec(m.scan_results@.len()) + " APs)"@
        } else {
            m.ssid@ + " (ch "@ + text::dec(m.channel as nat) + ")"@
        }) + " — ("@ + x@ + ", "@ + y@ + ")"@,
{
    let what = if m.no_signal {
        let mut w = "No connection (".to_owned();
        text::push_dec(&mut w, m.scan_results.len() as u64);
        w.append(" APs)");
        w
    } else {
        let mut w = m.ssid.clone();
        w.append(" (ch ");
        text::push_dec(&mut w, m.channel as u64);
        w.append(")");
        w
    };
    let mut s = date.to_owned();
    s.append(" ");
    s.append(time);
    s.append(" — ");
    s.append(what.as_str());
    s.append(" — (");
    s.append(x);
    s.append(", ");
    s.append(y);
    s.append(")");
    s
}

/// What the point view says instead of charts: nothing is selected, or the
/// measurement has no scan data on any band.
pub fn point_notice(m: Option<&Measurement>) -> (r: Option<&'static str>)
    ensures
        match m {
            Some(m) => if m.scan_results@.len() > 0 {
                r is None
            } else {
                r matches Some(t) && t@ == "This measurement has no scan data."@
            },
            None => r matches Some(t) && t@ == "Select a measurement."@,
        },
{
    match m {
        Some(m) => if m.scan_results.len() > 0 {
            None
        } else {
            Some("This measurement has no scan data.")
        },
        None => Some("Select a measurement."),
    }
}

/// How many points are selected.
pub open spec fn count_selected(sel: Seq<bool>) -> nat
    decreases sel.len(),
{
    if sel.len() == 0 {
        0
    } else {
        count_selected(sel.drop_last()) + (if sel.last() {
            1nat
        } else {
            0
        })
    }
}

/// The line above the survey: how many measurements are selected.
pub fn survey_count_text(sel: &Vec<bool>) -> (r: String)
    ensures
        r@ == text::dec(count_selected(sel@)) + " of "@ + text::dec(sel@.len())
            + " measurement(s) selected"@,
{
    let mut count: u64 = 0;
    let n: usize = sel.len();
    for i in 0..n
        invariant
            n == sel@.len(),
            count == count_selected(sel@.take(i as int)),
            count <= i,
    {
        assert(sel@.take(i + 1).drop_last() =~= sel@.take(i as int));
        if sel[i] {
            count = count + 1;
        }
    }
    assert(sel@.take(n as int) =~= sel@);
    let mut s = text::dec_text(count);
    s.append(" of ");
    text::push_dec(&mut s, n as u64);
    s.append(" measurement(s) selected");
    s
}

/// The sightings on a band of the selected points, in order.
pub open spec fn selected_sightings(
    points: Seq<Measurement>,
    sel: Seq<bool>,
    band: Seq<char>,
    n: nat,
) -> Seq<Sighting>
    decreases n,
{
    if n == 0 {
        Seq::empty()
    } else {
        let before = selected_sightings(points, sel, band, (n - 1) as nat);
        if sel[n - 1] {
            before + band_sightings(points[n - 1], points[n - 1].scan_results@, band)
        } else {
            before
        }
    }
}

/// All sightings on a band of the selected points.
pub fn survey_sightings(points: &Vec<Measurement>, sel: &Vec<bool>, band: &str) -> (r: Vec<
    Sighting,
>)
    requires
        sel@.len() == points@.len(),
    ensures
        r@ == selected_sightings(points@, sel@, band@, points@.len()),
{
    let mut r: Vec<Sighting> = Vec::new();
    let n: usize = points.len();
    for i in 0..n
        invariant
            n == points@.len(),
            n == sel@.len(),
            r@ == selected_sightings(points@, sel@, band@, i as nat),
    {
        if sel[i] {
            let mut own = sightings_of(&points[i], band);
            r.append(&mut own);
        }
    }
    r
}

/// A selected point has scan data.
pub open spec fn has_selected_scan(points: Seq<Measurement>, sel: Seq<bool>) -> bool {
    exists|i: int|
        0 <= i < points.len() && sel[i] && (#[trigger] points[i]).scan_results@.len() > 0
}

/// What the survey view says instead of charts: nothing is selected, or the
/// selected measurements have no scan data.
pub fn survey_notice(points: &Vec<Measurement>, sel: &Vec<bool>) -> (r: Option<&'static str>)
    requires
        sel@.len() == points@.len(),
    ensures
        if forall|i: int| 0 <= i < sel@.len() ==> !#[trigger] sel@[i] {
            r matches Some(t) && t@ == "Select at least one measurement."@
        } else if has_selected_scan(points@, sel@) {
            r is None
        } else {
            r matches Some(t) && t@ == "No scan data in the selected measurements."@
        },
{
    let mut any: bool = false;
    let n: usize = sel.len();
    for i in 0..n
        invariant
            n == sel@.len(),
            n == points@.len(),
            any <==> exists|j: int| 0 <= j < i && #[trigger] sel@[j],
            forall|j: int| 0 <= j < i && #[trigger] sel@[j] ==> points@[j].scan_results@.len() == 0,
    {
        if sel[i] {
            assert(sel@[i as int]);
            if points[i].scan_results.len() > 0 {
                assert(points@[i as int].scan_results@.len() > 0);
                return None;
            }
            any = true;
        }
    }
    if any {
        Some("No scan data in the selected measurements.")
    } else {
        Some("Select at least one measurement.")
    }
}

} // verus!
