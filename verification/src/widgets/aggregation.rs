//! Laws of the survey's aggregation: what every per-channel summary of
//! sightings has in common, and what the order of the sightings cannot change.

use crate::names;
use crate::order;
use crate::text;
use crate::widgets::channel_report;
use crate::widgets::channel_report::Aggregation;
use crate::widgets::channel_report::ApAgg;
use crate::widgets::channel_report::ChannelAgg;
use crate::widgets::channel_report::Sighting;
use vstd::prelude::*;

verus! {

broadcast use vstd::seq_lib::group_to_multiset_ensures;

// ── Parts of sightings ─────────────────────────────────────────────────────

proof fn lemma_contains_push(s: Seq<Sighting>, x: Sighting, n: Sighting)
    ensures
        s.push(x).contains(n) <==> s.contains(n) || x == n,
{
    if s.contains(n) {
        let i = choose|i: int| 0 <= i < s.len() && s[i] == n;
        assert(s.push(x)[i] == n);
    }
    if x == n {
        assert(s.push(x)[s.len() as int] == n);
    }
    if s.push(x).contains(n) && x != n {
        let i = choose|i: int| 0 <= i < s.push(x).len() && s.push(x)[i] == n;
        assert(s[i] == n);
    }
}

/// The sightings on a channel are those whose channel it is.
pub proof fn lemma_on_channel(s: Seq<Sighting>, ch: u8)
    ensures
        channel_report::on_channel(s, ch).to_multiset() == s.to_multiset().filter(
            |x: Sighting| x.channel == ch,
        ),
        forall|x: Sighting| #[trigger]
            channel_report::on_channel(s, ch).contains(x) <==> s.contains(x) && x.channel == ch,
    decreases s.len(),
{
    let f = |x: Sighting| x.channel == ch;
    let g = channel_report::on_channel(s, ch);
    if s.len() == 0 {
        assert(g.to_multiset() =~= s.to_multiset().filter(f));
    } else {
        let rest = s.drop_last();
        let last = s.last();
        lemma_on_channel(rest, ch);
        assert(rest.push(last) =~= s);
        assert(g.to_multiset() =~= s.to_multiset().filter(f));
        assert forall|x: Sighting| #[trigger] g.contains(x) <==> s.contains(x) && x.channel
            == ch by {
            lemma_contains_push(rest, last, x);
            lemma_contains_push(channel_report::on_channel(rest, ch), last, x);
        }
    }
}

/// The sightings of a BSSID are those whose BSSID it is.
pub proof fn lemma_of_bssid(s: Seq<Sighting>, bssid: Seq<char>)
    ensures
        channel_report::of_bssid(s, bssid).to_multiset() == s.to_multiset().filter(
            |x: Sighting| x.bssid@ == bssid,
        ),
        forall|x: Sighting| #[trigger]
            channel_report::of_bssid(s, bssid).contains(x) <==> s.contains(x) && x.bssid@ == bssid,
    decreases s.len(),
{
    let f = |x: Sighting| x.bssid@ == bssid;
    let g = channel_report::of_bssid(s, bssid);
    if s.len() == 0 {
        assert(g.to_multiset() =~= s.to_multiset().filter(f));
    } else {
        let rest = s.drop_last();
        let last = s.last();
        lemma_of_bssid(rest, bssid);
        assert(rest.push(last) =~= s);
        assert(g.to_multiset() =~= s.to_multiset().filter(f));
        assert forall|x: Sighting| #[trigger] g.contains(x) <==> s.contains(x) && x.bssid@
            == bssid by {
            lemma_contains_push(rest, last, x);
            lemma_contains_push(channel_report::of_bssid(rest, bssid), last, x);
        }
    }
}

/// The BSSIDs of sightings: ascending, and exactly those that were sighted.
pub proof fn lemma_bssids(s: Seq<Sighting>)
    ensures
        names::is_ascending(channel_report::bssids_of(s)),
        forall|i: int|
            0 <= i < s.len() ==> channel_report::bssids_of(s).contains((#[trigger] s[i]).bssid@),
        forall|b: Seq<char>| #[trigger]
            channel_report::bssids_of(s).contains(b) ==> exists|i: int|
                0 <= i < s.len() && (#[trigger] s[i]).bssid@ == b,
{
    let all = s.map_values(|x: Sighting| x.bssid@);
    names::lemma_sorted_distinct(all);
    assert forall|i: int| 0 <= i < s.len() implies channel_report::bssids_of(s).contains(
        (#[trigger] s[i]).bssid@,
    ) by {
        assert(all[i] == s[i].bssid@);
    }
    assert forall|b: Seq<char>| #[trigger] channel_report::bssids_of(s).contains(b) implies exists|
        i: int,
    |
        0 <= i < s.len() && (#[trigger] s[i]).bssid@ == b by {
        let i = choose|i: int| 0 <= i < all.len() && all[i] == b;
        assert(s[i].bssid@ == b);
    }
}

// ── One channel ────────────────────────────────────────────────────────────

/// The access points of a channel stand in ascending order of their BSSIDs, so
/// each stands there once.
pub proof fn law_aps_ascend(c: ChannelAgg, g: Seq<Sighting>, ch: u8, agg: Aggregation)
    requires
        channel_report::is_channel_agg(c, g, ch, agg),
    ensures
        forall|i: int, j: int|
            0 <= i < j < c.aps@.len() ==> text::less(
                (#[trigger] c.aps@[i]).bssid@,
                (#[trigger] c.aps@[j]).bssid@,
            ) && c.aps@[i].bssid@ != c.aps@[j].bssid@,
        forall|i: int|
            0 <= i < c.aps@.len() ==> (#[trigger] c.aps@[i]).bssid@ == channel_report::bssids_of(
                g,
            )[i],
{
    let names = channel_report::bssids_of(g);
    lemma_bssids(g);
    assert forall|i: int| 0 <= i < c.aps@.len() implies (#[trigger] c.aps@[i]).bssid@
        == names[i] by {
        let own = channel_report::of_bssid(g, names[i]);
        lemma_of_bssid(g, names[i]);
        assert(own.contains(own[0]));
    }
    assert forall|i: int, j: int| 0 <= i < j < c.aps@.len() implies text::less(
        (#[trigger] c.aps@[i]).bssid@,
        (#[trigger] c.aps@[j]).bssid@,
    ) && c.aps@[i].bssid@ != c.aps@[j].bssid@ by {
        text::lemma_less_total(names[i], names[j]);
        assert(text::less(names[i], names[j]));
    }
}

/// How often access points were sighted.
pub open spec fn ap_sightings(aps: Seq<ApAgg>) -> int
    decreases aps.len(),
{
    if aps.len() == 0 {
        0
    } else {
        ap_sightings(aps.drop_last()) + aps.last().sightings
    }
}

/// The counts of a channel's access points add up to its sightings.
pub proof fn law_channel_counts(c: ChannelAgg, g: Seq<Sighting>, ch: u8, agg: Aggregation)
    requires
        channel_report::is_channel_agg(c, g, ch, agg),
    ensures
        ap_sightings(c.aps@) == g.len(),
{
    let names = channel_report::bssids_of(g);
    lemma_ap_sightings(c, g, ch, agg, names.len() as int);
    assert(names.take(names.len() as int) =~= names);
    assert(c.aps@.take(names.len() as int) =~= c.aps@);
    channel_report::law_sightings_are_counted_once(g);
}

proof fn lemma_ap_sightings(c: ChannelAgg, g: Seq<Sighting>, ch: u8, agg: Aggregation, n: int)
    requires
        channel_report::is_channel_agg(c, g, ch, agg),
        0 <= n <= c.aps@.len(),
    ensures
        ap_sightings(c.aps@.take(n)) == channel_report::counted(
            g,
            channel_report::bssids_of(g).take(n),
        ),
    decreases n,
{
    if n > 0 {
        lemma_ap_sightings(c, g, ch, agg, n - 1);
        assert(c.aps@.take(n).drop_last() =~= c.aps@.take(n - 1));
        assert(channel_report::bssids_of(g).take(n).drop_last() =~= channel_report::bssids_of(
            g,
        ).take(n - 1));
        assert(c.aps@.take(n).last() == c.aps@[n - 1]);
    }
}

/// With the strongest signals, the level of an access point is the strongest
/// of its sightings: one of them has it, none has more.
pub proof fn law_ap_is_its_strongest(c: ChannelAgg, g: Seq<Sighting>, ch: u8, i: int)
    requires
        channel_report::is_channel_agg(c, g, ch, Aggregation::Strongest),
        0 <= i < c.aps@.len(),
    ensures
        c.aps@[i].signal_dbm.count == 1,
        exists|k: int|
            0 <= k < g.len() && (#[trigger] g[k]).bssid@ == c.aps@[i].bssid@ && g[k].signal_dbm
                == c.aps@[i].signal_dbm.sum,
        forall|k: int|
            0 <= k < g.len() && (#[trigger] g[k]).bssid@ == c.aps@[i].bssid@ ==> g[k].signal_dbm
                <= c.aps@[i].signal_dbm.sum,
{
    let b = channel_report::bssids_of(g)[i];
    let own = channel_report::of_bssid(g, b);
    law_aps_ascend(c, g, ch, Aggregation::Strongest);
    lemma_of_bssid(g, b);
    channel_report::law_max_dbm(own);
    let j = choose|j: int|
        0 <= j < own.len() && (#[trigger] own[j]).signal_dbm == channel_report::max_dbm(own);
    assert(own.contains(own[j]));
    let k = choose|k: int| 0 <= k < g.len() && g[k] == own[j];
    assert(g[k].signal_dbm == c.aps@[i].signal_dbm.sum);
    assert forall|k: int|
        0 <= k < g.len() && (#[trigger] g[k]).bssid@ == c.aps@[i].bssid@ implies g[k].signal_dbm
        <= c.aps@[i].signal_dbm.sum by {
        assert(g.contains(g[k]));
        assert(own.contains(g[k]));
        let j = choose|j: int| 0 <= j < own.len() && own[j] == g[k];
        assert(own[j].signal_dbm <= channel_report::max_dbm(own));
    }
}

/// With the strongest signals, the level of a channel is the strongest of its
/// access points: one of them has it, none has more.
pub proof fn law_channel_is_its_strongest(c: ChannelAgg, g: Seq<Sighting>, ch: u8)
    requires
        g.len() > 0,
        channel_report::is_channel_agg(c, g, ch, Aggregation::Strongest),
    ensures
        exists|i: int|
            0 <= i < c.aps@.len() && (#[trigger] c.aps@[i]).signal_dbm == c.channel_dbm,
        forall|i: int|
            0 <= i < c.aps@.len() ==> !order::higher(
                (#[trigger] c.aps@[i]).signal_dbm,
                c.channel_dbm,
            ),
{
    channel_report::law_max_dbm(g);
    lemma_bssids(g);
    law_aps_ascend(c, g, ch, Aggregation::Strongest);
    let max = channel_report::max_dbm(g);
    assert forall|i: int| 0 <= i < c.aps@.len() implies (#[trigger] c.aps@[i]).signal_dbm.sum
        <= max && !order::higher(c.aps@[i].signal_dbm, c.channel_dbm) by {
        law_ap_is_its_strongest(c, g, ch, i);
        order::lemma_single_higher(c.aps@[i].signal_dbm, c.channel_dbm);
    }
    let k = choose|k: int| 0 <= k < g.len() && (#[trigger] g[k]).signal_dbm == max;
    let names = channel_report::bssids_of(g);
    assert(names.contains(g[k].bssid@));
    let i = choose|i: int| 0 <= i < names.len() && names[i] == g[k].bssid@;
    assert(c.aps@[i].bssid@ == g[k].bssid@);
    law_ap_is_its_strongest(c, g, ch, i);
    assert(c.aps@[i].signal_dbm.sum == max);
    assert(c.aps@[i].signal_dbm == c.channel_dbm);
}

// ── All channels ───────────────────────────────────────────────────────────

/// How often access points were sighted on the first `n` channels.
pub open spec fn survey_sightings(m: Map<u8, ChannelAgg>, n: int) -> int
    decreases n,
{
    if n <= 0 {
        0
    } else {
        survey_sightings(m, n - 1) + (if m.contains_key((n - 1) as u8) {
            ap_sightings(m[(n - 1) as u8].aps@)
        } else {
            0
        })
    }
}

/// How many sightings are on the first `n` channels.
spec fn on_channels(s: Seq<Sighting>, n: int) -> int
    decreases n,
{
    if n <= 0 {
        0
    } else {
        on_channels(s, n - 1) + channel_report::on_channel(s, (n - 1) as u8).len()
    }
}

proof fn lemma_on_channels(s: Seq<Sighting>, n: int)
    requires
        0 <= n <= 256,
        s.len() > 0,
    ensures
        on_channels(s, n) == on_channels(s.drop_last(), n) + (if s.last().channel < n {
            1int
        } else {
            0
        }),
    decreases n,
{
    if n > 0 {
        lemma_on_channels(s, n - 1);
    }
}

proof fn lemma_none_on_channels(s: Seq<Sighting>, n: int)
    requires
        s.len() == 0,
    ensures
        on_channels(s, n) == 0,
    decreases n,
{
    if n > 0 {
        lemma_none_on_channels(s, n - 1);
    }
}

proof fn lemma_all_on_channels(s: Seq<Sighting>)
    ensures
        on_channels(s, 256) == s.len(),
    decreases s.len(),
{
    if s.len() == 0 {
        lemma_none_on_channels(s, 256);
    } else {
        lemma_all_on_channels(s.drop_last());
        lemma_on_channels(s, 256);
    }
}

proof fn lemma_survey_sightings(
    m: Map<u8, ChannelAgg>,
    s: Seq<Sighting>,
    agg: Aggregation,
    n: int,
)
    requires
        channel_report::is_survey(m, s, agg),
        0 <= n <= 256,
    ensures
        survey_sightings(m, n) == on_channels(s, n),
    decreases n,
{
    if n > 0 {
        lemma_survey_sightings(m, s, agg, n - 1);
        let ch = (n - 1) as u8;
        assert(m.contains_key(ch) <==> channel_report::is_seen(s, ch));
        if m.contains_key(ch) {
            law_channel_counts(m[ch], channel_report::on_channel(s, ch), ch, agg);
        }
    }
}

/// The counts of all access points of all channels add up to the sightings:
/// none is lost, none counts twice.
pub proof fn law_every_sighting_counts(m: Map<u8, ChannelAgg>, s: Seq<Sighting>, agg: Aggregation)
    requires
        channel_report::is_survey(m, s, agg),
    ensures
        survey_sightings(m, 256) == s.len(),
{
    lemma_survey_sightings(m, s, agg, 256);
    lemma_all_on_channels(s);
}

/// The channels of a survey are those on which something was sighted.
pub proof fn law_channels_are_those_sighted(
    m: Map<u8, ChannelAgg>,
    s: Seq<Sighting>,
    agg: Aggregation,
    ch: u8,
)
    requires
        channel_report::is_survey(m, s, agg),
    ensures
        m.contains_key(ch) <==> exists|i: int|
            0 <= i < s.len() && (#[trigger] s[i]).channel == ch,
{
    let g = channel_report::on_channel(s, ch);
    lemma_on_channel(s, ch);
    assert(m.contains_key(ch) <==> channel_report::is_seen(s, ch));
    if g.len() > 0 {
        assert(g.contains(g[0]));
        let i = choose|i: int| 0 <= i < s.len() && s[i] == g[0];
        assert(s[i].channel == ch);
    }
    if exists|i: int| 0 <= i < s.len() && (#[trigger] s[i]).channel == ch {
        let i = choose|i: int| 0 <= i < s.len() && (#[trigger] s[i]).channel == ch;
        assert(s.contains(s[i]));
        assert(g.contains(s[i]));
    }
}

// ── The order of the sightings ─────────────────────────────────────────────

proof fn lemma_sum_remove(s: Seq<Sighting>, i: int)
    requires
        0 <= i < s.len(),
    ensures
        channel_report::sum_dbm(s) == channel_report::sum_dbm(s.remove(i)) + s[i].signal_dbm,
    decreases s.len(),
{
    if i == s.len() - 1 {
        assert(s.remove(i) =~= s.drop_last());
    } else {
        lemma_sum_remove(s.drop_last(), i);
        assert(s.remove(i).drop_last() =~= s.drop_last().remove(i));
        assert(s.remove(i).last() == s.last());
    }
}

proof fn lemma_same_sum(s: Seq<Sighting>, t: Seq<Sighting>)
    requires
        s.to_multiset() == t.to_multiset(),
    ensures
        channel_report::sum_dbm(s) == channel_report::sum_dbm(t),
    decreases s.len(),
{
    assert(s.len() == s.to_multiset().len());
    assert(t.len() == t.to_multiset().len());
    if s.len() > 0 {
        let x = s.last();
        assert(s[s.len() - 1] == x);
        assert(s.contains(x));
        assert(s.to_multiset().count(x) > 0);
        assert(t.contains(x));
        let i = choose|i: int| 0 <= i < t.len() && t[i] == x;
        let n = s.len() - 1;
        assert(s.remove(n) =~= s.drop_last());
        assert(s.remove(n).to_multiset() == t.remove(i).to_multiset());
        lemma_same_sum(s.drop_last(), t.remove(i));
        lemma_sum_remove(t, i);
    }
}

proof fn lemma_max_below(s: Seq<Sighting>, t: Seq<Sighting>)
    requires
        s.to_multiset() == t.to_multiset(),
        s.len() > 0,
    ensures
        channel_report::max_dbm(s) <= channel_report::max_dbm(t),
{
    assert(s.len() == s.to_multiset().len());
    assert(t.len() == t.to_multiset().len());
    channel_report::law_max_dbm(s);
    channel_report::law_max_dbm(t);
    let i = choose|i: int|
        0 <= i < s.len() && (#[trigger] s[i]).signal_dbm == channel_report::max_dbm(s);
    assert(s.contains(s[i]));
    assert(s.to_multiset().count(s[i]) > 0);
    assert(t.contains(s[i]));
    let j = choose|j: int| 0 <= j < t.len() && t[j] == s[i];
    assert(t[j].signal_dbm <= channel_report::max_dbm(t));
}

/// The aggregated signal of at least one sighting does not depend on their
/// order.
pub proof fn law_level_in_any_order(s: Seq<Sighting>, t: Seq<Sighting>, agg: Aggregation)
    requires
        s.to_multiset() == t.to_multiset(),
        s.len() > 0,
    ensures
        channel_report::level_of(s, agg) == channel_report::level_of(t, agg),
        s.len() == t.len(),
{
    assert(s.len() == s.to_multiset().len());
    assert(t.len() == t.to_multiset().len());
    lemma_same_sum(s, t);
    lemma_max_below(s, t);
    lemma_max_below(t, s);
}

proof fn lemma_same_bssids(s: Seq<Sighting>, t: Seq<Sighting>)
    requires
        s.to_multiset() == t.to_multiset(),
    ensures
        channel_report::bssids_of(s) == channel_report::bssids_of(t),
{
    let a = channel_report::bssids_of(s);
    let b = channel_report::bssids_of(t);
    lemma_bssids(s);
    lemma_bssids(t);
    assert forall|n: Seq<char>| #[trigger] a.contains(n) <==> b.contains(n) by {
        if a.contains(n) {
            let i = choose|i: int| 0 <= i < s.len() && (#[trigger] s[i]).bssid@ == n;
            assert(s.contains(s[i]));
            assert(s.to_multiset().count(s[i]) > 0);
            assert(t.contains(s[i]));
            let j = choose|j: int| 0 <= j < t.len() && t[j] == s[i];
            assert(b.contains(t[j].bssid@));
        }
        if b.contains(n) {
            let i = choose|i: int| 0 <= i < t.len() && (#[trigger] t[i]).bssid@ == n;
            assert(t.contains(t[i]));
            assert(t.to_multiset().count(t[i]) > 0);
            assert(s.contains(t[i]));
            let j = choose|j: int| 0 <= j < s.len() && s[j] == t[i];
            assert(a.contains(s[j].bssid@));
        }
    }
    names::lemma_ascending_unique(a, b);
}

/// Two summaries of a channel agree on the level, and on which access points
/// were sighted how often and at what level.
pub open spec fn agree(a: ChannelAgg, b: ChannelAgg) -> bool {
    &&& a.channel == b.channel
    &&& a.channel_dbm == b.channel_dbm
    &&& a.aps@.len() == b.aps@.len()
    &&& forall|i: int|
        0 <= i < a.aps@.len() ==> (#[trigger] a.aps@[i]).bssid@ == b.aps@[i].bssid@
            && a.aps@[i].sightings == b.aps@[i].sightings && a.aps@[i].signal_dbm
            == b.aps@[i].signal_dbm
}

/// The order of the sightings changes neither the channels of a survey nor
/// their levels, access points and counts.
pub proof fn law_order_does_not_matter(
    s: Seq<Sighting>,
    t: Seq<Sighting>,
    m: Map<u8, ChannelAgg>,
    n: Map<u8, ChannelAgg>,
    agg: Aggregation,
)
    requires
        s.to_multiset() == t.to_multiset(),
        channel_report::is_survey(m, s, agg),
        channel_report::is_survey(n, t, agg),
    ensures
        m.dom() == n.dom(),
        forall|ch: u8| #[trigger] m.contains_key(ch) ==> agree(m[ch], n[ch]),
{
    assert forall|ch: u8| #[trigger] m.contains_key(ch) <==> n.contains_key(ch) by {
        let g = channel_report::on_channel(s, ch);
        let h = channel_report::on_channel(t, ch);
        lemma_on_channel(s, ch);
        lemma_on_channel(t, ch);
        assert(g.len() == g.to_multiset().len());
        assert(h.len() == h.to_multiset().len());
        assert(m.contains_key(ch) <==> channel_report::is_seen(s, ch));
        assert(n.contains_key(ch) <==> channel_report::is_seen(t, ch));
    }
    assert(m.dom() =~= n.dom());
    assert forall|ch: u8| #[trigger] m.contains_key(ch) implies agree(m[ch], n[ch]) by {
        assert(n.contains_key(ch));
        lemma_same_channel(s, t, m[ch], n[ch], ch, agg);
    }
}

proof fn lemma_same_channel(
    s: Seq<Sighting>,
    t: Seq<Sighting>,
    a: ChannelAgg,
    b: ChannelAgg,
    ch: u8,
    agg: Aggregation,
)
    requires
        s.to_multiset() == t.to_multiset(),
        channel_report::is_seen(s, ch),
        channel_report::is_channel_agg(a, channel_report::on_channel(s, ch), ch, agg),
        channel_report::is_channel_agg(b, channel_report::on_channel(t, ch), ch, agg),
    ensures
        agree(a, b),
{
    let g = channel_report::on_channel(s, ch);
    let h = channel_report::on_channel(t, ch);
    lemma_on_channel(s, ch);
    lemma_on_channel(t, ch);
    law_level_in_any_order(g, h, agg);
    lemma_same_bssids(g, h);
    law_aps_ascend(a, g, ch, agg);
    law_aps_ascend(b, h, ch, agg);
    let names = channel_report::bssids_of(g);
    assert forall|i: int| 0 <= i < a.aps@.len() implies (#[trigger] a.aps@[i]).bssid@
        == b.aps@[i].bssid@ && a.aps@[i].sightings == b.aps@[i].sightings && a.aps@[i].signal_dbm
        == b.aps@[i].signal_dbm by {
        let own = channel_report::of_bssid(g, names[i]);
        let other = channel_report::of_bssid(h, names[i]);
        lemma_of_bssid(g, names[i]);
        lemma_of_bssid(h, names[i]);
        assert(channel_report::is_ap_agg(a.aps@[i], own, agg));
        assert(channel_report::is_ap_agg(b.aps@[i], other, agg));
        law_level_in_any_order(own, other, agg);
    }
}

} // verus!
