//! Which access point's signal is shown.

use crate::models::Measurement;
use crate::models::ScanEntry;
use crate::text;
use vstd::prelude::*;
use vstd::string::StringExecFns;

verus! {

/// Which access point's signal strength the display (heatmap cells, list,
/// legend pointer) is based on:
///
/// - `ConnectedAp`: the AP the computer is associated with.
/// - `Ssid(s)`: the strongest AP broadcasting the SSID `s`. An empty `s` means
///   "the SSID the measurement is connected to".
/// - `Bssid(b)`: one specific AP. There is no value for points where that AP
///   was not in range.
///
/// Stored as text ("ConnectedAp", "Ssid", "Ssid:<name>", "Bssid:<mac>").
#[derive(Debug, Clone, PartialEq, Eq)]
pub enum SignalSource {
    ConnectedAp,
    Ssid(String),
    Bssid(String),
}

/// A [`SignalSource`] over the characters of its name.
pub enum SourceView {
    ConnectedAp,
    Ssid(Seq<char>),
    Bssid(Seq<char>),
}

impl View for SignalSource {
    type V = SourceView;

    open spec fn view(&self) -> SourceView {
        match self {
            SignalSource::ConnectedAp => SourceView::ConnectedAp,
            SignalSource::Ssid(s) => SourceView::Ssid(s@),
            SignalSource::Bssid(b) => SourceView::Bssid(b@),
        }
    }
}

impl Default for SignalSource {
    fn default() -> (r: SignalSource)
        ensures
            r == SignalSource::ConnectedAp,
    {
        SignalSource::ConnectedAp
    }
}

/// The stored text of a source.
pub open spec fn encoded(v: SourceView) -> Seq<char> {
    match v {
        SourceView::ConnectedAp => "ConnectedAp"@,
        SourceView::Ssid(s) => if s.len() == 0 {
            "Ssid"@
        } else {
            "Ssid:"@ + s
        },
        SourceView::Bssid(b) => "Bssid:"@ + b,
    }
}

/// The source that a stored text stands for, if it is one.
pub open spec fn decoded(s: Seq<char>) -> Option<SourceView> {
    if s == "ConnectedAp"@ {
        Some(SourceView::ConnectedAp)
    } else if s == "Ssid"@ {
        Some(SourceView::Ssid(Seq::empty()))
    } else if text::starts_with(s, "Ssid:"@) {
        Some(SourceView::Ssid(s.skip("Ssid:"@.len() as int)))
    } else if text::starts_with(s, "Bssid:"@) {
        Some(SourceView::Bssid(s.skip("Bssid:"@.len() as int)))
    } else {
        None
    }
}

impl SignalSource {
    /// Fixed dropdown label for the connected AP.
    pub const CONNECTED_AP_LABEL: &'static str = "Connected AP";

    /// Fixed dropdown label for the best AP of the SSID.
    pub const SSID_LABEL: &'static str = "SSID (best AP)";

    /// Prefix for the per-BSSID dropdown entries.
    pub const BSSID_PREFIX: &'static str = "AP: ";

    pub fn is_connected_ap(&self) -> (r: bool)
        ensures
            r <==> self@ is ConnectedAp,
    {
        matches!(self, SignalSource::ConnectedAp)
    }

    /// The text a source is stored as.
    pub fn encode(&self) -> (r: String)
        ensures
            r@ == encoded(self@),
    {
        match self {
            SignalSource::ConnectedAp => "ConnectedAp".to_owned(),
            SignalSource::Ssid(s) => if s.as_str().is_empty() {
                "Ssid".to_owned()
            } else {
                let mut r = "Ssid:".to_owned();
                r.append(s.as_str());
                r
            },
            SignalSource::Bssid(b) => {
                let mut r = "Bssid:".to_owned();
                r.append(b.as_str());
                r
            },
        }
    }

    /// Read a stored text; `None` when it stands for no source.
    pub fn decode(s: &str) -> (r: Option<SignalSource>)
        ensures
            match r {
                Some(source) => decoded(s@) == Some(source@),
                None => decoded(s@) is None,
            },
    {
        if text::str_eq(s, "ConnectedAp") {
            return Some(SignalSource::ConnectedAp);
        }
        if text::str_eq(s, "Ssid") {
            return Some(SignalSource::Ssid(String::new()));
        }
        if let Some(name) = text::strip_prefix(s, "Ssid:") {
            return Some(SignalSource::Ssid(name.to_owned()));
        }
        match text::strip_prefix(s, "Bssid:") {
            Some(mac) => Some(SignalSource::Bssid(mac.to_owned())),
            None => None,
        }
    }
}

/// Reading back a stored source gives the source that was stored.
pub proof fn law_source_round_trip(v: SourceView)
    ensures
        decoded(encoded(v)) == Some(v),
{
    reveal_strlit("ConnectedAp");
    reveal_strlit("Ssid");
    reveal_strlit("Ssid:");
    reveal_strlit("Bssid:");
    let s = encoded(v);
    match v {
        SourceView::ConnectedAp => {},
        SourceView::Ssid(n) => {
            if n.len() == 0 {
                assert(s[0] == 'S');
                assert("ConnectedAp"@[0] == 'C');
                assert(n =~= Seq::empty());
            } else {
                assert(s[0] == 'S');
                assert("ConnectedAp"@[0] == 'C');
                assert(s.len() > 5 && "Ssid"@.len() == 4);
                assert(s.take(5) =~= "Ssid:"@);
                assert(s.skip(5) =~= n);
            }
        },
        SourceView::Bssid(b) => {
            assert(s[0] == 'B');
            assert("ConnectedAp"@[0] == 'C');
            assert("Ssid"@[0] == 'S');
            assert(s.take(5)[0] == 'B' && "Ssid:"@[0] == 'S');
            assert(s.take(6) =~= "Bssid:"@);
            assert(s.skip(6) =~= b);
        },
    }
}

// ── Resolving a source ─────────────────────────────────────────────────────

/// The strongest signal among the entries that `wanted` picks.
pub open spec fn strongest(
    entries: Seq<ScanEntry>,
    wanted: spec_fn(ScanEntry) -> bool,
) -> Option<i32>
    decreases entries.len(),
{
    if entries.len() == 0 {
        None
    } else {
        let rest = strongest(entries.drop_last(), wanted);
        let e = entries.last();
        if !wanted(e) {
            rest
        } else {
            match rest {
                Some(best) => if e.signal_dbm >= best {
                    Some(e.signal_dbm)
                } else {
                    rest
                },
                None => Some(e.signal_dbm),
            }
        }
    }
}

/// The strongest signal is that of a wanted entry, and no wanted entry is
/// stronger; there is none exactly when nothing is wanted.
pub proof fn law_strongest(entries: Seq<ScanEntry>, wanted: spec_fn(ScanEntry) -> bool)
    ensures
        match strongest(entries, wanted) {
            Some(best) => {
                &&& exists|i: int|
                    0 <= i < entries.len() && wanted(#[trigger] entries[i])
                        && entries[i].signal_dbm == best
                &&& forall|i: int|
                    0 <= i < entries.len() && wanted(#[trigger] entries[i])
                        ==> entries[i].signal_dbm <= best
            },
            None => forall|i: int| 0 <= i < entries.len() ==> !wanted(#[trigger] entries[i]),
        },
    decreases entries.len(),
{
    if entries.len() > 0 {
        let rest = entries.drop_last();
        law_strongest(rest, wanted);
        assert forall|i: int| 0 <= i < rest.len() implies rest[i] == #[trigger] entries[i] by {}
        match strongest(rest, wanted) {
            Some(best) => {
                let i = choose|i: int|
                    0 <= i < rest.len() && wanted(#[trigger] rest[i]) && rest[i].signal_dbm == best;
                assert(entries[i] == rest[i]);
                assert(wanted(entries[i]));
            },
            None => {},
        }
        let last = entries.len() - 1;
        if wanted(entries[last]) {
            assert(wanted(entries.last()));
        }
    }
}

/// Picks the entries of an SSID.
pub open spec fn is_of_ssid(ssid: Seq<char>) -> spec_fn(ScanEntry) -> bool {
    |e: ScanEntry| e.ssid@ == ssid
}

/// The strongest entry of an SSID.
pub open spec fn best_of_ssid(entries: Seq<ScanEntry>, ssid: Seq<char>) -> Option<i32> {
    strongest(entries, is_of_ssid(ssid))
}

/// The strongest signal of an SSID is that of one of its entries, and none of
/// its entries is stronger; there is none exactly when no entry is of the SSID.
pub proof fn law_best_of_ssid(entries: Seq<ScanEntry>, ssid: Seq<char>)
    ensures
        match best_of_ssid(entries, ssid) {
            Some(best) => {
                &&& exists|i: int|
                    0 <= i < entries.len() && (#[trigger] entries[i]).ssid@ == ssid
                        && entries[i].signal_dbm == best
                &&& forall|i: int|
                    0 <= i < entries.len() && (#[trigger] entries[i]).ssid@ == ssid
                        ==> entries[i].signal_dbm <= best
            },
            None => forall|i: int| 0 <= i < entries.len() ==> (#[trigger] entries[i]).ssid@ != ssid,
        },
{
    let wanted = is_of_ssid(ssid);
    law_strongest(entries, wanted);
    if let Some(best) = best_of_ssid(entries, ssid) {
        let i = choose|i: int|
            0 <= i < entries.len() && wanted(#[trigger] entries[i]) && entries[i].signal_dbm
                == best;
        assert(entries[i].ssid@ == ssid && entries[i].signal_dbm == best);
        assert forall|i: int|
            0 <= i < entries.len() && (#[trigger] entries[i]).ssid@
                == ssid implies entries[i].signal_dbm <= best by {
            assert(wanted(entries[i]));
        }
    } else {
        assert forall|i: int| 0 <= i < entries.len() implies (#[trigger] entries[i]).ssid@
            != ssid by {
            assert(!wanted(entries[i]));
        }
    }
}

/// The first entry of a BSSID.
pub open spec fn first_of_bssid(entries: Seq<ScanEntry>, bssid: Seq<char>) -> Option<ScanEntry>
    decreases entries.len(),
{
    if entries.len() == 0 {
        None
    } else if entries.first().bssid@ == bssid {
        Some(entries.first())
    } else {
        first_of_bssid(entries.drop_first(), bssid)
    }
}

/// The signal of a point for a source: nothing for a no-signal point, and
/// nothing where the source has no data.
pub open spec fn signal_of(m: Measurement, source: SourceView) -> Option<i32> {
    if m.no_signal {
        None
    } else {
        match source {
            SourceView::ConnectedAp => Some(m.signal_dbm),
            SourceView::Ssid(s) => if s.len() == 0 {
                // The connected SSID; its own AP stands in where the scan list
                // does not show it.
                match best_of_ssid(m.scan_results@, m.ssid@) {
                    Some(best) => Some(best),
                    None => Some(m.signal_dbm),
                }
            } else {
                best_of_ssid(m.scan_results@, s)
            },
            SourceView::Bssid(b) => match first_of_bssid(m.scan_results@, b) {
                Some(e) => Some(e.signal_dbm),
                None => if m.bssid@ == b {
                    Some(m.signal_dbm)
                } else {
                    None
                },
            },
        }
    }
}

/// The strongest entry of an SSID.
pub fn find_best_of_ssid(entries: &Vec<ScanEntry>, ssid: &str) -> (r: Option<i32>)
    ensures
        r == best_of_ssid(entries@, ssid@),
{
    let ghost wanted = is_of_ssid(ssid@);
    let mut best: Option<i32> = None;
    let n: usize = entries.len();
    for i in 0..n
        invariant
            n == entries@.len(),
            wanted == is_of_ssid(ssid@),
            best == strongest(entries@.take(i as int), wanted),
    {
        assert(entries@.take(i + 1).drop_last() =~= entries@.take(i as int));
        if text::str_eq(entries[i].ssid.as_str(), ssid) {
            let dbm: i32 = entries[i].signal_dbm;
            best = match best {
                Some(b) => if dbm >= b {
                    Some(dbm)
                } else {
                    best
                },
                None => Some(dbm),
            };
        }
    }
    assert(entries@.take(n as int) =~= entries@);
    best
}

/// The first entry of a BSSID.
pub fn find_first_of_bssid<'a>(entries: &'a Vec<ScanEntry>, bssid: &str) -> (r: Option<
    &'a ScanEntry,
>)
    ensures
        match r {
            Some(e) => first_of_bssid(entries@, bssid@) == Some(*e),
            None => first_of_bssid(entries@, bssid@) is None,
        },
{
    let n: usize = entries.len();
    assert(entries@.skip(0) =~= entries@);
    for i in 0..n
        invariant
            n == entries@.len(),
            first_of_bssid(entries@, bssid@) == first_of_bssid(entries@.skip(i as int), bssid@),
    {
        assert(entries@.skip(i as int).drop_first() =~= entries@.skip(i + 1));
        if text::str_eq(entries[i].bssid.as_str(), bssid) {
            return Some(&entries[i]);
        }
    }
    None
}

/// The display signal value (dBm) of a measurement for a given source, if that
/// source has data at this point.
///
/// `None` means "no data" (e.g. the selected BSSID was not in range when this
/// point was measured): the cell is left uncolored.
pub fn signal_for(m: &Measurement, source: &SignalSource) -> (r: Option<i32>)
    ensures
        r == signal_of(*m, source@),
{
    if m.no_signal {
        return None;
    }
    match source {
        SignalSource::ConnectedAp => Some(m.signal_dbm),
        SignalSource::Ssid(ssid) => if ssid.as_str().is_empty() {
            match find_best_of_ssid(&m.scan_results, m.ssid.as_str()) {
                Some(best) => Some(best),
                None => Some(m.signal_dbm),
            }
        } else {
            find_best_of_ssid(&m.scan_results, ssid.as_str())
        },
        SignalSource::Bssid(b) => match find_first_of_bssid(&m.scan_results, b.as_str()) {
            Some(e) => Some(e.signal_dbm),
            None => if text::str_eq(m.bssid.as_str(), b.as_str()) {
                Some(m.signal_dbm)
            } else {
                None
            },
        },
    }
}

/// A no-signal point has no value, whichever source is chosen.
pub proof fn law_no_signal_has_no_value(m: Measurement, source: SourceView)
    requires
        m.no_signal,
    ensures
        signal_of(m, source) is None,
{
}

/// A regular point always has a value for its own connection, named as "the
/// connected AP" or as "the connected SSID".
pub proof fn law_connected_has_value(m: Measurement)
    requires
        !m.no_signal,
    ensures
        signal_of(m, SourceView::ConnectedAp) == Some(m.signal_dbm),
        signal_of(m, SourceView::Ssid(Seq::empty())) is Some,
        signal_of(m, SourceView::Bssid(m.bssid@)) is Some,
{
}

/// A named SSID has the signal of one of its scan entries, than which none of
/// its entries is stronger, whether or not the point is connected to it; it has
/// none exactly when no scan entry is of the SSID.
pub proof fn law_named_ssid(m: Measurement, ssid: Seq<char>)
    requires
        !m.no_signal,
        ssid.len() > 0,
    ensures
        match signal_of(m, SourceView::Ssid(ssid)) {
            Some(dbm) => {
                &&& exists|i: int|
                    0 <= i < m.scan_results@.len() && (#[trigger] m.scan_results@[i]).ssid@ == ssid
                        && m.scan_results@[i].signal_dbm == dbm
                &&& forall|i: int|
                    0 <= i < m.scan_results@.len() && (#[trigger] m.scan_results@[i]).ssid@ == ssid
                        ==> m.scan_results@[i].signal_dbm <= dbm
            },
            None => forall|i: int|
                0 <= i < m.scan_results@.len() ==> (#[trigger] m.scan_results@[i]).ssid@ != ssid,
        },
{
    law_best_of_ssid(m.scan_results@, ssid);
}

/// Without a name the SSID is the connected one: the signal is that of its
/// strongest scan entry, or that of the connection where the scan does not
/// show the SSID.
pub proof fn law_connected_ssid(m: Measurement)
    requires
        !m.no_signal,
    ensures
        ({
            let r = signal_of(m, SourceView::Ssid(Seq::empty()));
            let shown = exists|i: int|
                0 <= i < m.scan_results@.len() && (#[trigger] m.scan_results@[i]).ssid@ == m.ssid@;
            &&& !shown ==> r == Some(m.signal_dbm)
            &&& shown ==> {
                &&& r is Some
                &&& exists|i: int|
                    0 <= i < m.scan_results@.len() && (#[trigger] m.scan_results@[i]).ssid@
                        == m.ssid@ && m.scan_results@[i].signal_dbm == r->0
                &&& forall|i: int|
                    0 <= i < m.scan_results@.len() && (#[trigger] m.scan_results@[i]).ssid@
                        == m.ssid@ ==> m.scan_results@[i].signal_dbm <= r->0
            }
        }),
{
    law_best_of_ssid(m.scan_results@, m.ssid@);
    let shown = exists|i: int|
        0 <= i < m.scan_results@.len() && (#[trigger] m.scan_results@[i]).ssid@ == m.ssid@;
    if shown {
        let i = choose|i: int|
            0 <= i < m.scan_results@.len() && (#[trigger] m.scan_results@[i]).ssid@ == m.ssid@;
        assert(m.scan_results@[i].ssid@ == m.ssid@);
    }
}

/// The first entry of a BSSID: it is of the BSSID, and none before it is.
pub proof fn law_first_of_bssid(entries: Seq<ScanEntry>, bssid: Seq<char>, i: int)
    requires
        0 <= i < entries.len(),
        entries[i].bssid@ == bssid,
        forall|j: int| 0 <= j < i ==> (#[trigger] entries[j]).bssid@ != bssid,
    ensures
        first_of_bssid(entries, bssid) == Some(entries[i]),
    decreases i,
{
    assert(entries.first() == entries[0]);
    if i > 0 {
        let rest = entries.drop_first();
        assert(rest[i - 1] == entries[i]);
        assert forall|j: int| 0 <= j < i - 1 implies (#[trigger] rest[j]).bssid@ != bssid by {
            assert(rest[j] == entries[j + 1]);
        }
        law_first_of_bssid(rest, bssid, i - 1);
    }
}

/// There is no first entry of a BSSID that no entry is of.
pub proof fn law_none_of_bssid(entries: Seq<ScanEntry>, bssid: Seq<char>)
    requires
        forall|j: int| 0 <= j < entries.len() ==> (#[trigger] entries[j]).bssid@ != bssid,
    ensures
        first_of_bssid(entries, bssid) is None,
    decreases entries.len(),
{
    if entries.len() > 0 {
        let rest = entries.drop_first();
        assert(entries.first() == entries[0]);
        assert forall|j: int| 0 <= j < rest.len() implies (#[trigger] rest[j]).bssid@ != bssid by {
            assert(rest[j] == entries[j + 1]);
        }
        law_none_of_bssid(rest, bssid);
    }
}

/// A BSSID in the scan has the signal of its first entry there, also where it
/// is the connected one.
pub proof fn law_bssid_in_scan(m: Measurement, bssid: Seq<char>, i: int)
    requires
        !m.no_signal,
        0 <= i < m.scan_results@.len(),
        m.scan_results@[i].bssid@ == bssid,
        forall|j: int| 0 <= j < i ==> (#[trigger] m.scan_results@[j]).bssid@ != bssid,
    ensures
        signal_of(m, SourceView::Bssid(bssid)) == Some(m.scan_results@[i].signal_dbm),
{
    law_first_of_bssid(m.scan_results@, bssid, i);
}

/// A BSSID that is not in the scan has a signal only where the point is
/// connected to it: that of the connection.
pub proof fn law_bssid_not_in_scan(m: Measurement, bssid: Seq<char>)
    requires
        !m.no_signal,
        forall|j: int|
            0 <= j < m.scan_results@.len() ==> (#[trigger] m.scan_results@[j]).bssid@ != bssid,
    ensures
        m.bssid@ == bssid ==> signal_of(m, SourceView::Bssid(bssid)) == Some(m.signal_dbm),
        m.bssid@ != bssid ==> signal_of(m, SourceView::Bssid(bssid)) is None,
{
    law_none_of_bssid(m.scan_results@, bssid);
}

/// A text that is read as a source is the one that the source is stored as; only
/// the empty name may also stand behind the prefix of a name.
pub proof fn law_read_source_is_stored(s: Seq<char>)
    ensures
        match decoded(s) {
            Some(v) => encoded(v) == s || (v == SourceView::Ssid(Seq::empty()) && s == "Ssid:"@),
            None => forall|v: SourceView| #[trigger] encoded(v) != s,
        },
{
    reveal_strlit("ConnectedAp");
    reveal_strlit("Ssid");
    reveal_strlit("Ssid:");
    reveal_strlit("Bssid:");
    if s == "ConnectedAp"@ || s == "Ssid"@ {
    } else if text::starts_with(s, "Ssid:"@) {
        assert(s.take(5) =~= "Ssid:"@);
        assert(s =~= "Ssid:"@ + s.skip(5));
        if s.skip(5).len() == 0 {
            assert(s.skip(5) =~= Seq::empty());
            assert(s =~= "Ssid:"@);
        }
    } else if text::starts_with(s, "Bssid:"@) {
        assert(s.take(6) =~= "Bssid:"@);
        assert(s =~= "Bssid:"@ + s.skip(6));
    } else {
        assert forall|v: SourceView| #[trigger] encoded(v) != s by {
            law_source_round_trip(v);
        }
    }
}

} // verus!
