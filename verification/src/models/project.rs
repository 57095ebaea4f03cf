//! A survey project: its floors and the names given to access points.

use crate::models::Floor;
use crate::models::Measurement;
use crate::models::ScanEntry;
use crate::names;
use crate::text;
use crate::text_map::TextMap;
use vstd::prelude::*;

verus! {

#[derive(Debug, Clone)]
pub struct Project {
    pub name: String,
    pub floors: Vec<Floor>,
    /// Human-readable alias names for BSSIDs seen in this project's
    /// measurements (e.g. "AA:BB:..." to "Office-AP-1"). Stored per project so
    /// aliases travel with the project file.
    pub bssid_aliases: TextMap<String>,
}

// ── What a project has seen ────────────────────────────────────────────────

/// All measurements of a list of floors, in order.
pub open spec fn all_points(floors: Seq<Floor>) -> Seq<Measurement>
    decreases floors.len(),
{
    if floors.len() == 0 {
        Seq::empty()
    } else {
        all_points(floors.drop_last()) + floors.last().measurements@
    }
}

/// The BSSIDs a point has seen: its connected AP, then its scan list. A
/// no-signal point counts for nothing.
pub open spec fn point_bssids(m: Measurement) -> Seq<Seq<char>> {
    if m.no_signal {
        Seq::empty()
    } else {
        seq![m.bssid@] + m.scan_results@.map_values(|e: ScanEntry| e.bssid@)
    }
}

/// The BSSIDs that points have seen, in order.
pub open spec fn seen_bssids(points: Seq<Measurement>) -> Seq<Seq<char>>
    decreases points.len(),
{
    if points.len() == 0 {
        Seq::empty()
    } else {
        seen_bssids(points.drop_last()) + point_bssids(points.last())
    }
}

/// The BSSIDs in the scan lists of points, in order. A no-signal point counts
/// for nothing.
pub open spec fn heard_bssids(points: Seq<Measurement>) -> Seq<Seq<char>>
    decreases points.len(),
{
    if points.len() == 0 {
        Seq::empty()
    } else {
        let rest = heard_bssids(points.drop_last());
        let m = points.last();
        if m.no_signal {
            rest
        } else {
            rest + m.scan_results@.map_values(|e: ScanEntry| e.bssid@)
        }
    }
}

/// The BSSIDs of the access points that points were connected to, in order.
pub open spec fn connected_bssids(points: Seq<Measurement>) -> Seq<Seq<char>>
    decreases points.len(),
{
    if points.len() == 0 {
        Seq::empty()
    } else {
        let rest = connected_bssids(points.drop_last());
        if points.last().no_signal {
            rest
        } else {
            rest.push(points.last().bssid@)
        }
    }
}

/// The SSID a point was connected to; empty for a no-signal point.
pub open spec fn point_ssid(m: Measurement) -> Seq<char> {
    if m.no_signal {
        Seq::empty()
    } else {
        m.ssid@
    }
}

pub open spec fn point_ssids(points: Seq<Measurement>) -> Seq<Seq<char>> {
    points.map_values(|m: Measurement| point_ssid(m))
}

/// All scan entries of points, in order.
pub open spec fn all_entries(points: Seq<Measurement>) -> Seq<ScanEntry>
    decreases points.len(),
{
    if points.len() == 0 {
        Seq::empty()
    } else {
        all_entries(points.drop_last()) + points.last().scan_results@
    }
}

/// The BSSIDs of the entries that broadcast an SSID, in order.
pub open spec fn bssids_with(entries: Seq<ScanEntry>, ssid: Seq<char>) -> Seq<Seq<char>>
    decreases entries.len(),
{
    if entries.len() == 0 {
        Seq::empty()
    } else if entries.last().ssid@ == ssid {
        bssids_with(entries.drop_last(), ssid).push(entries.last().bssid@)
    } else {
        bssids_with(entries.drop_last(), ssid)
    }
}

/// The known BSSIDs of the access points that points were connected to under
/// an SSID, in order.
pub open spec fn connected_with(points: Seq<Measurement>, ssid: Seq<char>) -> Seq<Seq<char>>
    decreases points.len(),
{
    if points.len() == 0 {
        Seq::empty()
    } else {
        let rest = connected_with(points.drop_last(), ssid);
        let m = points.last();
        if !m.no_signal && m.ssid@ == ssid && m.bssid@.len() > 0 {
            rest.push(m.bssid@)
        } else {
            rest
        }
    }
}

/// The BSSIDs of an SSID: those seen in scan lists, then those connected to.
pub open spec fn aps_of(points: Seq<Measurement>, ssid: Seq<char>) -> Seq<Seq<char>> {
    names::distinct(bssids_with(all_entries(points), ssid) + connected_with(points, ssid))
}

/// All BSSIDs of a list of sections.
pub open spec fn claimed(sections: Seq<(Seq<char>, Seq<Seq<char>>)>) -> Seq<Seq<char>>
    decreases sections.len(),
{
    if sections.len() == 0 {
        Seq::empty()
    } else {
        claimed(sections.drop_last()) + sections.last().1
    }
}

/// One section per SSID with its BSSIDs; a BSSID that broadcasts several of
/// the SSIDs stands under the first one only.
pub open spec fn sections_of(points: Seq<Measurement>, ssids: Seq<Seq<char>>) -> Seq<
    (Seq<char>, Seq<Seq<char>>),
>
    decreases ssids.len(),
{
    if ssids.len() == 0 {
        Seq::empty()
    } else {
        let before = sections_of(points, ssids.drop_last());
        before.push((ssids.last(), names::without(aps_of(points, ssids.last()), claimed(before))))
    }
}

/// The sections of all SSIDs that have measurements.
pub open spec fn measured_sections(points: Seq<Measurement>) -> Seq<(Seq<char>, Seq<Seq<char>>)> {
    sections_of(points, names::distinct_present(point_ssids(points)))
}

/// The BSSIDs that stand in scan lists only: in no section of a measured SSID,
/// and of no access point that a measurement was connected to.
pub open spec fn only_heard(points: Seq<Measurement>) -> Seq<Seq<char>> {
    names::without(
        names::distinct_present(heard_bssids(points)),
        claimed(measured_sections(points)) + connected_bssids(points),
    )
}

/// What a point says about the SSID of a BSSID: its own SSID if it was
/// connected to that AP, else that of the first matching scan entry. Empty
/// names say nothing.
pub open spec fn ssid_hint(m: Measurement, bssid: Seq<char>) -> Option<Seq<char>> {
    if m.no_signal {
        None
    } else if m.bssid@ == bssid && m.ssid@.len() > 0 {
        Some(m.ssid@)
    } else {
        match crate::models::signal_source::first_of_bssid(m.scan_results@, bssid) {
            Some(e) => if e.ssid@.len() > 0 {
                Some(e.ssid@)
            } else {
                None
            },
            None => None,
        }
    }
}

/// The hint of the last point that has one.
pub open spec fn last_hint(points: Seq<Measurement>, bssid: Seq<char>) -> Option<Seq<char>>
    decreases points.len(),
{
    if points.len() == 0 {
        None
    } else {
        match ssid_hint(points.last(), bssid) {
            Some(s) => Some(s),
            None => last_hint(points.drop_last(), bssid),
        }
    }
}

/// Sections as characters.
pub open spec fn section_views(v: Seq<(String, Vec<String>)>) -> Seq<
    (Seq<char>, Seq<Seq<char>>),
> {
    v.map_values(|s: (String, Vec<String>)| (s.0@, names::views(s.1@)))
}

impl Project {
    /// All measurements of the project, floor by floor.
    pub open spec fn points(&self) -> Seq<Measurement> {
        all_points(self.floors@)
    }

    /// The name shown for an access point.
    pub open spec fn label_of(&self, bssid: Seq<char>) -> Seq<char> {
        if self.bssid_aliases@.contains_key(bssid) {
            self.bssid_aliases@[bssid]@
        } else {
            bssid
        }
    }

    /// An empty project.
    pub fn new(name: &str) -> (r: Project)
        ensures
            r.name@ == name@,
            r.floors@.len() == 0,
            r.bssid_aliases@ == Map::<Seq<char>, String>::empty(),
    {
        Project { name: name.to_owned(), floors: Vec::new(), bssid_aliases: TextMap::new() }
    }

    pub fn add_floor(&mut self, floor: Floor)
        ensures
            final(self).floors@ == old(self).floors@.push(floor),
            *final(self) == (Project { floors: final(self).floors, ..*old(self) }),
    {
        self.floors.push(floor);
    }

    /// Remove the floor at `index`; an index without a floor changes nothing.
    pub fn remove_floor(&mut self, index: usize)
        ensures
            index < old(self).floors@.len() ==> final(self).floors@ == old(self).floors@.remove(
                index as int,
            ),
            index >= old(self).floors@.len() ==> final(self).floors@ == old(self).floors@,
            *final(self) == (Project { floors: final(self).floors, ..*old(self) }),
    {
        if index < self.floors.len() {
            let _ = self.floors.remove(index);
        }
    }

    /// The alias for a BSSID, if one has been set.
    pub fn alias_for(&self, bssid: &str) -> (r: Option<&str>)
        ensures
            match r {
                Some(a) => self.bssid_aliases@.contains_key(bssid@) && a@
                    == self.bssid_aliases@[bssid@]@,
                None => !self.bssid_aliases@.contains_key(bssid@),
            },
    {
        match self.bssid_aliases.get(bssid) {
            Some(s) => Some(s.as_str()),
            None => None,
        }
    }

    /// Display name for an AP: the alias when set, otherwise the BSSID.
    pub fn ap_label(&self, bssid: &str) -> (r: String)
        ensures
            r@ == self.label_of(bssid@),
    {
        match self.alias_for(bssid) {
            Some(a) => a.to_owned(),
            None => bssid.to_owned(),
        }
    }

    /// Set (or clear, when `alias` is blank or `None`) the alias for a BSSID.
    /// White space around an alias is dropped.
    pub fn set_alias(&mut self, bssid: &str, alias: Option<String>)
        ensures
            match alias {
                Some(a) => if text::trimmed(a@).len() > 0 {
                    exists|s: String|
                        s@ == text::trimmed(a@) && final(self).bssid_aliases@ == #[trigger] old(
                            self,
                        ).bssid_aliases@.insert(bssid@, s)
                } else {
                    final(self).bssid_aliases@ == old(self).bssid_aliases@.remove(bssid@)
                },
                None => final(self).bssid_aliases@ == old(self).bssid_aliases@.remove(bssid@),
            },
            final(self).name == old(self).name,
            final(self).floors == old(self).floors,
            // The label follows the alias, and no other label changes.
            final(self).label_of(bssid@) == (match alias {
                Some(a) => if text::trimmed(a@).len() > 0 {
                    text::trimmed(a@)
                } else {
                    bssid@
                },
                None => bssid@,
            }),
            forall|b: Seq<char>|
                b != bssid@ ==> #[trigger] final(self).label_of(b) == old(self).label_of(b),
    {
        if let Some(a) = alias {
            let t = text::trim(a.as_str());
            if !t.is_empty() {
                let s = t.to_owned();
                self.bssid_aliases.insert(bssid.to_owned(), s);
                return;
            }
        }
        self.bssid_aliases.remove(bssid);
    }

    /// All measurements, floor by floor.
    fn point_refs(&self) -> (r: Vec<&Measurement>)
        ensures
            r@.map_values(|m: &Measurement| *m) == self.points(),
    {
        let mut r: Vec<&Measurement> = Vec::new();
        let n: usize = self.floors.len();
        let ghost deref = |m: &Measurement| *m;
        assert(r@.map_values(deref) =~= all_points(self.floors@.take(0)));
        for i in 0..n
            invariant
                n == self.floors@.len(),
                deref == (|m: &Measurement| *m),
                r@.map_values(deref) == all_points(self.floors@.take(i as int)),
        {
            let ghost before = r@;
            let k: usize = self.floors[i].measurements.len();
            for j in 0..k
                invariant
                    i < n,
                    n == self.floors@.len(),
                    k == self.floors@[i as int].measurements@.len(),
                    deref == (|m: &Measurement| *m),
                    r@.map_values(deref) == before.map_values(deref)
                        + self.floors@[i as int].measurements@.take(j as int),
            {
                let ghost r0 = r@;
                r.push(&self.floors[i].measurements[j]);
                assert(r@.map_values(deref) =~= r0.map_values(deref).push(
                    self.floors@[i as int].measurements@[j as int],
                ));
                assert(r@.map_values(deref) =~= before.map_values(deref)
                    + self.floors@[i as int].measurements@.take(j + 1));
            }
            proof {
                assert(self.floors@.take(i + 1).drop_last() =~= self.floors@.take(i as int));
                let ms = self.floors@[i as int].measurements@;
                assert(ms.take(k as int) =~= ms);
            }
        }
        assert(self.floors@.take(n as int) =~= self.floors@);
        r
    }

    /// All distinct BSSIDs seen anywhere in this project (active APs and scan
    /// lists), in first-seen order.
    pub fn known_bssids(&self) -> (r: Vec<String>)
        ensures
            names::views(r@) == names::distinct_present(seen_bssids(self.points())),
    {
        let points = self.point_refs();
        let ghost all = self.points();
        let ghost deref = |m: &Measurement| *m;
        let mut v: Vec<String> = Vec::new();
        let n: usize = points.len();
        assert(names::views(v@) =~= names::distinct_present(seen_bssids(all.take(0))));
        for i in 0..n
            invariant
                n == points@.len(),
                deref == (|m: &Measurement| *m),
                all == points@.map_values(deref),
                names::views(v@) == names::distinct_present(seen_bssids(all.take(i as int))),
        {
            let ghost before = seen_bssids(all.take(i as int));
            let m = points[i];
            proof {
                assert(all.take(i + 1).drop_last() =~= all.take(i as int));
                assert(all.take(i + 1).last() == *m);
            }
            if m.no_signal {
                assert(seen_bssids(all.take(i + 1)) =~= before);
            } else {
                let ghost first = before.push(m.bssid@);
                proof {
                    names::lemma_distinct_push(before, m.bssid@);
                }
                if !m.bssid.as_str().is_empty() {
                    names::push_distinct(&mut v, m.bssid.as_str());
                }
                let k: usize = m.scan_results.len();
                let ghost scan = m.scan_results@.map_values(|e: ScanEntry| e.bssid@);
                assert(first + scan.take(0) =~= first);
                for j in 0..k
                    invariant
                        k == m.scan_results@.len(),
                        scan == m.scan_results@.map_values(|e: ScanEntry| e.bssid@),
                        names::views(v@) == names::distinct_present(first + scan.take(j as int)),
                {
                    proof {
                        let b = m.scan_results@[j as int].bssid@;
                        names::lemma_distinct_push(first + scan.take(j as int), b);
                        assert((first + scan.take(j as int)).push(b) =~= first + scan.take(j + 1));
                    }
                    if !m.scan_results[j].bssid.as_str().is_empty() {
                        names::push_distinct(&mut v, m.scan_results[j].bssid.as_str());
                    }
                }
                assert(first + scan.take(k as int) =~= seen_bssids(all.take(i + 1)));
            }
        }
        assert(all.take(n as int) =~= all);
        v
    }

    /// The SSIDs that have saved measurements (each measurement's connected
    /// SSID), in first-seen order. This is the set of networks the
    /// signal-source dropdown offers.
    pub fn measured_ssids(&self) -> (r: Vec<String>)
        ensures
            names::views(r@) == names::distinct_present(point_ssids(self.points())),
    {
        let points = self.point_refs();
        let ghost all = self.points();
        let ghost ssids = point_ssids(all);
        let mut v: Vec<String> = Vec::new();
        let n: usize = points.len();
        assert(names::views(v@) =~= names::distinct_present(ssids.take(0)));
        for i in 0..n
            invariant
                n == points@.len(),
                all == points@.map_values(|m: &Measurement| *m),
                ssids == point_ssids(all),
                names::views(v@) == names::distinct_present(ssids.take(i as int)),
        {
            let m = points[i];
            proof {
                assert(all[i as int] == *m);
                names::lemma_distinct_push(ssids.take(i as int), point_ssid(*m));
                assert(ssids.take(i as int).push(point_ssid(*m)) =~= ssids.take(i + 1));
            }
            if !m.no_signal && !m.ssid.as_str().is_empty() {
                names::push_distinct(&mut v, m.ssid.as_str());
            }
        }
        assert(ssids.take(n as int) =~= ssids);
        v
    }

    /// The BSSIDs seen in scan lists broadcasting `ssid`, in first-seen order
    /// (scan lists are strongest-first, so this is roughly strongest-first).
    pub fn bssids_of_ssid(&self, ssid: &str) -> (r: Vec<String>)
        ensures
            names::views(r@) == names::distinct(bssids_with(all_entries(self.points()), ssid@)),
    {
        let points = self.point_refs();
        let ghost all = self.points();
        let mut v: Vec<String> = Vec::new();
        let n: usize = points.len();
        assert(names::views(v@) =~= names::distinct(
            bssids_with(all_entries(all.take(0)), ssid@),
        ));
        for i in 0..n
            invariant
                n == points@.len(),
                all == points@.map_values(|m: &Measurement| *m),
                names::views(v@) == names::distinct(
                    bssids_with(all_entries(all.take(i as int)), ssid@),
                ),
        {
            let m = points[i];
            let ghost before = all_entries(all.take(i as int));
            let k: usize = m.scan_results.len();
            assert(before + m.scan_results@.take(0) =~= before);
            for j in 0..k
                invariant
                    k == m.scan_results@.len(),
                    names::views(v@) == names::distinct(
                        bssids_with(before + m.scan_results@.take(j as int), ssid@),
                    ),
            {
                proof {
                    let here = before + m.scan_results@.take(j + 1);
                    assert(here.drop_last() =~= before + m.scan_results@.take(j as int));
                    names::lemma_distinct_push(
                        bssids_with(here.drop_last(), ssid@),
                        m.scan_results@[j as int].bssid@,
                    );
                }
                if text::str_eq(m.scan_results[j].ssid.as_str(), ssid) {
                    names::push_distinct(&mut v, m.scan_results[j].bssid.as_str());
                }
            }
            proof {
                assert(m.scan_results@.take(k as int) =~= m.scan_results@);
                assert(all.take(i + 1).drop_last() =~= all.take(i as int));
                assert(all.take(i + 1).last() == *m);
            }
        }
        assert(all.take(n as int) =~= all);
        v
    }

    /// The BSSIDs of an SSID: those seen in scan lists, then those that points
    /// were connected to.
    fn aps_of_ssid(&self, ssid: &str) -> (r: Vec<String>)
        ensures
            names::views(r@) == aps_of(self.points(), ssid@),
    {
        let mut v = self.bssids_of_ssid(ssid);
        let points = self.point_refs();
        let ghost all = self.points();
        let ghost heard = bssids_with(all_entries(all), ssid@);
        let n: usize = points.len();
        assert(heard + connected_with(all.take(0), ssid@) =~= heard);
        for i in 0..n
            invariant
                n == points@.len(),
                all == points@.map_values(|m: &Measurement| *m),
                names::views(v@) == names::distinct(
                    heard + connected_with(all.take(i as int), ssid@),
                ),
        {
            let m = points[i];
            proof {
                assert(all.take(i + 1).drop_last() =~= all.take(i as int));
                assert(all.take(i + 1).last() == *m);
                let before = connected_with(all.take(i as int), ssid@);
                names::lemma_distinct_push(heard + before, m.bssid@);
                assert((heard + before).push(m.bssid@) =~= heard + before.push(m.bssid@));
            }
            if !m.no_signal && !m.bssid.as_str().is_empty() && text::str_eq(
                m.ssid.as_str(),
                ssid,
            ) {
                names::push_distinct(&mut v, m.bssid.as_str());
            }
        }
        assert(all.take(n as int) =~= all);
        v
    }

    /// (SSID, BSSIDs) for each SSID that has saved measurements, in first-seen
    /// order. Besides the SSID's scan-list BSSIDs this includes the connected
    /// AP of its measurements (for old measurements without a scan list). Used
    /// by the Known APs dialog's first section.
    pub fn measured_ap_sections(&self) -> (r: Vec<(String, Vec<String>)>)
        ensures
            section_views(r@) == measured_sections(self.points()),
    {
        let ssids = self.measured_ssids();
        let ghost all = names::views(ssids@);
        let mut sections: Vec<(String, Vec<String>)> = Vec::new();
        let mut taken: Vec<String> = Vec::new();
        let n: usize = ssids.len();
        assert(section_views(sections@) =~= sections_of(self.points(), all.take(0)));
        assert(names::views(taken@) =~= claimed(sections_of(self.points(), all.take(0))));
        for i in 0..n
            invariant
                n == ssids@.len(),
                all == names::views(ssids@),
                section_views(sections@) == sections_of(self.points(), all.take(i as int)),
                names::views(taken@) == claimed(sections_of(self.points(), all.take(i as int))),
        {
            let ghost before = sections@;
            let found = self.aps_of_ssid(ssids[i].as_str());
            let own = names::drop_names(&found, &taken);
            let ghost own_views = names::views(own@);
            let k: usize = own.len();
            let ghost taken_before = names::views(taken@);
            assert(taken_before + own_views.take(0) =~= taken_before);
            for j in 0..k
                invariant
                    k == own@.len(),
                    own_views == names::views(own@),
                    names::views(taken@) == taken_before + own_views.take(j as int),
            {
                let ghost taken0 = taken@;
                taken.push(own[j].clone());
                assert(names::views(taken@) =~= names::views(taken0).push(own@[j as int]@));
                assert(names::views(taken@) =~= taken_before + own_views.take(j + 1));
            }
            sections.push((ssids[i].clone(), own));
            proof {
                assert(all.take(i + 1).drop_last() =~= all.take(i as int));
                let spec_before = sections_of(self.points(), all.take(i as int));
                let spec_after = sections_of(self.points(), all.take(i + 1));
                assert(section_views(sections@) =~= spec_after);
                assert(spec_after.drop_last() =~= spec_before);
                assert(own_views.take(k as int) =~= own_views);
            }
        }
        assert(all.take(n as int) =~= all);
        sections
    }

    /// The BSSIDs of the scan lists, each once.
    fn heard(&self) -> (r: Vec<String>)
        ensures
            names::views(r@) == names::distinct_present(heard_bssids(self.points())),
    {
        let points = self.point_refs();
        let ghost all = self.points();
        let mut v: Vec<String> = Vec::new();
        let n: usize = points.len();
        assert(names::views(v@) =~= names::distinct_present(heard_bssids(all.take(0))));
        for i in 0..n
            invariant
                n == points@.len(),
                all == points@.map_values(|m: &Measurement| *m),
                names::views(v@) == names::distinct_present(heard_bssids(all.take(i as int))),
        {
            let ghost before = heard_bssids(all.take(i as int));
            let m = points[i];
            proof {
                assert(all.take(i + 1).drop_last() =~= all.take(i as int));
                assert(all.take(i + 1).last() == *m);
            }
            if !m.no_signal {
                let k: usize = m.scan_results.len();
                let ghost scan = m.scan_results@.map_values(|e: ScanEntry| e.bssid@);
                assert(before + scan.take(0) =~= before);
                for j in 0..k
                    invariant
                        k == m.scan_results@.len(),
                        scan == m.scan_results@.map_values(|e: ScanEntry| e.bssid@),
                        names::views(v@) == names::distinct_present(before + scan.take(j as int)),
                {
                    proof {
                        let b = m.scan_results@[j as int].bssid@;
                        names::lemma_distinct_push(before + scan.take(j as int), b);
                        assert((before + scan.take(j as int)).push(b) =~= before + scan.take(
                            j + 1,
                        ));
                    }
                    if !m.scan_results[j].bssid.as_str().is_empty() {
                        names::push_distinct(&mut v, m.scan_results[j].bssid.as_str());
                    }
                }
                assert(scan.take(k as int) =~= scan);
            }
        }
        assert(all.take(n as int) =~= all);
        v
    }

    /// Appends the BSSIDs of the access points that points were connected to.
    fn push_connected(&self, v: &mut Vec<String>)
        ensures
            names::views(final(v)@) == names::views(old(v)@) + connected_bssids(self.points()),
    {
        let points = self.point_refs();
        let ghost all = self.points();
        let ghost start = names::views(v@);
        let n: usize = points.len();
        assert(start + connected_bssids(all.take(0)) =~= start);
        for i in 0..n
            invariant
                n == points@.len(),
                all == points@.map_values(|m: &Measurement| *m),
                names::views(v@) == start + connected_bssids(all.take(i as int)),
        {
            let ghost before = v@;
            let m = points[i];
            proof {
                assert(all.take(i + 1).drop_last() =~= all.take(i as int));
                assert(all.take(i + 1).last() == *m);
            }
            if !m.no_signal {
                v.push(m.bssid.clone());
                assert(names::views(v@) =~= names::views(before).push(m.bssid@));
                assert(names::views(v@) =~= start + connected_bssids(all.take(i + 1)));
            }
        }
        assert(all.take(n as int) =~= all);
    }

    /// BSSIDs that appear only in scan lists of networks that have no
    /// measurements (the "other networks" section of the Known APs dialog).
    pub fn unmeasured_bssids(&self) -> (r: Vec<String>)
        ensures
            names::views(r@) == only_heard(self.points()),
    {
        let sections = self.measured_ap_sections();
        let ghost all = section_views(sections@);
        let mut taken: Vec<String> = Vec::new();
        let n: usize = sections.len();
        assert(names::views(taken@) =~= claimed(all.take(0)));
        for i in 0..n
            invariant
                n == sections@.len(),
                all == section_views(sections@),
                names::views(taken@) == claimed(all.take(i as int)),
        {
            let ghost before = names::views(taken@);
            let own = &sections[i].1;
            let ghost own_views = names::views(own@);
            let k: usize = own.len();
            assert(before + own_views.take(0) =~= before);
            for j in 0..k
                invariant
                    k == own@.len(),
                    own_views == names::views(own@),
                    names::views(taken@) == before + own_views.take(j as int),
            {
                let ghost taken0 = taken@;
                taken.push(own[j].clone());
                assert(names::views(taken@) =~= names::views(taken0).push(own@[j as int]@));
                assert(names::views(taken@) =~= before + own_views.take(j + 1));
            }
            proof {
                assert(all.take(i + 1).drop_last() =~= all.take(i as int));
                assert(own_views.take(k as int) =~= own_views);
                assert(all.take(i + 1).last().1 == own_views);
            }
        }
        assert(all.take(n as int) =~= all);
        self.push_connected(&mut taken);
        let heard = self.heard();
        names::drop_names(&heard, &taken)
    }

    /// The last SSID seen for a BSSID in this project (used as a hint in the
    /// Known APs dialog). `None` if the BSSID was never seen (e.g. hidden
    /// SSID).
    pub fn last_ssid_for(&self, bssid: &str) -> (r: Option<String>)
        ensures
            crate::models::text_view(r) == last_hint(self.points(), bssid@),
    {
        let points = self.point_refs();
        let ghost all = self.points();
        let mut i: usize = points.len();
        assert(all.take(i as int) =~= all);
        while i > 0
            invariant
                i <= points@.len(),
                all == self.points(),
                all == points@.map_values(|m: &Measurement| *m),
                last_hint(all, bssid@) == last_hint(all.take(i as int), bssid@),
            decreases i,
        {
            i = i - 1;
            let m = points[i];
            proof {
                assert(all.take(i + 1).drop_last() =~= all.take(i as int));
                assert(all.take(i + 1).last() == *m);
            }
            if m.no_signal {
                continue;
            }
            if text::str_eq(m.bssid.as_str(), bssid) && !m.ssid.as_str().is_empty() {
                return Some(m.ssid.clone());
            }
            if let Some(e) = crate::models::signal_source::find_first_of_bssid(
                &m.scan_results,
                bssid,
            ) {
                if !e.ssid.as_str().is_empty() {
                    return Some(e.ssid.clone());
                }
            }
        }
        None
    }
}

// ── Laws ───────────────────────────────────────────────────────────────────

/// The known BSSIDs are exactly the non-empty ones that were seen, each once.
pub proof fn law_known_bssids(points: Seq<Measurement>)
    ensures
        names::distinct_present(seen_bssids(points)).no_duplicates(),
        forall|b: Seq<char>| #[trigger]
            names::distinct_present(seen_bssids(points)).contains(b) <==> seen_bssids(
                points,
            ).contains(b) && b.len() > 0,
{
    names::lemma_distinct_present(seen_bssids(points));
}

/// There is one section for each SSID, in order.
pub proof fn law_one_section_per_ssid(points: Seq<Measurement>, ssids: Seq<Seq<char>>)
    ensures
        sections_of(points, ssids).len() == ssids.len(),
        forall|i: int|
            0 <= i < ssids.len() ==> (#[trigger] sections_of(points, ssids)[i]).0 == ssids[i],
    decreases ssids.len(),
{
    if ssids.len() > 0 {
        law_one_section_per_ssid(points, ssids.drop_last());
        let before = sections_of(points, ssids.drop_last());
        assert forall|i: int| 0 <= i < ssids.len() implies (#[trigger] sections_of(
            points,
            ssids,
        )[i]).0 == ssids[i] by {
            if i < before.len() {
                assert(sections_of(points, ssids)[i] == before[i]);
                assert(ssids.drop_last()[i] == ssids[i]);
            }
        }
    }
}

/// No BSSID stands in two sections, or twice in one.
pub proof fn law_no_bssid_twice(points: Seq<Measurement>, ssids: Seq<Seq<char>>)
    ensures
        claimed(sections_of(points, ssids)).no_duplicates(),
    decreases ssids.len(),
{
    if ssids.len() > 0 {
        let before = sections_of(points, ssids.drop_last());
        law_no_bssid_twice(points, ssids.drop_last());
        let aps = aps_of(points, ssids.last());
        names::lemma_distinct(
            bssids_with(all_entries(points), ssids.last()) + connected_with(points, ssids.last()),
        );
        names::lemma_without(aps, claimed(before));
        let own = names::without(aps, claimed(before));
        let all = sections_of(points, ssids);
        assert(all.drop_last() =~= before);
        let c = claimed(before);
        assert(claimed(all) == c + own);
        assert forall|i: int, j: int| 0 <= i < j < (c + own).len() implies (c + own)[i] != (c
            + own)[j] by {
            if i < c.len() && j >= c.len() {
                assert(own.contains(own[j - c.len()]));
                assert(c.contains(c[i]));
            }
        }
    }
}

/// Every AP that a measured SSID was heard or connected with stands in some
/// section.
pub proof fn law_sections_are_complete(
    points: Seq<Measurement>,
    ssids: Seq<Seq<char>>,
    i: int,
    bssid: Seq<char>,
)
    requires
        0 <= i < ssids.len(),
        aps_of(points, ssids[i]).contains(bssid),
    ensures
        claimed(sections_of(points, ssids)).contains(bssid),
    decreases ssids.len(),
{
    let rest = ssids.drop_last();
    let before = sections_of(points, rest);
    let own = names::without(aps_of(points, ssids.last()), claimed(before));
    let all = sections_of(points, ssids);
    assert(all.drop_last() =~= before);
    let c = claimed(before);
    assert(claimed(all) == c + own);
    if i < rest.len() {
        assert(rest[i] == ssids[i]);
        law_sections_are_complete(points, rest, i, bssid);
    } else {
        names::lemma_without(aps_of(points, ssids.last()), c);
        assert(own.contains(bssid) || c.contains(bssid));
    }
    if c.contains(bssid) {
        let k = choose|k: int| 0 <= k < c.len() && c[k] == bssid;
        assert((c + own)[k] == bssid);
    } else {
        let k = choose|k: int| 0 <= k < own.len() && own[k] == bssid;
        assert((c + own)[c.len() + k] == bssid);
    }
}

/// A known BSSID was heard in a scan list or connected to; one that was
/// connected to was so under some SSID.
proof fn lemma_seen(points: Seq<Measurement>, bssid: Seq<char>)
    ensures
        seen_bssids(points).contains(bssid) <==> heard_bssids(points).contains(bssid)
            || connected_bssids(points).contains(bssid),
        connected_bssids(points).contains(bssid) <==> exists|i: int|
            0 <= i < points.len() && !(#[trigger] points[i]).no_signal && points[i].bssid@ == bssid,
    decreases points.len(),
{
    if points.len() > 0 {
        let rest = points.drop_last();
        let m = points.last();
        lemma_seen(rest, bssid);
        let scan = m.scan_results@.map_values(|e: ScanEntry| e.bssid@);
        if m.no_signal {
            assert(seen_bssids(points) =~= seen_bssids(rest));
        } else {
            lemma_contains_add(seen_bssids(rest), point_bssids(m), bssid);
            lemma_contains_add(seq![m.bssid@], scan, bssid);
            lemma_contains_add(heard_bssids(rest), scan, bssid);
            names::lemma_contains_push(connected_bssids(rest), m.bssid@, bssid);
            assert(seq![m.bssid@].contains(bssid) <==> m.bssid@ == bssid) by {
                assert(seq![m.bssid@][0] == m.bssid@);
            }
        }
        if exists|i: int|
            0 <= i < points.len() && !(#[trigger] points[i]).no_signal && points[i].bssid@
                == bssid {
            let i = choose|i: int|
                0 <= i < points.len() && !(#[trigger] points[i]).no_signal && points[i].bssid@
                    == bssid;
            if i < rest.len() {
                assert(rest[i] == points[i]);
            }
        }
        if exists|i: int|
            0 <= i < rest.len() && !(#[trigger] rest[i]).no_signal && rest[i].bssid@ == bssid {
            let i = choose|i: int|
                0 <= i < rest.len() && !(#[trigger] rest[i]).no_signal && rest[i].bssid@ == bssid;
            assert(points[i] == rest[i]);
        }
    }
}

proof fn lemma_contains_add(a: Seq<Seq<char>>, b: Seq<Seq<char>>, n: Seq<char>)
    ensures
        (a + b).contains(n) <==> a.contains(n) || b.contains(n),
{
    if a.contains(n) {
        let i = choose|i: int| 0 <= i < a.len() && a[i] == n;
        assert((a + b)[i] == n);
    }
    if b.contains(n) {
        let i = choose|i: int| 0 <= i < b.len() && b[i] == n;
        assert((a + b)[a.len() + i] == n);
    }
    if (a + b).contains(n) {
        let i = choose|i: int| 0 <= i < (a + b).len() && (a + b)[i] == n;
        if i < a.len() {
            assert(a[i] == n);
        } else {
            assert(b[i - a.len()] == n);
        }
    }
}

/// The BSSID of a measurement that was connected under an SSID is among the
/// BSSIDs of that SSID.
proof fn lemma_connected_with(points: Seq<Measurement>, i: int)
    requires
        0 <= i < points.len(),
        !points[i].no_signal,
        points[i].bssid@.len() > 0,
    ensures
        connected_with(points, points[i].ssid@).contains(points[i].bssid@),
    decreases points.len(),
{
    let rest = points.drop_last();
    let ssid = points[i].ssid@;
    names::lemma_contains_push(connected_with(rest, ssid), points.last().bssid@, points[i].bssid@);
    if i < rest.len() {
        assert(rest[i] == points[i]);
        lemma_connected_with(rest, i);
    }
}

/// The access point of a measurement under a visible SSID stands in a section.
pub proof fn law_connected_is_claimed(points: Seq<Measurement>, i: int)
    requires
        0 <= i < points.len(),
        !points[i].no_signal,
        points[i].ssid@.len() > 0,
        points[i].bssid@.len() > 0,
    ensures
        claimed(measured_sections(points)).contains(points[i].bssid@),
{
    let ssid = points[i].ssid@;
    let bssid = points[i].bssid@;
    let ssids = names::distinct_present(point_ssids(points));
    names::lemma_distinct_present(point_ssids(points));
    assert(point_ssids(points)[i] == ssid);
    assert(ssids.contains(ssid));
    let k = choose|k: int| 0 <= k < ssids.len() && ssids[k] == ssid;
    lemma_connected_with(points, i);
    let heard = bssids_with(all_entries(points), ssid);
    lemma_contains_add(heard, connected_with(points, ssid), bssid);
    names::lemma_distinct(heard + connected_with(points, ssid));
    law_sections_are_complete(points, ssids, k, bssid);
}

/// The Known APs dialog shows a known BSSID in one place: under a measured
/// SSID or among the other networks, never in both. The one exception is the
/// access point of a measurement under a hidden SSID, which is no other
/// network: it may stand in neither.
pub proof fn law_known_is_split(points: Seq<Measurement>, bssid: Seq<char>)
    requires
        names::distinct_present(seen_bssids(points)).contains(bssid),
        forall|i: int|
            0 <= i < points.len() && !(#[trigger] points[i]).no_signal && points[i].ssid@.len()
                == 0 ==> points[i].bssid@ != bssid,
    ensures
        only_heard(points).contains(bssid) <==> !claimed(measured_sections(points)).contains(
            bssid,
        ),
{
    let sections = claimed(measured_sections(points));
    names::lemma_distinct_present(seen_bssids(points));
    names::lemma_distinct_present(heard_bssids(points));
    lemma_seen(points, bssid);
    if connected_bssids(points).contains(bssid) {
        let i = choose|i: int|
            0 <= i < points.len() && !(#[trigger] points[i]).no_signal && points[i].bssid@
                == bssid;
        law_connected_is_claimed(points, i);
    }
    lemma_contains_add(sections, connected_bssids(points), bssid);
    names::lemma_without(
        names::distinct_present(heard_bssids(points)),
        sections + connected_bssids(points),
    );
}

/// What stands among the other networks is known, stands there once, was heard
/// in a scan list, stands in no section, and is no access point of a
/// measurement.
pub proof fn law_other_networks_are_only_heard(points: Seq<Measurement>, bssid: Seq<char>)
    ensures
        only_heard(points).no_duplicates(),
        only_heard(points).contains(bssid) ==> {
            &&& bssid.len() > 0
            &&& heard_bssids(points).contains(bssid)
            &&& names::distinct_present(seen_bssids(points)).contains(bssid)
            &&& !claimed(measured_sections(points)).contains(bssid)
            &&& forall|i: int|
                0 <= i < points.len() && !(#[trigger] points[i]).no_signal ==> points[i].bssid@
                    != bssid
        },
{
    let sections = claimed(measured_sections(points));
    names::lemma_distinct_present(seen_bssids(points));
    names::lemma_distinct_present(heard_bssids(points));
    lemma_seen(points, bssid);
    lemma_contains_add(sections, connected_bssids(points), bssid);
    names::lemma_without(
        names::distinct_present(heard_bssids(points)),
        sections + connected_bssids(points),
    );
}

/// Removing the floor that was added last gives back the floors as they were.
pub proof fn law_remove_added_floor(floors: Seq<Floor>, floor: Floor)
    ensures
        floors.push(floor).remove(floors.len() as int) == floors,
{
    assert(floors.push(floor).remove(floors.len() as int) =~= floors);
}

/// What one more measurement adds to what a project has seen. A regular one is
/// seen, heard and connected by its own BSSID and those of its scan list; a
/// no-signal one counts for none of these, but its scan list is kept with the
/// others.
pub proof fn law_one_more_point(points: Seq<Measurement>, m: Measurement)
    ensures
        ({
            let scan = m.scan_results@.map_values(|e: ScanEntry| e.bssid@);
            let all = points.push(m);
            &&& m.no_signal ==> {
                &&& seen_bssids(all) == seen_bssids(points)
                &&& heard_bssids(all) == heard_bssids(points)
                &&& connected_bssids(all) == connected_bssids(points)
                &&& point_ssids(all) == point_ssids(points).push(Seq::empty())
            }
            &&& !m.no_signal ==> {
                &&& seen_bssids(all) == seen_bssids(points).push(m.bssid@) + scan
                &&& heard_bssids(all) == heard_bssids(points) + scan
                &&& connected_bssids(all) == connected_bssids(points).push(m.bssid@)
                &&& point_ssids(all) == point_ssids(points).push(m.ssid@)
            }
            &&& all_entries(all) == all_entries(points) + m.scan_results@
        }),
        seen_bssids(Seq::empty()) == Seq::<Seq<char>>::empty(),
        heard_bssids(Seq::empty()) == Seq::<Seq<char>>::empty(),
        connected_bssids(Seq::empty()) == Seq::<Seq<char>>::empty(),
        all_entries(Seq::empty()) == Seq::<ScanEntry>::empty(),
{
    let scan = m.scan_results@.map_values(|e: ScanEntry| e.bssid@);
    let all = points.push(m);
    assert(all.drop_last() =~= points);
    if m.no_signal {
        assert(seen_bssids(all) =~= seen_bssids(points));
        assert(point_ssids(all) =~= point_ssids(points).push(Seq::empty()));
    } else {
        assert(seen_bssids(all) =~= seen_bssids(points).push(m.bssid@) + scan);
        assert(point_ssids(all) =~= point_ssids(points).push(m.ssid@));
    }
}

/// The measurements of a project are those of its floors, one floor behind the
/// other.
pub proof fn law_points_of_floors(floors: Seq<Floor>, floor: Floor)
    ensures
        all_points(floors.push(floor)) == all_points(floors) + floor.measurements@,
        all_points(Seq::empty()) == Seq::<Measurement>::empty(),
{
    assert(floors.push(floor).drop_last() =~= floors);
}

/// The BSSIDs of an SSID come from the scan entries of that very SSID, and from
/// the regular measurements that were connected under it; unknown addresses of
/// connections are left out.
pub proof fn law_bssids_of_an_ssid(
    entries: Seq<ScanEntry>,
    e: ScanEntry,
    points: Seq<Measurement>,
    m: Measurement,
    ssid: Seq<char>,
)
    ensures
        e.ssid@ == ssid ==> bssids_with(entries.push(e), ssid) == bssids_with(entries, ssid).push(
            e.bssid@,
        ),
        e.ssid@ != ssid ==> bssids_with(entries.push(e), ssid) == bssids_with(entries, ssid),
        bssids_with(Seq::empty(), ssid) == Seq::<Seq<char>>::empty(),
        !m.no_signal && m.ssid@ == ssid && m.bssid@.len() > 0 ==> connected_with(
            points.push(m),
            ssid,
        ) == connected_with(points, ssid).push(m.bssid@),
        m.no_signal || m.ssid@ != ssid || m.bssid@.len() == 0 ==> connected_with(
            points.push(m),
            ssid,
        ) == connected_with(points, ssid),
        connected_with(Seq::empty(), ssid) == Seq::<Seq<char>>::empty(),
{
    assert(entries.push(e).drop_last() =~= entries);
    assert(points.push(m).drop_last() =~= points);
}

/// The access points of an SSID are those heard with it and those connected
/// under it, each once, and those heard come first.
pub proof fn law_aps_of_an_ssid(points: Seq<Measurement>, ssid: Seq<char>, bssid: Seq<char>)
    ensures
        aps_of(points, ssid).no_duplicates(),
        aps_of(points, ssid).contains(bssid) <==> bssids_with(all_entries(points), ssid).contains(
            bssid,
        ) || connected_with(points, ssid).contains(bssid),
        names::distinct(bssids_with(all_entries(points), ssid)).is_prefix_of(aps_of(points, ssid)),
{
    let heard = bssids_with(all_entries(points), ssid);
    let connected = connected_with(points, ssid);
    names::lemma_distinct(heard + connected);
    lemma_contains_add(heard, connected, bssid);
    names::law_first_seen_order(heard, connected);
}

/// A section holds access points of its own SSID only, and those that no
/// earlier section could claim.
pub proof fn law_first_section_claims(
    points: Seq<Measurement>,
    ssids: Seq<Seq<char>>,
    i: int,
    bssid: Seq<char>,
)
    requires
        0 <= i < ssids.len(),
    ensures
        sections_of(points, ssids)[i].1.contains(bssid) ==> aps_of(points, ssids[i]).contains(bssid),
        aps_of(points, ssids[i]).contains(bssid) && (forall|j: int|
            0 <= j < i ==> !aps_of(points, #[trigger] ssids[j]).contains(bssid)) ==> sections_of(
            points,
            ssids,
        )[i].1.contains(bssid),
    decreases ssids.len(),
{
    let rest = ssids.drop_last();
    let before = sections_of(points, rest);
    law_one_section_per_ssid(points, rest);
    if i < rest.len() {
        assert(rest[i] == ssids[i]);
        law_first_section_claims(points, rest, i, bssid);
        assert(sections_of(points, ssids)[i] == before[i]);
        assert(forall|j: int| 0 <= j < i ==> rest[j] == #[trigger] ssids[j]);
        if forall|j: int| 0 <= j < i ==> !aps_of(points, #[trigger] ssids[j]).contains(bssid) {
            assert forall|j: int| 0 <= j < i implies !aps_of(points, #[trigger] rest[j]).contains(
                bssid,
            ) by {
                assert(rest[j] == ssids[j]);
            }
        }
    } else {
        names::lemma_without(aps_of(points, ssids.last()), claimed(before));
        if forall|j: int| 0 <= j < i ==> !aps_of(points, #[trigger] ssids[j]).contains(bssid) {
            assert forall|j: int| 0 <= j < rest.len() implies !aps_of(
                points,
                #[trigger] rest[j],
            ).contains(bssid) by {
                assert(rest[j] == ssids[j]);
            }
            lemma_not_claimed(points, rest, bssid);
        }
    }
}

proof fn lemma_not_claimed(points: Seq<Measurement>, ssids: Seq<Seq<char>>, bssid: Seq<char>)
    requires
        forall|j: int|
            0 <= j < ssids.len() ==> !aps_of(points, #[trigger] ssids[j]).contains(bssid),
    ensures
        !claimed(sections_of(points, ssids)).contains(bssid),
    decreases ssids.len(),
{
    if ssids.len() > 0 {
        let rest = ssids.drop_last();
        let before = sections_of(points, rest);
        let all = sections_of(points, ssids);
        assert forall|j: int| 0 <= j < rest.len() implies !aps_of(points, #[trigger] rest[j]).contains(
            bssid,
        ) by {
            assert(rest[j] == ssids[j]);
        }
        lemma_not_claimed(points, rest, bssid);
        assert(all.drop_last() =~= before);
        let own = names::without(aps_of(points, ssids.last()), claimed(before));
        names::lemma_without(aps_of(points, ssids.last()), claimed(before));
        assert(ssids.last() == ssids[ssids.len() - 1]);
        lemma_contains_add(claimed(before), own, bssid);
    }
}

/// What a measurement says about the SSID of a BSSID: its own SSID where it was
/// connected to it, else the SSID of the first scan entry of the BSSID; it says
/// nothing where that is hidden, where there is no such entry, and where there
/// was no signal.
pub proof fn law_ssid_hint(m: Measurement, bssid: Seq<char>, i: int)
    requires
        0 <= i <= m.scan_results@.len(),
        i < m.scan_results@.len() ==> m.scan_results@[i].bssid@ == bssid,
        forall|j: int| 0 <= j < i ==> (#[trigger] m.scan_results@[j]).bssid@ != bssid,
    ensures
        m.no_signal ==> ssid_hint(m, bssid) is None,
        !m.no_signal && m.bssid@ == bssid && m.ssid@.len() > 0 ==> ssid_hint(m, bssid) == Some(
            m.ssid@,
        ),
        !m.no_signal && (m.bssid@ != bssid || m.ssid@.len() == 0) ==> ssid_hint(m, bssid) == (if i
            < m.scan_results@.len() && m.scan_results@[i].ssid@.len() > 0 {
            Some(m.scan_results@[i].ssid@)
        } else {
            None
        }),
{
    if i < m.scan_results@.len() {
        crate::models::signal_source::law_first_of_bssid(m.scan_results@, bssid, i);
    } else {
        crate::models::signal_source::law_none_of_bssid(m.scan_results@, bssid);
    }
}

/// The last measurement that says something about the SSID of a BSSID is
/// believed.
pub proof fn law_last_hint(points: Seq<Measurement>, m: Measurement, bssid: Seq<char>)
    ensures
        ssid_hint(m, bssid) is Some ==> last_hint(points.push(m), bssid) == ssid_hint(m, bssid),
        ssid_hint(m, bssid) is None ==> last_hint(points.push(m), bssid) == last_hint(points, bssid),
        last_hint(Seq::empty(), bssid) is None,
{
    assert(points.push(m).drop_last() =~= points);
}

/// An access point is shown by its alias, and by its BSSID only without one.
pub proof fn law_labels(project: Project, bssid: Seq<char>)
    ensures
        project.bssid_aliases@.contains_key(bssid) ==> project.label_of(bssid)
            == project.bssid_aliases@[bssid]@,
        !project.bssid_aliases@.contains_key(bssid) ==> project.label_of(bssid) == bssid,
{
}

} // verus!
