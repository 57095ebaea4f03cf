//! One floor of a project: its plan and its measurements.

use crate::models::Measurement;
use crate::models::RealBits;
use crate::text;
use vstd::prelude::*;

verus! {

/// A floor plan with its measurements.
#[derive(Debug, Clone)]
pub struct Floor {
    pub name: String,
    /// Floor plan image or PDF file.
    pub image_path: Option<String>,
    /// Page of a PDF floor plan.
    pub pdf_page: Option<u32>,
    /// File of the hand-drawn plan.
    pub drawing_path: Option<String>,
    pub scale_px_per_m: Option<RealBits>,
    pub calib_point_a: Option<(RealBits, RealBits)>,
    pub calib_point_b: Option<(RealBits, RealBits)>,
    pub origin: Option<(RealBits, RealBits)>,
    pub measurements: Vec<Measurement>,
}

/// The measurements whose id is not `id`, in order.
pub open spec fn without_id(ms: Seq<Measurement>, id: Seq<char>) -> Seq<Measurement>
    decreases ms.len(),
{
    if ms.len() == 0 {
        Seq::empty()
    } else if ms.last().id@ == id {
        without_id(ms.drop_last(), id)
    } else {
        without_id(ms.drop_last(), id).push(ms.last())
    }
}

impl Floor {
    /// An empty floor.
    pub fn new(name: &str) -> (r: Floor)
        ensures
            r.name@ == name@,
            r.image_path is None && r.pdf_page is None && r.drawing_path is None,
            r.scale_px_per_m is None && r.calib_point_a is None && r.calib_point_b is None,
            r.origin is None,
            r.measurements@.len() == 0,
    {
        Floor {
            name: name.to_owned(),
            image_path: None,
            pdf_page: None,
            drawing_path: None,
            scale_px_per_m: None,
            calib_point_a: None,
            calib_point_b: None,
            origin: None,
            measurements: Vec::new(),
        }
    }

    pub fn add_measurement(&mut self, m: Measurement)
        ensures
            final(self).measurements@ == old(self).measurements@.push(m),
            *final(self) == (Floor { measurements: final(self).measurements, ..*old(self) }),
    {
        self.measurements.push(m);
    }

    /// Drop the measurement with the given id.
    pub fn remove_measurement(&mut self, id: &str)
        ensures
            final(self).measurements@ == without_id(old(self).measurements@, id@),
            *final(self) == (Floor { measurements: final(self).measurements, ..*old(self) }),
    {
        let ghost before = self.measurements@;
        let ghost mut k: int = 0;
        let mut i: usize = 0;
        assert(self.measurements@ =~= without_id(before.take(0), id@) + before.skip(0));
        while i < self.measurements.len()
            invariant
                0 <= k <= before.len(),
                i == without_id(before.take(k), id@).len(),
                self.measurements@ == without_id(before.take(k), id@) + before.skip(k),
                *self == (Floor { measurements: self.measurements, ..*old(self) }),
            decreases before.len() - k,
        {
            proof {
                assert(self.measurements@[i as int] == before[k]);
                assert(before.take(k + 1).drop_last() =~= before.take(k));
            }
            if text::str_eq(self.measurements[i].id.as_str(), id) {
                let _ = self.measurements.remove(i);
            } else {
                i = i + 1;
            }
            proof {
                k = k + 1;
                assert(self.measurements@ =~= without_id(before.take(k), id@) + before.skip(k));
            }
        }
        proof {
            assert(before.take(before.len() as int) =~= before);
            assert(self.measurements@ =~= without_id(before, id@));
        }
    }
}

/// Removing a measurement by its id leaves no measurement with that id, and
/// the others untouched and in order.
pub proof fn law_removed_is_gone(ms: Seq<Measurement>, id: Seq<char>)
    ensures
        forall|i: int|
            0 <= i < without_id(ms, id).len() ==> (#[trigger] without_id(ms, id)[i]).id@ != id,
        (forall|i: int| 0 <= i < ms.len() ==> (#[trigger] ms[i]).id@ != id) ==> without_id(ms, id)
            == ms,
    decreases ms.len(),
{
    if ms.len() > 0 {
        law_removed_is_gone(ms.drop_last(), id);
        if forall|i: int| 0 <= i < ms.len() ==> (#[trigger] ms[i]).id@ != id {
            assert forall|i: int| 0 <= i < ms.drop_last().len() implies (#[trigger] ms.drop_last()[i]).id@
                != id by {
                assert(ms[i].id@ != id);
            }
            assert(ms.last() == ms[ms.len() - 1]);
            assert(without_id(ms, id) =~= ms);
        }
    }
}

/// Removing the measurement that was just added under a new id undoes the
/// addition.
pub proof fn law_remove_added_measurement(ms: Seq<Measurement>, m: Measurement)
    requires
        forall|i: int| 0 <= i < ms.len() ==> (#[trigger] ms[i]).id@ != m.id@,
    ensures
        without_id(ms.push(m), m.id@) == ms,
{
    law_removed_is_gone(ms, m.id@);
    assert(ms.push(m).drop_last() =~= ms);
}

/// Removing an id leaves out the measurements that have it and keeps all
/// others in order: what is left of two lists one behind the other is what is
/// left of each.
pub proof fn law_removed_alone(
    a: Seq<Measurement>,
    b: Seq<Measurement>,
    m: Measurement,
    id: Seq<char>,
)
    ensures
        without_id(a + b, id) == without_id(a, id) + without_id(b, id),
        m.id@ == id ==> without_id(seq![m], id) == Seq::<Measurement>::empty(),
        m.id@ != id ==> without_id(seq![m], id) == seq![m],
    decreases b.len(),
{
    assert(seq![m].drop_last() =~= Seq::empty());
    assert(without_id(seq![m].drop_last(), id) =~= Seq::empty());
    assert(m.id@ == id ==> without_id(seq![m], id) =~= Seq::empty());
    assert(m.id@ != id ==> without_id(seq![m], id) =~= seq![m]);
    if b.len() == 0 {
        assert(a + b =~= a);
        assert(without_id(a + b, id) =~= without_id(a, id) + without_id(b, id));
    } else {
        law_removed_alone(a, b.drop_last(), m, id);
        assert((a + b).drop_last() =~= a + b.drop_last());
        assert((a + b).last() == b.last());
        assert(without_id(a + b, id) =~= without_id(a, id) + without_id(b, id));
    }
}

} // verus!
