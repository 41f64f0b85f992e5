//! The deduplication store: an insertion-only set of traffic units.
use vstd::prelude::*;

use crate::pinfo::{PacketData, UnitView};

verus! {

/// The views of a sequence of units.
pub open spec fn views(s: Seq<PacketData>) -> Seq<UnitView> {
    s.map_values(|u: PacketData| u@)
}

/// Holds each distinct traffic unit once; membership is by equality of views.
/// Units are kept in a vector and found by a linear scan: a unit carries a text
/// label, and a hashed set keyed by such a value gives no provable membership.
pub struct DedupStore {
    units: Vec<PacketData>,
}

impl View for DedupStore {
    type V = Set<UnitView>;

    closed spec fn view(&self) -> Set<UnitView> {
        views(self.units@).to_set()
    }
}

impl DedupStore {
    /// No two units held are equal.
    pub closed spec fn wf(&self) -> bool {
        views(self.units@).no_duplicates()
    }

    /// An empty store.
    pub fn new() -> (r: DedupStore)
        ensures
            r.wf(),
            r@ == Set::<UnitView>::empty(),
    {
        let r = DedupStore { units: Vec::new() };
        assert(views(r.units@) =~= Seq::<UnitView>::empty());
        assert(r@ =~= Set::<UnitView>::empty());
        r
    }

    /// Adds `unit` unless an equal one is held; returns whether it was new.
    pub fn insert(&mut self, unit: PacketData) -> (r: bool)
        requires
            old(self).wf(),
        ensures
            final(self).wf(),
            final(self)@ == old(self)@.insert(unit@),
            r == !old(self)@.contains(unit@),
    {
        let ghost old_views = views(self.units@);
        let mut i: usize = 0;
        while i < self.units.len()
            invariant
                0 <= i <= self.units@.len(),
                views(self.units@) == old_views,
                old_views.no_duplicates(),
                forall|j: int| 0 <= j < i ==> self.units@[j]@ != unit@,
            decreases self.units@.len() - i,
        {
            if self.units[i] == unit {
                proof {
                    assert(old_views[i as int] == unit@);
                    assert(old_views.to_set().contains(unit@));
                    assert(old_views.to_set().insert(unit@) =~= old_views.to_set());
                }
                return false;
            }
            i += 1;
        }
        proof {
            assert forall|j: int| 0 <= j < old_views.len() implies old_views[j] != unit@ by {
                assert(old_views[j] == self.units@[j]@);
            }
            assert(!old_views.contains(unit@));
        }
        self.units.push(unit);
        proof {
            assert(views(self.units@) =~= old_views.push(unit@));
            old_views.lemma_push_to_set_commute(unit@);
        }
        true
    }

    /// The number of distinct units held.
    pub fn size(&self) -> (r: usize)
        requires
            self.wf(),
        ensures
            r == self@.len(),
    {
        proof {
            views(self.units@).unique_seq_to_set();
        }
        self.units.len()
    }

    /// The units held, each once, in no particular order.
    pub fn units(&self) -> (r: &Vec<PacketData>)
        requires
            self.wf(),
        ensures
            views(r@).to_set() == self@,
            views(r@).no_duplicates(),
    {
        &self.units
    }
}

/// Inserting a unit a second time changes neither the contents nor the size.
pub proof fn lemma_insert_idempotent(contents: Set<UnitView>, u: UnitView)
    requires
        contents.finite(),
    ensures
        contents.insert(u).insert(u) == contents.insert(u),
        contents.insert(u).insert(u).len() == contents.insert(u).len(),
{
    assert(contents.insert(u).insert(u) =~= contents.insert(u));
}

} // verus!
