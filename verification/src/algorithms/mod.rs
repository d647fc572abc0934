//! Eviction policies for the primary tier.

use vstd::prelude::*;

pub mod fifo;

verus! {

/// A page replacement policy: it keeps track of the pages that are resident in
/// the primary tier and picks the one that has to leave when room is needed.
///
/// The contract speaks of the set of resident page ids only, so that it holds of
/// any policy. An implementation says which of the resident pages it picks.
pub trait PageReplacer {
    /// The page ids that the policy holds as resident.
    spec fn resident(&self) -> Set<u64>;

    /// The invariant that the policy keeps of its own state.
    spec fn well_formed(&self) -> bool;

    /// Marks `page_id` as resident: it is resident afterwards, and nothing else
    /// enters or leaves.
    fn record_access(&mut self, page_id: u64)
        requires
            old(self).well_formed(),
        ensures
            final(self).well_formed(),
            final(self).resident() == old(self).resident().insert(page_id),
    ;

    /// Removes one resident page and returns it, or returns `None` if and only if
    /// no page is resident.
    fn select_victim(&mut self) -> (victim: Option<u64>)
        requires
            old(self).well_formed(),
        ensures
            final(self).well_formed(),
            match victim {
                Some(id) => {
                    &&& old(self).resident().contains(id)
                    &&& final(self).resident() == old(self).resident().remove(id)
                },
                None => {
                    &&& old(self).resident() == Set::<u64>::empty()
                    &&& final(self).resident() == old(self).resident()
                },
            },
    ;
}

} // verus!
