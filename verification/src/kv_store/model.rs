//! The mathematical model of the two tiers: the state as maps and sequences,
//! the operations as functions on that state, and what holds of them.

use super::page::PageView;
use vstd::prelude::*;

verus! {

/// The state of the manager, as plain mathematical values.
#[verifier::ext_equal]
pub struct ManagerView {
    /// The pages of the bounded primary tier, by page id.
    pub primary: Map<u64, PageView>,
    /// The pages of the unbounded secondary tier, by page id.
    pub secondary: Map<u64, PageView>,
    /// The page id of every key that was ever written.
    pub key_index: Map<Seq<char>, u64>,
    /// The ids of the primary pages in the order of their admission, the
    /// longest-resident first.
    pub order: Seq<u64>,
    /// The id that the next new page gets.
    pub next_id: u64,
    /// How many pages the primary tier may hold.
    pub capacity: usize,
    /// How many operations had to fetch their page from the secondary tier.
    pub page_faults: u64,
    /// How many `put` and `get` operations ran.
    pub total_operations: u64,
}

/// One operation on the manager, with the time at which it runs.
pub enum Operation {
    Put { key: Seq<char>, value: Seq<u8>, now: u64 },
    Get { key: Seq<char>, now: u64 },
    Clear,
}

impl ManagerView {
    /// The state of a new manager: no page, no key, all counters at zero.
    pub open spec fn initial(capacity: usize) -> ManagerView {
        ManagerView {
            primary: Map::empty(),
            secondary: Map::empty(),
            key_index: Map::empty(),
            order: Seq::empty(),
            next_id: 0,
            capacity,
            page_faults: 0,
            total_operations: 0,
        }
    }

    /// Whether the page `id` is held in one of the tiers.
    pub open spec fn resident(self, id: u64) -> bool {
        self.primary.contains_key(id) || self.secondary.contains_key(id)
    }

    /// The page `id`, from the tier that holds it.
    pub open spec fn page(self, id: u64) -> PageView {
        if self.primary.contains_key(id) {
            self.primary[id]
        } else {
            self.secondary[id]
        }
    }

    /// What holds of the two tiers and the admission order at every moment,
    /// also in the middle of an operation: the primary tier is within its
    /// capacity, no page is in both tiers, the admission order lists exactly
    /// the primary pages, each once, and every page is filed under its own id,
    /// which is below the next one to be given out.
    pub open spec fn tiers_wf(self) -> bool {
        &&& self.capacity > 0
        &&& self.primary.dom().finite()
        &&& self.secondary.dom().finite()
        &&& self.primary.dom().len() <= self.capacity
        &&& self.primary.dom().disjoint(self.secondary.dom())
        &&& self.order.no_duplicates()
        &&& self.order.to_set() == self.primary.dom()
        &&& forall|id: u64| #[trigger]
            self.primary.contains_key(id) ==> self.primary[id].id == id && id < self.next_id
        &&& forall|id: u64| #[trigger]
            self.secondary.contains_key(id) ==> self.secondary[id].id == id && id < self.next_id
    }

    /// What holds of the state between operations: the tiers are in order,
    /// every key leads to a page in exactly one tier that carries this key,
    /// every page is reached by its key, and the counters are consistent.
    pub open spec fn wf(self) -> bool {
        &&& self.tiers_wf()
        &&& forall|key: Seq<char>| #[trigger]
            self.key_index.contains_key(key) ==> self.resident(self.key_index[key]) && self.page(
                self.key_index[key],
            ).key == key
        &&& forall|id: u64| #[trigger]
            self.resident(id) ==> self.key_index.contains_key(self.page(id).key)
                && self.key_index[self.page(id).key] == id
        &&& self.next_id <= self.total_operations
        &&& self.page_faults <= self.total_operations
    }

    /// Whether the counters leave room for one more operation on `key`: the
    /// operation counter and, if the key has a page, that page's access counter
    /// are below the largest value of their types.
    pub open spec fn has_room(self, key: Seq<char>) -> bool {
        &&& self.total_operations < u64::MAX
        &&& self.key_index.contains_key(key) ==> self.page(self.key_index[key]).access_count
            < u32::MAX
    }

    /// Admission of `page` to the primary tier. While the tier is below its
    /// capacity the page just enters. Otherwise the longest-resident page
    /// leaves for the secondary tier, unchanged, and `page` enters. Either way
    /// `page` goes to the back of the admission order.
    pub open spec fn admitted(self, page: PageView) -> ManagerView {
        if self.primary.dom().len() < self.capacity || self.order.len() == 0 {
            ManagerView {
                primary: self.primary.insert(page.id, page),
                order: self.order.push(page.id),
                ..self
            }
        } else {
            let victim = self.order[0];
            ManagerView {
                primary: self.primary.remove(victim).insert(page.id, page),
                secondary: self.secondary.insert(victim, self.primary[victim]),
                order: self.order.drop_first().push(page.id),
                ..self
            }
        }
    }

    /// The state with one more operation counted.
    pub open spec fn counted(self) -> ManagerView {
        ManagerView { total_operations: (self.total_operations + 1) as u64, ..self }
    }

    /// The state after the page `id` was taken out of the secondary tier, which
    /// counts as a page fault.
    pub open spec fn faulted(self, id: u64) -> ManagerView {
        ManagerView {
            secondary: self.secondary.remove(id),
            page_faults: (self.page_faults + 1) as u64,
            ..self
        }
    }

    /// The state after `key` was given the next page id.
    pub open spec fn indexed(self, key: Seq<char>) -> ManagerView {
        ManagerView {
            next_id: (self.next_id + 1) as u64,
            key_index: self.key_index.insert(key, self.next_id),
            ..self
        }
    }

    /// The state after `put(key, value)` at time `now`.
    pub open spec fn put(self, key: Seq<char>, value: Seq<u8>, now: u64) -> ManagerView {
        if self.key_index.contains_key(key) {
            let id = self.key_index[key];
            let page = self.page(id).with_value(value).accessed(now);
            if self.primary.contains_key(id) {
                ManagerView { primary: self.primary.insert(id, page), ..self.counted() }
            } else {
                self.counted().faulted(id).admitted(page)
            }
        } else {
            self.counted().indexed(key).admitted(PageView::fresh(self.next_id, key, value, now))
        }
    }

    /// What `get(key)` returns: the value of the key's page, or nothing for a
    /// key that was never written.
    pub open spec fn get_value(self, key: Seq<char>) -> Option<Seq<u8>> {
        if self.key_index.contains_key(key) {
            Some(self.page(self.key_index[key]).value)
        } else {
            None
        }
    }

    /// The state after `get(key)` at time `now`.
    pub open spec fn get(self, key: Seq<char>, now: u64) -> ManagerView {
        if self.key_index.contains_key(key) {
            let id = self.key_index[key];
            let page = self.page(id).accessed(now);
            if self.primary.contains_key(id) {
                ManagerView { primary: self.primary.insert(id, page), ..self.counted() }
            } else {
                self.counted().faulted(id).admitted(page)
            }
        } else {
            self.counted()
        }
    }

    /// The state after `clear()`: that of a new manager of the same capacity.
    pub open spec fn clear(self) -> ManagerView {
        ManagerView::initial(self.capacity)
    }

    /// Whether `op` may run in this state (see `has_room`).
    pub open spec fn allows(self, op: Operation) -> bool {
        match op {
            Operation::Put { key, .. } => self.has_room(key),
            Operation::Get { key, .. } => self.has_room(key),
            Operation::Clear => true,
        }
    }

    /// The state after `op`.
    pub open spec fn step(self, op: Operation) -> ManagerView {
        match op {
            Operation::Put { key, value, now } => self.put(key, value, now),
            Operation::Get { key, now } => self.get(key, now),
            Operation::Clear => self.clear(),
        }
    }

    /// Whether the operations `ops` may run one after the other from this
    /// state.
    pub open spec fn allows_all(self, ops: Seq<Operation>) -> bool
        decreases ops.len(),
    {
        if ops.len() == 0 {
            true
        } else {
            self.allows(ops[0]) && self.step(ops[0]).allows_all(ops.drop_first())
        }
    }

    /// The state after the operations `ops`, run one after the other.
    pub open spec fn run(self, ops: Seq<Operation>) -> ManagerView
        decreases ops.len(),
    {
        if ops.len() == 0 {
            self
        } else {
            self.step(ops[0]).run(ops.drop_first())
        }
    }
}

} // verus!
