//! The manager of the two tiers: it owns the pages, the index from keys to
//! page ids and the counters, and moves pages between the tiers as the
//! replacement policy decides.

use super::laws::{lemma_get_wf, lemma_initial_wf, lemma_put_wf};
use super::model::ManagerView;
use super::page::{Page, PageInfo, PageView};
use crate::algorithms::fifo::{lemma_fifo_pop, FifoReplacer};
use crate::algorithms::PageReplacer;
use crate::clock::unix_time_secs;
use std::collections::HashMap;
use vstd::hash_map::StringHashMap;
use vstd::prelude::*;
use vstd::std_specs::iter::IteratorSpec;

verus! {

/// The primary capacity of a manager made by `MemoryManager::new`.
pub const DEFAULT_PRIMARY_CAPACITY: usize = 5;

/// A snapshot of the manager for observers.
pub struct MemoryStatus {
    pub primary_pages: Vec<PageInfo>,
    pub secondary_pages: Vec<PageInfo>,
    pub primary_used: usize,
    pub secondary_used: usize,
    pub primary_capacity: usize,
    pub page_faults: u64,
    pub total_operations: u64,
}

impl MemoryStatus {
    /// The number of operations that found their page in the primary tier or
    /// needed none: all operations but the page faults. The hit rate is this
    /// number over `total_operations`.
    pub fn hit_count(&self) -> (hits: u64)
        requires
            self.page_faults <= self.total_operations,
        ensures
            hits == self.total_operations - self.page_faults,
    {
        self.total_operations - self.page_faults
    }
}

/// A bounded primary tier backed by an unbounded secondary tier, behind a
/// key-value interface.
pub struct MemoryManager {
    primary_memory: HashMap<u64, Page>,
    secondary_storage: HashMap<u64, Page>,
    key_to_page_id: StringHashMap<u64>,
    replacer: FifoReplacer,
    next_page_id: u64,
    primary_capacity: usize,
    page_faults: u64,
    total_operations: u64,
}

/// The pages of a tier as plain values.
pub open spec fn page_views(pages: Map<u64, Page>) -> Map<u64, PageView> {
    pages.map_values(|p: Page| p@)
}

/// Whether `infos` lists the pages of `tier`: one summary for each page, in
/// some order, and nothing else.
pub open spec fn lists_tier(infos: Seq<PageInfo>, tier: Map<u64, PageView>) -> bool {
    &&& infos.len() == tier.dom().len()
    &&& forall|i: int|
        0 <= i < infos.len() ==> tier.contains_key(#[trigger] infos[i].id) && infos[i]@
            == tier[infos[i].id].info()
    &&& forall|i: int, j: int|
        0 <= i < j < infos.len() ==> (#[trigger] infos[i]).id != (#[trigger] infos[j]).id
    &&& forall|id: u64| #[trigger]
        tier.contains_key(id) ==> exists|i: int| 0 <= i < infos.len() && infos[i].id == id
}

/// Taking the views commutes with inserting a page.
proof fn lemma_page_views_insert(pages: Map<u64, Page>, id: u64, page: Page)
    ensures
        page_views(pages.insert(id, page)) == page_views(pages).insert(id, page@),
{
}

/// Taking the views commutes with removing a page.
proof fn lemma_page_views_remove(pages: Map<u64, Page>, id: u64)
    ensures
        page_views(pages.remove(id)) == page_views(pages).remove(id),
{
}

/// Taking the views keeps the ids, and the views of no pages are no views.
proof fn lemma_page_views_dom(pages: Map<u64, Page>)
    ensures
        page_views(pages).dom() == pages.dom(),
        pages == Map::<u64, Page>::empty() ==> page_views(pages) == Map::<u64, PageView>::empty(),
{
}

impl View for MemoryManager {
    type V = ManagerView;

    closed spec fn view(&self) -> ManagerView {
        ManagerView {
            primary: page_views(self.primary_memory@),
            secondary: page_views(self.secondary_storage@),
            key_index: self.key_to_page_id@,
            order: self.replacer@,
            next_id: self.next_page_id,
            capacity: self.primary_capacity,
            page_faults: self.page_faults,
            total_operations: self.total_operations,
        }
    }
}

impl MemoryManager {
    /// The manager's invariant: its state is well formed.
    pub open spec fn wf(&self) -> bool {
        self@.wf()
    }

    /// A manager without pages, keys or counted operations.
    fn empty(capacity: usize) -> (m: Self)
        requires
            capacity > 0,
        ensures
            m@ == ManagerView::initial(capacity),
            m.wf(),
    {
        let m = Self {
            primary_memory: HashMap::new(),
            secondary_storage: HashMap::new(),
            key_to_page_id: StringHashMap::new(),
            replacer: FifoReplacer::new(),
            next_page_id: 0,
            primary_capacity: capacity,
            page_faults: 0,
            total_operations: 0,
        };
        proof {
            lemma_page_views_dom(m.primary_memory@);
            lemma_page_views_dom(m.secondary_storage@);
            lemma_initial_wf(capacity);
        }
        m
    }

    /// A manager without pages whose primary tier holds up to
    /// `DEFAULT_PRIMARY_CAPACITY` pages.
    pub fn new() -> (m: Self)
        ensures
            m@ == ManagerView::initial(DEFAULT_PRIMARY_CAPACITY),
            m.wf(),
    {
        Self::empty(DEFAULT_PRIMARY_CAPACITY)
    }

    /// A manager without pages whose primary tier holds up to `capacity`
    /// pages. A capacity of zero is rejected.
    pub fn with_capacity(capacity: usize) -> (made: Option<Self>)
        ensures
            made is None <==> capacity == 0,
            made matches Some(m) ==> m@ == ManagerView::initial(capacity) && m.wf(),
    {
        if capacity == 0 {
            None
        } else {
            Some(Self::empty(capacity))
        }
    }

    /// Makes room in the full primary tier by moving the longest-resident
    /// page to the secondary tier, unchanged, and then lets `new_page` in.
    fn replace_page(&mut self, new_page: Page)
        requires
            old(self)@.tiers_wf(),
            !old(self)@.resident(new_page.id),
            new_page.id < old(self)@.next_id,
            old(self)@.primary.dom().len() >= old(self)@.capacity,
        ensures
            final(self)@ == old(self)@.admitted(new_page@),
    {
        proof {
            lemma_fifo_pop(self@.order);
            lemma_page_views_dom(self.primary_memory@);
            lemma_page_views_dom(self.secondary_storage@);
        }
        if let Some(victim_id) = self.replacer.select_victim() {
            if let Some(victim_page) = self.primary_memory.remove(&victim_id) {
                proof {
                    lemma_page_views_remove(old(self).primary_memory@, victim_id);
                    lemma_page_views_insert(old(self).secondary_storage@, victim_id, victim_page);
                }
                self.secondary_storage.insert(victim_id, victim_page);
            }
        }
        let id = new_page.id;
        proof {
            lemma_page_views_insert(self.primary_memory@, id, new_page);
        }
        self.primary_memory.insert(id, new_page);
        self.replacer.record_access(id);
    }

    /// Admits `page` to the primary tier, evicting the longest-resident page
    /// if the tier is full.
    fn load_page_to_primary(&mut self, page: Page)
        requires
            old(self)@.tiers_wf(),
            !old(self)@.resident(page.id),
            page.id < old(self)@.next_id,
        ensures
            final(self)@ == old(self)@.admitted(page@),
    {
        proof {
            lemma_page_views_dom(self.primary_memory@);
        }
        if self.primary_memory.len() < self.primary_capacity {
            proof {
                lemma_page_views_insert(self.primary_memory@, page.id, page);
            }
            self.replacer.record_access(page.id);
            self.primary_memory.insert(page.id, page);
        } else {
            self.replace_page(page);
        }
    }

    /// How many operations had to fetch their page from the secondary tier.
    pub fn page_faults(&self) -> (count: u64)
        ensures
            count == self@.page_faults,
    {
        self.page_faults
    }

    /// How many `put` and `get` operations ran.
    pub fn total_operations(&self) -> (count: u64)
        ensures
            count == self@.total_operations,
    {
        self.total_operations
    }

    /// Whether the counters leave room for one more `put` or `get` on `key`.
    pub fn has_room(&self, key: &str) -> (room: bool)
        requires
            self.wf(),
        ensures
            room == self@.has_room(key@),
    {
        proof {
            lemma_page_views_dom(self.primary_memory@);
            lemma_page_views_dom(self.secondary_storage@);
        }
        if self.total_operations == u64::MAX {
            return false;
        }
        match self.key_to_page_id.get(key) {
            Some(id) => {
                assert(self@.key_index.contains_key(key@));
                match self.primary_memory.get(id) {
                    Some(page) => page.access_count < u32::MAX,
                    None => match self.secondary_storage.get(id) {
                        Some(page) => page.access_count < u32::MAX,
                        None => true,
                    },
                }
            },
            None => true,
        }
    }

    /// Writes `value` under `key` at time `now`. A key that has a page keeps
    /// it: the value is replaced and the access is counted, and a page found
    /// in the secondary tier is promoted, which counts as a page fault. A new
    /// key gets a new page with the next id, admitted to the primary tier.
    pub fn put_at(&mut self, key: String, value: Vec<u8>, now: u64)
        requires
            old(self).wf(),
            old(self)@.has_room(key@),
        ensures
            final(self).wf(),
            final(self)@ == old(self)@.put(key@, value@, now),
    {
        let ghost before = self@;
        proof {
            lemma_put_wf(before, key@, value@, now);
            lemma_page_views_dom(self.primary_memory@);
            lemma_page_views_dom(self.secondary_storage@);
        }
        self.total_operations += 1;
        let known = match self.key_to_page_id.get(key.as_str()) {
            Some(id) => Some(*id),
            None => None,
        };
        if let Some(existing_page_id) = known {
            if let Some(mut page) = self.primary_memory.remove(&existing_page_id) {
                page.value = value;
                page.access_at(now);
                proof {
                    lemma_page_views_remove(old(self).primary_memory@, existing_page_id);
                    lemma_page_views_insert(self.primary_memory@, existing_page_id, page);
                }
                self.primary_memory.insert(existing_page_id, page);
                self.replacer.record_access(existing_page_id);
                assert(self@.primary =~= before.put(key@, value@, now).primary);
                return ;
            }
            assert(self.primary_memory@ =~= old(self).primary_memory@);
            if let Some(mut page) = self.secondary_storage.remove(&existing_page_id) {
                page.value = value;
                page.access_at(now);
                self.page_faults += 1;
                proof {
                    lemma_page_views_remove(old(self).secondary_storage@, existing_page_id);
                    assert(self@.secondary.dom() =~= before.secondary.dom().remove(
                        existing_page_id,
                    ));
                }
                self.load_page_to_primary(page);
                return ;
            }
        }
        let page_id = self.next_page_id;
        self.next_page_id += 1;
        let page = Page::with_timestamp(page_id, key.clone(), value, now);
        self.key_to_page_id.insert(key, page_id);
        self.load_page_to_primary(page);
    }

    /// Writes `value` under `key` now, by the system clock.
    pub fn put(&mut self, key: String, value: Vec<u8>)
        requires
            old(self).wf(),
            old(self)@.has_room(key@),
        ensures
            final(self).wf(),
            exists|now: u64| final(self)@ == #[trigger] old(self)@.put(key@, value@, now),
    {
        let now = unix_time_secs();
        self.put_at(key, value, now);
    }

    /// Reads the value under `key` at time `now`: a copy of the value of the
    /// key's page, or `None` for a key that was never written. The access is
    /// counted on the page, and a page found in the secondary tier is
    /// promoted, which counts as a page fault.
    pub fn get_at(&mut self, key: &str, now: u64) -> (value: Option<Vec<u8>>)
        requires
            old(self).wf(),
            old(self)@.has_room(key@),
        ensures
            final(self).wf(),
            final(self)@ == old(self)@.get(key@, now),
            value.is_some() == old(self)@.key_index.contains_key(key@),
            match value {
                Some(bytes) => Some(bytes@) == old(self)@.get_value(key@),
                None => old(self)@.get_value(key@) is None,
            },
    {
        let ghost before = self@;
        proof {
            lemma_get_wf(before, key@, now);
            lemma_page_views_dom(self.primary_memory@);
            lemma_page_views_dom(self.secondary_storage@);
        }
        self.total_operations += 1;
        let known = match self.key_to_page_id.get(key) {
            Some(id) => Some(*id),
            None => None,
        };
        if let Some(page_id) = known {
            if let Some(mut page) = self.primary_memory.remove(&page_id) {
                page.access_at(now);
                let value = page.value.clone();
                proof {
                    lemma_page_views_remove(old(self).primary_memory@, page_id);
                    lemma_page_views_insert(self.primary_memory@, page_id, page);
                }
                self.primary_memory.insert(page_id, page);
                self.replacer.record_access(page_id);
                assert(self@.primary =~= before.get(key@, now).primary);
                return Some(value);
            }
            assert(self.primary_memory@ =~= old(self).primary_memory@);
            if let Some(mut page) = self.secondary_storage.remove(&page_id) {
                page.access_at(now);
                let value = page.value.clone();
                self.page_faults += 1;
                proof {
                    lemma_page_views_remove(old(self).secondary_storage@, page_id);
                }
                self.load_page_to_primary(page);
                return Some(value);
            }
        }
        None
    }

    /// Reads the value under `key` now, by the system clock.
    pub fn get(&mut self, key: &str) -> (value: Option<Vec<u8>>)
        requires
            old(self).wf(),
            old(self)@.has_room(key@),
        ensures
            final(self).wf(),
            exists|now: u64| final(self)@ == #[trigger] old(self)@.get(key@, now),
            value.is_some() == old(self)@.key_index.contains_key(key@),
            match value {
                Some(bytes) => Some(bytes@) == old(self)@.get_value(key@),
                None => old(self)@.get_value(key@) is None,
            },
    {
        let now = unix_time_secs();
        self.get_at(key, now)
    }

    /// Discards every page and key and resets the counters and the id
    /// generator: the manager is as it was when new. The capacity stays.
    pub fn clear(&mut self)
        ensures
            final(self)@ == ManagerView::initial(old(self)@.capacity),
            final(self)@ == old(self)@.clear(),
            old(self)@.capacity > 0 ==> final(self).wf(),
    {
        self.primary_memory.clear();
        self.secondary_storage.clear();
        self.key_to_page_id.clear();
        self.replacer = FifoReplacer::new();
        self.next_page_id = 0;
        self.page_faults = 0;
        self.total_operations = 0;
        proof {
            lemma_page_views_dom(self.primary_memory@);
            lemma_page_views_dom(self.secondary_storage@);
            if self.primary_capacity > 0 {
                lemma_initial_wf(self.primary_capacity);
            }
        }
    }

    /// A snapshot of the manager: the summaries of the pages of each tier, in
    /// no particular order, the sizes of the tiers, the capacity and the two
    /// counters. The manager is left as it is.
    pub fn get_status(&self) -> (status: MemoryStatus)
        requires
            self.wf(),
        ensures
            lists_tier(status.primary_pages@, self@.primary),
            lists_tier(status.secondary_pages@, self@.secondary),
            status.primary_used == self@.primary.dom().len(),
            status.secondary_used == self@.secondary.dom().len(),
            status.primary_capacity == self@.capacity,
            status.page_faults == self@.page_faults,
            status.total_operations == self@.total_operations,
            status.primary_used <= status.primary_capacity,
            status.page_faults <= status.total_operations,
    {
        proof {
            lemma_page_views_dom(self.primary_memory@);
            lemma_page_views_dom(self.secondary_storage@);
        }
        let primary_pages = tier_infos(&self.primary_memory);
        let secondary_pages = tier_infos(&self.secondary_storage);
        MemoryStatus {
            primary_pages,
            secondary_pages,
            primary_used: self.primary_memory.len(),
            secondary_used: self.secondary_storage.len(),
            primary_capacity: self.primary_capacity,
            page_faults: self.page_faults,
            total_operations: self.total_operations,
        }
    }
}

/// The summaries of the pages of one tier, in the order in which the map hands
/// its entries out.
fn tier_infos(tier: &HashMap<u64, Page>) -> (infos: Vec<PageInfo>)
    requires
        forall|id: u64| #[trigger] tier@.contains_key(id) ==> tier@[id].id == id,
    ensures
        lists_tier(infos@, page_views(tier@)),
{
    let mut infos: Vec<PageInfo> = Vec::new();
    let ghost entries = tier.iter().remaining();
    for entry in it: tier.iter()
        invariant
            it.seq() == entries,
            infos@.len() == it.index(),
            forall|j: int|
                0 <= j < infos@.len() ==> (#[trigger] infos@[j])@ == (*entries[j].1)@.info(),
    {
        infos.push(entry.1.to_info());
    }
    proof {
        lemma_page_views_dom(tier@);
        assert forall|i: int| 0 <= i < infos@.len() implies page_views(tier@).contains_key(
            #[trigger] infos@[i].id,
        ) && infos@[i]@ == page_views(tier@)[infos@[i].id].info() by {
            assert(tier@.contains_key(*entries[i].0));
        }
        assert forall|i: int, j: int| 0 <= i < j < infos@.len() implies (#[trigger] infos@[i]).id
            != (#[trigger] infos@[j]).id by {
            assert(tier@.contains_key(*entries[i].0));
            assert(tier@.contains_key(*entries[j].0));
        }
        assert forall|id: u64| #[trigger] page_views(tier@).contains_key(id) implies exists|i: int|
            0 <= i < infos@.len() && infos@[i].id == id by {
            assert(entries.contains((&id, &tier@[id])));
            let i = choose|i: int| 0 <= i < entries.len() && entries[i] == (&id, &tier@[id]);
            assert(infos@[i].id == id);
        }
    }
    infos
}

} // verus!
