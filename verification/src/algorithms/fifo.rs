//! First-in, first-out replacement.

use super::PageReplacer;
use std::collections::VecDeque;
use vstd::prelude::*;

verus! {

/// Evicts pages in the order in which they were admitted. A repeated access
/// does not move a page within that order.
pub struct FifoReplacer {
    queue: VecDeque<u64>,
}

impl View for FifoReplacer {
    type V = Seq<u64>;

    /// The resident page ids, the one admitted first at index 0.
    closed spec fn view(&self) -> Seq<u64> {
        self.queue@
    }
}

/// What `record_access` does to the admission order: a page that is already
/// resident keeps its place, a new one goes to the back.
pub open spec fn fifo_record(order: Seq<u64>, page_id: u64) -> Seq<u64> {
    if order.contains(page_id) {
        order
    } else {
        order.push(page_id)
    }
}

impl FifoReplacer {
    /// A replacer that holds no page.
    pub fn new() -> (r: Self)
        ensures
            r@ == Seq::<u64>::empty(),
            r.well_formed(),
    {
        Self { queue: VecDeque::new() }
    }

    /// Whether `page_id` is resident.
    fn is_resident(&self, page_id: u64) -> (found: bool)
        ensures
            found == self@.contains(page_id),
    {
        let n = self.queue.len();
        let mut i: usize = 0;
        while i < n
            invariant
                n == self.queue@.len(),
                i <= n,
                forall|j: int| 0 <= j < i ==> self.queue@[j] != page_id,
            decreases n - i,
        {
            if self.queue[i] == page_id {
                return true;
            }
            i += 1;
        }
        false
    }
}

impl PageReplacer for FifoReplacer {
    open spec fn resident(&self) -> Set<u64> {
        self@.to_set()
    }

    open spec fn well_formed(&self) -> bool {
        self@.no_duplicates()
    }

    fn record_access(&mut self, page_id: u64)
        ensures
            final(self)@ == fifo_record(old(self)@, page_id),
    {
        if !self.is_resident(page_id) {
            self.queue.push_back(page_id);
        }
        proof {
            lemma_fifo_record(old(self)@, page_id);
        }
    }

    fn select_victim(&mut self) -> (victim: Option<u64>)
        ensures
            victim == (if old(self)@.len() == 0 {
                None
            } else {
                Some(old(self)@[0])
            }),
            final(self)@ == (if old(self)@.len() == 0 {
                old(self)@
            } else {
                old(self)@.drop_first()
            }),
    {
        let victim = self.queue.pop_front();
        proof {
            lemma_fifo_pop(old(self)@);
        }
        victim
    }
}

/// Recording an access a second time changes nothing: the page keeps the place
/// that the first access gave it.
pub proof fn lemma_fifo_record_again(order: Seq<u64>, page_id: u64)
    ensures
        fifo_record(order, page_id).contains(page_id),
        fifo_record(fifo_record(order, page_id), page_id) == fifo_record(order, page_id),
{
    if !order.contains(page_id) {
        assert(order.push(page_id)[order.len() as int] == page_id);
    }
}

/// Recording an access keeps the order free of duplicates and adds the page to
/// the resident set.
pub proof fn lemma_fifo_record(order: Seq<u64>, page_id: u64)
    requires
        order.no_duplicates(),
    ensures
        fifo_record(order, page_id).no_duplicates(),
        fifo_record(order, page_id).to_set() == order.to_set().insert(page_id),
{
    let next = fifo_record(order, page_id);
    assert forall|x: u64| order.to_set().insert(page_id).contains(x) implies next.contains(x) by {
        if order.contains(x) {
            let i = choose|i: int| 0 <= i < order.len() && order[i] == x;
            assert(next[i] == x);
        } else {
            assert(next[order.len() as int] == x);
        }
    }
}

/// Taking the front of an order without duplicates removes exactly that page
/// from the resident set.
pub proof fn lemma_fifo_pop(order: Seq<u64>)
    requires
        order.no_duplicates(),
    ensures
        order.len() == 0 ==> order.to_set() == Set::<u64>::empty(),
        order.len() > 0 ==> {
            let rest = order.drop_first();
            &&& rest.no_duplicates()
            &&& order.to_set().contains(order[0])
            &&& rest.to_set() == order.to_set().remove(order[0])
        },
{
    if order.len() > 0 {
        let rest = order.drop_first();
        assert forall|x: u64| order.to_set().remove(order[0]).contains(x) implies rest.contains(
            x,
        ) by {
            let i = choose|i: int| 0 <= i < order.len() && order[i] == x;
            assert(rest[i - 1] == x);
        }
    }
}

} // verus!
