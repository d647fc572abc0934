//! What holds of the model: the invariants survive every operation, and the
//! operations answer to each other as a key-value store must.

use super::model::{ManagerView, Operation};
use super::page::PageView;
use crate::algorithms::fifo::{lemma_fifo_pop, lemma_fifo_record};
use vstd::prelude::*;

verus! {

/// Admission keeps the tiers in order. The page that enters is in the primary
/// tier afterwards, every page that was resident stays resident and unchanged
/// (the evicted one moves to the secondary tier as it was), and nothing else
/// becomes resident.
pub proof fn lemma_admitted(s: ManagerView, page: PageView)
    requires
        s.tiers_wf(),
        !s.resident(page.id),
        page.id < s.next_id,
    ensures
        s.admitted(page).tiers_wf(),
        s.admitted(page).primary.contains_key(page.id),
        s.admitted(page).primary[page.id] == page,
        forall|id: u64|
            #![trigger s.admitted(page).resident(id)]
            s.admitted(page).resident(id) <==> s.resident(id) || id == page.id,
        forall|id: u64|
            #![trigger s.admitted(page).page(id)]
            s.resident(id) ==> s.admitted(page).page(id) == s.page(id),
{
    lemma_fifo_pop(s.order);
    if s.primary.dom().len() < s.capacity {
        lemma_fifo_record(s.order, page.id);
    } else {
        lemma_fifo_record(s.order.drop_first(), page.id);
    }
}

/// Where the key's page lies in the secondary tier, the state in which the
/// page has left that tier has its tiers in order and does not hold the page.
proof fn lemma_faulted(s: ManagerView, key: Seq<char>)
    requires
        s.wf(),
        s.key_index.contains_key(key),
        !s.primary.contains_key(s.key_index[key]),
    ensures
        s.counted().faulted(s.key_index[key]).tiers_wf(),
        !s.counted().faulted(s.key_index[key]).resident(s.key_index[key]),
        s.key_index[key] < s.next_id,
        s.secondary.contains_key(s.key_index[key]),
{
    assert(s.resident(s.key_index[key]));
}

/// For a key without a page, the state in which the key has been given the
/// next id has its tiers in order and holds no page of that id.
proof fn lemma_indexed(s: ManagerView, key: Seq<char>)
    requires
        s.wf(),
        s.total_operations < u64::MAX,
        !s.key_index.contains_key(key),
    ensures
        s.counted().indexed(key).tiers_wf(),
        !s.counted().indexed(key).resident(s.next_id),
        s.next_id < s.counted().indexed(key).next_id,
{
    assert(!s.resident(s.next_id));
}

/// A state that differs from a well-formed one only in what the page `id`
/// holds besides its id and key, in which tier each page lies, and in larger
/// counters, is well formed if its tiers are in order.
proof fn lemma_touched_wf(s: ManagerView, t: ManagerView, id: u64)
    requires
        s.wf(),
        s.resident(id),
        t.tiers_wf(),
        t.key_index == s.key_index,
        t.next_id == s.next_id,
        s.total_operations <= t.total_operations,
        t.page_faults <= t.total_operations,
        t.page(id).key == s.page(id).key,
        forall|i: u64| #[trigger] t.resident(i) <==> s.resident(i),
        forall|i: u64| s.resident(i) && i != id ==> #[trigger] t.page(i) == s.page(i),
    ensures
        t.wf(),
{
    assert forall|k: Seq<char>| #[trigger] t.key_index.contains_key(k) implies t.resident(
        t.key_index[k],
    ) && t.page(t.key_index[k]).key == k by {
        assert(s.resident(s.key_index[k]));
    }
    assert forall|i: u64| #[trigger] t.resident(i) implies t.key_index.contains_key(t.page(i).key)
        && t.key_index[t.page(i).key] == i by {
        assert(s.resident(i));
    }
}

/// `put` keeps the state well formed.
pub proof fn lemma_put_wf(s: ManagerView, key: Seq<char>, value: Seq<u8>, now: u64)
    requires
        s.wf(),
        s.has_room(key),
    ensures
        s.put(key, value, now).wf(),
{
    let t = s.put(key, value, now);
    if s.key_index.contains_key(key) {
        let id = s.key_index[key];
        assert(s.resident(id));
        if s.primary.contains_key(id) {
            assert(t.primary.dom() =~= s.primary.dom());
        } else {
            lemma_faulted(s, key);
            lemma_admitted(s.counted().faulted(id), s.page(id).with_value(value).accessed(now));
        }
        lemma_touched_wf(s, t, id);
    } else {
        lemma_indexed(s, key);
        lemma_admitted(s.counted().indexed(key), PageView::fresh(s.next_id, key, value, now));
        assert forall|k: Seq<char>| #[trigger] t.key_index.contains_key(k) implies t.resident(
            t.key_index[k],
        ) && t.page(t.key_index[k]).key == k by {
            if k != key {
                assert(s.resident(s.key_index[k]));
            }
        }
        assert forall|i: u64| #[trigger] t.resident(i) implies t.key_index.contains_key(
            t.page(i).key,
        ) && t.key_index[t.page(i).key] == i by {
            if i != s.next_id {
                assert(s.resident(i));
            }
        }
    }
}

/// `get` keeps the state well formed.
pub proof fn lemma_get_wf(s: ManagerView, key: Seq<char>, now: u64)
    requires
        s.wf(),
        s.has_room(key),
    ensures
        s.get(key, now).wf(),
{
    let t = s.get(key, now);
    if s.key_index.contains_key(key) {
        let id = s.key_index[key];
        assert(s.resident(id));
        if s.primary.contains_key(id) {
            assert(t.primary.dom() =~= s.primary.dom());
        } else {
            lemma_faulted(s, key);
            lemma_admitted(s.counted().faulted(id), s.page(id).accessed(now));
        }
        lemma_touched_wf(s, t, id);
    } else {
        assert forall|i: u64| #[trigger] t.resident(i) implies t.key_index.contains_key(
            t.page(i).key,
        ) && t.key_index[t.page(i).key] == i by {
            assert(s.resident(i));
        }
    }
}

/// The state of a new manager with room for at least one page is well formed.
pub proof fn lemma_initial_wf(capacity: usize)
    requires
        capacity > 0,
    ensures
        ManagerView::initial(capacity).wf(),
{
    let s = ManagerView::initial(capacity);
    assert(s.order.to_set() =~= s.primary.dom());
}

/// Every operation that the counters leave room for keeps the state well
/// formed.
pub proof fn lemma_step_wf(s: ManagerView, op: Operation)
    requires
        s.wf(),
        s.allows(op),
    ensures
        s.step(op).wf(),
        s.step(op).capacity == s.capacity,
{
    match op {
        Operation::Put { key, value, now } => lemma_put_wf(s, key, value, now),
        Operation::Get { key, now } => lemma_get_wf(s, key, now),
        Operation::Clear => lemma_initial_wf(s.capacity),
    }
}

/// Whatever sequence of operations runs, the state is well formed after every
/// one of them: after each prefix of the sequence the primary tier holds no
/// more pages than its capacity, and no page id is in both tiers.
pub proof fn lemma_run_wf(s: ManagerView, ops: Seq<Operation>, done: int)
    requires
        s.wf(),
        s.allows_all(ops),
        0 <= done <= ops.len(),
    ensures
        s.run(ops.take(done)).wf(),
        s.run(ops.take(done)).capacity == s.capacity,
        s.run(ops.take(done)).primary.dom().len() <= s.capacity,
        s.run(ops.take(done)).primary.dom().disjoint(s.run(ops.take(done)).secondary.dom()),
    decreases done,
{
    if done > 0 {
        lemma_step_wf(s, ops[0]);
        lemma_run_wf(s.step(ops[0]), ops.drop_first(), done - 1);
        assert(ops.take(done).drop_first() =~= ops.drop_first().take(done - 1));
    }
}

/// In a well-formed state no page id is in both tiers.
pub proof fn lemma_single_tier(s: ManagerView, id: u64)
    requires
        s.wf(),
    ensures
        !(s.primary.contains_key(id) && s.secondary.contains_key(id)),
{
}

/// `put` touches the page of its key and no other. A key that has a page keeps
/// it, under the same id: the value is replaced, the access is counted and
/// stamped. A new key gets a fresh page under the next id, which is then used
/// up. Every other key keeps its id, and every other page stays resident and
/// is exactly as it was, whichever tier it ends up in.
pub proof fn lemma_put_touches_one_page(s: ManagerView, key: Seq<char>, value: Seq<u8>, now: u64)
    requires
        s.wf(),
        s.has_room(key),
    ensures
        s.put(key, value, now).key_index == s.key_index.insert(
            key,
            if s.key_index.contains_key(key) {
                s.key_index[key]
            } else {
                s.next_id
            },
        ),
        s.key_index.contains_key(key) ==> {
            let id = s.key_index[key];
            &&& s.put(key, value, now).next_id == s.next_id
            &&& s.put(key, value, now).primary.contains_key(id)
            &&& s.put(key, value, now).primary[id] == s.page(id).with_value(value).accessed(now)
        },
        !s.key_index.contains_key(key) ==> {
            &&& s.put(key, value, now).next_id == s.next_id + 1
            &&& s.put(key, value, now).primary.contains_key(s.next_id)
            &&& s.put(key, value, now).primary[s.next_id] == PageView::fresh(
                s.next_id,
                key,
                value,
                now,
            )
        },
        forall|id: u64|
            #![trigger s.put(key, value, now).page(id)]
            s.resident(id) && !(s.key_index.contains_key(key) && id == s.key_index[key]) ==> s.put(
                key,
                value,
                now,
            ).resident(id) && s.put(key, value, now).page(id) == s.page(id),
{
    if s.key_index.contains_key(key) {
        let id = s.key_index[key];
        assert(s.key_index.insert(key, id) =~= s.key_index);
        if !s.primary.contains_key(id) {
            lemma_faulted(s, key);
            lemma_admitted(s.counted().faulted(id), s.page(id).with_value(value).accessed(now));
        }
    } else {
        lemma_indexed(s, key);
        lemma_admitted(s.counted().indexed(key), PageView::fresh(s.next_id, key, value, now));
    }
}

/// `get` touches the page of its key and no other: the access is counted and
/// stamped, the value stays. No key changes its id, no id is used up, and
/// every other page stays resident and is exactly as it was. A `get` of a key
/// that was never written changes nothing but the operation counter.
pub proof fn lemma_get_touches_one_page(s: ManagerView, key: Seq<char>, now: u64)
    requires
        s.wf(),
        s.has_room(key),
    ensures
        s.get(key, now).key_index == s.key_index,
        s.get(key, now).next_id == s.next_id,
        s.get(key, now).get_value(key) == s.get_value(key),
        s.key_index.contains_key(key) ==> {
            let id = s.key_index[key];
            &&& s.get(key, now).primary.contains_key(id)
            &&& s.get(key, now).primary[id] == s.page(id).accessed(now)
        },
        !s.key_index.contains_key(key) ==> s.get(key, now) == s.counted(),
        forall|id: u64|
            #![trigger s.get(key, now).page(id)]
            s.resident(id) && !(s.key_index.contains_key(key) && id == s.key_index[key]) ==> s.get(
                key,
                now,
            ).resident(id) && s.get(key, now).page(id) == s.page(id),
{
    if s.key_index.contains_key(key) && !s.primary.contains_key(s.key_index[key]) {
        let id = s.key_index[key];
        lemma_faulted(s, key);
        lemma_admitted(s.counted().faulted(id), s.page(id).accessed(now));
    }
}

/// Round trip: after `put(key, value)`, `get(key)` returns exactly `value`,
/// whatever the bytes are.
pub proof fn lemma_put_then_get(s: ManagerView, key: Seq<char>, value: Seq<u8>, now: u64)
    requires
        s.wf(),
    ensures
        s.put(key, value, now).get_value(key) == Some(value),
{
    if s.key_index.contains_key(key) {
        assert(s.resident(s.key_index[key]));
    }
}

/// `clear` leaves exactly the state of a new manager of the same capacity,
/// whatever the state was: no page, no key, the counters and the id generator
/// at zero.
pub proof fn lemma_clear_is_initial(s: ManagerView)
    ensures
        s.clear() == ManagerView::initial(s.capacity),
        s.clear().primary.dom() == Set::<u64>::empty(),
        s.clear().secondary.dom() == Set::<u64>::empty(),
        s.clear().key_index.dom() == Set::<Seq<char>>::empty(),
        s.clear().order.len() == 0,
        s.clear().next_id == 0,
        s.clear().page_faults == 0,
        s.clear().total_operations == 0,
        s.capacity > 0 ==> s.clear().wf(),
{
    if s.capacity > 0 {
        lemma_initial_wf(s.capacity);
    }
}

/// Fault accounting: an operation on `key` counts one page fault if the key's
/// page lay in the secondary tier, and none if it lay in the primary tier or
/// if the key is new. Either way it counts as one operation.
pub proof fn lemma_fault_accounting(s: ManagerView, key: Seq<char>, value: Seq<u8>, now: u64)
    requires
        s.wf(),
        s.has_room(key),
    ensures
        s.put(key, value, now).total_operations == s.total_operations + 1,
        s.get(key, now).total_operations == s.total_operations + 1,
        s.put(key, value, now).page_faults == s.get(key, now).page_faults,
        s.get(key, now).page_faults == s.page_faults + (if s.key_index.contains_key(key)
            && s.secondary.contains_key(s.key_index[key]) {
            1int
        } else {
            0int
        }),
{
    if s.key_index.contains_key(key) {
        assert(s.resident(s.key_index[key]));
    }
}

/// First in, first out: an access to a page of the primary tier leaves the
/// admission order as it is, so it does not protect the page from eviction.
pub proof fn lemma_hit_keeps_order(s: ManagerView, key: Seq<char>, value: Seq<u8>, now: u64)
    requires
        s.key_index.contains_key(key),
        s.primary.contains_key(s.key_index[key]),
    ensures
        s.get(key, now).order == s.order,
        s.put(key, value, now).order == s.order,
{
}

/// First in, first out: when the primary tier is full, a `put` that brings in
/// another page (for a new key, or for a key whose page lies in the secondary
/// tier) evicts the page that was admitted first, and no other. The evicted
/// page reaches the secondary tier unchanged, and the pages that stay keep
/// their order, ahead of the page that came in.
pub proof fn lemma_put_evicts_oldest(s: ManagerView, key: Seq<char>, value: Seq<u8>, now: u64)
    requires
        s.wf(),
        s.has_room(key),
        s.primary.dom().len() == s.capacity,
        !(s.key_index.contains_key(key) && s.primary.contains_key(s.key_index[key])),
    ensures
        s.order.len() > 0,
        s.primary.contains_key(s.order[0]),
        !s.put(key, value, now).primary.contains_key(s.order[0]),
        s.put(key, value, now).secondary.contains_key(s.order[0]),
        s.put(key, value, now).secondary[s.order[0]] == s.primary[s.order[0]],
        forall|id: u64|
            s.primary.contains_key(id) && id != s.order[0] ==> #[trigger] s.put(
                key,
                value,
                now,
            ).primary.contains_key(id),
        s.put(key, value, now).order.len() == s.order.len(),
        forall|i: int|
            0 <= i < s.order.len() - 1 ==> #[trigger] s.put(key, value, now).order[i] == s.order[i
                + 1],
{
    lemma_fifo_pop(s.order);
    if s.key_index.contains_key(key) {
        lemma_faulted(s, key);
    } else {
        lemma_indexed(s, key);
    }
}

/// First in, first out: when the primary tier is full, a `get` of a key whose
/// page lies in the secondary tier evicts the page that was admitted first,
/// and no other, in the same way as `put` does.
pub proof fn lemma_get_evicts_oldest(s: ManagerView, key: Seq<char>, now: u64)
    requires
        s.wf(),
        s.has_room(key),
        s.primary.dom().len() == s.capacity,
        s.key_index.contains_key(key),
        s.secondary.contains_key(s.key_index[key]),
    ensures
        s.order.len() > 0,
        s.primary.contains_key(s.order[0]),
        !s.get(key, now).primary.contains_key(s.order[0]),
        s.get(key, now).secondary.contains_key(s.order[0]),
        s.get(key, now).secondary[s.order[0]] == s.primary[s.order[0]],
        forall|id: u64|
            s.primary.contains_key(id) && id != s.order[0] ==> #[trigger] s.get(
                key,
                now,
            ).primary.contains_key(id),
        s.get(key, now).order.len() == s.order.len(),
        forall|i: int|
            0 <= i < s.order.len() - 1 ==> #[trigger] s.get(key, now).order[i] == s.order[i + 1],
{
    lemma_fifo_pop(s.order);
    lemma_faulted(s, key);
}

} // verus!
