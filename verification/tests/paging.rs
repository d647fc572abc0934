use tiered_memory::kv_store::memory_manager::{MemoryManager, MemoryStatus};
use tiered_memory::kv_store::page::PageInfo;

fn manager(capacity: usize) -> MemoryManager {
    MemoryManager::with_capacity(capacity).expect("a capacity above zero")
}

fn keys_of(pages: &[PageInfo]) -> Vec<String> {
    let mut keys: Vec<String> = pages.iter().map(|p| p.key.clone()).collect();
    keys.sort();
    keys
}

fn find<'a>(pages: &'a [PageInfo], key: &str) -> Option<&'a PageInfo> {
    pages.iter().find(|p| p.key == key)
}

fn check_invariants(status: &MemoryStatus) {
    assert!(status.primary_used <= status.primary_capacity);
    assert_eq!(status.primary_used, status.primary_pages.len());
    assert_eq!(status.secondary_used, status.secondary_pages.len());
    for p in &status.primary_pages {
        assert!(status.secondary_pages.iter().all(|q| q.id != p.id));
    }
    let mut ids: Vec<u64> =
        status.primary_pages.iter().chain(status.secondary_pages.iter()).map(|p| p.id).collect();
    ids.sort();
    let before = ids.len();
    ids.dedup();
    assert_eq!(ids.len(), before);
    assert!(status.page_faults <= status.total_operations);
}

#[test]
fn new_manager_is_empty_with_capacity_five() {
    let m = MemoryManager::new();
    let status = m.get_status();
    assert!(status.primary_pages.is_empty());
    assert!(status.secondary_pages.is_empty());
    assert_eq!(status.primary_used, 0);
    assert_eq!(status.secondary_used, 0);
    assert_eq!(status.primary_capacity, 5);
    assert_eq!(status.page_faults, 0);
    assert_eq!(status.total_operations, 0);
    assert_eq!(m.page_faults(), 0);
    assert_eq!(m.total_operations(), 0);
}

#[test]
fn zero_capacity_is_rejected() {
    assert!(MemoryManager::with_capacity(0).is_none());
    assert!(MemoryManager::with_capacity(1).is_some());
}

#[test]
fn put_then_get_returns_the_value() {
    let mut m = MemoryManager::new();
    m.put("k".to_string(), b"hello".to_vec());
    assert_eq!(m.get("k"), Some(b"hello".to_vec()));
}

#[test]
fn round_trip_of_empty_and_binary_payloads() {
    let mut m = manager(2);
    let binary: Vec<u8> = vec![0, 255, 128, 10, 13, 0, 7];
    m.put("empty".to_string(), Vec::new());
    m.put("binary".to_string(), binary.clone());
    assert_eq!(m.get("empty"), Some(Vec::new()));
    assert_eq!(m.get("binary"), Some(binary.clone()));
    m.put("third".to_string(), vec![1]);
    m.put("fourth".to_string(), vec![2]);
    assert_eq!(m.get("empty"), Some(Vec::new()));
    assert_eq!(m.get("binary"), Some(binary));
}

#[test]
fn get_of_an_unknown_key_is_none_and_no_fault() {
    let mut m = MemoryManager::new();
    assert_eq!(m.get("missing"), None);
    assert_eq!(m.total_operations(), 1);
    assert_eq!(m.page_faults(), 0);
    let status = m.get_status();
    assert_eq!(status.primary_used, 0);
    assert_eq!(status.secondary_used, 0);
}

#[test]
fn put_on_an_existing_key_updates_the_page_in_place() {
    let mut m = MemoryManager::new();
    m.put_at("k".to_string(), vec![1, 2, 3], 100);
    m.put_at("k".to_string(), vec![9], 200);
    let status = m.get_status();
    assert_eq!(status.primary_used, 1);
    assert_eq!(status.secondary_used, 0);
    let page = find(&status.primary_pages, "k").unwrap();
    assert_eq!(page.id, 0);
    assert_eq!(page.size, 1);
    assert_eq!(page.access_count, 1);
    assert_eq!(page.created_at, 100);
    assert_eq!(page.last_accessed, 200);
    assert_eq!(m.get_at("k", 300), Some(vec![9]));
    let status = m.get_status();
    let page = find(&status.primary_pages, "k").unwrap();
    assert_eq!(page.access_count, 2);
    assert_eq!(page.last_accessed, 300);
    assert_eq!(page.created_at, 100);
    assert_eq!(status.total_operations, 3);
    assert_eq!(status.page_faults, 0);
}

#[test]
fn page_ids_increase_and_are_never_reused() {
    let mut m = manager(2);
    for (i, key) in ["a", "b", "c", "d"].iter().enumerate() {
        m.put_at(key.to_string(), vec![i as u8], 1);
    }
    m.put_at("a".to_string(), vec![42], 2);
    let status = m.get_status();
    let all: Vec<&PageInfo> =
        status.primary_pages.iter().chain(status.secondary_pages.iter()).collect();
    for (i, key) in ["a", "b", "c", "d"].iter().enumerate() {
        let page = all.iter().find(|p| p.key == *key).unwrap();
        assert_eq!(page.id, i as u64);
    }
}

#[test]
fn fifo_order_is_not_changed_by_access() {
    let mut m = manager(3);
    m.put("a".to_string(), b"1".to_vec());
    m.put("b".to_string(), b"2".to_vec());
    m.put("c".to_string(), b"3".to_vec());
    assert_eq!(m.get("a"), Some(b"1".to_vec()));
    assert_eq!(m.get("a"), Some(b"1".to_vec()));
    m.put("d".to_string(), b"4".to_vec());
    let status = m.get_status();
    assert_eq!(keys_of(&status.secondary_pages), vec!["a"]);
    assert_eq!(keys_of(&status.primary_pages), vec!["b", "c", "d"]);
    m.put("e".to_string(), b"5".to_vec());
    let status = m.get_status();
    assert_eq!(keys_of(&status.secondary_pages), vec!["a", "b"]);
    assert_eq!(keys_of(&status.primary_pages), vec!["c", "d", "e"]);
    assert_eq!(status.page_faults, 0);
}

#[test]
fn fifo_order_without_access() {
    let mut m = manager(3);
    for key in ["a", "b", "c", "d"] {
        m.put(key.to_string(), key.as_bytes().to_vec());
    }
    assert_eq!(keys_of(&m.get_status().secondary_pages), vec!["a"]);
    m.put("e".to_string(), b"e".to_vec());
    assert_eq!(keys_of(&m.get_status().secondary_pages), vec!["a", "b"]);
}

#[test]
fn fault_accounting() {
    let mut m = manager(2);
    m.put("a".to_string(), b"va".to_vec());
    m.put("b".to_string(), b"vb".to_vec());
    m.put("c".to_string(), b"vc".to_vec());
    assert_eq!(m.page_faults(), 0);
    assert_eq!(keys_of(&m.get_status().secondary_pages), vec!["a"]);
    assert_eq!(m.get("a"), Some(b"va".to_vec()));
    assert_eq!(m.page_faults(), 1);
    assert_eq!(m.get("a"), Some(b"va".to_vec()));
    assert_eq!(m.page_faults(), 1);
    assert_eq!(m.total_operations(), 5);
    assert_eq!(m.get_status().hit_count(), 4);
}

#[test]
fn put_on_a_secondary_page_counts_a_fault_and_promotes_it() {
    let mut m = manager(2);
    m.put_at("a".to_string(), vec![1], 1);
    m.put_at("b".to_string(), vec![2], 2);
    m.put_at("c".to_string(), vec![3], 3);
    m.put_at("a".to_string(), vec![7, 7], 4);
    assert_eq!(m.page_faults(), 1);
    let status = m.get_status();
    assert_eq!(keys_of(&status.primary_pages), vec!["a", "c"]);
    assert_eq!(keys_of(&status.secondary_pages), vec!["b"]);
    let a = find(&status.primary_pages, "a").unwrap();
    assert_eq!(a.id, 0);
    assert_eq!(a.size, 2);
    assert_eq!(a.access_count, 1);
    assert_eq!(a.last_accessed, 4);
    assert_eq!(a.created_at, 1);
    assert_eq!(m.get_at("a", 5), Some(vec![7, 7]));
    assert_eq!(m.page_faults(), 1);
}

#[test]
fn eviction_leaves_the_page_untouched() {
    let mut m = manager(1);
    m.put_at("a".to_string(), vec![1, 2, 3], 50);
    m.put_at("b".to_string(), vec![4], 60);
    let status = m.get_status();
    let a = find(&status.secondary_pages, "a").unwrap();
    assert_eq!(a.id, 0);
    assert_eq!(a.size, 3);
    assert_eq!(a.access_count, 0);
    assert_eq!(a.last_accessed, 50);
    assert_eq!(a.created_at, 50);
}

#[test]
fn scenario_with_capacity_two() {
    let mut m = manager(2);
    m.put("x".to_string(), b"1".to_vec());
    m.put("y".to_string(), b"2".to_vec());
    m.put("z".to_string(), b"3".to_vec());
    let status = m.get_status();
    assert_eq!(keys_of(&status.secondary_pages), vec!["x"]);
    assert_eq!(keys_of(&status.primary_pages), vec!["y", "z"]);
    assert_eq!(m.get("x"), Some(b"1".to_vec()));
    assert_eq!(m.page_faults(), 1);
    let status = m.get_status();
    assert_eq!(keys_of(&status.secondary_pages), vec!["y"]);
    assert_eq!(keys_of(&status.primary_pages), vec!["x", "z"]);
    assert_eq!(status.page_faults, 1);
    assert_eq!(status.total_operations, 4);
}

#[test]
fn clear_restores_the_state_of_a_new_manager() {
    let mut m = MemoryManager::new();
    for i in 0..8u8 {
        m.put(format!("k{}", i), vec![i]);
    }
    assert_eq!(m.get("k0"), Some(vec![0]));
    assert!(m.page_faults() > 0);
    m.clear();
    let status = m.get_status();
    let fresh = MemoryManager::new().get_status();
    assert!(status.primary_pages.is_empty());
    assert!(status.secondary_pages.is_empty());
    assert_eq!(status.primary_used, fresh.primary_used);
    assert_eq!(status.secondary_used, fresh.secondary_used);
    assert_eq!(status.primary_capacity, fresh.primary_capacity);
    assert_eq!(status.page_faults, 0);
    assert_eq!(status.total_operations, 0);
    assert_eq!(m.get("k0"), None);
    m.put_at("again".to_string(), vec![1], 9);
    let status = m.get_status();
    assert_eq!(find(&status.primary_pages, "again").unwrap().id, 0);
}

#[test]
fn clear_keeps_the_capacity() {
    let mut m = manager(2);
    m.put("a".to_string(), vec![1]);
    m.clear();
    assert_eq!(m.get_status().primary_capacity, 2);
}

#[test]
fn invariants_hold_after_every_operation() {
    let mut m = manager(3);
    let keys = ["a", "b", "c", "d", "e", "f", "g"];
    let mut step: usize = 0;
    for round in 0..6usize {
        for (i, key) in keys.iter().enumerate() {
            step += 1;
            if (i + round) % 3 == 0 {
                let _ = m.get(key);
            } else {
                m.put(key.to_string(), vec![round as u8, i as u8]);
            }
            let status = m.get_status();
            check_invariants(&status);
            assert_eq!(status.total_operations, step as u64);
            assert_eq!(status.primary_capacity, 3);
        }
    }
    let status = m.get_status();
    assert_eq!(status.primary_used, 3);
    assert_eq!(status.primary_used + status.secondary_used, keys.len());
}

#[test]
fn status_does_not_change_the_manager() {
    let mut m = manager(2);
    m.put_at("a".to_string(), vec![1], 1);
    m.put_at("b".to_string(), vec![2], 2);
    m.put_at("c".to_string(), vec![3], 3);
    let first = m.get_status();
    let second = m.get_status();
    assert_eq!(first.total_operations, 3);
    assert_eq!(second.total_operations, 3);
    assert_eq!(first.page_faults, second.page_faults);
    assert_eq!(keys_of(&first.primary_pages), keys_of(&second.primary_pages));
    assert_eq!(keys_of(&first.secondary_pages), keys_of(&second.secondary_pages));
    let a1 = find(&first.secondary_pages, "a").unwrap();
    let a2 = find(&second.secondary_pages, "a").unwrap();
    assert_eq!(a1.access_count, a2.access_count);
    assert_eq!(a1.last_accessed, a2.last_accessed);
}

#[test]
fn status_reports_sizes_and_counters() {
    let mut m = MemoryManager::new();
    m.put_at("a".to_string(), vec![1, 2, 3, 4], 7);
    let _ = m.get_at("nothing", 8);
    let status = m.get_status();
    assert_eq!(status.primary_used, 1);
    assert_eq!(status.secondary_used, 0);
    assert_eq!(status.primary_capacity, 5);
    assert_eq!(status.total_operations, 2);
    assert_eq!(status.page_faults, 0);
    assert_eq!(status.hit_count(), 2);
    let a = &status.primary_pages[0];
    assert_eq!(a.key, "a");
    assert_eq!(a.size, 4);
    assert_eq!(a.access_count, 0);
    assert_eq!(a.last_accessed, 7);
    assert_eq!(a.created_at, 7);
}

#[test]
fn clock_variants_stamp_a_plausible_time() {
    let mut m = MemoryManager::new();
    m.put("a".to_string(), vec![1]);
    let status = m.get_status();
    let a = &status.primary_pages[0];
    assert!(a.created_at > 1_600_000_000);
    assert_eq!(a.created_at, a.last_accessed);
    let _ = m.get("a");
    let status = m.get_status();
    let a = &status.primary_pages[0];
    assert!(a.last_accessed >= a.created_at);
    assert_eq!(a.access_count, 1);
}

#[test]
fn there_is_room_while_the_counters_are_small() {
    let mut m = MemoryManager::new();
    assert!(m.has_room("a"));
    m.put("a".to_string(), vec![1]);
    assert!(m.has_room("a"));
    assert!(m.has_room("never written"));
}

#[test]
fn hit_rate_from_the_hit_count() {
    let mut m = manager(2);
    assert_eq!(m.get_status().hit_count(), 0);
    m.put("a".to_string(), vec![1]);
    m.put("b".to_string(), vec![2]);
    m.put("c".to_string(), vec![3]);
    let _ = m.get("a");
    let _ = m.get("a");
    let status = m.get_status();
    assert_eq!(status.total_operations, 5);
    assert_eq!(status.page_faults, 1);
    assert_eq!(status.hit_count(), 4);
    let rate = status.hit_count() as f64 / status.total_operations as f64 * 100.0;
    assert_eq!(rate, 80.0);
}
