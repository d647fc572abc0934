use tiered_memory::algorithms::fifo::FifoReplacer;
use tiered_memory::algorithms::PageReplacer;

#[test]
fn empty_replacer_has_no_victim() {
    let mut r = FifoReplacer::new();
    assert_eq!(r.select_victim(), None);
    assert_eq!(r.select_victim(), None);
}

#[test]
fn victims_come_in_admission_order() {
    let mut r = FifoReplacer::new();
    r.record_access(7);
    r.record_access(3);
    r.record_access(9);
    assert_eq!(r.select_victim(), Some(7));
    assert_eq!(r.select_victim(), Some(3));
    assert_eq!(r.select_victim(), Some(9));
    assert_eq!(r.select_victim(), None);
}

#[test]
fn repeated_access_does_not_reorder() {
    let mut r = FifoReplacer::new();
    r.record_access(1);
    r.record_access(2);
    r.record_access(1);
    r.record_access(3);
    r.record_access(1);
    assert_eq!(r.select_victim(), Some(1));
    assert_eq!(r.select_victim(), Some(2));
    assert_eq!(r.select_victim(), Some(3));
    assert_eq!(r.select_victim(), None);
}

#[test]
fn a_page_can_be_admitted_again_after_eviction() {
    let mut r = FifoReplacer::new();
    r.record_access(1);
    r.record_access(2);
    assert_eq!(r.select_victim(), Some(1));
    r.record_access(1);
    assert_eq!(r.select_victim(), Some(2));
    assert_eq!(r.select_victim(), Some(1));
    assert_eq!(r.select_victim(), None);
}
