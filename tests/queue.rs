use collector::queue::{batch_file_name, batch_id_from_file_name, rebuild_index, reconcile_index, OfflineQueue};

fn names(v: &[&str]) -> Vec<String> {
    v.iter().map(|s| s.to_string()).collect()
}

#[test]
fn file_names_round_trip() {
    assert_eq!(batch_file_name("abc"), "batch_abc.json");
    assert_eq!(batch_id_from_file_name("batch_abc.json"), Some("abc".to_string()));
    assert_eq!(batch_id_from_file_name("batch_.json"), None);
    assert_eq!(batch_id_from_file_name("batch_abc.json.tmp"), None);
    assert_eq!(batch_id_from_file_name("queue_index.json"), None);
    assert_eq!(batch_id_from_file_name("batch_x.json"), Some("x".to_string()));
}

#[test]
fn rebuild_sorts_and_filters() {
    let listing = names(&["batch_c.json", "queue_index.json", "batch_a.json", "batch_b.json.tmp", "batch_b.json"]);
    assert_eq!(rebuild_index(&listing), names(&["a", "b", "c"]));
}

#[test]
fn recovery_without_index_counts_every_batch_file() {
    let listing = names(&["batch_3.json", "batch_1.json", "batch_2.json", "batch_0.json"]);
    let q = OfflineQueue::new(10, None, &listing);
    assert_eq!(q.len(), 4);
    assert_eq!(q.batch_order(), &names(&["0", "1", "2", "3"]));
}

#[test]
fn stored_index_reconciled_with_files() {
    let q = OfflineQueue::new(10, Some(names(&["z", "a"])), &names(&["batch_q.json"]));
    assert_eq!(q.batch_order(), &names(&["q"]));
    let listing = names(&["batch_c.json", "batch_a.json", "batch_b.json", "queue_index.json"]);
    let q = OfflineQueue::new(10, Some(names(&["b", "x", "a", "b"])), &listing);
    assert_eq!(q.batch_order(), &names(&["b", "a", "c"]));
}

#[test]
fn reconcile_keeps_index_order_then_new_files() {
    assert_eq!(reconcile_index(&names(&["3", "1"]), &names(&["1", "2", "3"])), names(&["3", "1", "2"]));
    assert_eq!(reconcile_index(&names(&[]), &names(&[])), names(&[]));
}

#[test]
fn fifo_order() {
    let mut q = OfflineQueue::new(10, None, &vec![]);
    assert!(q.enqueue("A".to_string()).is_empty());
    assert!(q.enqueue("B".to_string()).is_empty());
    assert_eq!(q.dequeue(), Some("A".to_string()));
    assert_eq!(q.dequeue(), Some("B".to_string()));
    assert_eq!(q.dequeue(), None);
    assert!(q.is_empty());
}

#[test]
fn round_trip_keeps_the_id() {
    let mut q = OfflineQueue::new(3, None, &vec![]);
    q.enqueue("0190-batch".to_string());
    assert_eq!(q.dequeue(), Some("0190-batch".to_string()));
}

#[test]
fn capacity_evicts_oldest() {
    let mut q = OfflineQueue::new(3, None, &vec![]);
    for id in ["1", "2", "3"] {
        assert!(q.enqueue(id.to_string()).is_empty());
    }
    assert_eq!(q.enqueue("4".to_string()), names(&["1"]));
    assert_eq!(q.len(), 3);
    assert_eq!(q.batch_order(), &names(&["2", "3", "4"]));
}

#[test]
fn oversized_index_trimmed_on_enqueue() {
    let files = names(&["batch_a.json", "batch_b.json", "batch_c.json"]);
    let mut q = OfflineQueue::new(2, Some(names(&["a", "b", "c"])), &files);
    assert_eq!(q.enqueue("d".to_string()), names(&["a", "b"]));
    assert_eq!(q.batch_order(), &names(&["c", "d"]));
}

#[test]
fn zero_capacity_keeps_nothing() {
    let mut q = OfflineQueue::new(0, None, &vec![]);
    assert_eq!(q.enqueue("x".to_string()), names(&["x"]));
    assert!(q.is_empty());
}

#[test]
fn clear_returns_everything() {
    let mut q = OfflineQueue::new(5, Some(names(&["a", "b"])), &names(&["batch_a.json", "batch_b.json"]));
    assert_eq!(q.clear(), names(&["a", "b"]));
    assert_eq!(q.len(), 0);
    assert_eq!(q.max_batches(), 5);
}
