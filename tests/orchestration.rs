use collector::batch::BatchManager;
use collector::config::CollectorConfig;
use collector::manager::{Orchestrator, Origin, SendOutcome, Work, DRAIN_COOLDOWN_MS, LONG_COOLDOWN_MS};
use collector::queue::OfflineQueue;
use collector::types::TransmissionStatus;

fn config(max_size: usize) -> CollectorConfig {
    let mut c = CollectorConfig::default();
    c.batch_max_size = max_size;
    c
}

fn empty_queue(max: usize) -> OfflineQueue {
    OfflineQueue::new(max, None, &vec![])
}

fn connect(o: &mut Orchestrator, now: i64) {
    assert!(matches!(o.tick(now).work, Work::Connect));
    assert_eq!(o.get_status(), TransmissionStatus::Connecting);
    o.on_connect_result(Ok(()), now);
    assert_eq!(o.get_status(), TransmissionStatus::Authenticating);
    o.on_auth_result(Ok(()), now);
    assert_eq!(o.get_status(), TransmissionStatus::Connected);
}

#[test]
fn size_threshold_reached_exactly_at_max() {
    let mut b = BatchManager::new(&config(5), empty_queue(10), 0);
    for i in 0..5 {
        assert!(!b.should_flush(1_000));
        b.add_event(format!("e{}", i));
    }
    assert!(b.should_flush(1_000));
}

#[test]
fn time_threshold_with_one_event() {
    let mut b = BatchManager::new(&config(100), empty_queue(10), 0);
    assert!(!b.should_flush(60_000));
    b.add_event("e".to_string());
    assert!(!b.should_flush(59_999));
    assert!(b.should_flush(60_000));
}

#[test]
fn flush_takes_at_most_max_size() {
    let mut b = BatchManager::new(&config(3), empty_queue(10), 0);
    for i in 0..7 {
        b.add_event(format!("e{}", i));
    }
    assert_eq!(b.flush(1).unwrap().events, vec!["e0", "e1", "e2"]);
    assert_eq!(b.current_batch_size(), 4);
    assert_eq!(b.flush(2).unwrap().events, vec!["e3", "e4", "e5"]);
    assert_eq!(b.flush(3).unwrap().events, vec!["e6"]);
    assert!(b.flush(4).is_none());
    let mut z = BatchManager::new(&config(0), empty_queue(10), 0);
    z.add_event("x".to_string());
    z.add_event("y".to_string());
    assert_eq!(z.flush(1).unwrap().events, vec!["x", "y"]);
}

#[test]
fn zero_capacity_queue_writes_no_file() {
    let mut o = Orchestrator::new(config(10), empty_queue(0), 0);
    o.append_formatted_event("a".to_string());
    let (batch, persisted) = o.flush_on_afk(1);
    assert_eq!(persisted.evicted, vec![batch.unwrap().batch_id]);
    assert!(!persisted.write_file);
}

#[test]
fn flush_drains_in_order_with_fresh_id() {
    let mut b = BatchManager::new(&config(100), empty_queue(10), 0);
    assert!(b.flush(5).is_none());
    b.add_event("a".to_string());
    b.add_event("b".to_string());
    let batch = b.flush(7).unwrap();
    assert_eq!(batch.events, vec!["a".to_string(), "b".to_string()]);
    assert_eq!(batch.created_at_ms, 7);
    assert_eq!(batch.batch_id.len(), 36);
    assert_eq!(b.current_batch_size(), 0);
    let next = {
        b.add_event("c".to_string());
        b.flush(8).unwrap()
    };
    assert_ne!(next.batch_id, batch.batch_id);
}

#[test]
fn statistics_and_pending_estimate() {
    let mut b = BatchManager::new(&config(100), empty_queue(10), 0);
    b.add_event("a".to_string());
    b.enqueue_batch("q1".to_string());
    assert_eq!(b.pending_events(), 1 + 50);
    b.record_error("boom".to_string());
    b.increment_retry_attempts();
    let s = b.get_statistics(TransmissionStatus::Connected);
    assert_eq!(s.last_error, Some("boom".to_string()));
    assert_eq!(s.retry_attempts, 1);
    assert_eq!(s.connection_status, TransmissionStatus::Connected);
    b.record_success(10, 99);
    let s = b.get_statistics(TransmissionStatus::Disconnected);
    assert_eq!(s.total_events_sent, 10);
    assert_eq!(s.total_batches_sent, 1);
    assert_eq!(s.last_sync_time_ms, Some(99));
    assert_eq!(s.retry_attempts, 0);
    assert_eq!(s.last_error, None);
    assert_eq!(b.clear_queue(), vec!["q1".to_string()]);
}

#[test]
fn one_tick_sends_full_batch_and_keeps_later_events() {
    let mut o = Orchestrator::new(config(100), empty_queue(10), 0);
    connect(&mut o, 0);
    for i in 0..150 {
        o.append_formatted_event(format!("line{}", i));
    }
    let plan = o.tick(1_000);
    let batch = match plan.work {
        Work::SendLive(b) => b,
        _ => panic!("expected a live batch"),
    };
    let expected: Vec<String> = (0..100).map(|i| format!("line{}", i)).collect();
    assert_eq!(batch.events, expected);
    assert!(matches!(o.tick(1_500).work, Work::Idle));
    o.on_send_result(batch.batch_id.clone(), Origin::Live, SendOutcome::Acked(100), 2_000);
    let stats = o.get_statistics();
    assert_eq!(stats.total_events_sent, 100);
    assert_eq!(stats.total_batches_sent, 1);
    assert_eq!(stats.pending_events, 50);
    let rest = o.final_flush(3_000).unwrap();
    let expected_rest: Vec<String> = (100..150).map(|i| format!("line{}", i)).collect();
    assert_eq!(rest.events, expected_rest);
    assert!(o.final_flush(3_001).is_none());
}

#[test]
fn failed_live_send_goes_to_queue_then_drains() {
    let mut o = Orchestrator::new(config(10), empty_queue(10), 0);
    connect(&mut o, 0);
    for i in 0..10 {
        o.append_formatted_event(format!("l{}", i));
    }
    let batch = match o.tick(100).work {
        Work::SendLive(b) => b,
        _ => panic!("expected a live batch"),
    };
    let persisted = o.on_send_result(batch.batch_id.clone(), Origin::Live, SendOutcome::Closed("gone".to_string()), 200);
    assert!(persisted.evicted.is_empty());
    assert!(persisted.write_file);
    assert_eq!(o.queue_order(), &vec![batch.batch_id.clone()]);
    assert_eq!(o.get_status(), TransmissionStatus::Disconnected);
    connect(&mut o, 300);
    match o.tick(400).work {
        Work::SendQueued(id) => assert_eq!(id, batch.batch_id),
        _ => panic!("expected the queued batch"),
    }
    let persisted = o.on_send_result(batch.batch_id.clone(), Origin::Queued, SendOutcome::Failed("nope".to_string()), 500);
    assert!(persisted.evicted.is_empty());
    assert_eq!(o.queue_order().len(), 1);
    connect(&mut o, 600);
    assert!(matches!(o.tick(500 + DRAIN_COOLDOWN_MS - 1).work, Work::Idle));
    assert!(matches!(o.tick(500 + DRAIN_COOLDOWN_MS).work, Work::SendQueued(_)));
}

#[test]
fn live_batch_goes_before_backlog() {
    let queue = OfflineQueue::new(10, Some(vec!["old".to_string()]), &vec!["batch_old.json".to_string()]);
    let mut o = Orchestrator::new(config(10), queue, 0);
    connect(&mut o, 0);
    for i in 0..10 {
        o.append_formatted_event(format!("l{}", i));
    }
    assert!(matches!(o.tick(10).work, Work::SendLive(_)));
    assert!(matches!(o.tick(11).work, Work::Idle));
}

#[test]
fn reconnect_backoff_then_long_cooldown() {
    let mut c = config(10);
    c.retry_max_attempts = 2;
    let mut o = Orchestrator::new(c, empty_queue(10), 0);
    assert!(matches!(o.tick(0).work, Work::Connect));
    o.on_connect_result(Err("refused".to_string()), 0);
    assert_eq!(o.get_status(), TransmissionStatus::Error("refused".to_string()));
    assert!(matches!(o.tick(999).work, Work::Idle));
    assert!(matches!(o.tick(1_000).work, Work::Connect));
    o.on_connect_result(Ok(()), 1_000);
    o.on_auth_result(Err("Authentication failed: no".to_string()), 1_000);
    assert!(matches!(o.tick(1_000 + LONG_COOLDOWN_MS - 1).work, Work::Idle));
    assert!(matches!(o.tick(1_000 + LONG_COOLDOWN_MS).work, Work::Connect));
}

#[test]
fn auth_success_needs_authenticating() {
    let mut o = Orchestrator::new(config(10), empty_queue(10), 0);
    o.on_auth_result(Ok(()), 0);
    assert_eq!(o.get_status(), TransmissionStatus::Disconnected);
}

#[test]
fn no_reconnect_when_disabled() {
    let mut c = config(10);
    c.auto_reconnect = false;
    let mut o = Orchestrator::new(c, empty_queue(10), 0);
    assert!(matches!(o.tick(0).work, Work::Idle));
}

#[test]
fn one_batch_in_flight_at_a_time() {
    let mut o = Orchestrator::new(config(10), empty_queue(10), 0);
    connect(&mut o, 0);
    for i in 0..20 {
        o.append_formatted_event(format!("l{}", i));
    }
    assert!(matches!(o.tick(1).work, Work::SendLive(_)));
    for i in 0..10 {
        o.append_formatted_event(format!("m{}", i));
    }
    assert!(matches!(o.tick(2).work, Work::Idle));
}

#[test]
fn keepalive_ping_and_failure() {
    let mut o = Orchestrator::new(config(10), empty_queue(10), 0);
    connect(&mut o, 0);
    assert!(!o.tick(29_999).ping);
    assert!(o.tick(30_000).ping);
    assert!(!o.tick(30_001).ping);
    o.on_ping_failed("broken pipe".to_string());
    assert_eq!(o.get_status(), TransmissionStatus::Disconnected);
}

#[test]
fn shutdown_flushes_rest_and_start_guard() {
    let mut o = Orchestrator::new(config(10), empty_queue(10), 0);
    assert!(o.start().is_ok());
    assert!(o.start().is_err());
    o.append_formatted_event("tail".to_string());
    o.stop();
    o.stop();
    assert!(o.is_shutdown_requested());
    assert!(matches!(o.tick(1).work, Work::Exit));
    let last = o.final_flush(2).unwrap();
    assert_eq!(last.events, vec!["tail".to_string()]);
    assert!(o.final_flush(3).is_none());
    o.on_stopped();
    assert!(!o.is_running());
    assert_eq!(o.get_status(), TransmissionStatus::Disconnected);
    assert!(o.start().is_ok());
}

#[test]
fn token_update_reaches_config() {
    let mut o = Orchestrator::new(config(10), empty_queue(10), 0);
    o.update_token(Some("jwt".to_string()));
    assert_eq!(o.config_ref().app_jwt_token, Some("jwt".to_string()));
}

#[test]
fn flush_on_afk_moves_pending_events_to_queue() {
    let mut o = Orchestrator::new(config(100), empty_queue(10), 0);
    let (none, nothing) = o.flush_on_afk(5);
    assert!(none.is_none());
    assert!(nothing.evicted.is_empty());
    assert!(!nothing.write_file);
    o.append_formatted_event("a".to_string());
    o.append_formatted_event("b".to_string());
    let (batch, persisted) = o.flush_on_afk(10);
    let batch = batch.unwrap();
    assert!(persisted.evicted.is_empty());
    assert!(persisted.write_file);
    assert_eq!(batch.events, vec!["a".to_string(), "b".to_string()]);
    assert_eq!(batch.created_at_ms, 10);
    assert_eq!(o.queue_order(), &vec![batch.batch_id.clone()]);
    assert_eq!(o.get_statistics().pending_events, 50);
    assert!(o.final_flush(11).is_none());
    connect(&mut o, 20);
    match o.tick(30).work {
        Work::SendQueued(id) => assert_eq!(id, batch.batch_id),
        _ => panic!("expected the queued batch"),
    }
}

#[test]
fn second_start_error_text() {
    let mut o = Orchestrator::new(config(10), empty_queue(10), 0);
    assert!(o.start().is_ok());
    assert_eq!(o.start(), Err("Collector already running".to_string()));
}

#[test]
fn failed_send_sets_status_and_last_error() {
    let mut o = Orchestrator::new(config(10), empty_queue(10), 0);
    connect(&mut o, 0);
    o.on_send_result("x".to_string(), Origin::Live, SendOutcome::Failed("ack timeout".to_string()), 1);
    assert_eq!(o.get_status(), TransmissionStatus::Error("ack timeout".to_string()));
    assert_eq!(o.get_statistics().last_error, Some("ack timeout".to_string()));
    connect(&mut o, 2);
    o.on_send_result("y".to_string(), Origin::Live, SendOutcome::Closed("closed".to_string()), 3);
    assert_eq!(o.get_status(), TransmissionStatus::Disconnected);
    assert_eq!(o.get_statistics().last_error, Some("closed".to_string()));
    assert_eq!(o.queue_order(), &vec!["x".to_string(), "y".to_string()]);
}
