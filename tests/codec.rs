use collector::codec::{decode_batch, encode_batch, legacy_batch};
use collector::types::LineProtocolBatch;

fn batch(id: &str, created: i64, events: &[&str]) -> LineProtocolBatch {
    LineProtocolBatch { batch_id: id.to_string(), created_at_ms: created, events: events.iter().map(|e| e.to_string()).collect() }
}

#[test]
fn encode_exact_text() {
    assert_eq!(
        encode_batch(&batch("b1", 42, &["m f=1i 5", "x \"q\""])),
        "{\"batch_id\":\"b1\",\"created_at_ms\":42,\"events\":[\"m f=1i 5\",\"x \\\"q\\\"\"]}"
    );
    assert_eq!(encode_batch(&batch("", -7, &[])), "{\"batch_id\":\"\",\"created_at_ms\":-7,\"events\":[]}");
    assert_eq!(encode_batch(&batch("a\\b", 0, &["\n\u{1f}"])), "{\"batch_id\":\"a\\\\b\",\"created_at_ms\":0,\"events\":[\"\\u000a\\u001f\"]}");
}

#[test]
fn decode_after_encode_gives_same_batch() {
    let cases = vec![
        batch("0190b2c4-0000-7000-8000-000000000001", 1_737_288_000_000, &["a,b=c d=1i 1", "", "ünïcode ✓ \"q\" \\ \t\r\n"]),
        batch("x", i64::MIN, &[]),
        batch("y", i64::MAX, &["only"]),
    ];
    for b in cases {
        let text = encode_batch(&b);
        let back = decode_batch(&text).unwrap();
        assert_eq!(back.batch_id, b.batch_id);
        assert_eq!(back.created_at_ms, b.created_at_ms);
        assert_eq!(back.events, b.events);
    }
}

#[test]
fn decode_rejects_other_text() {
    assert!(decode_batch("").is_none());
    assert!(decode_batch("{}").is_none());
    assert!(decode_batch("{\"batch_id\":\"b\",\"created_at_ms\":1,\"events\":[]} ").is_none());
    assert!(decode_batch("{\"batch_id\":\"b\",\"created_at_ms\":,\"events\":[]}").is_none());
    assert!(decode_batch("{\"batch_id\":\"b\",\"created_at_ms\":9223372036854775808,\"events\":[]}").is_none());
    assert!(decode_batch("{\"batch_id\":\"b\",\"created_at_ms\":1,\"events\":[\"a\",]}").is_none());
    assert!(decode_batch("{\"batch_id\":\"b\nc\",\"created_at_ms\":1,\"events\":[]}").is_none());
}

#[test]
fn decode_reads_extreme_instants() {
    let b = decode_batch("{\"batch_id\":\"b\",\"created_at_ms\":-9223372036854775808,\"events\":[\"e\"]}").unwrap();
    assert_eq!(b.created_at_ms, i64::MIN);
    assert_eq!(b.events, vec!["e".to_string()]);
}

#[test]
fn legacy_layout_converted() {
    let b = legacy_batch("old".to_string(), "2025-01-19T12:00:00.123456789Z", vec!["e".to_string()]).unwrap();
    assert_eq!(b.batch_id, "old");
    assert_eq!(b.created_at_ms, 1_737_288_000_123);
    assert_eq!(b.events, vec!["e".to_string()]);
    let before = legacy_batch("n".to_string(), "1969-12-31T23:59:59.9995Z", vec![]).unwrap();
    assert_eq!(before.created_at_ms, -1);
    assert!(legacy_batch("bad".to_string(), "yesterday", vec![]).is_none());
}
