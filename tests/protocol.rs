use collector::protocol::{auth_message, classify_frame, is_auth_success, AckKind, BatchProgress, Frame, Verdict};

#[test]
fn auth_message_and_reply() {
    assert_eq!(auth_message("tok"), "$AUTH tok");
    assert!(is_auth_success("AUTH_SUCCESS"));
    assert!(!is_auth_success("AUTH_SUCCESS "));
    assert!(!is_auth_success("AUTH_FAILED"));
    assert!(!is_auth_success(""));
}

#[test]
fn frames_classified() {
    assert_eq!(classify_frame(&Frame::Text("OK".to_string())), AckKind::Success);
    assert_eq!(classify_frame(&Frame::Text("OK!".to_string())), AckKind::OtherText);
    assert_eq!(classify_frame(&Frame::Text("ERROR: bad line".to_string())), AckKind::SoftError);
    assert_eq!(classify_frame(&Frame::Text("ERROR".to_string())), AckKind::OtherText);
    assert_eq!(classify_frame(&Frame::Pong), AckKind::OutOfBand);
    assert_eq!(classify_frame(&Frame::Ping), AckKind::OutOfBand);
    assert_eq!(classify_frame(&Frame::Binary(vec![1, 2])), AckKind::OutOfBand);
    assert_eq!(classify_frame(&Frame::Raw), AckKind::OutOfBand);
    assert_eq!(classify_frame(&Frame::Close), AckKind::Closed);
}

#[test]
fn progress_counts_only_ok() {
    let mut p = BatchProgress::new();
    assert_eq!(p.apply(AckKind::OutOfBand), Verdict::KeepWaiting);
    assert_eq!(p.apply(AckKind::Success), Verdict::NextEvent);
    assert_eq!(p.apply(AckKind::SoftError), Verdict::NextEvent);
    assert_eq!(p.apply(AckKind::OtherText), Verdict::NextEvent);
    assert_eq!(p.sent_count, 1);
    assert_eq!(p.acknowledged, 3);
    assert_eq!(p.apply(AckKind::Closed), Verdict::Abort);
    assert_eq!(p.sent_count, 1);
}
