use collector::auth::{TokenCache, TOKEN_LIFETIME_MS};
use collector::types::{AuthToken, RetryState};

#[test]
fn test_auth_token_expiration() {
    let now: i64 = 1_737_288_000_000;

    let valid_token = AuthToken { token: "test_token".to_string(), issued_at_ms: now, expires_at_ms: now + 2 * 3_600_000 };
    assert!(!valid_token.is_expired(now));

    let soon_expired_token =
        AuthToken { token: "test_token".to_string(), issued_at_ms: now, expires_at_ms: now + 30_000 };
    assert!(soon_expired_token.is_expired(now));

    let expired_token = AuthToken {
        token: "test_token".to_string(),
        issued_at_ms: now - 25 * 3_600_000,
        expires_at_ms: now - 3_600_000,
    };
    assert!(expired_token.is_expired(now));
}

#[test]
fn token_expiry_margin_boundary() {
    let now: i64 = 1_000_000;
    let at_margin = AuthToken { token: "t".to_string(), issued_at_ms: now, expires_at_ms: now + 60_000 };
    assert!(at_margin.is_expired(now));
    let past_margin = AuthToken { token: "t".to_string(), issued_at_ms: now, expires_at_ms: now + 60_001 };
    assert!(!past_margin.is_expired(now));
    let extreme = AuthToken { token: "t".to_string(), issued_at_ms: 0, expires_at_ms: i64::MAX };
    assert!(extreme.is_expired(i64::MAX - 1));
    assert!(!extreme.is_expired(i64::MIN));
}

#[test]
fn test_retry_state_logic() {
    let now: i64 = 5_000;
    let mut retry_state = RetryState::default();

    assert!(retry_state.should_retry_now(now));
    assert_eq!(retry_state.attempts, 0);

    let delay = retry_state.calculate_next_delay(1000, 2000, 60);
    assert_eq!(delay, 1000);

    retry_state.increment(delay, now);
    assert_eq!(retry_state.attempts, 1);
    assert!(!retry_state.should_retry_now(now));

    let delay2 = retry_state.calculate_next_delay(1000, 2000, 60);
    assert_eq!(delay2, 2000);

    retry_state.reset();
    assert_eq!(retry_state.attempts, 0);
    assert!(retry_state.should_retry_now(now));
}

#[test]
fn backoff_first_two_delays() {
    let mut r = RetryState::default();
    assert_eq!(r.calculate_next_delay(1000, 2000, 60), 1000);
    r.attempts = 1;
    assert_eq!(r.calculate_next_delay(1000, 2000, 60), 2000);
    r.attempts = 5;
    assert_eq!(r.calculate_next_delay(1000, 2000, 60), 32000);
}

#[test]
fn backoff_never_exceeds_cap() {
    let mut r = RetryState::default();
    for attempts in [6u32, 7, 20, 63, 64, 65, 200, 1000] {
        r.attempts = attempts;
        assert_eq!(r.calculate_next_delay(1000, 2000, 60), 60000);
    }
    r.attempts = 3;
    assert_eq!(r.calculate_next_delay(u64::MAX, 10000, u64::MAX / 1000), (u64::MAX / 1000) * 1000);
    assert_eq!(r.calculate_next_delay(1000, 0, 60), 0);
    assert_eq!(r.calculate_next_delay(1000, 1000, 60), 1000);
}

#[test]
fn backoff_fractional_multiplier() {
    let mut r = RetryState::default();
    r.attempts = 1;
    assert_eq!(r.calculate_next_delay(1000, 1500, 60), 1500);
    r.attempts = 2;
    assert_eq!(r.calculate_next_delay(1000, 1500, 60), 2250);
    r.attempts = 3;
    assert_eq!(r.calculate_next_delay(1000, 1500, 60), 3375);
    r.attempts = 20;
    assert_eq!(r.calculate_next_delay(1000, 1500, 60), 60000);
}

#[test]
fn retry_schedule_comes_due() {
    let mut r = RetryState::default();
    r.increment(1500, 10_000);
    assert_eq!(r.current_delay_ms, 1500);
    assert_eq!(r.next_retry_at_ms, Some(11_500));
    assert!(!r.should_retry_now(11_499));
    assert!(r.should_retry_now(11_500));
    r.increment(10, i64::MAX - 5);
    assert_eq!(r.next_retry_at_ms, Some(i64::MAX));
    assert_eq!(r.attempts, 2);
}

#[test]
fn token_cache_serves_until_margin_then_refetches() {
    let mut cache = TokenCache::new();
    assert_eq!(cache.valid_token(0), None);
    cache.store("abc".to_string(), 1_000);
    let t = cache.cached.as_ref().unwrap();
    assert_eq!(t.issued_at_ms, 1_000);
    assert_eq!(t.expires_at_ms, 1_000 + TOKEN_LIFETIME_MS);
    assert_eq!(cache.valid_token(2_000), Some("abc".to_string()));
    assert_eq!(cache.valid_token(1_000 + TOKEN_LIFETIME_MS - 60_000), None);
    assert_eq!(cache.valid_token(1_000 + TOKEN_LIFETIME_MS - 60_001), Some("abc".to_string()));
    cache.invalidate_token();
    assert_eq!(cache.valid_token(2_000), None);
}

#[test]
fn auth_reply_rejection_drops_token() {
    let mut cache = TokenCache::new();
    cache.store("t".to_string(), 0);
    assert_eq!(cache.on_auth_reply(Some("AUTH_SUCCESS")), Ok(()));
    assert!(cache.cached.is_some());
    assert_eq!(cache.on_auth_reply(Some("AUTH_FAILED bad token")), Err("Authentication failed: AUTH_FAILED bad token".to_string()));
    assert!(cache.cached.is_none());
    cache.store("t".to_string(), 0);
    assert_eq!(cache.on_auth_reply(None), Err("Unexpected auth response format".to_string()));
    assert!(cache.cached.is_none());
}
