use vstd::prelude::*;

verus! {

/// Who the collector reports for.
#[derive(Debug, Clone)]
pub struct AuthCredentials {
    pub user: String,
    pub org: String,
}

/// The one token the collector holds: in memory only, never persisted.
/// Instants are milliseconds since the Unix epoch.
#[derive(Debug, Clone)]
pub struct AuthToken {
    pub token: String,
    pub issued_at_ms: i64,
    pub expires_at_ms: i64,
}

/// How long before its expiry a token already counts as expired.
pub const EXPIRY_MARGIN_MS: i64 = 60000;

impl AuthToken {
    /// A token counts as expired from one minute before its expiry on.
    pub open spec fn expired_at(&self, now_ms: int) -> bool {
        self.expires_at_ms <= now_ms + EXPIRY_MARGIN_MS
    }

    /// Whether the token is expired, or expires within the safety margin, at `now_ms`.
    pub fn is_expired(&self, now_ms: i64) -> (r: bool)
        ensures
            r == self.expired_at(now_ms as int),
    {
        (self.expires_at_ms as i128) <= (now_ms as i128) + (EXPIRY_MARGIN_MS as i128)
    }
}

/// A batch of formatted events, created once and never changed after.
#[derive(Debug, Clone)]
pub struct LineProtocolBatch {
    pub events: Vec<String>,
    pub created_at_ms: i64,
    pub batch_id: String,
}

/// The state of the connection to the collector service.
#[derive(Debug, Clone, PartialEq, Eq)]
pub enum TransmissionStatus {
    Disconnected,
    Connecting,
    Authenticating,
    Connected,
    Error(String),
}

/// Counters and state observed by the user interface; never authoritative.
#[derive(Debug, Clone)]
pub struct SyncStatistics {
    pub total_events_sent: u64,
    pub total_batches_sent: u64,
    pub last_sync_time_ms: Option<i64>,
    pub pending_events: usize,
    pub connection_status: TransmissionStatus,
    pub last_error: Option<String>,
    pub retry_attempts: u32,
}

impl SyncStatistics {
    pub open spec fn is_initial(&self) -> bool {
        &&& self.total_events_sent == 0
        &&& self.total_batches_sent == 0
        &&& self.last_sync_time_ms is None
        &&& self.pending_events == 0
        &&& self.connection_status is Disconnected
        &&& self.last_error is None
        &&& self.retry_attempts == 0
    }
}

impl Default for SyncStatistics {
    fn default() -> (r: Self)
        ensures
            r.is_initial(),
    {
        SyncStatistics {
            total_events_sent: 0,
            total_batches_sent: 0,
            last_sync_time_ms: None,
            pending_events: 0,
            connection_status: TransmissionStatus::Disconnected,
            last_error: None,
            retry_attempts: 0,
        }
    }
}

/// `b` raised to the power `e`.
pub open spec fn power(b: int, e: nat) -> int
    decreases e,
{
    if e == 0 {
        1
    } else {
        b * power(b, (e - 1) as nat)
    }
}

proof fn lemma_power_nonneg(b: int, e: nat)
    requires
        b >= 0,
    ensures
        power(b, e) >= 0,
    decreases e,
{
    if e > 0 {
        lemma_power_nonneg(b, (e - 1) as nat);
        assert(b * power(b, (e - 1) as nat) >= 0) by (nonlinear_arith)
            requires b >= 0, power(b, (e - 1) as nat) >= 0;
    }
}

/// The reconnection delay before attempt `attempt`, in milliseconds: the
/// base delay, grown by the factor `multiplier_milli / 1000` once per earlier
/// attempt (to whole milliseconds at each step), and never more than
/// `max_delay_seconds` seconds. For a whole factor `k` this is
/// `min(base × k^attempt, max_seconds × 1000)` (see `lemma_whole_multiplier`);
/// with a fractional factor the rounding down at each step can leave it a
/// few milliseconds below that formula.
pub open spec fn backoff_delay(attempt: nat, base_ms: nat, multiplier_milli: nat, max_delay_seconds: nat) -> int
    decreases attempt,
{
    let cap: int = (max_delay_seconds * 1000) as int;
    if attempt == 0 {
        if base_ms < cap { base_ms as int } else { cap }
    } else {
        let grown: int = backoff_delay((attempt - 1) as nat, base_ms, multiplier_milli, max_delay_seconds)
            * multiplier_milli / 1000;
        if grown < cap { grown } else { cap }
    }
}

proof fn lemma_backoff_nonneg(attempt: nat, base_ms: nat, m: nat, max_s: nat)
    ensures
        0 <= backoff_delay(attempt, base_ms, m, max_s) <= max_s * 1000,
    decreases attempt,
{
    if attempt > 0 {
        let d = backoff_delay((attempt - 1) as nat, base_ms, m, max_s);
        lemma_backoff_nonneg((attempt - 1) as nat, base_ms, m, max_s);
        assert(d * m >= 0) by (nonlinear_arith)
            requires d >= 0, m >= 0;
    }
}

/// With a whole factor `k` (a multiplier of `1000 k` thousandths) the delay
/// is exactly `min(base × k^attempt, max_seconds × 1000)`.
pub proof fn lemma_whole_multiplier(attempt: nat, base_ms: nat, k: nat, max_delay_seconds: nat)
    ensures
        backoff_delay(attempt, base_ms, k * 1000, max_delay_seconds) == ({
            let raw: int = base_ms * power(k as int, attempt);
            let cap: int = (max_delay_seconds * 1000) as int;
            if raw < cap { raw } else { cap }
        }),
    decreases attempt,
{
    let cap: int = (max_delay_seconds * 1000) as int;
    if attempt > 0 {
        let a1 = (attempt - 1) as nat;
        lemma_whole_multiplier(a1, base_ms, k, max_delay_seconds);
        let x: int = base_ms * power(k as int, a1);
        lemma_power_nonneg(k as int, a1);
        assert(x >= 0) by (nonlinear_arith)
            requires base_ms >= 0, power(k as int, a1) >= 0, x == base_ms * power(k as int, a1);
        lemma_backoff_step(x, k as int, cap);
        let d = backoff_delay(a1, base_ms, k * 1000, max_delay_seconds);
        assert(d * (k * 1000) / 1000 == d * k) by (nonlinear_arith);
        assert(base_ms * power(k as int, attempt) == x * k) by (nonlinear_arith)
            requires power(k as int, attempt) == k * power(k as int, a1), x == base_ms * power(k as int, a1);
    }
}

/// Attempts and schedule of the reconnection domain. `next_retry_at_ms` is
/// an instant in milliseconds since the Unix epoch.
#[derive(Debug, Clone)]
pub struct RetryState {
    pub attempts: u32,
    pub next_retry_at_ms: Option<i64>,
    pub current_delay_ms: u64,
}

impl Default for RetryState {
    fn default() -> (r: Self)
        ensures
            r.attempts == 0,
            r.next_retry_at_ms is None,
            r.current_delay_ms == 0,
    {
        RetryState { attempts: 0, next_retry_at_ms: None, current_delay_ms: 0 }
    }
}

proof fn lemma_backoff_step(x: int, m: int, cap: int)
    requires
        x >= 0,
        m >= 0,
        cap >= 0,
    ensures
        ({
            let y = if x < cap { x } else { cap };
            let z = x * m;
            (if y * m < cap { y * m } else { cap }) == (if z < cap { z } else { cap })
        }),
{
    if x >= cap && m >= 1 {
        assert(x * m >= cap * m) by (nonlinear_arith)
            requires x >= cap, m >= 1;
        assert(cap * m >= cap) by (nonlinear_arith)
            requires cap >= 0, m >= 1;
    }
    if m == 0 {
        assert(x * m == 0);
        assert(cap * m == 0);
    }
}

impl RetryState {
    /// The delay before the next attempt, `backoff_delay` of the attempts
    /// so far; the multiplier is in thousandths. Never more than
    /// `max_delay_seconds` seconds.
    pub fn calculate_next_delay(&self, base_ms: u64, multiplier_milli: u64, max_delay_seconds: u64) -> (r: u64)
        requires
            max_delay_seconds <= u64::MAX / 1000,
        ensures
            r == backoff_delay(self.attempts as nat, base_ms as nat, multiplier_milli as nat, max_delay_seconds as nat),
            r <= max_delay_seconds * 1000,
    {
        let cap: u64 = max_delay_seconds * 1000;
        let mut d: u64 = if base_ms < cap { base_ms } else { cap };
        let mut i: u32 = 0;
        while i < self.attempts
            invariant
                i <= self.attempts,
                cap == max_delay_seconds * 1000,
                d == backoff_delay(i as nat, base_ms as nat, multiplier_milli as nat, max_delay_seconds as nat),
            decreases self.attempts - i,
        {
            assert((d as u128) * (multiplier_milli as u128) <= u64::MAX * u64::MAX) by (nonlinear_arith)
                requires d <= u64::MAX, multiplier_milli <= u64::MAX;
            let grown: u128 = (d as u128) * (multiplier_milli as u128) / 1000;
            d = if grown < cap as u128 { grown as u64 } else { cap };
            i = i + 1;
        }
        proof {
            lemma_backoff_nonneg(self.attempts as nat, base_ms as nat, multiplier_milli as nat, max_delay_seconds as nat);
        }
        d
    }

    /// Count one more failed attempt and schedule the next one `delay_ms`
    /// after `now_ms`. The counter and the instant stop at their maximum.
    pub fn increment(&mut self, delay_ms: u64, now_ms: i64)
        ensures
            final(self).attempts == if old(self).attempts == u32::MAX { u32::MAX } else { (old(self).attempts + 1) as u32 },
            final(self).current_delay_ms == delay_ms,
            final(self).next_retry_at_ms == Some(
                if now_ms + delay_ms > i64::MAX { i64::MAX } else { (now_ms + delay_ms) as i64 },
            ),
    {
        self.attempts = self.attempts.saturating_add(1);
        self.current_delay_ms = delay_ms;
        let at: i128 = now_ms as i128 + delay_ms as i128;
        self.next_retry_at_ms = Some(if at > i64::MAX as i128 { i64::MAX } else { at as i64 });
    }

    /// Forget attempts and schedule after a success.
    pub fn reset(&mut self)
        ensures
            final(self).attempts == 0,
            final(self).next_retry_at_ms is None,
            final(self).current_delay_ms == 0,
    {
        self.attempts = 0;
        self.next_retry_at_ms = None;
        self.current_delay_ms = 0;
    }

    pub open spec fn retry_due(&self, now_ms: int) -> bool {
        match self.next_retry_at_ms {
            Some(at) => now_ms >= at,
            None => true,
        }
    }

    /// Whether an attempt may be made at `now_ms`: no schedule is set, or it has come.
    pub fn should_retry_now(&self, now_ms: i64) -> (r: bool)
        ensures
            r == self.retry_due(now_ms as int),
    {
        match self.next_retry_at_ms {
            Some(at) => now_ms >= at,
            None => true,
        }
    }
}

} // verus!
