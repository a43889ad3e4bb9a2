use vstd::prelude::*;
use crate::batch::{batch_take, elapsed_ms, flush_due, BatchManager};
use crate::config::CollectorConfig;
use crate::queue::{enqueued, evicted, OfflineQueue};
use crate::text::views;
use crate::types::{LineProtocolBatch, RetryState, SyncStatistics, TransmissionStatus};

verus! {

/// The pause after too many consecutive failed reconnections.
pub const LONG_COOLDOWN_MS: i64 = 300000;

/// The pause before the next drain attempt after a queued batch failed.
pub const DRAIN_COOLDOWN_MS: i64 = 5000;

/// Where a batch on the wire came from.
#[derive(Debug, Clone, Copy, PartialEq, Eq, Structural)]
pub enum Origin {
    /// Freshly flushed from the accumulator.
    Live,
    /// Replayed from the offline queue.
    Queued,
}

/// The outside work one tick asks for.
pub enum Work {
    /// Nothing to do now.
    Idle,
    /// Shutdown was requested: flush, send or persist, disconnect, stop.
    Exit,
    /// Open the connection, then authenticate.
    Connect,
    /// Send this fresh batch.
    SendLive(LineProtocolBatch),
    /// Load the queued batch with this id and send it.
    SendQueued(String),
}

/// The work of one tick, and whether a keepalive ping is due after it.
pub struct TickPlan {
    pub work: Work,
    pub ping: bool,
}

/// How sending a batch ended.
pub enum SendOutcome {
    /// Every event was answered; this many with `OK`.
    Acked(usize),
    /// A send, a timeout or a receive failed.
    Failed(String),
    /// The service closed the connection.
    Closed(String),
}

/// What a batch put into the offline queue leaves to do on disk.
pub struct Persisted {
    /// Queued ids evicted to stay within capacity: their files are to go.
    pub evicted: Vec<String>,
    /// Whether the batch itself was queued: its file is to be written.
    pub write_file: bool,
}

/// How many pending events of `o` the next batch takes.
pub open spec fn next_take(o: Orchestrator) -> int {
    batch_take(o.batches().events().len(), o.batches().max_size()) as int
}

/// `a + b`, at most `i64::MAX`.
pub open spec fn later(a: int, b: int) -> int {
    if a + b > i64::MAX { i64::MAX as int } else { a + b }
}

fn later_ms(a: i64, b: i64) -> (r: i64)
    requires
        b >= 0,
    ensures
        r == later(a as int, b as int),
{
    let t: i128 = a as i128 + b as i128;
    if t > i64::MAX as i128 { i64::MAX } else { t as i64 }
}

/// The single owner of all transmission state.
pub struct Orchestrator {
    config: CollectorConfig,
    batches: BatchManager,
    retry: RetryState,
    status: TransmissionStatus,
    consecutive_failures: u32,
    cooldown_until_ms: Option<i64>,
    drain_blocked_until_ms: Option<i64>,
    last_ping_ms: i64,
    in_flight: bool,
    shutdown_requested: bool,
    running: bool,
}

impl Orchestrator {
    pub closed spec fn config(&self) -> CollectorConfig {
        self.config
    }

    pub closed spec fn batches(&self) -> BatchManager {
        self.batches
    }

    pub closed spec fn retry(&self) -> RetryState {
        self.retry
    }

    pub closed spec fn status(&self) -> TransmissionStatus {
        self.status
    }

    pub closed spec fn consecutive_failures(&self) -> nat {
        self.consecutive_failures as nat
    }

    pub closed spec fn cooldown_until(&self) -> Option<i64> {
        self.cooldown_until_ms
    }

    pub closed spec fn drain_blocked_until(&self) -> Option<i64> {
        self.drain_blocked_until_ms
    }

    pub closed spec fn last_ping(&self) -> int {
        self.last_ping_ms as int
    }

    /// A batch is on the wire and its outcome not yet reported.
    pub closed spec fn in_flight(&self) -> bool {
        self.in_flight
    }

    pub closed spec fn shutdown_requested(&self) -> bool {
        self.shutdown_requested
    }

    pub closed spec fn running(&self) -> bool {
        self.running
    }

    /// A reconnection attempt is due at `now`.
    pub open spec fn reconnect_due(&self, now: int) -> bool {
        &&& self.config().auto_reconnect
        &&& self.retry().retry_due(now)
        &&& match self.cooldown_until() {
            Some(t) => now >= t,
            None => true,
        }
    }

    /// The accumulator holds events that are due for sending at `now`.
    pub open spec fn live_due(&self, now: int) -> bool {
        let b = self.batches();
        b.events().len() > 0 && flush_due(b.events().len(), b.max_size(), elapsed_ms(b.last_flush(), now),
            b.interval_seconds())
    }

    /// Draining the offline queue is allowed at `now`.
    pub open spec fn drain_open(&self, now: int) -> bool {
        match self.drain_blocked_until() {
            Some(t) => now >= t,
            None => true,
        }
    }

    /// A keepalive ping is due at `now`.
    pub open spec fn keepalive_due(&self, now: int) -> bool {
        elapsed_ms(self.last_ping(), now) >= self.config().websocket_keepalive_seconds * 1000
    }

    /// A stopped orchestrator over `config` and the recovered `queue`, disconnected.
    pub fn new(config: CollectorConfig, queue: OfflineQueue, now_ms: i64) -> (r: Self)
        ensures
            r.config() == config,
            r.batches().events().len() == 0,
            r.batches().queue() == queue,
            r.batches().max_size() == config.batch_max_size,
            r.batches().interval_seconds() == config.batch_max_interval_seconds,
            r.batches().stats().is_initial(),
            r.status() is Disconnected,
            r.retry().attempts == 0,
            r.retry().next_retry_at_ms is None,
            r.consecutive_failures() == 0,
            r.cooldown_until() is None,
            r.drain_blocked_until() is None,
            r.last_ping() == now_ms,
            !r.in_flight(),
            !r.shutdown_requested(),
            !r.running(),
    {
        let batches = BatchManager::new(&config, queue, now_ms);
        Orchestrator {
            config,
            batches,
            retry: RetryState::default(),
            status: TransmissionStatus::Disconnected,
            consecutive_failures: 0,
            cooldown_until_ms: None,
            drain_blocked_until_ms: None,
            last_ping_ms: now_ms,
            in_flight: false,
            shutdown_requested: false,
            running: false,
        }
    }

    /// Mark the orchestrator running; a second start while running is refused.
    pub fn start(&mut self) -> (r: Result<(), String>)
        ensures
            old(self).running() ==> r is Err && r->Err_0@ == "Collector already running"@
                && *final(self) == *old(self),
            !old(self).running() ==> r is Ok && final(self).running() && !final(self).shutdown_requested(),
            final(self).status() == old(self).status(),
            final(self).batches() == old(self).batches(),
            final(self).in_flight() == old(self).in_flight(),
    {
        if self.running {
            return Err(String::from_str("Collector already running"));
        }
        self.running = true;
        self.shutdown_requested = false;
        Ok(())
    }

    /// Ask the loop to finish; asking again changes nothing.
    pub fn stop(&mut self)
        ensures
            final(self).shutdown_requested(),
            final(self).running() == old(self).running(),
            final(self).status() == old(self).status(),
            final(self).batches() == old(self).batches(),
    {
        self.shutdown_requested = true;
    }

    /// Whether a shutdown was asked for.
    pub fn is_shutdown_requested(&self) -> (r: bool)
        ensures
            r == self.shutdown_requested(),
    {
        self.shutdown_requested
    }

    /// Whether the loop runs.
    pub fn is_running(&self) -> (r: bool)
        ensures
            r == self.running(),
    {
        self.running
    }

    /// Append an already formatted event.
    pub fn append_formatted_event(&mut self, line: String)
        ensures
            final(self).batches().events() == old(self).batches().events().push(line@),
            final(self).status() == old(self).status(),
            final(self).in_flight() == old(self).in_flight(),
    {
        self.batches.add_event(line);
    }

    /// The user went away and the machine may sleep: take the oldest
    /// pending events (one batch's worth) into a batch created at `now_ms`
    /// and put it at the back of the offline queue, from where it is sent
    /// once connected. Called until it returns `None`, it moves every pending
    /// event. Returns the batch and what is left to do on disk. Nothing
    /// pending: nothing changes.
    pub fn flush_on_afk(&mut self, now_ms: i64) -> (r: (Option<LineProtocolBatch>, Persisted))
        ensures
            old(self).batches().events().len() == 0 ==> r.0 is None && r.1.evicted@.len() == 0
                && !r.1.write_file && *final(self) == *old(self),
            old(self).batches().events().len() > 0 ==> {
                let q = old(self).batches().queue();
                let b = r.0->Some_0;
                let k = next_take(*old(self));
                &&& r.0 is Some
                &&& views(b.events@) == old(self).batches().events().take(k)
                &&& b.created_at_ms == now_ms
                &&& final(self).batches().events() == old(self).batches().events().skip(k)
                &&& final(self).batches().queue()@ == enqueued(q@, q.capacity(), b.batch_id@)
                &&& views(r.1.evicted@) == evicted(q@, q.capacity(), b.batch_id@)
                &&& r.1.write_file == (q.capacity() > 0)
            },
            final(self).status() == old(self).status(),
            final(self).in_flight() == old(self).in_flight(),
    {
        match self.batches.flush(now_ms) {
            Some(b) => {
                let write_file = self.batches.queue_capacity() > 0;
                let evicted = self.batches.enqueue_batch(b.batch_id.clone());
                (Some(b), Persisted { evicted, write_file })
            },
            None => (None, Persisted { evicted: Vec::new(), write_file: false }),
        }
    }

    /// Replace the host application's credential, used from the next authentication on.
    pub fn update_token(&mut self, token: Option<String>)
        ensures
            final(self).config().app_jwt_token == token,
            final(self).status() == old(self).status(),
            final(self).batches() == old(self).batches(),
    {
        self.config.app_jwt_token = token;
    }

    /// The configuration in effect.
    pub fn config_ref(&self) -> (r: &CollectorConfig)
        ensures
            *r == self.config(),
    {
        &self.config
    }

    /// The current connection status.
    pub fn get_status(&self) -> (r: TransmissionStatus)
        ensures
            r == self.status(),
    {
        copy_status(&self.status)
    }

    /// The statistics, with the current status.
    pub fn get_statistics(&self) -> (r: SyncStatistics)
        ensures
            r.connection_status == self.status(),
            r.total_events_sent == self.batches().stats().total_events_sent,
            r.total_batches_sent == self.batches().stats().total_batches_sent,
            r.last_sync_time_ms == self.batches().stats().last_sync_time_ms,
            r.pending_events == ({
                let b = self.batches();
                let e = b.events().len() + b.queue()@.len() * b.max_size() / 2;
                if e > usize::MAX { usize::MAX as int } else { e as int }
            }),
            r.last_error == self.batches().stats().last_error,
            r.retry_attempts == self.batches().stats().retry_attempts,
    {
        self.batches.get_statistics(copy_status(&self.status))
    }

    /// The offline queue's order, for the index file.
    pub fn queue_order(&self) -> (r: &Vec<String>)
        ensures
            views(r@) == self.batches().queue()@,
    {
        self.batches.queue_order()
    }

    /// One control step at `now_ms`.
    pub fn tick(&mut self, now_ms: i64) -> (r: TickPlan)
        ensures
            old(self).shutdown_requested() ==> r.work is Exit && !r.ping && *final(self) == *old(self),
            !old(self).shutdown_requested() && old(self).in_flight() ==> r.work is Idle && !r.ping
                && *final(self) == *old(self),
            !old(self).shutdown_requested() && !old(self).in_flight() && !(old(self).status() is Connected) ==> {
                &&& !r.ping
                &&& old(self).reconnect_due(now_ms as int) ==> r.work is Connect && final(self).status() is Connecting
                    && final(self).batches() == old(self).batches() && !final(self).in_flight()
                &&& !old(self).reconnect_due(now_ms as int) ==> r.work is Idle && *final(self) == *old(self)
            },
            !old(self).shutdown_requested() && !old(self).in_flight() && old(self).status() is Connected ==> {
                &&& final(self).status() is Connected
                &&& r.ping == old(self).keepalive_due(now_ms as int)
                &&& r.ping ==> final(self).last_ping() == now_ms
                &&& !r.ping ==> final(self).last_ping() == old(self).last_ping()
                &&& old(self).live_due(now_ms as int) ==> {
                    &&& r.work is SendLive
                    &&& views(r.work->SendLive_0.events@) == old(self).batches().events().take(next_take(*old(self)))
                    &&& final(self).batches().events() == old(self).batches().events().skip(next_take(*old(self)))
                    &&& final(self).batches().queue() == old(self).batches().queue()
                    &&& final(self).in_flight()
                }
                &&& !old(self).live_due(now_ms as int) && old(self).drain_open(now_ms as int)
                    && old(self).batches().queue()@.len() > 0 ==> {
                    &&& r.work is SendQueued
                    &&& r.work->SendQueued_0@ == old(self).batches().queue()@[0]
                    &&& final(self).batches().queue()@ == old(self).batches().queue()@.drop_first()
                    &&& final(self).batches().events() == old(self).batches().events()
                    &&& final(self).in_flight()
                }
                &&& !old(self).live_due(now_ms as int) && !(old(self).drain_open(now_ms as int)
                    && old(self).batches().queue()@.len() > 0) ==> {
                    &&& r.work is Idle
                    &&& final(self).batches() == old(self).batches()
                    &&& !final(self).in_flight()
                }
            },
    {
        if self.shutdown_requested {
            return TickPlan { work: Work::Exit, ping: false };
        }
        if self.in_flight {
            return TickPlan { work: Work::Idle, ping: false };
        }
        let connected = match &self.status {
            TransmissionStatus::Connected => true,
            _ => false,
        };
        if !connected {
            let cooled = match self.cooldown_until_ms {
                Some(t) => now_ms >= t,
                None => true,
            };
            if self.config.auto_reconnect && self.retry.should_retry_now(now_ms) && cooled {
                self.status = TransmissionStatus::Connecting;
                return TickPlan { work: Work::Connect, ping: false };
            }
            return TickPlan { work: Work::Idle, ping: false };
        }
        let elapsed: i128 = if now_ms > self.last_ping_ms { now_ms as i128 - self.last_ping_ms as i128 } else { 0 };
        let ping = elapsed >= self.config.websocket_keepalive_seconds as i128 * 1000;
        if ping {
            self.last_ping_ms = now_ms;
        }
        let pending = self.batches.current_batch_size() > 0;
        if pending && self.batches.should_flush(now_ms) {
            let flushed = self.batches.flush(now_ms);
            match flushed {
                Some(b) => {
                    self.in_flight = true;
                    return TickPlan { work: Work::SendLive(b), ping };
                },
                None => {
                    return TickPlan { work: Work::Idle, ping };
                },
            }
        }
        let open = match self.drain_blocked_until_ms {
            Some(t) => now_ms >= t,
            None => true,
        };
        if open && self.batches.queued_batches() > 0 {
            match self.batches.dequeue_batch() {
                Some(id) => {
                    self.in_flight = true;
                    return TickPlan { work: Work::SendQueued(id), ping };
                },
                None => {},
            }
        }
        TickPlan { work: Work::Idle, ping }
    }

    /// The connection opened (`Ok`) or failed.
    pub fn on_connect_result(&mut self, result: Result<(), String>, now_ms: i64)
        ensures
            result is Ok ==> final(self).status() is Authenticating && final(self).retry() == old(self).retry(),
            result is Err ==> final(self).status() == TransmissionStatus::Error(result->Err_0),
            result is Err ==> failed_attempt(*old(self), *final(self), result->Err_0, now_ms as int),
            final(self).batches().events() == old(self).batches().events(),
            final(self).batches().queue() == old(self).batches().queue(),
            final(self).in_flight() == old(self).in_flight(),
    {
        match result {
            Ok(()) => {
                self.status = TransmissionStatus::Authenticating;
            },
            Err(e) => {
                self.connect_failed(e, now_ms);
            },
        }
    }

    /// The authentication was accepted (`Ok`) or failed. Acceptance while
    /// authenticating connects and resets the reconnection schedule.
    pub fn on_auth_result(&mut self, result: Result<(), String>, now_ms: i64)
        ensures
            result is Ok && old(self).status() is Authenticating ==> final(self).status() is Connected
                && final(self).retry().attempts == 0 && final(self).retry().next_retry_at_ms is None
                && final(self).consecutive_failures() == 0,
            result is Ok && !(old(self).status() is Authenticating) ==> *final(self) == *old(self),
            result is Err ==> final(self).status() == TransmissionStatus::Error(result->Err_0),
            result is Err ==> failed_attempt(*old(self), *final(self), result->Err_0, now_ms as int),
            final(self).batches().events() == old(self).batches().events(),
            final(self).batches().queue() == old(self).batches().queue(),
            final(self).in_flight() == old(self).in_flight(),
    {
        match result {
            Ok(()) => {
                let authenticating = match &self.status {
                    TransmissionStatus::Authenticating => true,
                    _ => false,
                };
                if authenticating {
                    self.status = TransmissionStatus::Connected;
                    self.retry.reset();
                    self.consecutive_failures = 0;
                }
            },
            Err(e) => {
                self.connect_failed(e, now_ms);
            },
        }
    }

    /// A failed connection or authentication: schedule the next attempt
    /// with exponential backoff, or the long cooldown after too many failures.
    fn connect_failed(&mut self, error: String, now_ms: i64)
        ensures
            failed_attempt(*old(self), *final(self), error, now_ms as int),
            final(self).batches().events() == old(self).batches().events(),
            final(self).batches().queue() == old(self).batches().queue(),
            final(self).in_flight() == old(self).in_flight(),
    {
        self.status = TransmissionStatus::Error(error.clone());
        self.batches.record_error(error);
        let max_s: u64 = if self.config.retry_max_delay_seconds > u64::MAX / 1000 {
            u64::MAX / 1000
        } else {
            self.config.retry_max_delay_seconds
        };
        let delay = self.retry.calculate_next_delay(
            self.config.retry_backoff_base_ms,
            self.config.retry_backoff_multiplier_milli as u64,
            max_s,
        );
        self.retry.increment(delay, now_ms);
        self.consecutive_failures = self.consecutive_failures.saturating_add(1);
        if self.consecutive_failures >= self.config.retry_max_attempts {
            self.consecutive_failures = 0;
            self.retry.reset();
            self.cooldown_until_ms = Some(later_ms(now_ms, LONG_COOLDOWN_MS));
        }
    }

    /// The outcome of sending the batch `batch_id` that the last tick handed
    /// out. A failed batch goes to the back of the offline queue, never
    /// dropped; the ids evicted for it are returned so that their files can go.
    pub fn on_send_result(&mut self, batch_id: String, origin: Origin, outcome: SendOutcome, now_ms: i64) -> (r: Persisted)
        ensures
            !final(self).in_flight(),
            final(self).batches().events() == old(self).batches().events(),
            outcome is Acked ==> {
                &&& r.evicted@.len() == 0
                &&& !r.write_file
                &&& final(self).batches().queue() == old(self).batches().queue()
                &&& final(self).status() == old(self).status()
                &&& final(self).batches().stats().last_sync_time_ms == Some(now_ms)
                &&& final(self).batches().stats().total_events_sent == ({
                    let t = old(self).batches().stats().total_events_sent + outcome->Acked_0;
                    if t > u64::MAX { u64::MAX as int } else { t as int }
                })
                &&& final(self).batches().stats().total_batches_sent == ({
                    let t = old(self).batches().stats().total_batches_sent + 1;
                    if t > u64::MAX { u64::MAX as int } else { t as int }
                })
                &&& final(self).batches().stats().last_error is None
                &&& origin is Live ==> final(self).retry().attempts == 0
            },
            outcome is Failed ==> final(self).status() == TransmissionStatus::Error(outcome->Failed_0)
                && final(self).batches().stats().last_error == Some(outcome->Failed_0),
            outcome is Closed ==> final(self).status() is Disconnected
                && final(self).batches().stats().last_error == Some(outcome->Closed_0),
            !(outcome is Acked) ==> {
                let q = old(self).batches().queue();
                &&& final(self).batches().queue()@ == enqueued(q@, q.capacity(), batch_id@)
                &&& views(r.evicted@) == evicted(q@, q.capacity(), batch_id@)
                &&& r.write_file == (q.capacity() > 0)
                &&& origin is Queued ==> final(self).drain_blocked_until() == Some(
                    later(now_ms as int, DRAIN_COOLDOWN_MS as int) as i64)
            },
    {
        self.in_flight = false;
        match outcome {
            SendOutcome::Acked(n) => {
                self.batches.record_success(n, now_ms);
                match origin {
                    Origin::Live => self.retry.reset(),
                    Origin::Queued => {},
                }
                Persisted { evicted: Vec::new(), write_file: false }
            },
            SendOutcome::Failed(e) => {
                self.status = TransmissionStatus::Error(e.clone());
                self.batches.record_error(e);
                let write_file = self.batches.queue_capacity() > 0;
                let evicted = self.requeue(batch_id, origin, now_ms);
                Persisted { evicted, write_file }
            },
            SendOutcome::Closed(e) => {
                self.status = TransmissionStatus::Disconnected;
                self.batches.record_error(e);
                let write_file = self.batches.queue_capacity() > 0;
                let evicted = self.requeue(batch_id, origin, now_ms);
                Persisted { evicted, write_file }
            },
        }
    }

    fn requeue(&mut self, batch_id: String, origin: Origin, now_ms: i64) -> (r: Vec<String>)
        ensures
            final(self).batches().queue()@ == enqueued(old(self).batches().queue()@,
                old(self).batches().queue().capacity(), batch_id@),
            views(r@) == evicted(old(self).batches().queue()@, old(self).batches().queue().capacity(), batch_id@),
            final(self).batches().queue().capacity() == old(self).batches().queue().capacity(),
            final(self).batches().events() == old(self).batches().events(),
            final(self).status() == old(self).status(),
            final(self).batches().stats().last_error == old(self).batches().stats().last_error,
            final(self).in_flight() == old(self).in_flight(),
            origin is Queued ==> final(self).drain_blocked_until() == Some(
                later(now_ms as int, DRAIN_COOLDOWN_MS as int) as i64),
    {
        let gone = self.batches.enqueue_batch(batch_id);
        match origin {
            Origin::Queued => {
                self.batches.increment_retry_attempts();
                self.drain_blocked_until_ms = Some(later_ms(now_ms, DRAIN_COOLDOWN_MS));
            },
            Origin::Live => {},
        }
        gone
    }

    /// The queued batch the last tick handed out had no file: its reference
    /// is already gone, and the queue goes on.
    pub fn on_queued_missing(&mut self)
        ensures
            !final(self).in_flight(),
            final(self).batches() == old(self).batches(),
            final(self).status() == old(self).status(),
    {
        self.in_flight = false;
    }

    /// A keepalive ping could not be sent: the connection is taken as dead.
    pub fn on_ping_failed(&mut self, error: String)
        ensures
            final(self).status() is Disconnected,
            final(self).batches().stats().last_error == Some(error),
            final(self).batches().events() == old(self).batches().events(),
            final(self).batches().queue() == old(self).batches().queue(),
            final(self).in_flight() == old(self).in_flight(),
    {
        self.status = TransmissionStatus::Disconnected;
        self.batches.record_error(error);
    }

    /// On the way out: the oldest pending events as one batch. Called until
    /// it returns `None`, it hands out everything still pending.
    pub fn final_flush(&mut self, now_ms: i64) -> (r: Option<LineProtocolBatch>)
        ensures
            old(self).batches().events().len() == 0 ==> r is None && final(self).batches().events().len() == 0,
            old(self).batches().events().len() > 0 ==> r is Some
                && views(r->Some_0.events@) == old(self).batches().events().take(next_take(*old(self)))
                && final(self).batches().events() == old(self).batches().events().skip(next_take(*old(self))),
            final(self).batches().queue() == old(self).batches().queue(),
            final(self).status() == old(self).status(),
    {
        self.batches.flush(now_ms)
    }

    /// The loop has ended and the connection is closed.
    pub fn on_stopped(&mut self)
        ensures
            final(self).status() is Disconnected,
            !final(self).running(),
            !final(self).in_flight(),
            final(self).batches() == old(self).batches(),
    {
        self.status = TransmissionStatus::Disconnected;
        self.running = false;
        self.in_flight = false;
    }
}

/// An accumulator holding at least `max_size` events is due at any instant:
/// the next tick while connected, with no batch on the wire and no shutdown
/// asked, hands the oldest `max_size` of them out as one batch and leaves the
/// rest pending (see `lemma_full_accumulator_take`).
pub proof fn lemma_full_accumulator_sends(o: Orchestrator, now: int)
    requires
        o.batches().events().len() > 0,
        o.batches().events().len() >= o.batches().max_size(),
    ensures
        o.live_due(now),
{
}

/// The delay scheduled after a failed attempt from state `o`.
pub open spec fn next_delay(o: Orchestrator) -> int {
    crate::types::backoff_delay(
        o.retry().attempts as nat,
        o.config().retry_backoff_base_ms as nat,
        o.config().retry_backoff_multiplier_milli as nat,
        capped_seconds(o.config().retry_max_delay_seconds) as nat,
    )
}

/// The state after a failed connection or authentication at `now`: the
/// error is the status and the last error; below the attempt limit one more
/// attempt is counted and the next one waits the backoff delay; at the limit
/// the count starts over after the long cooldown.
pub open spec fn failed_attempt(o: Orchestrator, f: Orchestrator, error: String, now: int) -> bool {
    &&& f.status() == TransmissionStatus::Error(error)
    &&& f.batches().stats().last_error == Some(error)
    &&& f.config() == o.config()
    &&& o.consecutive_failures() + 1 < o.config().retry_max_attempts ==> {
        &&& f.consecutive_failures() == o.consecutive_failures() + 1
        &&& f.retry().attempts == if o.retry().attempts == u32::MAX { u32::MAX } else { (o.retry().attempts + 1) as u32 }
        &&& f.retry().current_delay_ms == next_delay(o)
        &&& f.retry().next_retry_at_ms == Some(later(now, next_delay(o)) as i64)
        &&& f.cooldown_until() == o.cooldown_until()
    }
    &&& o.consecutive_failures() + 1 >= o.config().retry_max_attempts ==> {
        &&& f.consecutive_failures() == 0
        &&& f.retry().attempts == 0
        &&& f.retry().next_retry_at_ms is None
        &&& f.cooldown_until() == Some(later(now, LONG_COOLDOWN_MS as int) as i64)
    }
}

/// With more than `max_size` (at least one) events pending, one batch takes
/// exactly the first `max_size` of them and leaves the others, in order.
pub proof fn lemma_full_accumulator_take(events: Seq<Seq<char>>, max_size: nat)
    requires
        max_size >= 1,
        events.len() >= max_size,
    ensures
        batch_take(events.len(), max_size) == max_size,
        events.take(max_size as int).len() == max_size,
        events.skip(max_size as int).len() == events.len() - max_size,
        events.take(max_size as int) + events.skip(max_size as int) == events,
{
    assert(events.take(max_size as int) + events.skip(max_size as int) =~= events);
}

/// The longest delay bound, in seconds, whose milliseconds fit in a `u64`.
pub open spec fn capped_seconds(s: u64) -> u64 {
    if s > u64::MAX / 1000 { (u64::MAX / 1000) as u64 } else { s }
}

/// The same status again.
pub fn copy_status(s: &TransmissionStatus) -> (r: TransmissionStatus)
    ensures
        r == *s,
{
    match s {
        TransmissionStatus::Disconnected => TransmissionStatus::Disconnected,
        TransmissionStatus::Connecting => TransmissionStatus::Connecting,
        TransmissionStatus::Authenticating => TransmissionStatus::Authenticating,
        TransmissionStatus::Connected => TransmissionStatus::Connected,
        TransmissionStatus::Error(m) => TransmissionStatus::Error(m.clone()),
    }
}

} // verus!
