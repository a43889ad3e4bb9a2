use vstd::prelude::*;
use crate::clock::new_batch_id;
use crate::config::CollectorConfig;
use crate::queue::OfflineQueue;
use crate::text::views;
use crate::types::{LineProtocolBatch, SyncStatistics, TransmissionStatus};

verus! {

/// The milliseconds from `last_ms` to `now_ms`; a clock that went back counts as none.
pub open spec fn elapsed_ms(last_ms: int, now_ms: int) -> int {
    if now_ms > last_ms { now_ms - last_ms } else { 0 }
}

/// The flush rule: the size threshold is met, or events are pending and
/// the interval since the last flush has run out.
pub open spec fn flush_due(count: nat, max_size: nat, elapsed: int, interval_seconds: nat) -> bool {
    count >= max_size || (count > 0 && elapsed >= interval_seconds * 1000)
}

/// How many pending events one batch takes: at most `max_size`, all of
/// them under a size of zero.
pub open spec fn batch_take(len: nat, max_size: nat) -> nat {
    if max_size == 0 || len < max_size { len } else { max_size }
}

/// The accumulator of formatted events, the offline queue's order and the
/// transmission statistics.
pub struct BatchManager {
    current_batch: Vec<String>,
    last_flush_ms: i64,
    max_size: usize,
    max_interval_seconds: u64,
    offline_queue: OfflineQueue,
    statistics: SyncStatistics,
}

impl BatchManager {
    /// The pending events, oldest first.
    pub closed spec fn events(&self) -> Seq<Seq<char>> {
        views(self.current_batch@)
    }

    pub closed spec fn max_size(&self) -> nat {
        self.max_size as nat
    }

    pub closed spec fn interval_seconds(&self) -> nat {
        self.max_interval_seconds as nat
    }

    pub closed spec fn last_flush(&self) -> int {
        self.last_flush_ms as int
    }

    pub closed spec fn queue(&self) -> OfflineQueue {
        self.offline_queue
    }

    pub closed spec fn stats(&self) -> SyncStatistics {
        self.statistics
    }

    /// An empty accumulator whose flush clock starts at `now_ms`.
    pub fn new(config: &CollectorConfig, offline_queue: OfflineQueue, now_ms: i64) -> (r: Self)
        ensures
            r.events().len() == 0,
            r.max_size() == config.batch_max_size,
            r.interval_seconds() == config.batch_max_interval_seconds,
            r.last_flush() == now_ms,
            r.queue() == offline_queue,
            r.stats().is_initial(),
    {
        BatchManager {
            current_batch: Vec::new(),
            last_flush_ms: now_ms,
            max_size: config.batch_max_size,
            max_interval_seconds: config.batch_max_interval_seconds,
            offline_queue,
            statistics: SyncStatistics::default(),
        }
    }

    /// Append one formatted event.
    pub fn add_event(&mut self, line_protocol: String)
        ensures
            final(self).events() == old(self).events().push(line_protocol@),
            final(self).max_size() == old(self).max_size(),
            final(self).interval_seconds() == old(self).interval_seconds(),
            final(self).last_flush() == old(self).last_flush(),
            final(self).queue() == old(self).queue(),
            final(self).stats() == old(self).stats(),
    {
        self.current_batch.push(line_protocol);
        proof {
            assert(views(self.current_batch@) =~= views(old(self).current_batch@).push(line_protocol@));
        }
    }

    /// Whether the batch should be sent at `now_ms`.
    pub fn should_flush(&self, now_ms: i64) -> (r: bool)
        ensures
            r == flush_due(self.events().len(), self.max_size(), elapsed_ms(self.last_flush(), now_ms as int),
                self.interval_seconds()),
    {
        if self.current_batch.len() >= self.max_size {
            return true;
        }
        let elapsed: i128 = if now_ms > self.last_flush_ms { now_ms as i128 - self.last_flush_ms as i128 } else { 0 };
        self.current_batch.len() > 0 && elapsed >= self.max_interval_seconds as i128 * 1000
    }

    /// Take the oldest pending events, at most `max_size` of them (all of
    /// them under a size of zero), in order, into a new batch with a fresh id
    /// created at `now_ms`, and restart the flush clock. The rest stay
    /// pending. Nothing pending: `None`.
    pub fn flush(&mut self, now_ms: i64) -> (r: Option<LineProtocolBatch>)
        ensures
            old(self).events().len() == 0 ==> r is None && *final(self) == *old(self),
            old(self).events().len() > 0 ==> {
                let k = batch_take(old(self).events().len(), old(self).max_size());
                &&& r is Some
                &&& views(r->Some_0.events@) == old(self).events().take(k as int)
                &&& r->Some_0.events@.len() > 0
                &&& r->Some_0.created_at_ms == now_ms
                &&& r->Some_0.batch_id@.len() > 0
                &&& final(self).events() == old(self).events().skip(k as int)
                &&& final(self).last_flush() == now_ms
            },
            final(self).max_size() == old(self).max_size(),
            final(self).interval_seconds() == old(self).interval_seconds(),
            final(self).queue() == old(self).queue(),
            final(self).stats() == old(self).stats(),
    {
        let n = self.current_batch.len();
        if n == 0 {
            return None;
        }
        let k = if self.max_size == 0 || n < self.max_size { n } else { self.max_size };
        let mut events = self.current_batch.split_off(k);
        std::mem::swap(&mut events, &mut self.current_batch);
        proof {
            assert(views(events@) =~= views(old(self).current_batch@).take(k as int));
            assert(views(self.current_batch@) =~= views(old(self).current_batch@).skip(k as int));
        }
        self.last_flush_ms = now_ms;
        Some(LineProtocolBatch { events, created_at_ms: now_ms, batch_id: new_batch_id() })
    }

    /// Put a batch id at the back of the offline queue; returns the ids
    /// evicted to stay within capacity.
    pub fn enqueue_batch(&mut self, batch_id: String) -> (r: Vec<String>)
        ensures
            final(self).queue()@ == crate::queue::enqueued(old(self).queue()@, old(self).queue().capacity(), batch_id@),
            views(r@) == crate::queue::evicted(old(self).queue()@, old(self).queue().capacity(), batch_id@),
            final(self).queue().capacity() == old(self).queue().capacity(),
            final(self).events() == old(self).events(),
            final(self).max_size() == old(self).max_size(),
            final(self).interval_seconds() == old(self).interval_seconds(),
            final(self).last_flush() == old(self).last_flush(),
            final(self).stats() == old(self).stats(),
    {
        self.offline_queue.enqueue(batch_id)
    }

    /// Take the oldest batch id off the offline queue.
    pub fn dequeue_batch(&mut self) -> (r: Option<String>)
        ensures
            old(self).queue()@.len() == 0 ==> r is None && final(self).queue()@ == old(self).queue()@,
            old(self).queue()@.len() > 0 ==> r is Some && r->Some_0@ == old(self).queue()@[0]
                && final(self).queue()@ == old(self).queue()@.drop_first(),
            final(self).queue().capacity() == old(self).queue().capacity(),
            final(self).events() == old(self).events(),
            final(self).max_size() == old(self).max_size(),
            final(self).interval_seconds() == old(self).interval_seconds(),
            final(self).last_flush() == old(self).last_flush(),
            final(self).stats() == old(self).stats(),
    {
        self.offline_queue.dequeue()
    }

    /// The capacity of the offline queue.
    pub fn queue_capacity(&self) -> (r: usize)
        ensures
            r == self.queue().capacity(),
    {
        self.offline_queue.max_batches()
    }

    /// The number of queued batches.
    pub fn queued_batches(&self) -> (r: usize)
        ensures
            r == self.queue()@.len(),
    {
        self.offline_queue.len()
    }

    /// The offline queue's order, for the index file.
    pub fn queue_order(&self) -> (r: &Vec<String>)
        ensures
            views(r@) == self.queue()@,
    {
        self.offline_queue.batch_order()
    }

    /// An estimate of the events waiting: those pending here plus half a
    /// full batch for each queued batch.
    pub fn pending_events(&self) -> (r: usize)
        ensures
            r == ({
                let e = self.events().len() + self.queue()@.len() * self.max_size() / 2;
                if e > usize::MAX { usize::MAX as int } else { e as int }
            }),
    {
        let q: u128 = self.offline_queue.len() as u128;
        let m: u128 = self.max_size as u128;
        assert(q * m <= usize::MAX as int * usize::MAX as int) by (nonlinear_arith)
            requires q <= usize::MAX, m <= usize::MAX;
        let e: u128 = self.current_batch.len() as u128 + q * m / 2;
        if e > usize::MAX as u128 { usize::MAX } else { e as usize }
    }

    /// Count a batch of `events_sent` acknowledged events, sent at `now_ms`;
    /// the retry counter and the last error are cleared. Counters stop at their maximum.
    pub fn record_success(&mut self, events_sent: usize, now_ms: i64)
        ensures
            final(self).stats().total_events_sent == ({
                let t = old(self).stats().total_events_sent + events_sent;
                if t > u64::MAX { u64::MAX as int } else { t as int }
            }),
            final(self).stats().total_batches_sent == ({
                let t = old(self).stats().total_batches_sent + 1;
                if t > u64::MAX { u64::MAX as int } else { t as int }
            }),
            final(self).stats().last_sync_time_ms == Some(now_ms),
            final(self).stats().retry_attempts == 0,
            final(self).stats().last_error is None,
            final(self).stats().pending_events == old(self).stats().pending_events,
            final(self).stats().connection_status == old(self).stats().connection_status,
            final(self).events() == old(self).events(),
            final(self).queue() == old(self).queue(),
            final(self).max_size() == old(self).max_size(),
            final(self).interval_seconds() == old(self).interval_seconds(),
            final(self).last_flush() == old(self).last_flush(),
    {
        self.statistics.total_events_sent = self.statistics.total_events_sent.saturating_add(events_sent as u64);
        self.statistics.total_batches_sent = self.statistics.total_batches_sent.saturating_add(1);
        self.statistics.last_sync_time_ms = Some(now_ms);
        self.statistics.retry_attempts = 0;
        self.statistics.last_error = None;
    }

    /// Keep `error` as the last error.
    pub fn record_error(&mut self, error: String)
        ensures
            final(self).stats().last_error == Some(error),
            final(self).stats().total_events_sent == old(self).stats().total_events_sent,
            final(self).stats().total_batches_sent == old(self).stats().total_batches_sent,
            final(self).stats().last_sync_time_ms == old(self).stats().last_sync_time_ms,
            final(self).stats().retry_attempts == old(self).stats().retry_attempts,
            final(self).events() == old(self).events(),
            final(self).queue() == old(self).queue(),
            final(self).max_size() == old(self).max_size(),
            final(self).interval_seconds() == old(self).interval_seconds(),
            final(self).last_flush() == old(self).last_flush(),
    {
        self.statistics.last_error = Some(error);
    }

    /// Count one more failed delivery of a queued batch; stops at its maximum.
    pub fn increment_retry_attempts(&mut self)
        ensures
            final(self).stats().retry_attempts == if old(self).stats().retry_attempts == u32::MAX {
                u32::MAX
            } else {
                (old(self).stats().retry_attempts + 1) as u32
            },
            final(self).stats().total_events_sent == old(self).stats().total_events_sent,
            final(self).stats().total_batches_sent == old(self).stats().total_batches_sent,
            final(self).stats().last_error == old(self).stats().last_error,
            final(self).events() == old(self).events(),
            final(self).queue() == old(self).queue(),
            final(self).max_size() == old(self).max_size(),
            final(self).interval_seconds() == old(self).interval_seconds(),
            final(self).last_flush() == old(self).last_flush(),
    {
        self.statistics.retry_attempts = self.statistics.retry_attempts.saturating_add(1);
    }

    /// A snapshot of the statistics, with the pending estimate filled in and
    /// the given connection status.
    pub fn get_statistics(&self, status: TransmissionStatus) -> (r: SyncStatistics)
        ensures
            r.total_events_sent == self.stats().total_events_sent,
            r.total_batches_sent == self.stats().total_batches_sent,
            r.last_sync_time_ms == self.stats().last_sync_time_ms,
            r.pending_events == ({
                let e = self.events().len() + self.queue()@.len() * self.max_size() / 2;
                if e > usize::MAX { usize::MAX as int } else { e as int }
            }),
            r.connection_status == status,
            r.last_error == self.stats().last_error,
            r.retry_attempts == self.stats().retry_attempts,
    {
        let last_error = match &self.statistics.last_error {
            Some(e) => Some(e.clone()),
            None => None,
        };
        SyncStatistics {
            total_events_sent: self.statistics.total_events_sent,
            total_batches_sent: self.statistics.total_batches_sent,
            last_sync_time_ms: self.statistics.last_sync_time_ms,
            pending_events: self.pending_events(),
            connection_status: status,
            last_error,
            retry_attempts: self.statistics.retry_attempts,
        }
    }

    /// Empty the offline queue; returns the ids whose files are to go.
    pub fn clear_queue(&mut self) -> (r: Vec<String>)
        ensures
            final(self).queue()@.len() == 0,
            views(r@) == old(self).queue()@,
            final(self).queue().capacity() == old(self).queue().capacity(),
            final(self).events() == old(self).events(),
            final(self).stats() == old(self).stats(),
    {
        self.offline_queue.clear()
    }

    /// The number of pending events.
    pub fn current_batch_size(&self) -> (r: usize)
        ensures
            r == self.events().len(),
    {
        self.current_batch.len()
    }
}

/// From empty, the size threshold is met exactly when the count reaches
/// `max_size`, as long as the interval has not run out.
pub proof fn lemma_size_threshold(count: nat, max_size: nat, elapsed: int, interval_seconds: nat)
    requires
        count <= max_size,
        elapsed < interval_seconds * 1000,
    ensures
        flush_due(count, max_size, elapsed, interval_seconds) <==> count == max_size,
{
}

/// One pending event below the size threshold is due exactly when the
/// interval has run out.
pub proof fn lemma_time_threshold(max_size: nat, elapsed: int, interval_seconds: nat)
    requires
        max_size >= 2,
    ensures
        flush_due(1, max_size, elapsed, interval_seconds) <==> elapsed >= interval_seconds * 1000,
{
}

} // verus!
