//! Counters and gauges that describe the capture and indexing pipeline.

use vstd::prelude::*;
use crate::external::{instant_now, whole_secs_since, system_time_now, secs_since_unix_epoch};

verus! {

/// A counter after one more event: the counters wrap around at `u64::MAX`,
/// as an atomic `fetch_add` does.
pub open spec fn bumped(c: u64) -> u64 {
    if c == u64::MAX {
        0
    } else {
        (c + 1) as u64
    }
}

/// A counter after `n` more events.
pub open spec fn bumped_times(c: u64, n: nat) -> u64
    decreases n,
{
    if n == 0 {
        c
    } else {
        bumped(bumped_times(c, (n - 1) as nat))
    }
}

/// Counting `n` events takes a counter to `(c + n) mod 2^64`: each event adds
/// one, wrapping around at `u64::MAX`.
pub proof fn lemma_bumped_times(c: u64, n: nat)
    ensures
        bumped_times(c, n) == (c + n) % 0x1_0000_0000_0000_0000,
    decreases n,
{
    if n > 0 {
        lemma_bumped_times(c, (n - 1) as nat);
        let p = bumped_times(c, (n - 1) as nat);
        let m: int = 0x1_0000_0000_0000_0000;
        assert((c + n) % m == ((c + (n - 1)) % m + 1) % m) by {
            vstd::arithmetic::div_mod::lemma_add_mod_noop(c + (n - 1), 1, m);
            vstd::arithmetic::div_mod::lemma_mod_twice(1, m);
            vstd::arithmetic::div_mod::lemma_small_mod(1, m as nat);
        }
        assert(0 <= p < m);
        if p == u64::MAX {
            assert((p + 1) % m == 0) by {
                vstd::arithmetic::div_mod::lemma_mod_self_0(m);
            }
        } else {
            assert((p + 1) % m == p + 1) by {
                vstd::arithmetic::div_mod::lemma_small_mod((p + 1) as nat, m as nat);
            }
        }
    }
}

/// The counters and gauges of a `Metrics`, without its start instant.
pub struct MetricsView {
    pub events_captured: u64,
    pub screenshots_captured: u64,
    pub ocr_processed: u64,
    pub embeddings_generated: u64,
    pub search_queries: u64,
    pub indexing_queue_size: usize,
    pub last_event_time: u64,
    pub vector_search_latency_ms: u64,
    pub embedding_generation_ms: u64,
}

/// A copy of every counter and gauge, with the uptime in seconds.
#[derive(Debug, Clone, Copy)]
pub struct MetricsSnapshot {
    pub events_captured: u64,
    pub screenshots_captured: u64,
    pub ocr_processed: u64,
    pub embeddings_generated: u64,
    pub search_queries: u64,
    pub indexing_queue_size: usize,
    pub last_event_time: u64,
    pub uptime_seconds: u64,
    pub vector_search_latency_ms: u64,
    pub embedding_generation_ms: u64,
}

/// Pipeline metrics: event, screenshot, OCR, embedding and search counts,
/// the indexing queue size, the time of the last event (Unix seconds) and
/// the latest latencies.
pub struct Metrics {
    pub events_captured: u64,
    pub screenshots_captured: u64,
    pub ocr_processed: u64,
    pub embeddings_generated: u64,
    pub search_queries: u64,
    pub indexing_queue_size: usize,
    pub last_event_time: u64,
    pub app_start_time: std::time::Instant,
    pub vector_search_latency_ms: u64,
    pub embedding_generation_ms: u64,
}

impl View for Metrics {
    type V = MetricsView;

    open spec fn view(&self) -> MetricsView {
        MetricsView {
            events_captured: self.events_captured,
            screenshots_captured: self.screenshots_captured,
            ocr_processed: self.ocr_processed,
            embeddings_generated: self.embeddings_generated,
            search_queries: self.search_queries,
            indexing_queue_size: self.indexing_queue_size,
            last_event_time: self.last_event_time,
            vector_search_latency_ms: self.vector_search_latency_ms,
            embedding_generation_ms: self.embedding_generation_ms,
        }
    }
}

fn next_count(c: u64) -> (r: u64)
    ensures
        r == bumped(c),
{
    if c == u64::MAX {
        0
    } else {
        c + 1
    }
}

impl Metrics {
    /// All counters, gauges and latencies zero; the start instant is now.
    pub fn new() -> (m: Metrics)
        ensures
            m@ == (MetricsView {
                events_captured: 0,
                screenshots_captured: 0,
                ocr_processed: 0,
                embeddings_generated: 0,
                search_queries: 0,
                indexing_queue_size: 0,
                last_event_time: 0,
                vector_search_latency_ms: 0,
                embedding_generation_ms: 0,
            }),
    {
        Metrics {
            events_captured: 0,
            screenshots_captured: 0,
            ocr_processed: 0,
            embeddings_generated: 0,
            search_queries: 0,
            indexing_queue_size: 0,
            last_event_time: 0,
            app_start_time: instant_now(),
            vector_search_latency_ms: 0,
            embedding_generation_ms: 0,
        }
    }

    /// Counts one captured event that happened at `now_secs` (Unix seconds).
    pub fn record_event_at(&mut self, now_secs: u64)
        ensures
            final(self)@ == (MetricsView {
                events_captured: bumped(old(self).events_captured),
                last_event_time: now_secs,
                ..old(self)@
            }),
            final(self).app_start_time == old(self).app_start_time,
    {
        self.events_captured = next_count(self.events_captured);
        self.last_event_time = now_secs;
    }

    /// Counts one captured event, stamped with the current time in Unix
    /// seconds (zero for a clock set before the epoch).
    pub fn increment_events(&mut self)
        ensures
            final(self).events_captured == bumped(old(self).events_captured),
            final(self)@ == (MetricsView {
                events_captured: final(self).events_captured,
                last_event_time: final(self).last_event_time,
                ..old(self)@
            }),
            final(self).app_start_time == old(self).app_start_time,
    {
        let clock = system_time_now();
        let now: u64 = match secs_since_unix_epoch(&clock) {
            Some(secs) => secs,
            None => 0,
        };
        self.record_event_at(now);
    }

    /// Counts one screenshot.
    pub fn increment_screenshots(&mut self)
        ensures
            final(self)@ == (MetricsView {
                screenshots_captured: bumped(old(self).screenshots_captured),
                ..old(self)@
            }),
            final(self).app_start_time == old(self).app_start_time,
    {
        self.screenshots_captured = next_count(self.screenshots_captured);
    }

    /// Counts one OCR run.
    pub fn increment_ocr(&mut self)
        ensures
            final(self)@ == (MetricsView { ocr_processed: bumped(old(self).ocr_processed), ..old(self)@ }),
            final(self).app_start_time == old(self).app_start_time,
    {
        self.ocr_processed = next_count(self.ocr_processed);
    }

    /// Counts one generated embedding.
    pub fn increment_embeddings(&mut self)
        ensures
            final(self)@ == (MetricsView {
                embeddings_generated: bumped(old(self).embeddings_generated),
                ..old(self)@
            }),
            final(self).app_start_time == old(self).app_start_time,
    {
        self.embeddings_generated = next_count(self.embeddings_generated);
    }

    /// Counts one search query.
    pub fn increment_searches(&mut self)
        ensures
            final(self)@ == (MetricsView { search_queries: bumped(old(self).search_queries), ..old(self)@ }),
            final(self).app_start_time == old(self).app_start_time,
    {
        self.search_queries = next_count(self.search_queries);
    }

    /// Sets the number of embeddings waiting to be computed.
    pub fn set_queue_size(&mut self, size: usize)
        ensures
            final(self)@ == (MetricsView { indexing_queue_size: size, ..old(self)@ }),
            final(self).app_start_time == old(self).app_start_time,
    {
        self.indexing_queue_size = size;
    }

    /// Records the latency of the latest vector search.
    pub fn record_vector_search_latency(&mut self, ms: u64)
        ensures
            final(self)@ == (MetricsView { vector_search_latency_ms: ms, ..old(self)@ }),
            final(self).app_start_time == old(self).app_start_time,
    {
        self.vector_search_latency_ms = ms;
    }

    /// Records how long the latest embedding took to generate.
    pub fn record_embedding_latency(&mut self, ms: u64)
        ensures
            final(self)@ == (MetricsView { embedding_generation_ms: ms, ..old(self)@ }),
            final(self).app_start_time == old(self).app_start_time,
    {
        self.embedding_generation_ms = ms;
    }

    /// Every counter and gauge, with the given uptime.
    pub fn snapshot(&self, uptime_seconds: u64) -> (s: MetricsSnapshot)
        ensures
            s == self.snapshot_spec(uptime_seconds),
    {
        MetricsSnapshot {
            events_captured: self.events_captured,
            screenshots_captured: self.screenshots_captured,
            ocr_processed: self.ocr_processed,
            embeddings_generated: self.embeddings_generated,
            search_queries: self.search_queries,
            indexing_queue_size: self.indexing_queue_size,
            last_event_time: self.last_event_time,
            uptime_seconds: uptime_seconds,
            vector_search_latency_ms: self.vector_search_latency_ms,
            embedding_generation_ms: self.embedding_generation_ms,
        }
    }

    /// Every counter and gauge, with the seconds elapsed since the start
    /// instant.
    pub fn get_all(&self) -> (s: MetricsSnapshot)
        ensures
            s == self.snapshot_spec(s.uptime_seconds),
    {
        let uptime = whole_secs_since(&self.app_start_time);
        self.snapshot(uptime)
    }

    /// The snapshot of these metrics with the given uptime.
    pub open spec fn snapshot_spec(&self, uptime_seconds: u64) -> MetricsSnapshot {
        MetricsSnapshot {
            events_captured: self.events_captured,
            screenshots_captured: self.screenshots_captured,
            ocr_processed: self.ocr_processed,
            embeddings_generated: self.embeddings_generated,
            search_queries: self.search_queries,
            indexing_queue_size: self.indexing_queue_size,
            last_event_time: self.last_event_time,
            uptime_seconds: uptime_seconds,
            vector_search_latency_ms: self.vector_search_latency_ms,
            embedding_generation_ms: self.embedding_generation_ms,
        }
    }
}

} // verus!
