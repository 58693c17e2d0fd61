//! What a long run keeps between one evaluation and the next: the log text,
//! fetched once; what is known of the GPU, asked for again only every few
//! seconds; and the short history of the load that a display draws.
//!
//! Nothing here reads a clock or runs a tool. The caller does, and hands in
//! the time and what it found.

use crate::metrics::{GpuDetails, Metrics};
use crate::evaluate::log_text;
use crate::rules::{copy_of, text_of};
use std::collections::VecDeque;
use vstd::prelude::*;

verus! {

/// How long what is known of the GPU is used before it is asked for again,
/// in milliseconds.
pub const GPU_REFRESH_MS: u64 = 5000;

/// How long a display waits between two snapshots, in milliseconds.
pub const SNAPSHOT_REFRESH_MS: u64 = 200;

/// How many samples of the load a display keeps.
pub const HISTORY_LIMIT: usize = 60;

/// The recent log text of a run. It is costly to gather, so a run fetches it
/// once at most: what is stored first stays, `None` too.
pub struct LogCache {
    fetched: bool,
    text: Option<String>,
}

impl LogCache {
    /// Whether a fetch was stored.
    pub closed spec fn is_fetched(self) -> bool {
        self.fetched
    }

    /// The log text that the cache holds, if any.
    pub closed spec fn held(self) -> Option<Seq<char>> {
        text_of(self.text)
    }

    /// A cache into which nothing was fetched yet.
    pub fn new() -> (r: LogCache)
        ensures
            !r.is_fetched(),
            r.held() is None,
    {
        LogCache { fetched: false, text: None }
    }

    /// Whether the log text is still to be fetched.
    pub fn needs_fetch(&self) -> (r: bool)
        ensures
            r == !self.is_fetched(),
    {
        !self.fetched
    }

    /// Stores what a fetch gave. Only the first fetch of a run counts: once
    /// something was stored, what the cache holds does not change again.
    pub fn store(&mut self, text: Option<String>)
        ensures
            final(self).is_fetched(),
            final(self).held() == if old(self).is_fetched() {
                old(self).held()
            } else {
                text_of(text)
            },
    {
        if !self.fetched {
            self.fetched = true;
            self.text = text;
        }
    }

    /// The log text, if a fetch gave one.
    pub fn text(&self) -> (r: Option<&str>)
        ensures
            log_text(r) == self.held(),
    {
        match &self.text {
            Some(t) => Some(t.as_str()),
            None => None,
        }
    }
}

/// A copy of what is known of a GPU.
pub fn copy_gpu(gpu: &GpuDetails) -> (r: GpuDetails)
    ensures
        r == *gpu,
{
    GpuDetails {
        vendor: gpu.vendor.clone(),
        model: copy_of(&gpu.model),
        driver: copy_of(&gpu.driver),
        temperature: gpu.temperature,
        utilization: gpu.utilization,
        memory_total_mb: gpu.memory_total_mb,
        memory_used_mb: gpu.memory_used_mb,
        memory_used_percent: gpu.memory_used_percent,
        fan_speed_percent: gpu.fan_speed_percent,
    }
}

/// What was last found out about the GPU, and when. Time is counted in
/// milliseconds from any fixed moment of the run.
pub struct GpuCache {
    pub details: Option<GpuDetails>,
    pub refreshed_at_ms: u64,
}

impl GpuCache {
    /// An empty cache, which counts as filled at `now_ms`: the GPU is first
    /// asked about one interval later.
    pub fn new(now_ms: u64) -> (r: GpuCache)
        ensures
            r.details is None,
            r.refreshed_at_ms == now_ms,
    {
        GpuCache { details: None, refreshed_at_ms: now_ms }
    }

    /// Whether the GPU is to be asked about again: a whole interval has
    /// passed since the cache was filled.
    pub open spec fn spec_is_due(self, now_ms: u64) -> bool {
        now_ms - self.refreshed_at_ms >= GPU_REFRESH_MS
    }

    /// Whether the GPU is to be asked about again.
    pub fn is_due(&self, now_ms: u64) -> (r: bool)
        ensures
            r == self.spec_is_due(now_ms),
    {
        now_ms >= self.refreshed_at_ms && now_ms - self.refreshed_at_ms >= GPU_REFRESH_MS
    }

    /// Fills the cache with what was found at `now_ms`.
    pub fn refresh(&mut self, now_ms: u64, details: Option<GpuDetails>)
        ensures
            final(self).details == details,
            final(self).refreshed_at_ms == now_ms,
    {
        self.details = details;
        self.refreshed_at_ms = now_ms;
    }

    /// The metrics with what the cache holds of the GPU put in.
    pub fn attach(&self, metrics: Metrics) -> (r: Metrics)
        ensures
            r == (Metrics { gpu: self.details, ..metrics }),
    {
        let gpu = match &self.details {
            Some(g) => Some(copy_gpu(g)),
            None => None,
        };
        metrics.with_gpu(gpu)
    }
}

/// A history with one more sample: the sample comes last, and the oldest
/// goes where the history was full.
pub open spec fn with_sample(history: Seq<u64>, sample: u64) -> Seq<u64> {
    if history.len() >= HISTORY_LIMIT {
        history.push(sample).drop_first()
    } else {
        history.push(sample)
    }
}

/// Adds a sample to a history of the load.
pub fn push_sample(history: &mut VecDeque<u64>, sample: u64)
    ensures
        final(history)@ == with_sample(old(history)@, sample),
{
    history.push_back(sample);
    if history.len() > HISTORY_LIMIT {
        let _ = history.pop_front();
        proof {
            assert(history@ =~= old(history)@.push(sample).drop_first());
        }
    }
}

/// A history that is no longer than the limit stays so with one more sample.
pub proof fn lemma_history_stays_short(history: Seq<u64>, sample: u64)
    requires
        history.len() <= HISTORY_LIMIT,
    ensures
        with_sample(history, sample).len() <= HISTORY_LIMIT,
        with_sample(history, sample).last() == sample,
{
}

} // verus!
