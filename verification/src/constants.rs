//! Tuning constants for the pipeline and the store.

use vstd::prelude::*;

verus! {

/// Raw handles requested per pagination call.
pub const EVT_BATCH_SIZE: usize = 200;

/// Bounded wait, in milliseconds, of one pagination call; a finite wait
/// keeps the cancellation checkpoint reachable.
pub const EVT_NEXT_TIMEOUT_MS: u32 = 1000;

/// Cap on records read from one channel, a safety valve against
/// channels holding millions of entries.
pub const MAX_EVENTS_PER_CHANNEL: usize = 500_000;

/// Render buffer size, in 16-bit units, for the external renderer; grown
/// on demand and reused across records.
pub const EVT_RENDER_BUFFER_SIZE: usize = 8_192;

/// Capacity of the delivery channel between the worker and the consumer;
/// bounded to apply backpressure when the consumer falls behind.
pub const CHANNEL_BOUND: usize = 256;

/// Message-format buffer size, in 16-bit units; grown on demand and
/// reused across records.
pub const EVT_FORMAT_BUFFER_SIZE: usize = 2_048;

/// Debounce, in milliseconds, between a text edit and the derived-state
/// recompute.
pub const FILTER_DEBOUNCE_MS: u64 = 150;

/// Interval, in seconds, between live-tail refresh queries.
pub const LIVE_TAIL_INTERVAL_SECS: u64 = 5;

/// Cap on the retained per-channel error list.
pub const MAX_ERRORS: usize = 200;

/// Retry budget for transient source errors.
pub const MAX_RETRY_ATTEMPTS: u32 = 3;

/// Base backoff delay in milliseconds; attempt `n` waits
/// `RETRY_BASE_DELAY_MS * 2^(n-1)`.
pub const RETRY_BASE_DELAY_MS: u64 = 50;

/// The access-denied HRESULT, singled out for the elevation banner.
pub const HRESULT_ACCESS_DENIED: u32 = 0x80070005;

/// Absolute cap on records held in memory: tail polling appends without
/// clearing, so the store needs a bound, generously above a full load.
pub const MAX_TOTAL_EVENTS_CAP: usize = MAX_EVENTS_PER_CHANNEL * 4;

} // verus!
