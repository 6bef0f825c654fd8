//! The consumer-visible lifecycle of a load, and the debounced
//! application of filter edits.
//!
//! Both are explicit two-phase designs: the host loop reports events and
//! clock readings; the decisions are made here.

use vstd::prelude::*;

verus! {

/// The phase of one ingestion operation as the consumer sees it.
pub enum LoadPhase {
    /// No worker running.
    Idle,
    /// A worker is reading; batches may still arrive.
    Loading,
    /// Cancellation was requested; the worker has not yet acknowledged.
    Cancelling,
}

/// What the consumer observes about the running load.
pub enum LoadEvent {
    /// A new worker was spawned.
    Started,
    /// The user asked to cancel.
    CancelRequested,
    /// The worker's completion message arrived.
    Completed,
}

/// The lifecycle transition: a start always enters `Loading`; a cancel
/// request marks a running load `Cancelling` and does nothing otherwise;
/// only completion returns to `Idle`.
pub fn load_phase_step(phase: LoadPhase, event: LoadEvent) -> (r: LoadPhase)
    ensures
        event is Started ==> r is Loading,
        event is Completed ==> r is Idle,
        event is CancelRequested ==> r == (match phase {
            LoadPhase::Loading => LoadPhase::Cancelling,
            LoadPhase::Cancelling => LoadPhase::Cancelling,
            LoadPhase::Idle => LoadPhase::Idle,
        }),
{
    match event {
        LoadEvent::Started => LoadPhase::Loading,
        LoadEvent::Completed => LoadPhase::Idle,
        LoadEvent::CancelRequested => match phase {
            LoadPhase::Loading => LoadPhase::Cancelling,
            LoadPhase::Cancelling => LoadPhase::Cancelling,
            LoadPhase::Idle => LoadPhase::Idle,
        },
    }
}

/// Debounced recompute of the derived filter state: an edit resets the
/// deadline; the host's tick fires the recompute once the deadline has
/// passed. No implicit timers — the host hands the clock in.
pub struct Debouncer {
    /// The instant (in milliseconds) at which a pending edit is due, if
    /// one is pending.
    pub deadline: Option<i64>,
    /// How long after the last edit the recompute runs.
    pub delay_ms: i64,
}

impl Debouncer {
    /// A debouncer with no pending edit.
    pub fn new(delay_ms: i64) -> (r: Self)
        requires
            0 <= delay_ms,
        ensures
            r.deadline is None,
            r.delay_ms == delay_ms,
    {
        Debouncer { deadline: None, delay_ms }
    }

    /// A text field changed: the deadline moves to one delay from now
    /// (saturating at the top of the range).
    pub fn record_edit(&mut self, now_ms: i64)
        requires
            0 <= old(self).delay_ms,
        ensures
            final (self).delay_ms == old(self).delay_ms,
            final (self).deadline == Some(
                if now_ms <= i64::MAX - old(self).delay_ms {
                    (now_ms + old(self).delay_ms) as i64
                } else {
                    i64::MAX
                },
            ),
    {
        let due: i64 = if now_ms <= i64::MAX - self.delay_ms {
            now_ms + self.delay_ms
        } else {
            i64::MAX
        };
        self.deadline = Some(due);
    }

    /// The host's clock tick: reports whether the pending edit is due, and
    /// clears it exactly when it fires.
    pub fn tick(&mut self, now_ms: i64) -> (fire: bool)
        ensures
            fire == (old(self).deadline matches Some(d) && now_ms >= d),
            fire ==> (final (self).deadline) is None,
            !fire ==> final (self).deadline == old(self).deadline,
            final (self).delay_ms == old(self).delay_ms,
    {
        match self.deadline {
            Some(d) => {
                if now_ms >= d {
                    self.deadline = None;
                    true
                } else {
                    false
                }
            },
            None => false,
        }
    }
}

} // verus!
