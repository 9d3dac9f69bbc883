//! The flush scheduler's state machine: one long-lived task per resource
//! that, on a fixed period, drains the buffer and hands the batch to the
//! ingest pipeline.
//!
//! The decisions live here as a pure transition function; the caller owns
//! the loop, performs the drain, the upload and the load, and feeds the
//! outcome back as an event.  A failed ingest never loses the batch: the
//! only transition out of a failed tick requeues it.

use vstd::prelude::*;

verus! {

/// Where one scheduler tick stands.  There is no terminal phase: the
/// scheduler runs until its owning process shuts down.
#[derive(Debug, PartialEq, Eq, Structural, Clone, Copy)]
pub enum FlushPhase {
    /// Waiting for the next period to elapse.
    Idle,
    /// Draining the buffer.
    Draining,
    /// A non-empty batch is being staged and bulk-loaded.
    Ingesting,
    /// The batch was durably loaded.
    Committed,
    /// Ingestion failed; the batch went back to the buffer for the next
    /// tick.
    FailedRequeued,
}

/// What the scheduler's environment reports back.
#[derive(Debug, PartialEq, Eq, Structural, Clone, Copy)]
pub enum FlushEvent {
    /// The period elapsed.
    TickDue,
    /// The drain returned nothing: the tick is a no-op.
    DrainedEmpty,
    /// The drain returned a non-empty batch.
    DrainedBatch,
    /// Upload and bulk-load both succeeded.
    IngestSucceeded,
    /// Upload or bulk-load failed; the batch was requeued.
    IngestFailed,
    /// The tick's outcome was recorded; sleep until the next period.
    Settled,
}

/// The transition relation of one flush task.  An event that does not
/// belong to the current phase changes nothing: a scheduler ignores stray
/// reports rather than corrupt its tick.
pub open spec fn next_phase(phase: FlushPhase, event: FlushEvent) -> FlushPhase {
    match (phase, event) {
        (FlushPhase::Idle, FlushEvent::TickDue) => FlushPhase::Draining,
        (FlushPhase::Draining, FlushEvent::DrainedEmpty) => FlushPhase::Idle,
        (FlushPhase::Draining, FlushEvent::DrainedBatch) => FlushPhase::Ingesting,
        (FlushPhase::Ingesting, FlushEvent::IngestSucceeded) => FlushPhase::Committed,
        (FlushPhase::Ingesting, FlushEvent::IngestFailed) => FlushPhase::FailedRequeued,
        (FlushPhase::Committed, FlushEvent::Settled) => FlushPhase::Idle,
        (FlushPhase::FailedRequeued, FlushEvent::Settled) => FlushPhase::Idle,
        (p, _) => p,
    }
}

/// One flush task: its fixed period and the phase of the current tick.
pub struct FlushSchedule {
    /// Milliseconds between ticks.
    pub period_ms: u64,
    /// Where the current tick stands.
    pub phase: FlushPhase,
}

impl FlushSchedule {
    /// A new task starts idle, waiting out its first period.
    pub fn new(period_ms: u64) -> (s: FlushSchedule)
        ensures
            s.period_ms == period_ms,
            s.phase == FlushPhase::Idle,
    {
        FlushSchedule { period_ms, phase: FlushPhase::Idle }
    }

    /// Advances the tick by one event.
    pub fn on_event(&mut self, event: FlushEvent)
        ensures
            final(self).phase == next_phase(old(self).phase, event),
            final(self).period_ms == old(self).period_ms,
    {
        let phase = self.phase;
        self.phase = match (phase, event) {
            (FlushPhase::Idle, FlushEvent::TickDue) => FlushPhase::Draining,
            (FlushPhase::Draining, FlushEvent::DrainedEmpty) => FlushPhase::Idle,
            (FlushPhase::Draining, FlushEvent::DrainedBatch) => FlushPhase::Ingesting,
            (FlushPhase::Ingesting, FlushEvent::IngestSucceeded) => FlushPhase::Committed,
            (FlushPhase::Ingesting, FlushEvent::IngestFailed) => FlushPhase::FailedRequeued,
            (FlushPhase::Committed, FlushEvent::Settled) => FlushPhase::Idle,
            (FlushPhase::FailedRequeued, FlushEvent::Settled) => FlushPhase::Idle,
            (p, _) => p,
        };
    }
}

/// A tick that ends in failure returns to idle only through the requeued
/// phase: the scheduler has no path that abandons a drained batch.
pub proof fn lemma_failed_tick_requeues(event: FlushEvent)
    ensures
        next_phase(FlushPhase::Ingesting, event) != FlushPhase::Idle,
        next_phase(FlushPhase::Ingesting, FlushEvent::IngestFailed) == FlushPhase::FailedRequeued,
        next_phase(FlushPhase::FailedRequeued, FlushEvent::Settled) == FlushPhase::Idle,
{
}

} // verus!
