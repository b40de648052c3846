//! The refresh scheduler's state machine.
//!
//! The scheduler performs one immediate warm-up rebuild at startup — the
//! service is not ready without data — then triggers a rebuild on every
//! elapsed interval, serializing ticks so rebuilds never overlap, and stops
//! gracefully on request. The decisions live here as a pure transition
//! function; the surrounding process supplies the timer and runs the
//! rebuilds it is told to run.

use vstd::prelude::*;

verus! {

/// Where the scheduler stands.
#[derive(Clone, Copy, Debug, PartialEq, Eq, Structural)]
pub enum SchedulerPhase {
    /// Not started yet.
    Idle,
    /// The startup rebuild is running.
    WarmingUp,
    /// Waiting for the next interval to elapse.
    Scheduled,
    /// An interval rebuild is running.
    Refreshing,
    /// Stopped; nothing is scheduled any more.
    Stopped,
}

/// What the scheduler is told.
#[derive(Clone, Copy, Debug, PartialEq, Eq, Structural)]
pub enum SchedulerEvent {
    /// The process starts the scheduler.
    Start,
    /// The startup rebuild completed.
    WarmupSucceeded,
    /// The startup rebuild failed.
    WarmupFailed,
    /// The interval elapsed.
    TickDue,
    /// The running rebuild finished, successfully or not; either way the
    /// next tick is awaited.
    RefreshFinished,
    /// The process shuts down.
    StopRequested,
}

/// What the scheduler tells the process to do.
#[derive(Clone, Copy, Debug, PartialEq, Eq, Structural)]
pub enum SchedulerAction {
    /// Run the startup rebuild to completion.
    BeginWarmup,
    /// Run one interval rebuild.
    BeginRefresh,
    /// An interval elapsed while a rebuild was still running: do nothing,
    /// the next interval will try again.
    SkipTick,
    /// The startup rebuild failed: startup as a whole fails.
    AbortStartup,
    /// Stop the timer; abandon or finish any in-flight rebuild.
    Shutdown,
    /// Nothing to do.
    Ignore,
}

/// The transition function: next phase and the action to perform.
pub open spec fn spec_step(phase: SchedulerPhase, event: SchedulerEvent) -> (SchedulerPhase,
    SchedulerAction) {
    match (phase, event) {
        (_, SchedulerEvent::StopRequested) => (SchedulerPhase::Stopped, SchedulerAction::Shutdown),
        (SchedulerPhase::Idle, SchedulerEvent::Start) => (
            SchedulerPhase::WarmingUp,
            SchedulerAction::BeginWarmup,
        ),
        (SchedulerPhase::WarmingUp, SchedulerEvent::WarmupSucceeded) => (
            SchedulerPhase::Scheduled,
            SchedulerAction::Ignore,
        ),
        (SchedulerPhase::WarmingUp, SchedulerEvent::WarmupFailed) => (
            SchedulerPhase::Stopped,
            SchedulerAction::AbortStartup,
        ),
        (SchedulerPhase::Scheduled, SchedulerEvent::TickDue) => (
            SchedulerPhase::Refreshing,
            SchedulerAction::BeginRefresh,
        ),
        (SchedulerPhase::Refreshing, SchedulerEvent::TickDue) => (
            SchedulerPhase::Refreshing,
            SchedulerAction::SkipTick,
        ),
        (SchedulerPhase::Refreshing, SchedulerEvent::RefreshFinished) => (
            SchedulerPhase::Scheduled,
            SchedulerAction::Ignore,
        ),
        (p, _) => (p, SchedulerAction::Ignore),
    }
}

/// Performs one scheduler transition.
pub fn step(phase: SchedulerPhase, event: SchedulerEvent) -> (r: (SchedulerPhase, SchedulerAction))
    ensures
        r == spec_step(phase, event),
{
    match (phase, event) {
        (_, SchedulerEvent::StopRequested) => (SchedulerPhase::Stopped, SchedulerAction::Shutdown),
        (SchedulerPhase::Idle, SchedulerEvent::Start) => (
            SchedulerPhase::WarmingUp,
            SchedulerAction::BeginWarmup,
        ),
        (SchedulerPhase::WarmingUp, SchedulerEvent::WarmupSucceeded) => (
            SchedulerPhase::Scheduled,
            SchedulerAction::Ignore,
        ),
        (SchedulerPhase::WarmingUp, SchedulerEvent::WarmupFailed) => (
            SchedulerPhase::Stopped,
            SchedulerAction::AbortStartup,
        ),
        (SchedulerPhase::Scheduled, SchedulerEvent::TickDue) => (
            SchedulerPhase::Refreshing,
            SchedulerAction::BeginRefresh,
        ),
        (SchedulerPhase::Refreshing, SchedulerEvent::TickDue) => (
            SchedulerPhase::Refreshing,
            SchedulerAction::SkipTick,
        ),
        (SchedulerPhase::Refreshing, SchedulerEvent::RefreshFinished) => (
            SchedulerPhase::Scheduled,
            SchedulerAction::Ignore,
        ),
        (p, _) => (p, SchedulerAction::Ignore),
    }
}

/// Law: rebuilds never overlap. A rebuild is begun only from the waiting
/// phase — in particular, an interval that elapses while a rebuild is still
/// running is skipped, never started on top of it — and whenever a rebuild
/// is begun the scheduler moves to `Refreshing`, where further ticks only
/// skip.
pub proof fn lemma_no_overlapping_rebuilds(phase: SchedulerPhase, event: SchedulerEvent)
    ensures
        spec_step(phase, event).1 == SchedulerAction::BeginRefresh ==> phase
            == SchedulerPhase::Scheduled && spec_step(phase, event).0
            == SchedulerPhase::Refreshing,
        phase == SchedulerPhase::Refreshing && event == SchedulerEvent::TickDue ==> spec_step(
            phase,
            event,
        ).1 == SchedulerAction::SkipTick,
{
}

/// Law: the startup rebuild runs exactly once, first. Warm-up is begun only
/// from the initial phase, and no interval rebuild is ever begun before the
/// warm-up reported success.
pub proof fn lemma_warmup_first(phase: SchedulerPhase, event: SchedulerEvent)
    ensures
        spec_step(phase, event).1 == SchedulerAction::BeginWarmup ==> phase == SchedulerPhase::Idle,
        phase == SchedulerPhase::Idle || phase == SchedulerPhase::WarmingUp ==> spec_step(
            phase,
            event,
        ).1 != SchedulerAction::BeginRefresh,
{
}

/// Law: a stop is final. From `Stopped` every event leaves the scheduler
/// stopped and never begins another rebuild or warm-up.
pub proof fn lemma_stop_is_final(event: SchedulerEvent)
    ensures
        spec_step(SchedulerPhase::Stopped, event).0 == SchedulerPhase::Stopped,
        spec_step(SchedulerPhase::Stopped, event).1 != SchedulerAction::BeginRefresh,
        spec_step(SchedulerPhase::Stopped, event).1 != SchedulerAction::BeginWarmup,
{
}

} // verus!
