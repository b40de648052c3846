use device_status::scheduler::{step, SchedulerAction, SchedulerEvent, SchedulerPhase};

#[test]
fn start_begins_warmup() {
    let (phase, action) = step(SchedulerPhase::Idle, SchedulerEvent::Start);
    assert_eq!(phase, SchedulerPhase::WarmingUp);
    assert_eq!(action, SchedulerAction::BeginWarmup);
}

#[test]
fn warmup_success_schedules_ticks() {
    let (phase, action) = step(SchedulerPhase::WarmingUp, SchedulerEvent::WarmupSucceeded);
    assert_eq!(phase, SchedulerPhase::Scheduled);
    assert_eq!(action, SchedulerAction::Ignore);
}

#[test]
fn warmup_failure_is_fatal_to_startup() {
    let (phase, action) = step(SchedulerPhase::WarmingUp, SchedulerEvent::WarmupFailed);
    assert_eq!(phase, SchedulerPhase::Stopped);
    assert_eq!(action, SchedulerAction::AbortStartup);
}

#[test]
fn due_tick_begins_a_rebuild() {
    let (phase, action) = step(SchedulerPhase::Scheduled, SchedulerEvent::TickDue);
    assert_eq!(phase, SchedulerPhase::Refreshing);
    assert_eq!(action, SchedulerAction::BeginRefresh);
}

#[test]
fn tick_during_running_rebuild_is_skipped() {
    let (phase, action) = step(SchedulerPhase::Refreshing, SchedulerEvent::TickDue);
    assert_eq!(phase, SchedulerPhase::Refreshing);
    assert_eq!(action, SchedulerAction::SkipTick);
}

#[test]
fn finished_rebuild_waits_for_the_next_tick() {
    let (phase, action) = step(SchedulerPhase::Refreshing, SchedulerEvent::RefreshFinished);
    assert_eq!(phase, SchedulerPhase::Scheduled);
    assert_eq!(action, SchedulerAction::Ignore);
}

#[test]
fn stop_wins_from_every_phase() {
    for phase in [
        SchedulerPhase::Idle,
        SchedulerPhase::WarmingUp,
        SchedulerPhase::Scheduled,
        SchedulerPhase::Refreshing,
        SchedulerPhase::Stopped,
    ] {
        let (next, action) = step(phase, SchedulerEvent::StopRequested);
        assert_eq!(next, SchedulerPhase::Stopped);
        assert_eq!(action, SchedulerAction::Shutdown);
    }
}

#[test]
fn stopped_is_final() {
    for event in [
        SchedulerEvent::Start,
        SchedulerEvent::WarmupSucceeded,
        SchedulerEvent::WarmupFailed,
        SchedulerEvent::TickDue,
        SchedulerEvent::RefreshFinished,
    ] {
        let (next, action) = step(SchedulerPhase::Stopped, event);
        assert_eq!(next, SchedulerPhase::Stopped);
        assert_ne!(action, SchedulerAction::BeginRefresh);
        assert_ne!(action, SchedulerAction::BeginWarmup);
    }
}
