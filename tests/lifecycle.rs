use sidecar_supervisor::shutdown::{
    advance_stop, begin_stop, shutdown_command, shutdown_reply, ShutdownOutcome, StopAction,
    StopEvent, StopStage, GRACE_PERIOD_MS,
};
use sidecar_supervisor::slot::SidecarProcess;
use sidecar_supervisor::startup::{
    advance_start, begin_start, start_reply, StartAction, StartEvent, StartOutcome, StartStage,
};

fn drive_stop(events: &[StopEvent]) -> (StopStage, Vec<StopAction>) {
    let (mut stage, first) = begin_stop();
    let mut actions = vec![first];
    for e in events {
        let (s, a) = advance_stop(stage, *e);
        stage = s;
        actions.push(a);
    }
    (stage, actions)
}

fn drive_start(events: &[StartEvent]) -> (StartStage, Vec<StartAction>) {
    let (mut stage, first) = begin_start();
    let mut actions = vec![first];
    for e in events {
        let (s, a) = advance_start(stage, *e);
        stage = s;
        actions.push(a);
    }
    (stage, actions)
}

#[test]
fn slot_starts_empty_and_installs_once() {
    let mut slot: SidecarProcess<u32> = SidecarProcess::new();
    assert!(!slot.has_process());
    assert_eq!(slot.try_set_if_absent(7), None);
    assert!(slot.has_process());
    assert_eq!(slot.try_set_if_absent(9), Some(9));
    assert_eq!(slot.take_process(), Some(7));
    assert!(!slot.has_process());
    assert_eq!(slot.take_process(), None);
}

#[test]
fn stop_without_worker_reports_no_process() {
    let (stage, actions) = drive_stop(&[StopEvent::Taken { present: false }, StopEvent::SweepDone]);
    assert_eq!(stage, StopStage::Finished(ShutdownOutcome::NoProcessPresent));
    assert_eq!(
        actions,
        vec![StopAction::TakeHandle, StopAction::Sweep, StopAction::Report(ShutdownOutcome::NoProcessPresent)]
    );
    assert_eq!(
        shutdown_reply(ShutdownOutcome::NoProcessPresent),
        Ok("No active sidecar process to shutdown.".to_string())
    );
}

#[test]
fn stop_on_lock_failure_is_not_an_error() {
    let (stage, actions) = drive_stop(&[StopEvent::LockFailed, StopEvent::SweepDone]);
    assert_eq!(stage, StopStage::Finished(ShutdownOutcome::LockUnavailable));
    assert!(!actions.contains(&StopAction::Kill));
    assert_eq!(
        shutdown_reply(ShutdownOutcome::LockUnavailable),
        Ok("[tauri] Failed to acquire lock on sidecar process.".to_string())
    );
}

#[test]
fn worker_that_acknowledges_shutdown_ends_gracefully() {
    let (stage, actions) = drive_stop(&[
        StopEvent::Taken { present: true },
        StopEvent::WriteDone { ok: true },
        StopEvent::GraceElapsed,
        StopEvent::KillDone { exited_before: true },
        StopEvent::SweepDone,
    ]);
    assert_eq!(stage, StopStage::Finished(ShutdownOutcome::GracefulAcknowledged));
    assert_eq!(
        actions,
        vec![
            StopAction::TakeHandle,
            StopAction::WriteCommand,
            StopAction::Wait { ms: 500 },
            StopAction::Kill,
            StopAction::Sweep,
            StopAction::Report(ShutdownOutcome::GracefulAcknowledged),
        ]
    );
    assert_eq!(shutdown_reply(ShutdownOutcome::GracefulAcknowledged), Ok("Sidecar shutdown completed.".to_string()));
}

#[test]
fn worker_that_ignores_shutdown_is_forced_after_timeout() {
    let (stage, actions) = drive_stop(&[
        StopEvent::Taken { present: true },
        StopEvent::WriteDone { ok: true },
        StopEvent::GraceElapsed,
        StopEvent::KillDone { exited_before: false },
        StopEvent::SweepDone,
    ]);
    assert_eq!(stage, StopStage::Finished(ShutdownOutcome::ForcedAfterTimeout));
    assert_eq!(actions.iter().filter(|a| **a == StopAction::Kill).count(), 1);
    assert_eq!(actions[2], StopAction::Wait { ms: GRACE_PERIOD_MS });
    assert_eq!(shutdown_reply(ShutdownOutcome::ForcedAfterTimeout), Ok("Sidecar shutdown completed.".to_string()));
}

#[test]
fn write_failure_goes_straight_to_kill() {
    let (stage, actions) = drive_stop(&[
        StopEvent::Taken { present: true },
        StopEvent::WriteDone { ok: false },
        StopEvent::KillDone { exited_before: false },
        StopEvent::SweepDone,
    ]);
    assert_eq!(actions[2], StopAction::Kill);
    assert_eq!(actions[3], StopAction::Sweep);
    assert_eq!(stage, StopStage::Finished(ShutdownOutcome::ForcedAfterWriteFailure));
    assert_eq!(shutdown_reply(ShutdownOutcome::ForcedAfterWriteFailure), Ok("Sidecar forcefully terminated.".to_string()));
}

#[test]
fn unexpected_events_change_nothing() {
    let (stage, actions) = drive_stop(&[
        StopEvent::GraceElapsed,
        StopEvent::Taken { present: true },
        StopEvent::KillDone { exited_before: true },
        StopEvent::SweepDone,
    ]);
    assert_eq!(stage, StopStage::AwaitWrite);
    assert_eq!(actions[1], StopAction::Nothing);
    assert_eq!(actions[3], StopAction::Nothing);
    assert_eq!(actions[4], StopAction::Nothing);
    let (done, a) = advance_stop(StopStage::Finished(ShutdownOutcome::ForcedAfterTimeout), StopEvent::LockFailed);
    assert_eq!(done, StopStage::Finished(ShutdownOutcome::ForcedAfterTimeout));
    assert_eq!(a, StopAction::Nothing);
}

#[test]
fn shutdown_command_is_one_line() {
    assert_eq!(shutdown_command(), "sidecar shutdown\n");
}

#[test]
fn concurrent_stops_only_one_takes_the_worker() {
    let mut slot: SidecarProcess<u32> = SidecarProcess::new();
    assert_eq!(slot.try_set_if_absent(42), None);
    let window_close = slot.take_process();
    let app_exit = slot.take_process();
    assert_eq!(window_close, Some(42));
    assert_eq!(app_exit, None);
    let (first, first_actions) = drive_stop(&[
        StopEvent::Taken { present: window_close.is_some() },
        StopEvent::WriteDone { ok: true },
        StopEvent::GraceElapsed,
        StopEvent::KillDone { exited_before: true },
        StopEvent::SweepDone,
    ]);
    let (second, second_actions) =
        drive_stop(&[StopEvent::Taken { present: app_exit.is_some() }, StopEvent::SweepDone]);
    assert_eq!(first, StopStage::Finished(ShutdownOutcome::GracefulAcknowledged));
    assert_eq!(first_actions.iter().filter(|a| **a == StopAction::Kill).count(), 1);
    assert_eq!(second, StopStage::Finished(ShutdownOutcome::NoProcessPresent));
    assert!(!second_actions.contains(&StopAction::Kill));
    assert!(!second_actions.contains(&StopAction::WriteCommand));
}

#[test]
fn start_spawns_installs_and_relays() {
    let (stage, actions) = drive_start(&[
        StartEvent::Checked { present: false },
        StartEvent::SpawnDone { ok: true },
        StartEvent::InstallDone { installed: true },
    ]);
    assert_eq!(stage, StartStage::Finished(StartOutcome::Started));
    assert_eq!(
        actions,
        vec![StartAction::CheckSlot, StartAction::Spawn, StartAction::Install, StartAction::LaunchRelay]
    );
    assert_eq!(start_reply(StartOutcome::Started, String::new()), Ok("Sidecar spawned and monitoring started.".to_string()));
}

#[test]
fn second_start_spawns_nothing() {
    let mut slot: SidecarProcess<u32> = SidecarProcess::new();
    let mut spawned = 0u32;
    for _ in 0..2 {
        let (mut stage, mut action) = begin_start();
        loop {
            let event = match action {
                StartAction::CheckSlot => StartEvent::Checked { present: slot.has_process() },
                StartAction::Spawn => {
                    spawned += 1;
                    StartEvent::SpawnDone { ok: true }
                }
                StartAction::Install => StartEvent::InstallDone { installed: slot.try_set_if_absent(spawned).is_none() },
                StartAction::Discard => StartEvent::DiscardDone,
                _ => break,
            };
            let (s, a) = advance_start(stage, event);
            stage = s;
            action = a;
        }
        if spawned == 1 && stage != StartStage::Finished(StartOutcome::Started) {
            assert_eq!(stage, StartStage::Finished(StartOutcome::AlreadyRunning));
        }
    }
    assert_eq!(spawned, 1);
    assert_eq!(slot.take_process(), Some(1));
    assert_eq!(
        start_reply(StartOutcome::AlreadyRunning, String::new()),
        Ok("Sidecar spawned and monitoring started.".to_string())
    );
}

#[test]
fn lost_install_race_discards_new_worker() {
    let (stage, actions) = drive_start(&[
        StartEvent::Checked { present: false },
        StartEvent::SpawnDone { ok: true },
        StartEvent::InstallDone { installed: false },
        StartEvent::DiscardDone,
    ]);
    assert_eq!(actions[3], StartAction::Discard);
    assert_eq!(stage, StartStage::Finished(StartOutcome::AlreadyRunning));
}

#[test]
fn failed_spawn_is_an_error() {
    let (stage, _) = drive_start(&[StartEvent::Checked { present: false }, StartEvent::SpawnDone { ok: false }]);
    assert_eq!(stage, StartStage::Finished(StartOutcome::SpawnFailed));
    assert_eq!(
        start_reply(StartOutcome::SpawnFailed, "no sidecar binary".to_string()),
        Err("no sidecar binary".to_string())
    );
}

#[test]
fn lock_failure_at_install_discards() {
    let (stage, actions) = drive_start(&[
        StartEvent::Checked { present: false },
        StartEvent::SpawnDone { ok: true },
        StartEvent::LockFailed,
        StartEvent::DiscardDone,
    ]);
    assert_eq!(actions[3], StartAction::Discard);
    assert_eq!(stage, StartStage::Finished(StartOutcome::LockUnavailable));
    assert_eq!(
        start_reply(StartOutcome::LockUnavailable, String::new()),
        Err("Failed to access app state".to_string())
    );
}
