use vstd::prelude::*;
use crate::trace::{count_of, lemma_count_push};

verus! {

/// Milliseconds the worker is given to exit on its own after the shutdown
/// command, before it is terminated.
pub const GRACE_PERIOD_MS: u64 = 500;

/// The line written to the worker's standard input to ask it to exit.
pub fn shutdown_command() -> (r: &'static str)
    ensures
        r@ == "sidecar shutdown\n"@,
{
    "sidecar shutdown\n"
}

/// How a shutdown attempt ended.
#[derive(Clone, Copy, Debug, PartialEq, Eq, Structural)]
pub enum ShutdownOutcome {
    /// The worker exited on its own within the grace period.
    GracefulAcknowledged,
    /// The worker was still running after the grace period and was killed.
    ForcedAfterTimeout,
    /// The shutdown command could not be written; the worker was killed.
    ForcedAfterWriteFailure,
    /// No worker was installed.
    NoProcessPresent,
    /// The slot's lock could not be acquired.
    LockUnavailable,
}

/// Where one `stop` invocation stands.
#[derive(Clone, Copy, Debug, PartialEq, Eq, Structural)]
pub enum StopStage {
    /// Waiting to take the handle out of the slot.
    Begin,
    /// The handle was taken; the shutdown command is being written.
    AwaitWrite,
    /// The command was written; the grace period is running.
    AwaitGrace,
    /// The worker is being killed.
    AwaitKill { write_failed: bool },
    /// The outcome is known; the worker's ports are being swept.
    AwaitSweep(ShutdownOutcome),
    /// The sequence is over.
    Finished(ShutdownOutcome),
}

/// What the host observed after performing the last action.
#[derive(Clone, Copy, Debug, PartialEq, Eq, Structural)]
pub enum StopEvent {
    /// The slot's lock could not be acquired.
    LockFailed,
    /// The slot was emptied; `present` tells whether it held a handle.
    Taken { present: bool },
    /// The shutdown command was written, or writing it failed.
    WriteDone { ok: bool },
    /// The grace period has passed.
    GraceElapsed,
    /// The kill signal was sent; `exited_before` tells whether the worker had
    /// already exited by then.
    KillDone { exited_before: bool },
    /// The port sweep has run.
    SweepDone,
}

/// What the host must do next.
#[derive(Clone, Copy, Debug, PartialEq, Eq, Structural)]
pub enum StopAction {
    /// Take the handle out of the slot under its lock, then release the lock.
    TakeHandle,
    /// Write the shutdown command to the worker's standard input.
    WriteCommand,
    /// Sleep for the given number of milliseconds.
    Wait { ms: u64 },
    /// Kill the worker unconditionally.
    Kill,
    /// Kill whatever still listens on the worker's ports.
    Sweep,
    /// Report the outcome; the sequence is over.
    Report(ShutdownOutcome),
    /// The event did not fit the stage; nothing to do.
    Nothing,
}

/// Outcome once the kill signal has been sent.
pub open spec fn kill_outcome(write_failed: bool, exited_before: bool) -> ShutdownOutcome {
    if write_failed {
        ShutdownOutcome::ForcedAfterWriteFailure
    } else if exited_before {
        ShutdownOutcome::GracefulAcknowledged
    } else {
        ShutdownOutcome::ForcedAfterTimeout
    }
}

/// Whether the outcome means a worker handle was taken and dealt with.
pub open spec fn had_worker(o: ShutdownOutcome) -> bool {
    !(o == ShutdownOutcome::NoProcessPresent || o == ShutdownOutcome::LockUnavailable)
}

/// One transition of the stop sequence: take, write, wait, kill, sweep the
/// ports, report. Every path, also one that finds no worker or no lock, goes
/// through the sweep. An event that does not fit the stage changes nothing.
pub open spec fn stop_step(stage: StopStage, event: StopEvent) -> (StopStage, StopAction) {
    match (stage, event) {
        (StopStage::Begin, StopEvent::LockFailed) => (
            StopStage::AwaitSweep(ShutdownOutcome::LockUnavailable),
            StopAction::Sweep,
        ),
        (StopStage::Begin, StopEvent::Taken { present }) => if present {
            (StopStage::AwaitWrite, StopAction::WriteCommand)
        } else {
            (StopStage::AwaitSweep(ShutdownOutcome::NoProcessPresent), StopAction::Sweep)
        },
        (StopStage::AwaitWrite, StopEvent::WriteDone { ok }) => if ok {
            (StopStage::AwaitGrace, StopAction::Wait { ms: GRACE_PERIOD_MS })
        } else {
            (StopStage::AwaitKill { write_failed: true }, StopAction::Kill)
        },
        (StopStage::AwaitGrace, StopEvent::GraceElapsed) => (
            StopStage::AwaitKill { write_failed: false },
            StopAction::Kill,
        ),
        (StopStage::AwaitKill { write_failed }, StopEvent::KillDone { exited_before }) => (
            StopStage::AwaitSweep(kill_outcome(write_failed, exited_before)),
            StopAction::Sweep,
        ),
        (StopStage::AwaitSweep(o), StopEvent::SweepDone) => (
            StopStage::Finished(o),
            StopAction::Report(o),
        ),
        _ => (stage, StopAction::Nothing),
    }
}

/// Stage reached and actions issued when `events` arrive one by one.
pub open spec fn run_stop(stage: StopStage, events: Seq<StopEvent>) -> (StopStage, Seq<StopAction>)
    decreases events.len(),
{
    if events.len() == 0 {
        (stage, Seq::empty())
    } else {
        let (s, acts) = run_stop(stage, events.drop_last());
        let (s2, a) = stop_step(s, events.last());
        (s2, acts.push(a))
    }
}

/// The first stage of a stop and the action that opens it.
pub fn begin_stop() -> (r: (StopStage, StopAction))
    ensures
        r == (StopStage::Begin, StopAction::TakeHandle),
{
    (StopStage::Begin, StopAction::TakeHandle)
}

/// Advances the stop sequence by one observed event.
pub fn advance_stop(stage: StopStage, event: StopEvent) -> (r: (StopStage, StopAction))
    ensures
        r == stop_step(stage, event),
{
    match (stage, event) {
        (StopStage::Begin, StopEvent::LockFailed) => (
            StopStage::AwaitSweep(ShutdownOutcome::LockUnavailable),
            StopAction::Sweep,
        ),
        (StopStage::Begin, StopEvent::Taken { present }) => {
            if present {
                (StopStage::AwaitWrite, StopAction::WriteCommand)
            } else {
                (StopStage::AwaitSweep(ShutdownOutcome::NoProcessPresent), StopAction::Sweep)
            }
        },
        (StopStage::AwaitWrite, StopEvent::WriteDone { ok }) => {
            if ok {
                (StopStage::AwaitGrace, StopAction::Wait { ms: GRACE_PERIOD_MS })
            } else {
                (StopStage::AwaitKill { write_failed: true }, StopAction::Kill)
            }
        },
        (StopStage::AwaitGrace, StopEvent::GraceElapsed) => (
            StopStage::AwaitKill { write_failed: false },
            StopAction::Kill,
        ),
        (StopStage::AwaitKill { write_failed }, StopEvent::KillDone { exited_before }) => {
            let o = if write_failed {
                ShutdownOutcome::ForcedAfterWriteFailure
            } else if exited_before {
                ShutdownOutcome::GracefulAcknowledged
            } else {
                ShutdownOutcome::ForcedAfterTimeout
            };
            (StopStage::AwaitSweep(o), StopAction::Sweep)
        },
        (StopStage::AwaitSweep(o), StopEvent::SweepDone) => (
            StopStage::Finished(o),
            StopAction::Report(o),
        ),
        _ => (stage, StopAction::Nothing),
    }
}

/// Kill, write and sweep counts that each stage implies for the actions
/// issued so far from `Begin`.
pub open spec fn stop_counts_match(stage: StopStage, acts: Seq<StopAction>) -> bool {
    let kills = count_of(acts, StopAction::Kill);
    let writes = count_of(acts, StopAction::WriteCommand);
    let sweeps = count_of(acts, StopAction::Sweep);
    match stage {
        StopStage::Begin => kills == 0 && writes == 0 && sweeps == 0,
        StopStage::AwaitWrite => kills == 0 && writes == 1 && sweeps == 0,
        StopStage::AwaitGrace => kills == 0 && writes == 1 && sweeps == 0,
        StopStage::AwaitKill { .. } => kills == 1 && writes == 1 && sweeps == 0,
        StopStage::AwaitSweep(o) => sweeps == 1 && if had_worker(o) {
            kills == 1 && writes == 1
        } else {
            kills == 0 && writes == 0
        },
        StopStage::Finished(o) => sweeps == 1 && if had_worker(o) {
            kills == 1 && writes == 1
        } else {
            kills == 0 && writes == 0
        },
    }
}

proof fn lemma_stop_counts(events: Seq<StopEvent>)
    ensures
        stop_counts_match(run_stop(StopStage::Begin, events).0, run_stop(StopStage::Begin, events).1),
    decreases events.len(),
{
    if events.len() > 0 {
        lemma_stop_counts(events.drop_last());
        let (s, acts) = run_stop(StopStage::Begin, events.drop_last());
        let (s2, a) = stop_step(s, events.last());
        lemma_count_push(acts, a, StopAction::Kill);
        lemma_count_push(acts, a, StopAction::WriteCommand);
        lemma_count_push(acts, a, StopAction::Sweep);
    }
}

/// Running the sequence on two batches of events one after the other is the
/// same as running it on both at once.
pub proof fn lemma_run_stop_concat(stage: StopStage, a: Seq<StopEvent>, b: Seq<StopEvent>)
    ensures
        run_stop(stage, a + b) == (
            run_stop(run_stop(stage, a).0, b).0,
            run_stop(stage, a).1 + run_stop(run_stop(stage, a).0, b).1,
        ),
    decreases b.len(),
{
    if b.len() == 0 {
        assert(a + b =~= a);
        assert(run_stop(stage, a).1 + Seq::<StopAction>::empty() =~= run_stop(stage, a).1);
    } else {
        lemma_run_stop_concat(stage, a, b.drop_last());
        assert((a + b).drop_last() =~= a + b.drop_last());
        assert((a + b).last() == b.last());
        let x = run_stop(stage, a).1;
        let y = run_stop(run_stop(stage, a).0, b.drop_last()).1;
        let z = stop_step(run_stop(run_stop(stage, a).0, b.drop_last()).0, b.last()).1;
        assert((x + y).push(z) =~= x + y.push(z));
    }
}

/// The number of actions is the number of events.
pub proof fn lemma_run_len(stage: StopStage, events: Seq<StopEvent>)
    ensures
        run_stop(stage, events).1.len() == events.len(),
    decreases events.len(),
{
    if events.len() > 0 {
        lemma_run_len(stage, events.drop_last());
    }
}

/// Once the outcome is known it no longer changes.
pub proof fn lemma_outcome_settled(o: ShutdownOutcome, events: Seq<StopEvent>)
    ensures
        ({
            let s = run_stop(StopStage::AwaitSweep(o), events).0;
            s == StopStage::AwaitSweep(o) || s == StopStage::Finished(o)
        }),
    decreases events.len(),
{
    if events.len() > 0 {
        lemma_outcome_settled(o, events.drop_last());
    }
}

proof fn lemma_after_write_failure(events: Seq<StopEvent>)
    ensures
        ({
            let s = run_stop(StopStage::AwaitKill { write_failed: true }, events).0;
            ||| s == (StopStage::AwaitKill { write_failed: true })
            ||| s == StopStage::AwaitSweep(ShutdownOutcome::ForcedAfterWriteFailure)
            ||| s == StopStage::Finished(ShutdownOutcome::ForcedAfterWriteFailure)
        }),
    decreases events.len(),
{
    if events.len() > 0 {
        lemma_after_write_failure(events.drop_last());
    }
}

/// Every stop that takes a worker's handle issues exactly one kill and one
/// shutdown command; a stop that finds no worker, or cannot lock the slot,
/// issues neither. Every finished stop has swept the ports exactly once.
pub proof fn lemma_stop_kills_taken_worker_once(events: Seq<StopEvent>)
    ensures
        ({
            let (s, acts) = run_stop(StopStage::Begin, events);
            s is Finished ==> {
                &&& had_worker(s->Finished_0) ==> count_of(acts, StopAction::Kill) == 1
                    && count_of(acts, StopAction::WriteCommand) == 1
                &&& !had_worker(s->Finished_0) ==> count_of(acts, StopAction::Kill) == 0
                    && count_of(acts, StopAction::WriteCommand) == 0
                &&& count_of(acts, StopAction::Sweep) == 1
            }
        }),
        count_of(run_stop(StopStage::Begin, events).1, StopAction::Kill) <= 1,
{
    lemma_stop_counts(events);
}

/// When writing the shutdown command fails, the very next action is the
/// kill, and the stop can only end as `ForcedAfterWriteFailure`, with exactly
/// one kill issued.
pub proof fn lemma_write_failure_still_kills(pre: Seq<StopEvent>, post: Seq<StopEvent>)
    requires
        run_stop(StopStage::Begin, pre).0 == StopStage::AwaitWrite,
    ensures
        ({
            let (s, acts) = run_stop(
                StopStage::Begin,
                pre.push(StopEvent::WriteDone { ok: false }) + post,
            );
            &&& acts[pre.len() as int] == StopAction::Kill
            &&& count_of(acts, StopAction::Kill) == 1
            &&& s is Finished ==> s == StopStage::Finished(
                ShutdownOutcome::ForcedAfterWriteFailure,
            )
        }),
{
    let mid = pre.push(StopEvent::WriteDone { ok: false });
    assert(mid.drop_last() =~= pre);
    lemma_run_stop_concat(StopStage::Begin, mid, post);
    lemma_after_write_failure(post);
    lemma_stop_counts(mid + post);
    assert(run_stop(StopStage::Begin, mid).1.len() == pre.len() + 1) by {
        lemma_run_len(StopStage::Begin, mid);
    }
}

/// A stop that finds the slot empty can only end as `NoProcessPresent`,
/// whatever is observed afterwards, and issues no write and no kill.
pub proof fn lemma_stop_without_worker(post: Seq<StopEvent>)
    ensures
        ({
            let (s, acts) = run_stop(StopStage::Begin, seq![StopEvent::Taken { present: false }] + post);
            &&& s is Finished ==> s == StopStage::Finished(ShutdownOutcome::NoProcessPresent)
            &&& count_of(acts, StopAction::Kill) == 0
            &&& count_of(acts, StopAction::WriteCommand) == 0
        }),
{
    let first = seq![StopEvent::Taken { present: false }];
    assert(first.len() == 1);
    assert(first.drop_last() =~= Seq::<StopEvent>::empty());
    assert(first.last() == StopEvent::Taken { present: false });
    assert(run_stop(StopStage::Begin, first.drop_last()).0 == StopStage::Begin);
    assert(run_stop(StopStage::Begin, first).0 == StopStage::AwaitSweep(
        ShutdownOutcome::NoProcessPresent,
    ));
    lemma_run_stop_concat(StopStage::Begin, first, post);
    lemma_outcome_settled(ShutdownOutcome::NoProcessPresent, post);
    lemma_stop_counts(first + post);
}

/// The message that the host's shutdown command reports for an outcome.
pub open spec fn outcome_text(o: ShutdownOutcome) -> Seq<char> {
    match o {
        ShutdownOutcome::GracefulAcknowledged => "Sidecar shutdown completed."@,
        ShutdownOutcome::ForcedAfterTimeout => "Sidecar shutdown completed."@,
        ShutdownOutcome::ForcedAfterWriteFailure => "Sidecar forcefully terminated."@,
        ShutdownOutcome::NoProcessPresent => "No active sidecar process to shutdown."@,
        ShutdownOutcome::LockUnavailable => "[tauri] Failed to acquire lock on sidecar process."@,
    }
}

/// Reply of the host's shutdown command. Shutdown absorbs every failure into
/// its outcome, so the reply is a success for every outcome, a stop that
/// finds no worker or no lock included.
pub fn shutdown_reply(o: ShutdownOutcome) -> (r: Result<String, String>)
    ensures
        r is Ok,
        r->Ok_0@ == outcome_text(o),
{
    let text = match o {
        ShutdownOutcome::GracefulAcknowledged => "Sidecar shutdown completed.",
        ShutdownOutcome::ForcedAfterTimeout => "Sidecar shutdown completed.",
        ShutdownOutcome::ForcedAfterWriteFailure => "Sidecar forcefully terminated.",
        ShutdownOutcome::NoProcessPresent => "No active sidecar process to shutdown.",
        ShutdownOutcome::LockUnavailable => "[tauri] Failed to acquire lock on sidecar process.",
    };
    Ok(text.to_owned())
}

} // verus!
