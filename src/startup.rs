use vstd::prelude::*;
use crate::trace::{count_of, lemma_count_push};

verus! {

/// How a start attempt ended.
#[derive(Clone, Copy, Debug, PartialEq, Eq, Structural)]
pub enum StartOutcome {
    /// A new worker was spawned, installed, and its output is relayed.
    Started,
    /// A worker was already installed; nothing new is left running.
    AlreadyRunning,
    /// The worker could not be launched.
    SpawnFailed,
    /// The slot's lock could not be acquired; nothing new is left running.
    LockUnavailable,
}

/// Where one `start` invocation stands.
#[derive(Clone, Copy, Debug, PartialEq, Eq, Structural)]
pub enum StartStage {
    /// Waiting to look at the slot.
    Begin,
    /// The slot was empty; the worker is being spawned.
    AwaitSpawn,
    /// A worker was spawned; it is being installed in the slot.
    AwaitInstall,
    /// The new worker could not be installed and is being killed.
    AwaitDiscard { lock_failed: bool },
    /// The sequence is over.
    Finished(StartOutcome),
}

/// What the host observed after performing the last action.
#[derive(Clone, Copy, Debug, PartialEq, Eq, Structural)]
pub enum StartEvent {
    /// The slot's lock could not be acquired.
    LockFailed,
    /// The slot was inspected; `present` tells whether it held a handle.
    Checked { present: bool },
    /// Spawning finished; `ok` tells whether a worker now runs.
    SpawnDone { ok: bool },
    /// The install-if-absent finished; `installed` tells whether it won.
    InstallDone { installed: bool },
    /// The rejected worker was killed.
    DiscardDone,
}

/// What the host must do next.
#[derive(Clone, Copy, Debug, PartialEq, Eq, Structural)]
pub enum StartAction {
    /// Look at the slot under its lock.
    CheckSlot,
    /// Spawn the worker.
    Spawn,
    /// Install the new worker only if the slot is still empty.
    Install,
    /// Kill the new worker, which was not installed.
    Discard,
    /// Start relaying the new worker's output; the sequence is over.
    LaunchRelay,
    /// Report the outcome; the sequence is over.
    Report(StartOutcome),
    /// The event did not fit the stage; nothing to do.
    Nothing,
}

/// One transition of the start sequence: check, spawn, install, then relay
/// or discard. An event that does not fit the stage changes nothing.
pub open spec fn start_step(stage: StartStage, event: StartEvent) -> (StartStage, StartAction) {
    match (stage, event) {
        (StartStage::Begin, StartEvent::LockFailed) => (
            StartStage::Finished(StartOutcome::LockUnavailable),
            StartAction::Report(StartOutcome::LockUnavailable),
        ),
        (StartStage::Begin, StartEvent::Checked { present }) => if present {
            (
                StartStage::Finished(StartOutcome::AlreadyRunning),
                StartAction::Report(StartOutcome::AlreadyRunning),
            )
        } else {
            (StartStage::AwaitSpawn, StartAction::Spawn)
        },
        (StartStage::AwaitSpawn, StartEvent::SpawnDone { ok }) => if ok {
            (StartStage::AwaitInstall, StartAction::Install)
        } else {
            (
                StartStage::Finished(StartOutcome::SpawnFailed),
                StartAction::Report(StartOutcome::SpawnFailed),
            )
        },
        (StartStage::AwaitInstall, StartEvent::InstallDone { installed }) => if installed {
            (StartStage::Finished(StartOutcome::Started), StartAction::LaunchRelay)
        } else {
            (StartStage::AwaitDiscard { lock_failed: false }, StartAction::Discard)
        },
        (StartStage::AwaitInstall, StartEvent::LockFailed) => (
            StartStage::AwaitDiscard { lock_failed: true },
            StartAction::Discard,
        ),
        (StartStage::AwaitDiscard { lock_failed }, StartEvent::DiscardDone) => {
            let o = if lock_failed {
                StartOutcome::LockUnavailable
            } else {
                StartOutcome::AlreadyRunning
            };
            (StartStage::Finished(o), StartAction::Report(o))
        },
        _ => (stage, StartAction::Nothing),
    }
}

/// Stage reached and actions issued when `events` arrive one by one.
pub open spec fn run_start(stage: StartStage, events: Seq<StartEvent>) -> (StartStage, Seq<StartAction>)
    decreases events.len(),
{
    if events.len() == 0 {
        (stage, Seq::empty())
    } else {
        let (s, acts) = run_start(stage, events.drop_last());
        let (s2, a) = start_step(s, events.last());
        (s2, acts.push(a))
    }
}

/// The first stage of a start and the action that opens it.
pub fn begin_start() -> (r: (StartStage, StartAction))
    ensures
        r == (StartStage::Begin, StartAction::CheckSlot),
{
    (StartStage::Begin, StartAction::CheckSlot)
}

/// Advances the start sequence by one observed event.
pub fn advance_start(stage: StartStage, event: StartEvent) -> (r: (StartStage, StartAction))
    ensures
        r == start_step(stage, event),
{
    match (stage, event) {
        (StartStage::Begin, StartEvent::LockFailed) => (
            StartStage::Finished(StartOutcome::LockUnavailable),
            StartAction::Report(StartOutcome::LockUnavailable),
        ),
        (StartStage::Begin, StartEvent::Checked { present }) => {
            if present {
                (
                    StartStage::Finished(StartOutcome::AlreadyRunning),
                    StartAction::Report(StartOutcome::AlreadyRunning),
                )
            } else {
                (StartStage::AwaitSpawn, StartAction::Spawn)
            }
        },
        (StartStage::AwaitSpawn, StartEvent::SpawnDone { ok }) => {
            if ok {
                (StartStage::AwaitInstall, StartAction::Install)
            } else {
                (
                    StartStage::Finished(StartOutcome::SpawnFailed),
                    StartAction::Report(StartOutcome::SpawnFailed),
                )
            }
        },
        (StartStage::AwaitInstall, StartEvent::InstallDone { installed }) => {
            if installed {
                (StartStage::Finished(StartOutcome::Started), StartAction::LaunchRelay)
            } else {
                (StartStage::AwaitDiscard { lock_failed: false }, StartAction::Discard)
            }
        },
        (StartStage::AwaitInstall, StartEvent::LockFailed) => (
            StartStage::AwaitDiscard { lock_failed: true },
            StartAction::Discard,
        ),
        (StartStage::AwaitDiscard { lock_failed }, StartEvent::DiscardDone) => {
            let o = if lock_failed {
                StartOutcome::LockUnavailable
            } else {
                StartOutcome::AlreadyRunning
            };
            (StartStage::Finished(o), StartAction::Report(o))
        },
        _ => (stage, StartAction::Nothing),
    }
}

/// Install, relay and discard counts that each stage implies for the actions
/// issued so far from `Begin`.
pub open spec fn start_counts_match(stage: StartStage, acts: Seq<StartAction>) -> bool {
    let installs = count_of(acts, StartAction::Install);
    let relays = count_of(acts, StartAction::LaunchRelay);
    let discards = count_of(acts, StartAction::Discard);
    match stage {
        StartStage::Begin => installs == 0 && relays == 0 && discards == 0,
        StartStage::AwaitSpawn => installs == 0 && relays == 0 && discards == 0,
        StartStage::AwaitInstall => installs == 1 && relays == 0 && discards == 0,
        StartStage::AwaitDiscard { .. } => installs == 1 && relays == 0 && discards == 1,
        StartStage::Finished(o) => if o == StartOutcome::Started {
            installs == 1 && relays == 1 && discards == 0
        } else {
            installs == discards && installs <= 1 && relays == 0
        },
    }
}

proof fn lemma_start_counts(events: Seq<StartEvent>)
    ensures
        start_counts_match(run_start(StartStage::Begin, events).0, run_start(StartStage::Begin, events).1),
    decreases events.len(),
{
    if events.len() > 0 {
        lemma_start_counts(events.drop_last());
        let (s, acts) = run_start(StartStage::Begin, events.drop_last());
        let (s2, a) = start_step(s, events.last());
        lemma_count_push(acts, a, StartAction::Install);
        lemma_count_push(acts, a, StartAction::LaunchRelay);
        lemma_count_push(acts, a, StartAction::Discard);
    }
}

/// A finished start leaves no orphan: every worker it spawned was either
/// installed, and only then is its output relayed, or killed. At most one
/// worker is spawned per start, and only `Started` launches a relay.
pub proof fn lemma_start_leaves_no_orphan(events: Seq<StartEvent>)
    ensures
        ({
            let (s, acts) = run_start(StartStage::Begin, events);
            s is Finished ==> {
                &&& count_of(acts, StartAction::Install) == count_of(acts, StartAction::LaunchRelay)
                    + count_of(acts, StartAction::Discard)
                &&& count_of(acts, StartAction::Install) <= 1
                &&& (count_of(acts, StartAction::LaunchRelay) == 1) == (s->Finished_0
                    == StartOutcome::Started)
            }
        }),
{
    lemma_start_counts(events);
}

/// The message of the host's start command when no error is surfaced.
pub open spec fn start_text() -> Seq<char> {
    "Sidecar spawned and monitoring started."@
}

/// The error of the host's start command when the slot cannot be reached.
pub open spec fn state_error_text() -> Seq<char> {
    "Failed to access app state"@
}

/// Reply of the host's start command. Starting while a worker runs succeeds
/// like a fresh start; a failed spawn surfaces the spawn's own error message,
/// `spawn_error`; an unreachable slot is an error too.
pub fn start_reply(o: StartOutcome, spawn_error: String) -> (r: Result<String, String>)
    ensures
        (r is Ok) == (o == StartOutcome::Started || o == StartOutcome::AlreadyRunning),
        r is Ok ==> r->Ok_0@ == start_text(),
        o == StartOutcome::SpawnFailed ==> r == Err::<String, String>(spawn_error),
        o == StartOutcome::LockUnavailable ==> r is Err && r->Err_0@ == state_error_text(),
{
    match o {
        StartOutcome::Started => Ok("Sidecar spawned and monitoring started.".to_owned()),
        StartOutcome::AlreadyRunning => Ok("Sidecar spawned and monitoring started.".to_owned()),
        StartOutcome::SpawnFailed => Err(spawn_error),
        StartOutcome::LockUnavailable => Err("Failed to access app state".to_owned()),
    }
}

} // verus!
