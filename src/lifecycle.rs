use vstd::prelude::*;
use crate::shutdown::{
    lemma_run_stop_concat, lemma_stop_kills_taken_worker_once, lemma_stop_without_worker, run_stop,
    ShutdownOutcome, StopAction, StopEvent, StopStage,
};
use crate::startup::{run_start, StartAction, StartEvent, StartOutcome, StartStage};
use crate::trace::{count_of, lemma_count_concat};
use crate::slot::{after_set_if_absent, after_take};

verus! {

/// The system as the supervisor sees it: the slot, holding the id of the
/// installed worker, and the ids of the workers alive, spawned and not yet
/// killed.
pub struct World {
    pub slot: Option<int>,
    pub live: Set<int>,
}

/// A request to the supervisor. The model looks at the system between
/// requests, each start and each stop having run its sequence to the end; the
/// slot operations inside them are atomic. `spawned` is the id of the worker that the start's spawn
/// produced, `None` when spawning failed; it is unused when a worker is
/// already installed, as the start then spawns nothing.
pub enum Request {
    Start { spawned: Option<int> },
    Stop,
}

/// Nothing installed, nothing alive.
pub open spec fn empty_world() -> World {
    World { slot: None, live: Set::empty() }
}

/// The effect of one request. A start installs what it spawned through
/// install-if-absent and kills what that hands back; a stop takes the handle
/// out and kills what it took, as `lemma_stop_effect_from_sequence` derives
/// from the stop sequence.
pub open spec fn apply(w: World, r: Request) -> World {
    match r {
        Request::Start { spawned } => if w.slot is Some {
            w
        } else {
            match spawned {
                None => w,
                Some(id) => {
                    let (slot, rejected) = after_set_if_absent(w.slot, id);
                    let live = w.live.insert(id);
                    World {
                        slot,
                        live: match rejected {
                            Some(x) => live.remove(x),
                            None => live,
                        },
                    }
                },
            }
        },
        Request::Stop => {
            let (slot, taken) = after_take(w.slot);
            World {
                slot,
                live: match taken {
                    Some(x) => w.live.remove(x),
                    None => w.live,
                },
            }
        },
    }
}

/// The system after `reqs`, in order.
pub open spec fn run_world(w: World, reqs: Seq<Request>) -> World
    decreases reqs.len(),
{
    if reqs.len() == 0 {
        w
    } else {
        apply(run_world(w, reqs.drop_last()), reqs.last())
    }
}

/// The worker ids that a slot holds.
pub open spec fn slot_set(s: Option<int>) -> Set<int> {
    match s {
        Some(x) => set![x],
        None => Set::empty(),
    }
}

/// Exactly the installed worker is alive.
pub open spec fn consistent(w: World) -> bool {
    w.live == slot_set(w.slot)
}

proof fn lemma_apply_consistent(w: World, r: Request)
    requires
        consistent(w),
    ensures
        consistent(apply(w, r)),
{
    let w2 = apply(w, r);
    match r {
        Request::Start { spawned } => {
            if w.slot is None && spawned is Some {
                assert(w2.live =~= slot_set(w2.slot));
            }
        },
        Request::Stop => {
            assert(w2.live =~= slot_set(w2.slot));
        },
    }
}

proof fn lemma_run_consistent(reqs: Seq<Request>)
    ensures
        consistent(run_world(empty_world(), reqs)),
    decreases reqs.len(),
{
    if reqs.len() == 0 {
        assert(empty_world().live =~= slot_set(None));
    } else {
        lemma_run_consistent(reqs.drop_last());
        lemma_apply_consistent(run_world(empty_world(), reqs.drop_last()), reqs.last());
    }
}

/// Whatever starts and stops are interleaved, at most one worker is alive
/// after each of them, and it is the installed one; after a final stop none
/// is alive, so no worker outlives the supervisor's tracking.
pub proof fn lemma_at_most_one_worker(reqs: Seq<Request>)
    ensures
        consistent(run_world(empty_world(), reqs)),
        run_world(empty_world(), reqs).live.len() <= 1,
        reqs.len() > 0 && reqs.last() is Stop ==> run_world(empty_world(), reqs).live.is_empty(),
{
    lemma_run_consistent(reqs);
    let w = run_world(empty_world(), reqs);
    match w.slot {
        Some(x) => assert(set![x].len() == 1),
        None => {},
    }
}

/// Starting twice without a stop between never spawns a second worker: once
/// the first start has a worker running, the second changes nothing. If
/// either spawn succeeded, exactly one worker runs afterwards.
pub proof fn lemma_start_twice_one_worker(w: World, a: Option<int>, b: Option<int>)
    requires
        consistent(w),
    ensures
        ({
            let w1 = apply(w, Request::Start { spawned: a });
            let w2 = apply(w1, Request::Start { spawned: b });
            &&& w.slot is Some || a is Some ==> w2 == w1
            &&& w.slot is Some || a is Some || b is Some ==> w2.live.len() == 1
            &&& w2.live.len() <= 1
        }),
{
    let w1 = apply(w, Request::Start { spawned: a });
    let w2 = apply(w1, Request::Start { spawned: b });
    lemma_apply_consistent(w, Request::Start { spawned: a });
    lemma_apply_consistent(w1, Request::Start { spawned: b });
    if w2.slot is Some {
        assert(set![w2.slot->Some_0].len() == 1);
    }
}

/// A stop's effect on the system follows from its own sequence: once the
/// stop that takes the handle out of `w`'s slot has finished, it has killed
/// exactly the workers that the stop request removes, whatever the host
/// observed after the take.
pub proof fn lemma_stop_effect_from_sequence(w: World, observed: Seq<StopEvent>)
    requires
        consistent(w),
    ensures
        ({
            let taken = after_take(w.slot).1;
            let (s, acts) = run_stop(
                StopStage::Begin,
                seq![StopEvent::Taken { present: taken is Some }] + observed,
            );
            s is Finished ==> count_of(acts, StopAction::Kill) == w.live.len() - apply(
                w,
                Request::Stop,
            ).live.len()
        }),
{
    let taken = after_take(w.slot).1;
    let first = seq![StopEvent::Taken { present: taken is Some }];
    let w2 = apply(w, Request::Stop);
    lemma_apply_consistent(w, Request::Stop);
    assert(w2.live =~= Set::<int>::empty());
    match w.slot {
        Some(x) => {
            assert(set![x].len() == 1);
            assert(first.drop_last() =~= Seq::<StopEvent>::empty());
            assert(run_stop(StopStage::Begin, first.drop_last()).0 == StopStage::Begin);
            let head = run_stop(StopStage::Begin, first).1;
            assert(head =~= seq![StopAction::WriteCommand]);
            assert(head.drop_last() =~= Seq::<StopAction>::empty());
            lemma_run_stop_concat(StopStage::Begin, first, observed);
            lemma_count_concat(
                head,
                run_stop(run_stop(StopStage::Begin, first).0, observed).1,
                StopAction::WriteCommand,
            );
            lemma_stop_kills_taken_worker_once(first + observed);
        },
        None => {
            lemma_stop_without_worker(observed);
        },
    }
}

/// What a start observes on `w` when its spawn, if it gets that far,
/// produces `spawned`.
pub open spec fn start_events(w: World, spawned: Option<int>) -> Seq<StartEvent> {
    if w.slot is Some {
        seq![StartEvent::Checked { present: true }]
    } else {
        match spawned {
            None => seq![StartEvent::Checked { present: false }, StartEvent::SpawnDone { ok: false }],
            Some(id) => seq![
                StartEvent::Checked { present: false },
                StartEvent::SpawnDone { ok: true },
                StartEvent::InstallDone { installed: after_set_if_absent(w.slot, id).1 is None },
            ],
        }
    }
}

/// A start's effect on the system follows from its own sequence: run on what
/// it observes, the start finishes, and the workers that the start request
/// adds are exactly those whose output relay it launched.
pub proof fn lemma_start_effect_from_sequence(w: World, spawned: Option<int>)
    requires
        consistent(w),
    ensures
        ({
            let (s, acts) = run_start(StartStage::Begin, start_events(w, spawned));
            let w2 = apply(w, Request::Start { spawned });
            &&& s is Finished
            &&& w2.live.len() == w.live.len() + count_of(acts, StartAction::LaunchRelay)
            &&& (s == StartStage::Finished(StartOutcome::Started)) == (w2 != w)
        }),
{
    reveal_with_fuel(run_start, 4);
    reveal_with_fuel(count_of, 4);
    let evs = start_events(w, spawned);
    let w2 = apply(w, Request::Start { spawned });
    lemma_apply_consistent(w, Request::Start { spawned });
    if w.slot is None {
        assert(w.live =~= Set::<int>::empty());
        match spawned {
            None => {
                assert(evs.drop_last() =~= seq![StartEvent::Checked { present: false }]);
                assert(evs.drop_last().drop_last() =~= Seq::<StartEvent>::empty());
            },
            Some(id) => {
                assert(evs.drop_last() =~= seq![
                    StartEvent::Checked { present: false },
                    StartEvent::SpawnDone { ok: true },
                ]);
                assert(evs.drop_last().drop_last() =~= seq![StartEvent::Checked { present: false }]);
                assert(evs.drop_last().drop_last().drop_last() =~= Seq::<StartEvent>::empty());
                assert(set![id].len() == 1);
                let acts = run_start(StartStage::Begin, evs).1;
                assert(acts =~= seq![StartAction::Spawn, StartAction::Install, StartAction::LaunchRelay]);
                assert(acts.drop_last() =~= seq![StartAction::Spawn, StartAction::Install]);
                assert(acts.drop_last().drop_last() =~= seq![StartAction::Spawn]);
                assert(acts.drop_last().drop_last().drop_last() =~= Seq::<StartAction>::empty());
            },
        }
    } else {
        assert(evs.drop_last() =~= Seq::<StartEvent>::empty());
    }
}

/// Two stops triggered at once are serialized by the slot's take: at most one
/// of them obtains the handle, and the other, finding the slot empty, issues
/// no write and no kill, and ends, whatever it observes next, as
/// `NoProcessPresent`.
pub proof fn lemma_redundant_stops<P>(s: Option<P>, observed: Seq<StopEvent>)
    ensures
        ({
            let (s1, first) = after_take(s);
            let (s2, second) = after_take(s1);
            let (stage, acts) = run_stop(
                StopStage::Begin,
                seq![StopEvent::Taken { present: second is Some }] + observed,
            );
            &&& second is None
            &&& s2 is None
            &&& first == s
            &&& stage is Finished ==> stage == StopStage::Finished(ShutdownOutcome::NoProcessPresent)
            &&& count_of(acts, StopAction::Kill) == 0
            &&& count_of(acts, StopAction::WriteCommand) == 0
        }),
{
    lemma_stop_without_worker(observed);
}

} // verus!
