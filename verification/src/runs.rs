use vstd::prelude::*;
use crate::errors::SpecError;
use crate::machine::{
    event_fits, spec_start, spec_step, wf, SpecAction, SpecCommand, SpecEvent, SpecMachine,
    SpecOp, SpecPhase,
};

verus! {

// This module states the laws of the boundary discipline over whole runs
// of the state machine: the shell starts an invocation, performs each
// requested call, and answers it with its event. A run is the sequence of
// machine states with their outstanding actions; the laws say that the
// native handle can never leak and that the last-error protocol can never
// attribute one call's message to another.

/// The states and actions an invocation passes through: entry 0 is where
/// `start` leaves it, and each event moves it one step.
pub open spec fn spec_run(
    cmd: SpecCommand,
    server: Option<Seq<u8>>,
    token: Option<Seq<u8>>,
    evs: Seq<SpecEvent>,
) -> Seq<(SpecMachine, SpecAction)>
    decreases evs.len(),
{
    if evs.len() <= 0 {
        seq![spec_start(cmd, server, token)]
    } else {
        let prev = spec_run(cmd, server, token, evs.drop_last());
        prev.push(spec_step(prev.last().0, evs.last()))
    }
}

/// A run is answered faithfully: each event answers the call that was
/// outstanding when it arrived.
pub open spec fn run_fits(
    cmd: SpecCommand,
    server: Option<Seq<u8>>,
    token: Option<Seq<u8>>,
    evs: Seq<SpecEvent>,
) -> bool {
    forall|i: int|
        0 <= i < evs.len() ==> event_fits(
            #[trigger] spec_run(cmd, server, token, evs)[i].0,
            evs[i],
        )
}

/// Whether an action acquires the native handle.
pub open spec fn is_create(a: SpecAction) -> bool {
    a matches SpecAction::Call { op: SpecOp::Create { .. } }
}

/// Whether an action releases the native handle.
pub open spec fn is_destroy(a: SpecAction) -> bool {
    a == (SpecAction::Call { op: SpecOp::Destroy })
}

/// How many of the actions acquire the handle.
pub open spec fn count_creates(tr: Seq<(SpecMachine, SpecAction)>) -> int
    decreases tr.len(),
{
    if tr.len() <= 0 {
        0
    } else {
        count_creates(tr.drop_last()) + if is_create(tr.last().1) {
            1int
        } else {
            0int
        }
    }
}

/// How many of the actions release the handle.
pub open spec fn count_destroys(tr: Seq<(SpecMachine, SpecAction)>) -> int
    decreases tr.len(),
{
    if tr.len() <= 0 {
        0
    } else {
        count_destroys(tr.drop_last()) + if is_destroy(tr.last().1) {
            1int
        } else {
            0int
        }
    }
}

/// The operations a command dispatches to (everything but the lifecycle
/// and error-protocol calls).
pub open spec fn is_operation(op: SpecOp) -> bool {
    ||| op is GetResource
    ||| op is ListDirectory
    ||| op is Search
    ||| op is Download
    ||| op is Upload
    ||| op is CreateDirectory
    ||| op is Delete
    ||| op is Rename
    ||| op is Copy
    ||| op is Login
}

/// Each phase issues exactly its own kind of action: the handle is
/// created only from the starting phase, destroyed only from the cleanup
/// phase, the last error read only from the error phase, and a finished
/// machine only reports its outcome.
pub open spec fn agree(e: (SpecMachine, SpecAction)) -> bool {
    match e.0.phase {
        SpecPhase::AwaitCreate => is_create(e.1),
        SpecPhase::AwaitToken => e.1 matches SpecAction::Call { op: SpecOp::SetToken { .. } },
        SpecPhase::AwaitLogin => e.1 matches SpecAction::Call { op: SpecOp::Login { .. } },
        SpecPhase::AwaitOp => e.1 matches SpecAction::Call { op } && is_operation(op),
        SpecPhase::AwaitError { .. } => e.1 == (SpecAction::Call { op: SpecOp::GetLastError }),
        SpecPhase::AwaitCleanup { .. } => is_destroy(e.1),
        SpecPhase::Finished => e.1 is Finish,
    }
}

/// The handle ledger each phase maintains: nothing acquired before the
/// start or after a configuration error, exactly one acquisition while
/// calls are in flight, and release exactly once by the time cleanup is
/// under way.
pub open spec fn counts_ok(tr: Seq<(SpecMachine, SpecAction)>) -> bool {
    match tr.last().0.phase {
        SpecPhase::Finished => count_creates(tr) == count_destroys(tr) && 0 <= count_creates(tr)
            <= 1,
        SpecPhase::AwaitCleanup { .. } => count_creates(tr) == 1 && count_destroys(tr) == 1,
        _ => count_creates(tr) == 1 && count_destroys(tr) == 0,
    }
}

/// The run invariant: every entry agrees with its phase, every machine is
/// well formed, and the handle ledger holds.
pub open spec fn run_inv(tr: Seq<(SpecMachine, SpecAction)>) -> bool {
    &&& tr.len() >= 1
    &&& (forall|i: int| 0 <= i < tr.len() ==> agree(#[trigger] tr[i]))
    &&& (forall|i: int| 0 <= i < tr.len() ==> wf(#[trigger] tr[i].0))
    &&& counts_ok(tr)
}

/// A well-formed machine steps to a well-formed machine.
proof fn lemma_step_wf(m: SpecMachine, ev: SpecEvent)
    requires
        wf(m),
    ensures
        wf(spec_step(m, ev).0),
{
}

/// A run has one entry more than it has events.
pub proof fn lemma_run_len(
    cmd: SpecCommand,
    server: Option<Seq<u8>>,
    token: Option<Seq<u8>>,
    evs: Seq<SpecEvent>,
)
    ensures
        spec_run(cmd, server, token, evs).len() == evs.len() + 1,
    decreases evs.len(),
{
    if evs.len() > 0 {
        lemma_run_len(cmd, server, token, evs.drop_last());
    }
}

/// Every entry after the first follows from the one before it by a step
/// on the event in between.
pub proof fn lemma_run_index(
    cmd: SpecCommand,
    server: Option<Seq<u8>>,
    token: Option<Seq<u8>>,
    evs: Seq<SpecEvent>,
    j: int,
)
    requires
        0 <= j < evs.len(),
    ensures
        spec_run(cmd, server, token, evs)[j + 1] == spec_step(
            spec_run(cmd, server, token, evs)[j].0,
            evs[j],
        ),
    decreases evs.len(),
{
    lemma_run_len(cmd, server, token, evs);
    let prev = spec_run(cmd, server, token, evs.drop_last());
    lemma_run_len(cmd, server, token, evs.drop_last());
    if j == evs.len() - 1 {
        assert(spec_run(cmd, server, token, evs)[j].0 == prev.last().0);
    } else {
        lemma_run_index(cmd, server, token, evs.drop_last(), j);
        assert(evs.drop_last()[j] == evs[j]);
    }
}

/// The first entry of every run is where `start` leaves the invocation.
pub proof fn lemma_run_first(
    cmd: SpecCommand,
    server: Option<Seq<u8>>,
    token: Option<Seq<u8>>,
    evs: Seq<SpecEvent>,
)
    ensures
        spec_run(cmd, server, token, evs)[0] == spec_start(cmd, server, token),
    decreases evs.len(),
{
    if evs.len() > 0 {
        lemma_run_first(cmd, server, token, evs.drop_last());
        lemma_run_len(cmd, server, token, evs.drop_last());
    }
}

/// A faithfully answered run keeps the invariant.
#[verifier::rlimit(100)]
pub proof fn lemma_run_inv(
    cmd: SpecCommand,
    server: Option<Seq<u8>>,
    token: Option<Seq<u8>>,
    evs: Seq<SpecEvent>,
)
    requires
        run_fits(cmd, server, token, evs),
    ensures
        run_inv(spec_run(cmd, server, token, evs)),
    decreases evs.len(),
{
    let tr = spec_run(cmd, server, token, evs);
    lemma_run_len(cmd, server, token, evs);
    if evs.len() == 0 {
        assert(tr.drop_last().len() == 0);
        assert(count_creates(tr.drop_last()) == 0);
        assert(count_destroys(tr.drop_last()) == 0);
    } else {
        let evsp = evs.drop_last();
        let prev = spec_run(cmd, server, token, evsp);
        lemma_run_len(cmd, server, token, evsp);
        assert(run_fits(cmd, server, token, evsp)) by {
            assert forall|i: int| 0 <= i < evsp.len() implies event_fits(
                spec_run(cmd, server, token, evsp)[i].0,
                evsp[i],
            ) by {
                assert(spec_run(cmd, server, token, evsp)[i] == tr[i]);
                assert(evsp[i] == evs[i]);
                assert(event_fits(tr[i].0, evs[i]));
            }
        }
        lemma_run_inv(cmd, server, token, evsp);
        let mlast = prev.last().0;
        let ev = evs.last();
        assert(event_fits(mlast, ev)) by {
            assert(tr[evs.len() - 1] == prev.last());
        }
        lemma_step_wf(mlast, ev);
        let e = spec_step(mlast, ev);
        assert(tr.drop_last() =~= prev);
        assert(count_creates(tr) == count_creates(prev) + if is_create(e.1) {
            1int
        } else {
            0int
        });
        assert(count_destroys(tr) == count_destroys(prev) + if is_destroy(e.1) {
            1int
        } else {
            0int
        });
        assert(agree(prev.last()));
        assert(agree(e));
        assert forall|i: int| 0 <= i < tr.len() implies agree(#[trigger] tr[i]) by {
            if i < prev.len() {
                assert(tr[i] == prev[i]);
            } else {
                assert(tr[i] == e);
            }
        }
        assert forall|i: int| 0 <= i < tr.len() implies wf(#[trigger] tr[i].0) by {
            if i < prev.len() {
                assert(tr[i] == prev[i]);
            } else {
                assert(tr[i] == e);
            }
        }
    }
}

/// The handle never leaks: in every faithfully answered and finished
/// invocation, the destroy call was issued exactly as many times as the
/// handle was created — once if a handle was created at all, never
/// otherwise, whether the operation succeeded or failed.
pub proof fn lemma_destroy_exactly_once(
    cmd: SpecCommand,
    server: Option<Seq<u8>>,
    token: Option<Seq<u8>>,
    evs: Seq<SpecEvent>,
)
    requires
        run_fits(cmd, server, token, evs),
        spec_run(cmd, server, token, evs).last().0.phase is Finished,
    ensures
        count_destroys(spec_run(cmd, server, token, evs)) == count_creates(
            spec_run(cmd, server, token, evs),
        ),
        0 <= count_creates(spec_run(cmd, server, token, evs)) <= 1,
{
    lemma_run_inv(cmd, server, token, evs);
}

/// A missing server or token is a configuration error raised before any
/// handle exists: the invocation finishes at once, no boundary call is
/// ever requested, and in particular no create/destroy pair occurs.
pub proof fn lemma_config_error_before_handle(
    cmd: SpecCommand,
    server: Option<Seq<u8>>,
    token: Option<Seq<u8>>,
    evs: Seq<SpecEvent>,
)
    requires
        !(cmd is Login),
        server is None || token is None,
        run_fits(cmd, server, token, evs),
    ensures
        evs.len() == 0,
        count_creates(spec_run(cmd, server, token, evs)) == 0,
        count_destroys(spec_run(cmd, server, token, evs)) == 0,
        (spec_run(cmd, server, token, evs).last().1 matches SpecAction::Finish { outcome }
            && outcome matches Err(e) && e is Config),
{
    let tr = spec_run(cmd, server, token, evs);
    lemma_run_len(cmd, server, token, evs);
    lemma_run_first(cmd, server, token, evs);
    assert(tr[0].0.phase is Finished);
    if evs.len() > 0 {
        assert(event_fits(tr[0].0, evs[0]));
        assert(false);
    }
    assert(tr.drop_last().len() == 0);
    assert(count_creates(tr.drop_last()) == 0);
    assert(count_destroys(tr.drop_last()) == 0);
    assert(tr.last() == spec_start(cmd, server, token));
}

/// Whether an event signals that the answered boundary call failed (the
/// null text or false flag convention of the native component).
pub open spec fn is_failing_answer(a: SpecAction, ev: SpecEvent) -> bool {
    &&& (a is Call)
    &&& match ev {
        SpecEvent::Text { value } => value is None,
        SpecEvent::Flag { ok } => !ok,
        _ => false,
    }
}

/// The last-error protocol never cross-attributes messages: an error read
/// stands immediately after the call whose failure it explains — no other
/// boundary call comes between the failure and the read — and the error
/// the invocation surfaces carries exactly the message that this read
/// returned. Since every boundary call overwrites the native component's
/// single error slot, the read therefore yields the failing call's own
/// message and can never yield one produced by a later call.
#[verifier::rlimit(100)]
pub proof fn lemma_error_attribution(
    cmd: SpecCommand,
    server: Option<Seq<u8>>,
    token: Option<Seq<u8>>,
    evs: Seq<SpecEvent>,
    i: int,
)
    requires
        run_fits(cmd, server, token, evs),
        0 <= i < evs.len(),
        spec_run(cmd, server, token, evs)[i].1 == (SpecAction::Call { op: SpecOp::GetLastError }),
    ensures
        i >= 1,
        is_failing_answer(
            spec_run(cmd, server, token, evs)[i - 1].1,
            evs[i - 1],
        ),
        (spec_run(cmd, server, token, evs)[i + 1].0.phase matches SpecPhase::AwaitCleanup {
            outcome,
        } && outcome matches Err(e) && e.message() == (match evs[i] {
            SpecEvent::ErrorText { value: Option::Some(mm) } => mm,
            _ => crate::machine::unknown_error_msg(),
        })),
{
    let tr = spec_run(cmd, server, token, evs);
    lemma_run_len(cmd, server, token, evs);
    lemma_run_inv(cmd, server, token, evs);
    assert(agree(tr[i]));
    assert(tr[i].0.phase is AwaitError);
    lemma_run_first(cmd, server, token, evs);
    assert(i >= 1) by {
        if i == 0 {
            assert(tr[0] == spec_start(cmd, server, token));
        }
    }
    lemma_run_index(cmd, server, token, evs, i - 1);
    assert(tr[i] == spec_step(tr[i - 1].0, evs[i - 1]));
    assert(event_fits(tr[i - 1].0, evs[i - 1]));
    assert(agree(tr[i - 1]));
    lemma_run_index(cmd, server, token, evs, i);
    assert(tr[i + 1] == spec_step(tr[i].0, evs[i]));
    assert(event_fits(tr[i].0, evs[i]));
}

/// A model of the native component's single last-error slot alongside a
/// run: `slot[i]` is the slot's content once the i-th action has been
/// performed. Any boundary call may overwrite the slot, a failing call
/// always leaves its own message behind (the model does not say which
/// message, only that one is there), and a last-error read returns the
/// slot's content and leaves it unchanged.
pub open spec fn slot_models(
    tr: Seq<(SpecMachine, SpecAction)>,
    evs: Seq<SpecEvent>,
    slot: Seq<Option<Seq<u8>>>,
) -> bool {
    &&& slot.len() == evs.len()
    &&& (forall|i: int|
        #![trigger evs[i]]
        0 <= i < evs.len() && is_failing_answer(tr[i].1, evs[i]) ==> slot[i] is Some)
    &&& (forall|i: int|
        #![trigger evs[i]]
        1 <= i < evs.len() && tr[i].1 == (SpecAction::Call { op: SpecOp::GetLastError })
            ==> slot[i] == slot[i - 1] && evs[i] == (SpecEvent::ErrorText { value: slot[i - 1] }))
}

/// Under the slot model, the error the invocation surfaces is the very
/// message the failing call left in the slot: since the read directly
/// follows the failure, no later call has had a chance to overwrite it.
pub proof fn lemma_slot_attribution(
    cmd: SpecCommand,
    server: Option<Seq<u8>>,
    token: Option<Seq<u8>>,
    evs: Seq<SpecEvent>,
    slot: Seq<Option<Seq<u8>>>,
    i: int,
)
    requires
        run_fits(cmd, server, token, evs),
        slot_models(spec_run(cmd, server, token, evs), evs, slot),
        0 <= i < evs.len(),
        spec_run(cmd, server, token, evs)[i].1 == (SpecAction::Call { op: SpecOp::GetLastError }),
    ensures
        i >= 1,
        is_failing_answer(spec_run(cmd, server, token, evs)[i - 1].1, evs[i - 1]),
        slot[i - 1] is Some,
        (spec_run(cmd, server, token, evs)[i + 1].0.phase matches SpecPhase::AwaitCleanup {
            outcome,
        } && outcome matches Err(e) && e.message() == slot[i - 1]->0),
{
    lemma_error_attribution(cmd, server, token, evs, i);
    let tr = spec_run(cmd, server, token, evs);
    assert(evs[i] == (SpecEvent::ErrorText { value: slot[i - 1] }));
    assert(slot[i - 1] is Some);
}

} // verus!
