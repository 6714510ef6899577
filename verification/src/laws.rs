//! What holds of every run of the supervisor.

use crate::outcome::DispatchOutcome;
use crate::signal::{is_valid_target, SignalKind};
use crate::supervisor::{
    deadline_reached, kept, lemma_kept_picks, lemma_next_wf, lemma_start_wf,
    lemma_valid_pids_positive, next, requests, start, stays, valid_pids, ActionView, State,
};
use vstd::prelude::*;

verus! {

/// Whether no process stays after a signal of `kind` with these outcomes:
/// for a cooperative or forceful signal, none was delivered; for a probe,
/// every process was reported as not found.
pub open spec fn none_stay(kind: SignalKind, outcomes: Seq<DispatchOutcome>) -> bool {
    forall|i: int| 0 <= i < outcomes.len() ==> !stays(kind, #[trigger] outcomes[i])
}

/// Where no process stays, nobody is kept.
pub proof fn lemma_none_stay_keeps_nobody(
    kind: SignalKind,
    pids: Seq<i32>,
    outcomes: Seq<DispatchOutcome>,
)
    requires
        pids.len() == outcomes.len(),
        none_stay(kind, outcomes),
    ensures
        kept(kind, pids, outcomes).len() == 0,
    decreases pids.len(),
{
    if pids.len() > 0 {
        assert(!stays(kind, outcomes[outcomes.len() - 1]));
        assert forall|i: int| 0 <= i < outcomes.drop_last().len() implies !stays(
            kind,
            #[trigger] outcomes.drop_last()[i],
        ) by {
            assert(outcomes.drop_last()[i] == outcomes[i]);
        }
        lemma_none_stay_keeps_nobody(kind, pids.drop_last(), outcomes.drop_last());
    }
}

/// Whether `pid` stands in `pids` at a position whose outcome lets it stay.
pub open spec fn stays_somewhere(
    kind: SignalKind,
    pids: Seq<i32>,
    outcomes: Seq<DispatchOutcome>,
    pid: i32,
) -> bool {
    exists|i: int| 0 <= i < pids.len() && stays(kind, outcomes[i]) && #[trigger] pids[i] == pid
}

/// The kept processes are exactly those whose outcome lets them stay: each
/// of them stands in `pids` at such a position, and every process at such a
/// position is kept.
pub proof fn lemma_kept_exact(kind: SignalKind, pids: Seq<i32>, outcomes: Seq<DispatchOutcome>)
    requires
        pids.len() == outcomes.len(),
    ensures
        forall|j: int|
            0 <= j < kept(kind, pids, outcomes).len() ==> stays_somewhere(
                kind,
                pids,
                outcomes,
                #[trigger] kept(kind, pids, outcomes)[j],
            ),
        forall|i: int|
            0 <= i < pids.len() && stays(kind, outcomes[i]) ==> kept(kind, pids, outcomes).contains(
                #[trigger] pids[i],
            ),
    decreases pids.len(),
{
    if pids.len() > 0 {
        let shorter = pids.drop_last();
        let fewer = outcomes.drop_last();
        let earlier = kept(kind, shorter, fewer);
        let all = kept(kind, pids, outcomes);
        let end = pids.len() - 1;
        lemma_kept_exact(kind, shorter, fewer);
        assert forall|j: int| 0 <= j < all.len() implies stays_somewhere(
            kind,
            pids,
            outcomes,
            #[trigger] all[j],
        ) by {
            if j < earlier.len() {
                assert(stays_somewhere(kind, shorter, fewer, earlier[j]));
                let i = choose|i: int|
                    0 <= i < shorter.len() && stays(kind, fewer[i]) && #[trigger] shorter[i]
                        == earlier[j];
                assert(stays(kind, outcomes[i]) && pids[i] == all[j]);
            } else {
                assert(stays(kind, outcomes[end]) && pids[end] == all[j]);
            }
        }
        assert forall|i: int| 0 <= i < pids.len() && stays(kind, outcomes[i]) implies all.contains(
            #[trigger] pids[i],
        ) by {
            if i < end {
                assert(stays(kind, fewer[i]));
                assert(earlier.contains(shorter[i]));
                let j = choose|j: int| 0 <= j < earlier.len() && earlier[j] == shorter[i];
                assert(all[j] == pids[i]);
            } else {
                assert(all[all.len() - 1] == pids[i]);
            }
        }
    }
}

/// Whether `pid` is one of the valid targets among `targets`.
pub open spec fn names_valid_target(targets: Seq<u32>, pid: i32) -> bool {
    exists|i: int|
        0 <= i < targets.len() && is_valid_target(#[trigger] targets[i]) && targets[i] == pid
}

/// A run never addresses an invalid target: every process that the first
/// action addresses is one of the given targets and is valid. Identifier
/// zero is invalid, so no request ever names it.
pub proof fn lemma_only_valid_targets_addressed(targets: Seq<u32>, grace_seconds: u64)
    ensures
        !is_valid_target(0),
        start(targets, grace_seconds).pending == valid_pids(targets),
        forall|j: int|
            0 <= j < valid_pids(targets).len() ==> names_valid_target(
                targets,
                #[trigger] valid_pids(targets)[j],
            ),
    decreases targets.len(),
{
    if targets.len() > 0 {
        let shorter = targets.drop_last();
        let earlier = valid_pids(shorter);
        let end = targets.len() - 1;
        lemma_only_valid_targets_addressed(shorter, grace_seconds);
        assert forall|j: int| 0 <= j < valid_pids(targets).len() implies names_valid_target(
            targets,
            #[trigger] valid_pids(targets)[j],
        ) by {
            if j < earlier.len() {
                assert(names_valid_target(shorter, earlier[j]));
                let i = choose|i: int|
                    0 <= i < shorter.len() && is_valid_target(#[trigger] shorter[i]) && shorter[i]
                        == earlier[j];
                assert(is_valid_target(targets[i]) && targets[i] == valid_pids(targets)[j]);
            } else {
                assert(is_valid_target(targets[end]) && targets[end] == valid_pids(targets)[j]);
            }
        }
    }
}

/// Every request that a reachable state asks for names a positive process
/// identifier, whatever the kind of signal.
pub proof fn lemma_requests_are_positive(state: State, kind: SignalKind)
    requires
        state.wf(),
    ensures
        forall|i: int|
            0 <= i < requests(state.pending, kind).len() ==> (#[trigger] requests(
                state.pending,
                kind,
            )[i]).pid > 0,
{
    assert forall|i: int| 0 <= i < requests(state.pending, kind).len() implies (#[trigger] requests(
        state.pending,
        kind,
    )[i]).pid > 0 by {
        assert(state.pending[i] > 0);
    }
}

/// Where the cooperative signal is delivered to nobody (every target is
/// gone already, or the caller has no right over it), the run is over at
/// once: nobody is polled, no exit is counted as cooperative, no force is
/// used, and every target is counted as unsignalable.
pub proof fn lemma_nobody_signaled_ends_run(
    targets: Seq<u32>,
    grace_seconds: u64,
    outcomes: Seq<DispatchOutcome>,
    now: u128,
)
    requires
        0 < targets.len() <= usize::MAX,
        outcomes.len() == valid_pids(targets).len(),
        none_stay(SignalKind::Cooperative, outcomes),
    ensures
        ({
            let end = next(start(targets, grace_seconds), outcomes, now);
            &&& end.phase is Finished
            &&& end.pending.len() == 0
            &&& end.tally.cooperative == 0
            &&& end.tally.forced == 0
            &&& end.tally.unsignalable_at_escalation == 0
            &&& end.tally.unsignalable == targets.len()
            &&& end.action() == (ActionView::Finish { tally: end.tally })
        }),
{
    lemma_start_wf(targets, grace_seconds);
    lemma_valid_pids_positive(targets);
    let begun = start(targets, grace_seconds);
    lemma_none_stay_keeps_nobody(SignalKind::Cooperative, begun.pending, outcomes);
}

/// Where a poll or the final probe finds every survivor gone, the run is
/// over without force: all of them are counted as cooperative exits.
pub proof fn lemma_all_gone_ends_run_without_force(
    state: State,
    outcomes: Seq<DispatchOutcome>,
    now: u128,
)
    requires
        state.wf(),
        state.phase is Polling || state.phase is Escalation,
        outcomes.len() == state.pending.len(),
        none_stay(SignalKind::Probe, outcomes),
    ensures
        next(state, outcomes, now).phase is Finished,
        next(state, outcomes, now).tally.forced == 0,
        next(state, outcomes, now).tally.cooperative == state.tally.cooperative
            + state.pending.len(),
{
    lemma_none_stay_keeps_nobody(SignalKind::Probe, state.pending, outcomes);
}

/// The survivors only ever shrink: a poll or the final probe keeps exactly
/// the survivors that it still found, and counts the others as cooperative
/// exits. No force is used on the way.
pub proof fn lemma_survivors_shrink(state: State, outcomes: Seq<DispatchOutcome>, now: u128)
    requires
        state.wf(),
        state.phase is Polling || state.phase is Escalation,
        outcomes.len() == state.pending.len(),
    ensures
        next(state, outcomes, now).pending == kept(SignalKind::Probe, state.pending, outcomes),
        next(state, outcomes, now).pending.len() <= state.pending.len(),
        next(state, outcomes, now).tally.cooperative == state.tally.cooperative
            + state.pending.len() - next(state, outcomes, now).pending.len(),
        next(state, outcomes, now).tally.forced == 0,
{
    lemma_kept_picks(SignalKind::Probe, state.pending, outcomes);
}

/// Polling goes on while somebody is left and the deadline has not been
/// reached. So the final probe is never made before the grace period is
/// over, and it is made as soon as a poll ends at or after the deadline
/// with somebody left. The deadline itself never moves.
pub proof fn lemma_escalation_waits_for_deadline(
    state: State,
    outcomes: Seq<DispatchOutcome>,
    now: u128,
)
    requires
        state.wf(),
        state.phase is Polling,
        outcomes.len() == state.pending.len(),
    ensures
        next(state, outcomes, now).phase is Escalation <==> kept(
            SignalKind::Probe,
            state.pending,
            outcomes,
        ).len() > 0 && deadline_reached(state.started, state.grace_seconds, now),
        next(state, outcomes, now).phase is Polling <==> kept(
            SignalKind::Probe,
            state.pending,
            outcomes,
        ).len() > 0 && !deadline_reached(state.started, state.grace_seconds, now),
        !(next(state, outcomes, now).phase is ForcefulDispatch),
        next(state, outcomes, now).started == state.started,
        next(state, outcomes, now).grace_seconds == state.grace_seconds,
{
}

/// Force is used on exactly the survivors that the final probe, made after
/// the deadline and right before the forceful dispatch, still found: the
/// forceful signal is requested for them and for nobody else, and only the
/// final probe leads to a forceful dispatch.
pub proof fn lemma_force_only_for_stragglers(
    state: State,
    outcomes: Seq<DispatchOutcome>,
    now: u128,
)
    requires
        state.wf(),
        state.accepts(outcomes),
    ensures
        next(state, outcomes, now).phase is ForcefulDispatch <==> state.phase is Escalation && kept(
            SignalKind::Probe,
            state.pending,
            outcomes,
        ).len() > 0,
        next(state, outcomes, now).phase is ForcefulDispatch ==> next(
            state,
            outcomes,
            now,
        ).action() == (ActionView::Dispatch {
            requests: requests(
                kept(SignalKind::Probe, state.pending, outcomes),
                SignalKind::Forceful,
            ),
        }),
{
}

/// The forceful dispatch ends the run: each straggler is counted as forced
/// where the signal was delivered and as unsignalable at escalation where it
/// was not. Nothing is retried.
pub proof fn lemma_forceful_dispatch_ends_run(
    state: State,
    outcomes: Seq<DispatchOutcome>,
    now: u128,
)
    requires
        state.wf(),
        state.phase is ForcefulDispatch,
        outcomes.len() == state.pending.len(),
    ensures
        next(state, outcomes, now).phase is Finished,
        next(state, outcomes, now).tally.forced == kept(
            SignalKind::Forceful,
            state.pending,
            outcomes,
        ).len(),
        next(state, outcomes, now).tally.forced + next(
            state,
            outcomes,
            now,
        ).tally.unsignalable_at_escalation == state.pending.len(),
        next(state, outcomes, now).tally.cooperative == state.tally.cooperative,
        next(state, outcomes, now).tally.unsignalable == state.tally.unsignalable,
{
    lemma_kept_picks(SignalKind::Forceful, state.pending, outcomes);
}

/// One report of the host: the outcomes of the pending action and the
/// host's clock.
pub struct Report {
    /// One outcome for each request, in the order of the requests.
    pub outcomes: Seq<DispatchOutcome>,
    /// The host's monotonic clock, in nanoseconds.
    pub now: u128,
}

/// The state after one report: the next state where the report answers the
/// pending action, the same state where it does not.
pub open spec fn advance(state: State, report: Report) -> State {
    if state.accepts(report.outcomes) {
        next(state, report.outcomes, report.now)
    } else {
        state
    }
}

/// The state after a sequence of reports, taken in order.
pub open spec fn after_reports(state: State, reports: Seq<Report>) -> State
    decreases reports.len(),
{
    if reports.len() == 0 {
        state
    } else {
        advance(after_reports(state, reports.drop_last()), reports.last())
    }
}

/// Whatever the host reports, a run stays well formed, and once it is over
/// every target has been counted exactly once.
pub proof fn lemma_run_accounts_for_every_target(
    targets: Seq<u32>,
    grace_seconds: u64,
    reports: Seq<Report>,
)
    requires
        0 < targets.len() <= usize::MAX,
    ensures
        after_reports(start(targets, grace_seconds), reports).wf(),
        after_reports(start(targets, grace_seconds), reports).total == targets.len(),
        after_reports(start(targets, grace_seconds), reports).phase is Finished ==> after_reports(
            start(targets, grace_seconds),
            reports,
        ).tally.total() == targets.len(),
    decreases reports.len(),
{
    let begun = start(targets, grace_seconds);
    if reports.len() == 0 {
        lemma_start_wf(targets, grace_seconds);
    } else {
        lemma_run_accounts_for_every_target(targets, grace_seconds, reports.drop_last());
        let before = after_reports(begun, reports.drop_last());
        if before.accepts(reports.last().outcomes) {
            lemma_next_wf(before, reports.last().outcomes, reports.last().now);
        }
    }
}

/// Whether, in the run that `reports` drive from `state`, every final probe
/// finds all the survivors gone: the targets that took the cooperative
/// signal have all exited on their own by the time the grace period is over.
pub open spec fn all_exit_in_time(state: State, reports: Seq<Report>) -> bool {
    forall|k: int|
        0 <= k < reports.len() && (#[trigger] after_reports(state, reports.take(k))).phase
            is Escalation ==> none_stay(SignalKind::Probe, reports[k].outcomes)
}

/// Where every target that took the cooperative signal exits on its own
/// within the grace period, no forceful signal is ever requested and no
/// target is counted as forced, however the polls fall.
pub proof fn lemma_no_force_when_all_exit_in_time(
    targets: Seq<u32>,
    grace_seconds: u64,
    reports: Seq<Report>,
)
    requires
        0 < targets.len() <= usize::MAX,
        all_exit_in_time(start(targets, grace_seconds), reports),
    ensures
        !(after_reports(start(targets, grace_seconds), reports).phase is ForcefulDispatch),
        after_reports(start(targets, grace_seconds), reports).tally.forced == 0,
        after_reports(start(targets, grace_seconds), reports).tally.unsignalable_at_escalation == 0,
    decreases reports.len(),
{
    let begun = start(targets, grace_seconds);
    lemma_run_accounts_for_every_target(targets, grace_seconds, reports);
    if reports.len() > 0 {
        let earlier = reports.drop_last();
        let last = reports.last();
        assert forall|k: int|
            0 <= k < earlier.len() && (#[trigger] after_reports(begun, earlier.take(k))).phase
                is Escalation implies none_stay(SignalKind::Probe, earlier[k].outcomes) by {
            assert(earlier.take(k) =~= reports.take(k));
        }
        lemma_no_force_when_all_exit_in_time(targets, grace_seconds, earlier);
        lemma_run_accounts_for_every_target(targets, grace_seconds, earlier);
        let before = after_reports(begun, earlier);
        assert(reports.take(reports.len() - 1) =~= earlier);
        if before.accepts(last.outcomes) && before.phase is Escalation {
            assert(none_stay(SignalKind::Probe, reports[reports.len() - 1].outcomes));
            lemma_none_stay_keeps_nobody(SignalKind::Probe, before.pending, last.outcomes);
        }
    }
}

} // verus!
