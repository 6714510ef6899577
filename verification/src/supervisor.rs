//! The grace-period supervisor.
//!
//! One run is a state machine over the whole batch of targets. The machine
//! makes every decision and performs nothing: each state names the action
//! that the host has to carry out (send these signals, let a polling interval
//! pass and probe), and the host reports back what the operating system
//! answered, together with its clock reading. [`next`] is the transition
//! function; [`Supervisor`] is the value that a host drives.

use crate::notice::Notice;
use crate::outcome::DispatchOutcome;
use crate::result::{RunResult, Tally};
use crate::signal::{
    is_valid_target, request, signal_number, validate, SignalKind, SignalRequest,
};
use vstd::prelude::*;

verus! {

/// Where a run stands.
#[derive(Clone, Copy, Debug, PartialEq, Eq, Structural)]
pub enum Phase {
    /// The cooperative signal is to be sent to every valid target.
    CooperativeDispatch,
    /// The targets that took the cooperative signal are polled until they
    /// are gone or the grace period is over.
    Polling,
    /// The grace period is over: whoever is left is probed once more, right
    /// before force is used.
    Escalation,
    /// The forceful signal is to be sent to the targets that the last probe
    /// found running.
    ForcefulDispatch,
    /// The run is over.
    Finished,
}

/// The state of a run.
pub struct State {
    /// Where the run stands.
    pub phase: Phase,
    /// The processes that the pending action addresses, in the order given:
    /// every valid target at first, the survivors later, nobody at the end.
    pub pending: Seq<i32>,
    /// The grace period, in seconds.
    pub grace_seconds: u64,
    /// The host's clock, in nanoseconds, when the cooperative signals had
    /// been sent. The grace period runs from here.
    pub started: u128,
    /// The targets accounted for so far.
    pub tally: Tally,
    /// The number of targets that the run was given.
    pub total: nat,
}

/// The number of nanoseconds in a second.
pub const NANOS_PER_SECOND: u128 = 1_000_000_000;

/// Whether the grace period of `grace_seconds` that began at `started` is
/// over at `now`; both are readings of one monotonic clock in nanoseconds.
pub open spec fn deadline_reached(started: u128, grace_seconds: u64, now: u128) -> bool {
    now >= started + grace_seconds * NANOS_PER_SECOND
}

/// The process identifiers of the valid targets, in the order given.
pub open spec fn valid_pids(targets: Seq<u32>) -> Seq<i32>
    decreases targets.len(),
{
    if targets.len() == 0 {
        Seq::empty()
    } else if is_valid_target(targets.last()) {
        valid_pids(targets.drop_last()).push(targets.last() as i32)
    } else {
        valid_pids(targets.drop_last())
    }
}

/// A refusal for each invalid target, in the order given.
pub open spec fn rejections(targets: Seq<u32>) -> Seq<Notice>
    decreases targets.len(),
{
    if targets.len() == 0 {
        Seq::empty()
    } else if is_valid_target(targets.last()) {
        rejections(targets.drop_last())
    } else {
        rejections(targets.drop_last()).push(Notice::Rejected { target: targets.last() })
    }
}

/// Whether a process stays in the supervisor's hands after `outcome` came
/// back for a signal of `kind`. A cooperative or forceful signal has to be
/// delivered. A probe has to find the process: only "not found" says that
/// it has exited.
pub open spec fn stays(kind: SignalKind, outcome: DispatchOutcome) -> bool {
    match kind {
        SignalKind::Probe => !(outcome is NotFound),
        _ => outcome is Delivered,
    }
}

/// The processes among `pids` that stay after a signal of `kind`, by the
/// outcome at the same position in `outcomes`; in the order given.
pub open spec fn kept(kind: SignalKind, pids: Seq<i32>, outcomes: Seq<DispatchOutcome>) -> Seq<i32>
    decreases pids.len(),
{
    if pids.len() == 0 {
        Seq::empty()
    } else if stays(kind, outcomes.last()) {
        kept(kind, pids.drop_last(), outcomes.drop_last()).push(pids.last())
    } else {
        kept(kind, pids.drop_last(), outcomes.drop_last())
    }
}

/// An exit for each process among `pids` that the probe at the same
/// position in `outcomes` did not find; in the order given.
pub open spec fn exits(pids: Seq<i32>, outcomes: Seq<DispatchOutcome>) -> Seq<Notice>
    decreases pids.len(),
{
    if pids.len() == 0 {
        Seq::empty()
    } else if stays(SignalKind::Probe, outcomes.last()) {
        exits(pids.drop_last(), outcomes.drop_last())
    } else {
        exits(pids.drop_last(), outcomes.drop_last()).push(Notice::Exited { pid: pids.last() })
    }
}

/// For each process, in order, the outcome of the signal sent to it.
pub open spec fn dispatches(kind: SignalKind, pids: Seq<i32>, outcomes: Seq<DispatchOutcome>) -> Seq<
    Notice,
> {
    Seq::new(pids.len(), |i: int| Notice::Dispatched { kind, pid: pids[i], outcome: outcomes[i] })
}

/// For each process, in order, the request that sends it a signal of `kind`.
pub open spec fn requests(pids: Seq<i32>, kind: SignalKind) -> Seq<SignalRequest> {
    Seq::new(pids.len(), |i: int| request(pids[i], kind))
}

/// What the host has to do next, as a mathematical value.
pub enum ActionView {
    /// Send each request now, in order, and report the outcomes in that order.
    Dispatch { requests: Seq<SignalRequest> },
    /// Let one polling interval pass, then send each request, in order, and
    /// report the outcomes in that order.
    Poll { requests: Seq<SignalRequest> },
    /// Nothing: the run is over, with this summary.
    Finish { tally: Tally },
}

impl State {
    /// What holds of every state that a run can reach.
    pub open spec fn wf(self) -> bool {
        &&& 0 < self.total <= usize::MAX
        &&& self.tally.total() + self.pending.len() == self.total
        &&& forall|i: int| 0 <= i < self.pending.len() ==> #[trigger] self.pending[i] > 0
        &&& self.phase is Finished <==> self.pending.len() == 0
        &&& self.phase is CooperativeDispatch ==> self.tally.cooperative == 0
        &&& !(self.phase is Finished) ==> self.tally.forced == 0
            && self.tally.unsignalable_at_escalation == 0
    }

    /// The kind of signal that this state's action sends: the cooperative
    /// signal first, probes while polling and for the final check, the
    /// forceful signal last.
    pub open spec fn signal(self) -> SignalKind {
        match self.phase {
            Phase::CooperativeDispatch => SignalKind::Cooperative,
            Phase::ForcefulDispatch => SignalKind::Forceful,
            _ => SignalKind::Probe,
        }
    }

    /// The action that this state asks of the host.
    pub open spec fn action(self) -> ActionView {
        match self.phase {
            Phase::Polling => ActionView::Poll { requests: requests(self.pending, self.signal()) },
            Phase::Finished => ActionView::Finish { tally: self.tally },
            _ => ActionView::Dispatch { requests: requests(self.pending, self.signal()) },
        }
    }

    /// Whether `outcomes` can be the report on this state's action: one
    /// outcome for each request. A finished run asks for nothing and takes
    /// any report.
    pub open spec fn accepts(self, outcomes: Seq<DispatchOutcome>) -> bool {
        self.phase is Finished || outcomes.len() == self.pending.len()
    }
}

/// The state in which a run on `targets` begins. Invalid targets are counted
/// as unsignalable at once and never appear in a request; a run without a
/// single valid target is over before it has sent anything.
pub open spec fn start(targets: Seq<u32>, grace_seconds: u64) -> State {
    let pids = valid_pids(targets);
    State {
        phase: if pids.len() == 0 {
            Phase::Finished
        } else {
            Phase::CooperativeDispatch
        },
        pending: pids,
        grace_seconds,
        started: 0,
        tally: Tally { unsignalable: (targets.len() - pids.len()) as nat, ..Tally::zero() },
        total: targets.len(),
    }
}

/// What is to be logged when a run on `targets` begins.
pub open spec fn start_notices(targets: Seq<u32>, grace_seconds: u64) -> Seq<Notice> {
    seq![Notice::Started { targets: targets.len() as usize, grace_seconds }] + rejections(targets)
        + if valid_pids(targets).len() == 0 {
        seq![Notice::NothingToWaitFor]
    } else {
        Seq::empty()
    }
}

/// The state that follows `state` when the host reports `outcomes` for the
/// pending action, with its clock at `now`.
///
/// After the cooperative dispatch, the targets that took the signal are the
/// survivors and the grace period starts; the others are unsignalable and
/// are never addressed again. Each poll and the final probe drop the
/// survivors that were not found and count them as cooperative exits.
/// Polling ends when nobody is left or the deadline is reached, whichever
/// comes first. Only the survivors that the final probe still found are
/// sent the forceful signal, and its outcome ends the run.
pub open spec fn next(state: State, outcomes: Seq<DispatchOutcome>, now: u128) -> State {
    let alive = kept(state.signal(), state.pending, outcomes);
    let gone = (state.pending.len() - alive.len()) as nat;
    match state.phase {
        Phase::CooperativeDispatch => State {
            phase: if alive.len() == 0 {
                Phase::Finished
            } else if deadline_reached(now, state.grace_seconds, now) {
                Phase::Escalation
            } else {
                Phase::Polling
            },
            pending: alive,
            started: now,
            tally: Tally { unsignalable: state.tally.unsignalable + gone, ..state.tally },
            ..state
        },
        Phase::Polling => State {
            phase: if alive.len() == 0 {
                Phase::Finished
            } else if deadline_reached(state.started, state.grace_seconds, now) {
                Phase::Escalation
            } else {
                Phase::Polling
            },
            pending: alive,
            tally: Tally { cooperative: state.tally.cooperative + gone, ..state.tally },
            ..state
        },
        Phase::Escalation => State {
            phase: if alive.len() == 0 {
                Phase::Finished
            } else {
                Phase::ForcefulDispatch
            },
            pending: alive,
            tally: Tally { cooperative: state.tally.cooperative + gone, ..state.tally },
            ..state
        },
        Phase::ForcefulDispatch => State {
            phase: Phase::Finished,
            pending: Seq::empty(),
            tally: Tally {
                forced: state.tally.forced + alive.len(),
                unsignalable_at_escalation: state.tally.unsignalable_at_escalation + gone,
                ..state.tally
            },
            ..state
        },
        Phase::Finished => state,
    }
}

/// What is to be logged when the host reports `outcomes` in `state`.
pub open spec fn notices(state: State, outcomes: Seq<DispatchOutcome>) -> Seq<Notice> {
    let alive = kept(state.signal(), state.pending, outcomes);
    match state.phase {
        Phase::CooperativeDispatch => dispatches(SignalKind::Cooperative, state.pending, outcomes)
            + if alive.len() == 0 {
            seq![Notice::NothingToWaitFor]
        } else {
            Seq::empty()
        },
        Phase::Polling => exits(state.pending, outcomes) + if alive.len() == 0 {
            seq![Notice::AllExited]
        } else {
            Seq::empty()
        },
        Phase::Escalation => exits(state.pending, outcomes) + if alive.len() == 0 {
            seq![Notice::AllExited]
        } else {
            seq![Notice::Escalating { stragglers: alive.len() as usize }]
        },
        Phase::ForcefulDispatch => dispatches(SignalKind::Forceful, state.pending, outcomes),
        Phase::Finished => Seq::empty(),
    }
}

/// `kept` picks from `pids`: it is no longer than `pids`, and each of its
/// members is a member of `pids`.
pub proof fn lemma_kept_picks(kind: SignalKind, pids: Seq<i32>, outcomes: Seq<DispatchOutcome>)
    ensures
        kept(kind, pids, outcomes).len() <= pids.len(),
        forall|j: int|
            0 <= j < kept(kind, pids, outcomes).len() ==> pids.contains(
                #[trigger] kept(kind, pids, outcomes)[j],
            ),
    decreases pids.len(),
{
    if pids.len() > 0 {
        lemma_kept_picks(kind, pids.drop_last(), outcomes.drop_last());
        let earlier = kept(kind, pids.drop_last(), outcomes.drop_last());
        assert forall|j: int| 0 <= j < kept(kind, pids, outcomes).len() implies pids.contains(
            #[trigger] kept(kind, pids, outcomes)[j],
        ) by {
            if j < earlier.len() {
                let i = choose|i: int| 0 <= i < pids.drop_last().len() && pids.drop_last()[i] == earlier[j];
                assert(pids[i] == earlier[j]);
            } else {
                assert(pids[pids.len() - 1] == pids.last());
            }
        }
    }
}

/// `valid_pids` is no longer than the targets, and all its members are
/// positive.
pub proof fn lemma_valid_pids_positive(targets: Seq<u32>)
    ensures
        valid_pids(targets).len() <= targets.len(),
        forall|j: int| 0 <= j < valid_pids(targets).len() ==> #[trigger] valid_pids(targets)[j] > 0,
    decreases targets.len(),
{
    if targets.len() > 0 {
        lemma_valid_pids_positive(targets.drop_last());
    }
}

/// A run on at least one target begins in a well-formed state.
pub proof fn lemma_start_wf(targets: Seq<u32>, grace_seconds: u64)
    requires
        0 < targets.len() <= usize::MAX,
    ensures
        start(targets, grace_seconds).wf(),
{
    lemma_valid_pids_positive(targets);
}

/// Every report that a well-formed state accepts leads to a well-formed
/// state: each target stays accounted for exactly once, only valid
/// processes are ever addressed, and no force has been used before the run
/// is over.
pub proof fn lemma_next_wf(state: State, outcomes: Seq<DispatchOutcome>, now: u128)
    requires
        state.wf(),
        state.accepts(outcomes),
    ensures
        next(state, outcomes, now).wf(),
{
    lemma_kept_picks(state.signal(), state.pending, outcomes);
    let after = next(state, outcomes, now);
    assert forall|i: int| 0 <= i < after.pending.len() implies #[trigger] after.pending[i] > 0 by {
        if !(state.phase is Finished) && !(state.phase is ForcefulDispatch) {
            let pid = kept(state.signal(), state.pending, outcomes)[i];
            assert(state.pending.contains(pid));
        }
    }
}

/// What the host has to do next.
#[derive(Debug, PartialEq, Eq)]
pub enum Action {
    /// Send each request now, in order, and report the outcomes in that order.
    Dispatch { requests: Vec<SignalRequest> },
    /// Let one polling interval pass, then send each request, in order, and
    /// report the outcomes in that order.
    Poll { requests: Vec<SignalRequest> },
    /// Nothing: the run is over, with this summary.
    Finish { result: RunResult },
}

impl View for Action {
    type V = ActionView;

    open spec fn view(&self) -> ActionView {
        match *self {
            Action::Dispatch { requests } => ActionView::Dispatch { requests: requests@ },
            Action::Poll { requests } => ActionView::Poll { requests: requests@ },
            Action::Finish { result } => ActionView::Finish { tally: result@ },
        }
    }
}

/// What one transition hands to the host.
#[derive(Debug, PartialEq, Eq)]
pub struct Step {
    /// What is to be logged, in order.
    pub notices: Vec<Notice>,
    /// What is to be done next.
    pub action: Action,
}

/// Why a run could not begin.
#[derive(Clone, Copy, Debug, PartialEq, Eq, Structural)]
pub enum RunError {
    /// No targets were given: there is nothing to do. This is not the
    /// outcome of a run in which every target failed; that run has a summary.
    NoTargets,
}

/// A report that does not answer the pending action.
#[derive(Clone, Copy, Debug, PartialEq, Eq, Structural)]
pub struct ReportMismatch {
    /// The number of requests in the pending action.
    pub expected: usize,
    /// The number of outcomes in the report.
    pub received: usize,
}

/// One run of the orchestrator.
#[derive(Debug)]
pub struct Supervisor {
    phase: Phase,
    pending: Vec<i32>,
    grace_seconds: u64,
    started: u128,
    result: RunResult,
    total: usize,
}

impl Supervisor {
    /// Every run that exists is well formed.
    #[verifier::type_invariant]
    spec fn well_formed(self) -> bool {
        self@.wf()
    }
}

impl View for Supervisor {
    type V = State;

    closed spec fn view(&self) -> State {
        State {
            phase: self.phase,
            pending: self.pending@,
            grace_seconds: self.grace_seconds,
            started: self.started,
            tally: self.result@,
            total: self.total as nat,
        }
    }
}

/// The requests that send a signal of `kind` to each of `pids`.
fn build_requests(pids: &Vec<i32>, kind: SignalKind) -> (out: Vec<SignalRequest>)
    ensures
        out@ == requests(pids@, kind),
{
    let signal: i32 = kind.number();
    let mut out: Vec<SignalRequest> = Vec::new();
    let mut i: usize = 0;
    while i < pids.len()
        invariant
            i <= pids.len(),
            signal == signal_number(kind),
            out.len() == i,
            forall|k: int| 0 <= k < i ==> out@[k] == request(pids@[k], kind),
        decreases pids.len() - i,
    {
        out.push(SignalRequest { pid: pids[i], signal });
        i += 1;
    }
    assert(out@ =~= requests(pids@, kind));
    out
}

/// Whether a process stays after `outcome` came back for a signal of `kind`.
fn stays_after(kind: SignalKind, outcome: &DispatchOutcome) -> (r: bool)
    ensures
        r == stays(kind, *outcome),
{
    match kind {
        SignalKind::Probe => match outcome {
            DispatchOutcome::NotFound => false,
            _ => true,
        },
        _ => outcome.is_delivered(),
    }
}

/// The processes that stay after a signal of `kind`.
fn keep(kind: SignalKind, pids: &Vec<i32>, outcomes: &[DispatchOutcome]) -> (alive: Vec<i32>)
    requires
        pids.len() == outcomes@.len(),
    ensures
        alive@ == kept(kind, pids@, outcomes@),
{
    let mut alive: Vec<i32> = Vec::new();
    let mut i: usize = 0;
    while i < pids.len()
        invariant
            i <= pids.len(),
            pids.len() == outcomes@.len(),
            alive@ == kept(kind, pids@.take(i as int), outcomes@.take(i as int)),
        decreases pids.len() - i,
    {
        assert(pids@.take(i + 1).drop_last() =~= pids@.take(i as int));
        assert(outcomes@.take(i + 1).drop_last() =~= outcomes@.take(i as int));
        if stays_after(kind, &outcomes[i]) {
            alive.push(pids[i]);
        }
        i += 1;
    }
    assert(pids@.take(pids.len() as int) =~= pids@);
    assert(outcomes@.take(pids.len() as int) =~= outcomes@);
    alive
}

/// An exit for each process that its probe did not find.
fn exit_notices(pids: &Vec<i32>, outcomes: &[DispatchOutcome]) -> (out: Vec<Notice>)
    requires
        pids.len() == outcomes@.len(),
    ensures
        out@ == exits(pids@, outcomes@),
{
    let mut out: Vec<Notice> = Vec::new();
    let mut i: usize = 0;
    while i < pids.len()
        invariant
            i <= pids.len(),
            pids.len() == outcomes@.len(),
            out@ == exits(pids@.take(i as int), outcomes@.take(i as int)),
        decreases pids.len() - i,
    {
        assert(pids@.take(i + 1).drop_last() =~= pids@.take(i as int));
        assert(outcomes@.take(i + 1).drop_last() =~= outcomes@.take(i as int));
        if !stays_after(SignalKind::Probe, &outcomes[i]) {
            out.push(Notice::Exited { pid: pids[i] });
        }
        i += 1;
    }
    assert(pids@.take(pids.len() as int) =~= pids@);
    assert(outcomes@.take(pids.len() as int) =~= outcomes@);
    out
}

/// For each process the outcome of the signal sent to it.
fn dispatch_notices(kind: SignalKind, pids: &Vec<i32>, outcomes: &[DispatchOutcome]) -> (out: Vec<
    Notice,
>)
    requires
        pids.len() == outcomes@.len(),
    ensures
        out@ == dispatches(kind, pids@, outcomes@),
{
    let mut out: Vec<Notice> = Vec::new();
    let mut i: usize = 0;
    while i < pids.len()
        invariant
            i <= pids.len(),
            pids.len() == outcomes@.len(),
            out.len() == i,
            forall|k: int|
                0 <= k < i ==> out@[k] == (Notice::Dispatched {
                    kind,
                    pid: pids@[k],
                    outcome: outcomes@[k],
                }),
        decreases pids.len() - i,
    {
        out.push(Notice::Dispatched { kind, pid: pids[i], outcome: outcomes[i].duplicate() });
        i += 1;
    }
    assert(out@ =~= dispatches(kind, pids@, outcomes@));
    out
}

impl Supervisor {
    /// Begins a run on `targets` with a grace period of `grace_seconds`.
    ///
    /// An empty target set is refused: there is nothing to do, and nothing
    /// is dispatched. Otherwise the run begins as `start` says, and the
    /// first step tells the host what to log and what to do.
    pub fn new(targets: &[u32], grace_seconds: u64) -> (r: Result<(Supervisor, Step), RunError>)
        ensures
            targets@.len() == 0 ==> r == Err::<(Supervisor, Step), RunError>(RunError::NoTargets),
            targets@.len() > 0 ==> r is Ok,
            r matches Ok(begun) ==> {
                &&& begun.0@ == start(targets@, grace_seconds)
                &&& begun.0@.wf()
                &&& begun.1.notices@ == start_notices(targets@, grace_seconds)
                &&& begun.1.action@ == begun.0@.action()
            },
    {
        if targets.len() == 0 {
            return Err(RunError::NoTargets);
        }
        let mut notices: Vec<Notice> = Vec::new();
        notices.push(Notice::Started { targets: targets.len(), grace_seconds });
        let ghost opening = notices@;
        let mut pids: Vec<i32> = Vec::new();
        let mut i: usize = 0;
        while i < targets.len()
            invariant
                i <= targets@.len(),
                pids@ == valid_pids(targets@.take(i as int)),
                notices@ == opening + rejections(targets@.take(i as int)),
            decreases targets@.len() - i,
        {
            assert(targets@.take(i + 1).drop_last() =~= targets@.take(i as int));
            match validate(targets[i]) {
                Ok(pid) => {
                    pids.push(pid);
                },
                Err(refusal) => {
                    notices.push(Notice::Rejected { target: refusal.target });
                    assert(notices@ =~= opening + rejections(targets@.take(i + 1)));
                },
            }
            i += 1;
        }
        assert(targets@.take(targets@.len() as int) =~= targets@);
        proof {
            lemma_valid_pids_positive(targets@);
            lemma_start_wf(targets@, grace_seconds);
        }
        let phase: Phase = if pids.len() == 0 {
            notices.push(Notice::NothingToWaitFor);
            Phase::Finished
        } else {
            Phase::CooperativeDispatch
        };
        assert(notices@ =~= start_notices(targets@, grace_seconds));
        let supervisor = Supervisor {
            phase,
            grace_seconds,
            started: 0,
            result: RunResult {
                cooperative: 0,
                forced: 0,
                unsignalable: targets.len() - pids.len(),
                unsignalable_at_escalation: 0,
            },
            total: targets.len(),
            pending: pids,
        };
        let action: Action = supervisor.action();
        Ok((supervisor, Step { notices, action }))
    }

    /// The action that the run is waiting for.
    pub fn action(&self) -> (action: Action)
        ensures
            action@ == self@.action(),
    {
        match self.phase {
            Phase::CooperativeDispatch => Action::Dispatch {
                requests: build_requests(&self.pending, SignalKind::Cooperative),
            },
            Phase::Polling => Action::Poll {
                requests: build_requests(&self.pending, SignalKind::Probe),
            },
            Phase::Escalation => Action::Dispatch {
                requests: build_requests(&self.pending, SignalKind::Probe),
            },
            Phase::ForcefulDispatch => Action::Dispatch {
                requests: build_requests(&self.pending, SignalKind::Forceful),
            },
            Phase::Finished => Action::Finish { result: self.result },
        }
    }

    /// Where the run stands.
    pub fn phase(&self) -> (phase: Phase)
        ensures
            phase == self@.phase,
    {
        self.phase
    }

    /// The processes that the pending action addresses.
    pub fn pending(&self) -> (pids: &Vec<i32>)
        ensures
            pids@ == self@.pending,
    {
        &self.pending
    }

    /// The targets accounted for so far; the summary of the run once it is
    /// over.
    pub fn result(&self) -> (result: RunResult)
        ensures
            result@ == self@.tally,
    {
        self.result
    }

    /// Takes the host's report on the pending action: one outcome for each
    /// request, in the order of the requests, and the host's monotonic clock
    /// in nanoseconds, read once the action was carried out.
    ///
    /// The run moves on as `next` says, and the step tells the host what to
    /// log and what to do next. A report with another number of outcomes is
    /// refused and changes nothing. A finished run stays as it is.
    pub fn step(&mut self, outcomes: &[DispatchOutcome], now: u128) -> (r: Result<
        Step,
        ReportMismatch,
    >)
        ensures
            old(self)@.wf(),
            final(self)@.wf(),
            old(self)@.accepts(outcomes@) ==> {
                &&& r is Ok
                &&& final(self)@ == next(old(self)@, outcomes@, now)
                &&& r->Ok_0.notices@ == notices(old(self)@, outcomes@)
                &&& r->Ok_0.action@ == final(self)@.action()
            },
            !old(self)@.accepts(outcomes@) ==> {
                &&& r == Err::<Step, ReportMismatch>(
                    ReportMismatch {
                        expected: old(self)@.pending.len() as usize,
                        received: outcomes@.len() as usize,
                    },
                )
                &&& final(self)@ == old(self)@
            },
    {
        proof {
            use_type_invariant(&*self);
        }
        if self.phase == Phase::Finished {
            return Ok(Step { notices: Vec::new(), action: self.action() });
        }
        if outcomes.len() != self.pending.len() {
            return Err(ReportMismatch { expected: self.pending.len(), received: outcomes.len() });
        }
        let kind: SignalKind = match self.phase {
            Phase::CooperativeDispatch => SignalKind::Cooperative,
            Phase::ForcefulDispatch => SignalKind::Forceful,
            _ => SignalKind::Probe,
        };
        proof {
            lemma_kept_picks(kind, self.pending@, outcomes@);
            lemma_next_wf(self@, outcomes@, now);
        }
        let mut alive: Vec<i32> = keep(kind, &self.pending, outcomes);
        let gone: usize = self.pending.len() - alive.len();
        let mut result: RunResult = self.result;
        let mut started: u128 = self.started;
        let phase: Phase;
        let mut notices: Vec<Notice>;
        match self.phase {
            Phase::CooperativeDispatch => {
                notices = dispatch_notices(SignalKind::Cooperative, &self.pending, outcomes);
                result.unsignalable = result.unsignalable + gone;
                started = now;
                if alive.len() == 0 {
                    notices.push(Notice::NothingToWaitFor);
                    phase = Phase::Finished;
                } else if self.grace_seconds == 0 {
                    phase = Phase::Escalation;
                } else {
                    phase = Phase::Polling;
                }
            },
            Phase::Polling => {
                notices = exit_notices(&self.pending, outcomes);
                result.cooperative = result.cooperative + gone;
                if alive.len() == 0 {
                    notices.push(Notice::AllExited);
                    phase = Phase::Finished;
                } else if now >= started && now - started >= (self.grace_seconds as u128)
                    * NANOS_PER_SECOND {
                    phase = Phase::Escalation;
                } else {
                    phase = Phase::Polling;
                }
            },
            Phase::Escalation => {
                notices = exit_notices(&self.pending, outcomes);
                result.cooperative = result.cooperative + gone;
                if alive.len() == 0 {
                    notices.push(Notice::AllExited);
                    phase = Phase::Finished;
                } else {
                    notices.push(Notice::Escalating { stragglers: alive.len() });
                    phase = Phase::ForcefulDispatch;
                }
            },
            Phase::ForcefulDispatch => {
                notices = dispatch_notices(SignalKind::Forceful, &self.pending, outcomes);
                result.forced = result.forced + alive.len();
                result.unsignalable_at_escalation = result.unsignalable_at_escalation + gone;
                phase = Phase::Finished;
                alive = Vec::new();
            },
            Phase::Finished => {
                notices = Vec::new();
                phase = Phase::Finished;
            },
        }
        let after = Supervisor {
            phase,
            pending: alive,
            grace_seconds: self.grace_seconds,
            started,
            result,
            total: self.total,
        };
        assert(after@.tally == next(old(self)@, outcomes@, now).tally);
        assert(after@ == next(old(self)@, outcomes@, now));
        assert(notices@ =~= crate::supervisor::notices(old(self)@, outcomes@));
        *self = after;
        let action: Action = self.action();
        Ok(Step { notices, action })
    }
}

} // verus!
