//! The summary of a run and the exit status that follows from it.

use vstd::prelude::*;

verus! {

/// How many targets ended in each way, as mathematical numbers.
pub struct Tally {
    /// Targets that took the cooperative signal and were later found gone.
    pub cooperative: nat,
    /// Targets that took the forceful signal.
    pub forced: nat,
    /// Targets that the cooperative signal never reached: refused
    /// identifiers, vanished processes, missing rights, other failures.
    pub unsignalable: nat,
    /// Targets that outlived the grace period and then could not be sent
    /// the forceful signal.
    pub unsignalable_at_escalation: nat,
}

impl Tally {
    /// The tally of a run in which nothing has happened yet.
    pub open spec fn zero() -> Tally {
        Tally { cooperative: 0, forced: 0, unsignalable: 0, unsignalable_at_escalation: 0 }
    }

    /// The number of targets accounted for.
    pub open spec fn total(self) -> nat {
        self.cooperative + self.forced + self.unsignalable + self.unsignalable_at_escalation
    }

    /// Whether there were targets and no signal reached any of them.
    pub open spec fn none_signaled(self) -> bool {
        self.unsignalable > 0 && self.cooperative == 0 && self.forced == 0
            && self.unsignalable_at_escalation == 0
    }
}

/// The summary of a whole run.
#[derive(Clone, Copy, Debug, PartialEq, Eq, Structural)]
pub struct RunResult {
    /// Targets that took the cooperative signal and were later found gone.
    pub cooperative: usize,
    /// Targets that took the forceful signal.
    pub forced: usize,
    /// Targets that the cooperative signal never reached.
    pub unsignalable: usize,
    /// Targets that outlived the grace period and then could not be sent
    /// the forceful signal.
    pub unsignalable_at_escalation: usize,
}

impl View for RunResult {
    type V = Tally;

    open spec fn view(&self) -> Tally {
        Tally {
            cooperative: self.cooperative as nat,
            forced: self.forced as nat,
            unsignalable: self.unsignalable as nat,
            unsignalable_at_escalation: self.unsignalable_at_escalation as nat,
        }
    }
}

/// The exit status for a run: 2 where no target could be signaled at all;
/// 3 where at least one target had to be terminated forcefully and the
/// caller counts escalation as a failure; 0 otherwise.
pub open spec fn exit_status_spec(tally: Tally, escalation_is_failure: bool) -> int {
    if tally.none_signaled() {
        2
    } else if tally.forced > 0 && escalation_is_failure {
        3
    } else {
        0
    }
}

/// The exit status with which the program that ran this run should end.
/// `escalation_is_failure` is the caller's policy: whether a run that had to
/// use force counts as failed.
pub fn exit_status(result: &RunResult, escalation_is_failure: bool) -> (status: i32)
    ensures
        status == exit_status_spec(result@, escalation_is_failure),
{
    if result.unsignalable > 0 && result.cooperative == 0 && result.forced == 0
        && result.unsignalable_at_escalation == 0 {
        2
    } else if result.forced > 0 && escalation_is_failure {
        3
    } else {
        0
    }
}

/// With at least one target terminated forcefully, the same run ends with
/// status 3 where escalation counts as a failure and with status 0 where it
/// does not.
pub proof fn lemma_escalation_policy_decides_status(tally: Tally)
    requires
        tally.forced > 0,
    ensures
        exit_status_spec(tally, true) == 3,
        exit_status_spec(tally, false) == 0,
{
}

} // verus!
