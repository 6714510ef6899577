use gracekill::notice::Notice;
use gracekill::outcome::DispatchOutcome;
use gracekill::result::{exit_status, RunResult};
use gracekill::signal::{SignalKind, SignalRequest};
use gracekill::supervisor::{Action, Phase, ReportMismatch, RunError, Step, Supervisor};

const SECOND: u128 = 1_000_000_000;

fn requests(pids: &[i32], signal: i32) -> Vec<SignalRequest> {
    pids.iter().map(|&pid| SignalRequest { pid, signal }).collect()
}

fn summary(cooperative: usize, forced: usize, unsignalable: usize, late: usize) -> RunResult {
    RunResult { cooperative, forced, unsignalable, unsignalable_at_escalation: late }
}

fn begin(targets: &[u32], grace: u64) -> (Supervisor, Step) {
    match Supervisor::new(targets, grace) {
        Ok(begun) => begun,
        Err(error) => panic!("{:?}", error),
    }
}

use DispatchOutcome::{Delivered, NotFound, PermissionDenied};

#[test]
fn empty_target_set_is_rejected() {
    match Supervisor::new(&[], 5) {
        Err(error) => assert_eq!(error, RunError::NoTargets),
        Ok(_) => panic!("a run began without targets"),
    }
}

#[test]
fn a_run_begins_with_the_cooperative_signal_for_everybody() {
    let (run, step) = begin(&[111, 222, 111], 5);
    assert_eq!(step.notices, vec![Notice::Started { targets: 3, grace_seconds: 5 }]);
    assert_eq!(step.action, Action::Dispatch { requests: requests(&[111, 222, 111], 15) });
    assert_eq!(run.action(), step.action);
    assert_eq!(run.phase(), Phase::CooperativeDispatch);
    assert_eq!(run.pending(), &vec![111, 222, 111]);
    assert_eq!(run.result(), summary(0, 0, 0, 0));
}

#[test]
fn targets_that_are_not_running() {
    let (mut run, _) = begin(&[100, 200, 300], 5);
    let step = run.step(&[NotFound, NotFound, NotFound], 0).unwrap();
    assert_eq!(
        step.notices,
        vec![
            Notice::Dispatched { kind: SignalKind::Cooperative, pid: 100, outcome: NotFound },
            Notice::Dispatched { kind: SignalKind::Cooperative, pid: 200, outcome: NotFound },
            Notice::Dispatched { kind: SignalKind::Cooperative, pid: 300, outcome: NotFound },
            Notice::NothingToWaitFor,
        ]
    );
    assert_eq!(step.action, Action::Finish { result: summary(0, 0, 3, 0) });
    assert_eq!(run.phase(), Phase::Finished);
    assert!(run.pending().is_empty());
    assert_eq!(exit_status(&run.result(), true), 2);
}

#[test]
fn one_exits_and_one_is_forced() {
    let start = 17 * SECOND;
    let (mut run, _) = begin(&[111, 222], 5);
    let step = run.step(&[Delivered, Delivered], start).unwrap();
    assert_eq!(
        step.notices,
        vec![
            Notice::Dispatched { kind: SignalKind::Cooperative, pid: 111, outcome: Delivered },
            Notice::Dispatched { kind: SignalKind::Cooperative, pid: 222, outcome: Delivered },
        ]
    );
    assert_eq!(step.action, Action::Poll { requests: requests(&[111, 222], 0) });

    let step = run.step(&[Delivered, Delivered], start + SECOND / 10).unwrap();
    assert_eq!(step.notices, vec![]);
    assert_eq!(step.action, Action::Poll { requests: requests(&[111, 222], 0) });

    let step = run.step(&[NotFound, Delivered], start + SECOND).unwrap();
    assert_eq!(step.notices, vec![Notice::Exited { pid: 111 }]);
    assert_eq!(step.action, Action::Poll { requests: requests(&[222], 0) });
    assert_eq!(run.result(), summary(1, 0, 0, 0));

    for tenth in 11..50 {
        let step = run.step(&[Delivered], start + tenth * SECOND / 10).unwrap();
        assert_eq!(step.notices, vec![]);
        assert_eq!(step.action, Action::Poll { requests: requests(&[222], 0) });
    }
    let step = run.step(&[Delivered], start + 5 * SECOND - 1).unwrap();
    assert_eq!(step.action, Action::Poll { requests: requests(&[222], 0) });
    assert_eq!(run.phase(), Phase::Polling);

    let step = run.step(&[Delivered], start + 5 * SECOND).unwrap();
    assert_eq!(step.notices, vec![]);
    assert_eq!(step.action, Action::Dispatch { requests: requests(&[222], 0) });
    assert_eq!(run.phase(), Phase::Escalation);

    let step = run.step(&[Delivered], start + 5 * SECOND + 1).unwrap();
    assert_eq!(step.notices, vec![Notice::Escalating { stragglers: 1 }]);
    assert_eq!(step.action, Action::Dispatch { requests: requests(&[222], 9) });
    assert_eq!(run.phase(), Phase::ForcefulDispatch);

    let step = run.step(&[Delivered], start + 5 * SECOND + 2).unwrap();
    assert_eq!(
        step.notices,
        vec![Notice::Dispatched { kind: SignalKind::Forceful, pid: 222, outcome: Delivered }]
    );
    assert_eq!(step.action, Action::Finish { result: summary(1, 1, 0, 0) });
    assert_eq!(run.phase(), Phase::Finished);
    assert_eq!(exit_status(&run.result(), true), 3);
    assert_eq!(exit_status(&run.result(), false), 0);
}

#[test]
fn a_target_without_permission() {
    let (mut run, _) = begin(&[4242], 5);
    let step = run.step(&[PermissionDenied], 0).unwrap();
    assert_eq!(
        step.notices,
        vec![
            Notice::Dispatched {
                kind: SignalKind::Cooperative,
                pid: 4242,
                outcome: PermissionDenied
            },
            Notice::NothingToWaitFor,
        ]
    );
    assert_eq!(step.action, Action::Finish { result: summary(0, 0, 1, 0) });
    assert!(run.pending().is_empty());
    assert_eq!(run.phase(), Phase::Finished);
    assert_eq!(exit_status(&run.result(), false), 2);
}

#[test]
fn everybody_exits_within_the_grace_period() {
    let (mut run, _) = begin(&[1, 2, 3], 10);
    run.step(&[Delivered, Delivered, Delivered], 0).unwrap();
    let step = run.step(&[Delivered, NotFound, Delivered], SECOND).unwrap();
    assert_eq!(step.notices, vec![Notice::Exited { pid: 2 }]);
    assert_eq!(step.action, Action::Poll { requests: requests(&[1, 3], 0) });
    let step = run.step(&[NotFound, NotFound], 2 * SECOND).unwrap();
    assert_eq!(
        step.notices,
        vec![Notice::Exited { pid: 1 }, Notice::Exited { pid: 3 }, Notice::AllExited]
    );
    assert_eq!(step.action, Action::Finish { result: summary(3, 0, 0, 0) });
    assert_eq!(exit_status(&run.result(), true), 0);
}

#[test]
fn the_last_poll_may_end_the_run_at_the_deadline() {
    let (mut run, _) = begin(&[1], 1);
    run.step(&[Delivered], 0).unwrap();
    let step = run.step(&[NotFound], 5 * SECOND).unwrap();
    assert_eq!(step.action, Action::Finish { result: summary(1, 0, 0, 0) });
}

#[test]
fn the_final_probe_spares_who_has_exited_meanwhile() {
    let (mut run, _) = begin(&[10, 20, 30], 2);
    run.step(&[Delivered, Delivered, Delivered], 0).unwrap();
    let step = run.step(&[Delivered, Delivered, Delivered], 2 * SECOND).unwrap();
    assert_eq!(step.action, Action::Dispatch { requests: requests(&[10, 20, 30], 0) });
    let step = run.step(&[NotFound, Delivered, NotFound], 2 * SECOND).unwrap();
    assert_eq!(
        step.notices,
        vec![
            Notice::Exited { pid: 10 },
            Notice::Exited { pid: 30 },
            Notice::Escalating { stragglers: 1 },
        ]
    );
    assert_eq!(step.action, Action::Dispatch { requests: requests(&[20], 9) });
    let step = run.step(&[Delivered], 2 * SECOND).unwrap();
    assert_eq!(step.action, Action::Finish { result: summary(2, 1, 0, 0) });
}

#[test]
fn the_final_probe_may_find_everybody_gone() {
    let (mut run, _) = begin(&[10, 20], 2);
    run.step(&[Delivered, Delivered], 0).unwrap();
    run.step(&[Delivered, Delivered], 3 * SECOND).unwrap();
    assert_eq!(run.phase(), Phase::Escalation);
    let step = run.step(&[NotFound, NotFound], 3 * SECOND).unwrap();
    assert_eq!(
        step.notices,
        vec![Notice::Exited { pid: 10 }, Notice::Exited { pid: 20 }, Notice::AllExited]
    );
    assert_eq!(step.action, Action::Finish { result: summary(2, 0, 0, 0) });
    assert_eq!(exit_status(&run.result(), true), 0);
}

#[test]
fn a_forceful_signal_that_fails_is_reported_and_not_retried() {
    let (mut run, _) = begin(&[10, 20], 1);
    run.step(&[Delivered, Delivered], 0).unwrap();
    run.step(&[Delivered, Delivered], SECOND).unwrap();
    run.step(&[Delivered, Delivered], SECOND).unwrap();
    let failure = DispatchOutcome::OtherFailure("Invalid argument".to_string());
    let step = run.step(&[failure.clone(), NotFound], SECOND).unwrap();
    assert_eq!(
        step.notices,
        vec![
            Notice::Dispatched { kind: SignalKind::Forceful, pid: 10, outcome: failure },
            Notice::Dispatched { kind: SignalKind::Forceful, pid: 20, outcome: NotFound },
        ]
    );
    assert_eq!(step.action, Action::Finish { result: summary(0, 0, 0, 2) });
    assert_eq!(exit_status(&run.result(), true), 0);
}

#[test]
fn invalid_targets_never_reach_a_request() {
    let (mut run, step) = begin(&[0, 77, 4294967295, 2147483648, 2147483647], 5);
    assert_eq!(
        step.notices,
        vec![
            Notice::Started { targets: 5, grace_seconds: 5 },
            Notice::Rejected { target: 0 },
            Notice::Rejected { target: 4294967295 },
            Notice::Rejected { target: 2147483648 },
        ]
    );
    assert_eq!(step.action, Action::Dispatch { requests: requests(&[77, 2147483647], 15) });
    assert_eq!(run.result(), summary(0, 0, 3, 0));
    let step = run.step(&[Delivered, NotFound], 0).unwrap();
    assert_eq!(step.action, Action::Poll { requests: requests(&[77], 0) });
    assert_eq!(run.result(), summary(0, 0, 4, 0));
}

#[test]
fn only_invalid_targets() {
    let (mut run, step) = begin(&[0], 5);
    assert_eq!(
        step.notices,
        vec![
            Notice::Started { targets: 1, grace_seconds: 5 },
            Notice::Rejected { target: 0 },
            Notice::NothingToWaitFor,
        ]
    );
    assert_eq!(step.action, Action::Finish { result: summary(0, 0, 1, 0) });
    assert_eq!(run.phase(), Phase::Finished);
    assert_eq!(exit_status(&run.result(), true), 2);
    let again = run.step(&[], 0).unwrap();
    assert_eq!(again, Step { notices: vec![], action: Action::Finish { result: summary(0, 0, 1, 0) } });
}

#[test]
fn without_a_grace_period_nobody_is_polled() {
    let (mut run, _) = begin(&[5, 6], 0);
    let step = run.step(&[Delivered, NotFound], 123).unwrap();
    assert_eq!(step.action, Action::Dispatch { requests: requests(&[5], 0) });
    assert_eq!(run.phase(), Phase::Escalation);
    let step = run.step(&[Delivered], 124).unwrap();
    assert_eq!(step.notices, vec![Notice::Escalating { stragglers: 1 }]);
    assert_eq!(step.action, Action::Dispatch { requests: requests(&[5], 9) });
}

#[test]
fn a_probe_without_permission_does_not_count_as_an_exit() {
    let (mut run, _) = begin(&[5, 6], 1);
    run.step(&[Delivered, Delivered], 0).unwrap();
    let step = run.step(&[PermissionDenied, NotFound], SECOND / 2).unwrap();
    assert_eq!(step.notices, vec![Notice::Exited { pid: 6 }]);
    assert_eq!(step.action, Action::Poll { requests: requests(&[5], 0) });
    let other = DispatchOutcome::OtherFailure("Input/output error".to_string());
    let step = run.step(&[other], SECOND).unwrap();
    assert_eq!(step.action, Action::Dispatch { requests: requests(&[5], 0) });
    let step = run.step(&[PermissionDenied], SECOND).unwrap();
    assert_eq!(step.action, Action::Dispatch { requests: requests(&[5], 9) });
    let step = run.step(&[PermissionDenied], SECOND).unwrap();
    assert_eq!(step.action, Action::Finish { result: summary(1, 0, 0, 1) });
}

#[test]
fn a_clock_that_runs_backwards_does_not_hasten_escalation() {
    let (mut run, _) = begin(&[5], 1);
    run.step(&[Delivered], 10 * SECOND).unwrap();
    let step = run.step(&[Delivered], 0).unwrap();
    assert_eq!(step.action, Action::Poll { requests: requests(&[5], 0) });
    let step = run.step(&[Delivered], 11 * SECOND - 1).unwrap();
    assert_eq!(step.action, Action::Poll { requests: requests(&[5], 0) });
    let step = run.step(&[Delivered], 11 * SECOND).unwrap();
    assert_eq!(step.action, Action::Dispatch { requests: requests(&[5], 0) });
}

#[test]
fn the_longest_grace_period_never_overflows() {
    let (mut run, _) = begin(&[5], u64::MAX);
    run.step(&[Delivered], u128::MAX - 1).unwrap();
    let step = run.step(&[Delivered], u128::MAX).unwrap();
    assert_eq!(step.action, Action::Poll { requests: requests(&[5], 0) });
    let (mut run, _) = begin(&[5], u64::MAX);
    run.step(&[Delivered], 0).unwrap();
    let deadline = (u64::MAX as u128) * SECOND;
    let step = run.step(&[Delivered], deadline - 1).unwrap();
    assert_eq!(step.action, Action::Poll { requests: requests(&[5], 0) });
    let step = run.step(&[Delivered], deadline).unwrap();
    assert_eq!(step.action, Action::Dispatch { requests: requests(&[5], 0) });
}

#[test]
fn a_report_of_the_wrong_length_changes_nothing() {
    let (mut run, first) = begin(&[5, 6], 1);
    assert_eq!(run.step(&[Delivered], 0), Err(ReportMismatch { expected: 2, received: 1 }));
    assert_eq!(run.step(&[], 0), Err(ReportMismatch { expected: 2, received: 0 }));
    assert_eq!(
        run.step(&[Delivered, Delivered, Delivered], 0),
        Err(ReportMismatch { expected: 2, received: 3 })
    );
    assert_eq!(run.phase(), Phase::CooperativeDispatch);
    assert_eq!(run.action(), first.action);
    assert_eq!(run.result(), summary(0, 0, 0, 0));
    let step = run.step(&[Delivered, Delivered], 0).unwrap();
    assert_eq!(step.action, Action::Poll { requests: requests(&[5, 6], 0) });
}

#[test]
fn a_finished_run_stays_finished() {
    let (mut run, _) = begin(&[5], 1);
    run.step(&[NotFound], 0).unwrap();
    for outcomes in [vec![], vec![Delivered], vec![NotFound, Delivered]] {
        let step = run.step(&outcomes, 99 * SECOND).unwrap();
        assert_eq!(step.notices, vec![]);
        assert_eq!(step.action, Action::Finish { result: summary(0, 0, 1, 0) });
    }
}

#[test]
fn every_target_is_counted_once() {
    let (mut run, _) = begin(&[0, 1, 2, 3, 4, 5], 1);
    run.step(&[Delivered, Delivered, NotFound, Delivered, Delivered], 0).unwrap();
    run.step(&[NotFound, Delivered, Delivered, Delivered], SECOND / 2).unwrap();
    run.step(&[Delivered, Delivered, Delivered], SECOND).unwrap();
    run.step(&[Delivered, NotFound, Delivered], SECOND).unwrap();
    let step = run.step(&[Delivered, PermissionDenied], SECOND).unwrap();
    let result = summary(2, 1, 2, 1);
    assert_eq!(step.action, Action::Finish { result });
    assert_eq!(
        result.cooperative + result.forced + result.unsignalable + result.unsignalable_at_escalation,
        6
    );
}
