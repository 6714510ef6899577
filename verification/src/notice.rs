//! The events of a run that the host is to log.

use crate::outcome::DispatchOutcome;
use crate::signal::SignalKind;
use crate::text::{decimal_digits, push_decimal, push_signed, signed_digits};
use vstd::prelude::*;
use vstd::string::*;

verus! {

/// One event in the life of a run. What an event says is fixed here; how it
/// is worded is the host's choice.
#[derive(Debug, PartialEq, Eq)]
pub enum Notice {
    /// The run begins, with this many targets and this grace period.
    Started { targets: usize, grace_seconds: u64 },
    /// An identifier was refused before any signal call.
    Rejected { target: u32 },
    /// A cooperative or forceful signal was sent to `pid`, with this outcome.
    Dispatched { kind: SignalKind, pid: i32, outcome: DispatchOutcome },
    /// No target took the cooperative signal: there is nobody to wait for.
    NothingToWaitFor,
    /// The process `pid` was found gone at a liveness check.
    Exited { pid: i32 },
    /// Every target that took the cooperative signal has exited.
    AllExited,
    /// The grace period is over and this many targets are still running:
    /// they are sent the forceful signal next.
    Escalating { stragglers: usize },
}

/// The name by which a kind of signal is logged.
pub open spec fn signal_name(kind: SignalKind) -> Seq<char> {
    match kind {
        SignalKind::Cooperative => "SIGTERM"@,
        SignalKind::Forceful => "SIGKILL"@,
        SignalKind::Probe => "signal 0"@,
    }
}

/// Why a signal was not delivered, in words. Another failure keeps the
/// operating system's own text.
pub open spec fn failure_reason(outcome: DispatchOutcome) -> Seq<char> {
    match outcome {
        DispatchOutcome::Delivered => Seq::empty(),
        DispatchOutcome::NotFound => "Process not found"@,
        DispatchOutcome::PermissionDenied => "Permission denied"@,
        DispatchOutcome::OtherFailure(detail) => "Failed to send signal: "@ + detail@,
    }
}

/// The line that reports a notice.
pub open spec fn message_spec(notice: Notice) -> Seq<char> {
    match notice {
        Notice::Started { targets, grace_seconds } => "Starting graceful kill for "@
            + decimal_digits(targets as nat) + " process(es) with "@ + decimal_digits(
            grace_seconds as nat,
        ) + "s grace period"@,
        Notice::Rejected { target } => "Failed to send SIGTERM to PID "@ + decimal_digits(
            target as nat,
        ) + ": "@ + if target == 0 {
            "PID must not be zero"@
        } else {
            "PID too large"@
        },
        Notice::Dispatched { kind, pid, outcome } => if outcome is Delivered {
            "Sent "@ + signal_name(kind) + " to PID "@ + signed_digits(pid as int)
        } else {
            "Failed to send "@ + signal_name(kind) + " to PID "@ + signed_digits(pid as int) + ": "@
                + failure_reason(outcome)
        },
        Notice::NothingToWaitFor => "No processes to wait for"@,
        Notice::Exited { pid } => "Process "@ + signed_digits(pid as int) + " exited gracefully"@,
        Notice::AllExited => "All processes exited gracefully"@,
        Notice::Escalating { stragglers } => decimal_digits(stragglers as nat)
            + " process(es) still running after grace period, sending SIGKILL"@,
    }
}

/// The name of a kind of signal.
fn name_of(kind: SignalKind) -> (name: &'static str)
    ensures
        name@ == signal_name(kind),
{
    match kind {
        SignalKind::Cooperative => "SIGTERM",
        SignalKind::Forceful => "SIGKILL",
        SignalKind::Probe => "signal 0",
    }
}

impl Notice {
    /// The line that reports this notice.
    pub fn message(&self) -> (text: String)
        ensures
            text@ == message_spec(*self),
    {
        match self {
            Notice::Started { targets, grace_seconds } => {
                let mut text: String = "Starting graceful kill for ".to_owned();
                push_decimal(&mut text, *targets as u64);
                text.append(" process(es) with ");
                push_decimal(&mut text, *grace_seconds);
                text.append("s grace period");
                text
            },
            Notice::Rejected { target } => {
                let mut text: String = "Failed to send SIGTERM to PID ".to_owned();
                push_decimal(&mut text, *target as u64);
                text.append(": ");
                if *target == 0 {
                    text.append("PID must not be zero");
                } else {
                    text.append("PID too large");
                }
                text
            },
            Notice::Dispatched { kind, pid, outcome } => {
                if outcome.is_delivered() {
                    let mut text: String = "Sent ".to_owned();
                    text.append(name_of(*kind));
                    text.append(" to PID ");
                    push_signed(&mut text, *pid);
                    text
                } else {
                    let mut text: String = "Failed to send ".to_owned();
                    text.append(name_of(*kind));
                    text.append(" to PID ");
                    push_signed(&mut text, *pid);
                    text.append(": ");
                    match outcome {
                        DispatchOutcome::NotFound => {
                            text.append("Process not found");
                        },
                        DispatchOutcome::PermissionDenied => {
                            text.append("Permission denied");
                        },
                        DispatchOutcome::OtherFailure(detail) => {
                            let ghost before = text@;
                            text.append("Failed to send signal: ");
                            text.append(detail.as_str());
                            assert(text@ =~= before + ("Failed to send signal: "@ + detail@));
                        },
                        DispatchOutcome::Delivered => {},
                    }
                    text
                }
            },
            Notice::NothingToWaitFor => "No processes to wait for".to_owned(),
            Notice::Exited { pid } => {
                let mut text: String = "Process ".to_owned();
                push_signed(&mut text, *pid);
                text.append(" exited gracefully");
                text
            },
            Notice::AllExited => "All processes exited gracefully".to_owned(),
            Notice::Escalating { stragglers } => {
                let mut text: String = String::new();
                push_decimal(&mut text, *stragglers as u64);
                text.append(" process(es) still running after grace period, sending SIGKILL");
                assert(text@ =~= message_spec(*self));
                text
            },
        }
    }
}

/// A line of the log: the program's tag, then the message.
pub fn log_line(message: &str) -> (line: String)
    ensures
        line@ == "[gracekill] "@ + message@,
{
    let mut line: String = "[gracekill] ".to_owned();
    line.append(message);
    line
}

} // verus!
