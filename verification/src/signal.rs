//! Signal kinds, target validation, and what is handed to the operating
//! system for one signal call.

use vstd::prelude::*;

verus! {

/// The kinds of signal the orchestrator sends.
#[derive(Clone, Copy, Debug, PartialEq, Eq, Structural)]
pub enum SignalKind {
    /// Asks the target to shut down. The target may trap, delay or ignore it.
    Cooperative,
    /// Terminates the target unconditionally.
    Forceful,
    /// The null signal: nothing is delivered, the reply only tells whether
    /// the target exists.
    Probe,
}

/// The platform's number for each kind of signal.
pub open spec fn signal_number(kind: SignalKind) -> int {
    match kind {
        SignalKind::Cooperative => 15,
        SignalKind::Forceful => 9,
        SignalKind::Probe => 0,
    }
}

/// `libc::SIGTERM`, the termination request, which is 15 on every platform
/// that libc defines it for.
#[verifier::external_body]
fn sigterm() -> (n: i32)
    ensures
        n == 15,
{
    libc::SIGTERM
}

/// `libc::SIGKILL`, the signal that cannot be caught, which is 9 on every
/// platform that libc defines it for.
#[verifier::external_body]
fn sigkill() -> (n: i32)
    ensures
        n == 9,
{
    libc::SIGKILL
}

impl SignalKind {
    /// The number to hand to the operating system for this kind of signal.
    pub fn number(self) -> (n: i32)
        ensures
            n == signal_number(self),
    {
        match self {
            SignalKind::Cooperative => sigterm(),
            SignalKind::Forceful => sigkill(),
            SignalKind::Probe => 0,
        }
    }
}

/// Whether an identifier can name a single process: it is not zero, which
/// would address the caller's whole process group, and it fits the
/// platform's process-identifier type.
pub open spec fn is_valid_target(target: u32) -> bool {
    0 < target <= i32::MAX
}

/// An identifier that was refused before any signal call.
#[derive(Clone, Copy, Debug, PartialEq, Eq, Structural)]
pub struct InvalidTarget {
    /// The identifier as it was given.
    pub target: u32,
}

/// The arguments of one signal call.
#[derive(Clone, Copy, Debug, PartialEq, Eq, Structural)]
pub struct SignalRequest {
    /// The process to signal; always positive.
    pub pid: i32,
    /// The signal's number; 0 for a probe.
    pub signal: i32,
}

/// The request that sends a signal of `kind` to the process `pid`.
pub open spec fn request(pid: i32, kind: SignalKind) -> SignalRequest {
    SignalRequest { pid, signal: signal_number(kind) as i32 }
}

/// `libc::pid_t::try_from` on a `u32`: the same number as a `pid_t`, which
/// is an `i32`, where it is at most `i32::MAX`, and nothing where it is
/// larger.
#[verifier::external_body]
fn to_pid(target: u32) -> (pid: Option<i32>)
    ensures
        pid == (if target <= i32::MAX {
            Some(target as i32)
        } else {
            None::<i32>
        }),
{
    libc::pid_t::try_from(target).ok()
}

/// The process identifier that `target` stands for, or the refusal of an
/// identifier that is zero or out of the platform's range.
pub fn validate(target: u32) -> (r: Result<i32, InvalidTarget>)
    ensures
        is_valid_target(target) ==> r == Ok::<i32, InvalidTarget>(target as i32),
        !is_valid_target(target) ==> r == Err::<i32, InvalidTarget>(InvalidTarget { target }),
{
    if target == 0 {
        return Err(InvalidTarget { target });
    }
    match to_pid(target) {
        Some(pid) => Ok(pid),
        None => Err(InvalidTarget { target }),
    }
}

/// What to hand to the operating system to send a signal of `kind` to
/// `target`. No request exists for an invalid target, whatever the kind, so
/// identifier zero never reaches a signal call.
pub fn signal_request(target: u32, kind: SignalKind) -> (r: Result<SignalRequest, InvalidTarget>)
    ensures
        is_valid_target(target) ==> r == Ok::<SignalRequest, InvalidTarget>(
            request(target as i32, kind),
        ),
        !is_valid_target(target) ==> r == Err::<SignalRequest, InvalidTarget>(
            InvalidTarget { target },
        ),
{
    match validate(target) {
        Ok(pid) => Ok(SignalRequest { pid, signal: kind.number() }),
        Err(refusal) => Err(refusal),
    }
}

} // verus!
