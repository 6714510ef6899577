//! How the operating system's reply to one signal call is classified.

use vstd::prelude::*;

verus! {

/// The result of one attempt to signal one target.
#[derive(Debug, PartialEq, Eq)]
pub enum DispatchOutcome {
    /// The operating system accepted the signal. For a probe: the process
    /// exists. This says nothing about whether the process has reacted.
    Delivered,
    /// No process has this identifier: it is gone, or it never existed.
    NotFound,
    /// The caller has no right to signal this process.
    PermissionDenied,
    /// Any other failure, with the operating system's own words.
    OtherFailure(String),
}

impl DispatchOutcome {
    /// Whether the signal was delivered. For a probe this is the answer to
    /// "is the process still running?".
    pub fn is_delivered(&self) -> (r: bool)
        ensures
            r == (*self is Delivered),
    {
        match self {
            DispatchOutcome::Delivered => true,
            _ => false,
        }
    }

    /// A copy of this outcome.
    pub fn duplicate(&self) -> (r: DispatchOutcome)
        ensures
            r == *self,
    {
        match self {
            DispatchOutcome::Delivered => DispatchOutcome::Delivered,
            DispatchOutcome::NotFound => DispatchOutcome::NotFound,
            DispatchOutcome::PermissionDenied => DispatchOutcome::PermissionDenied,
            DispatchOutcome::OtherFailure(detail) => DispatchOutcome::OtherFailure(detail.clone()),
        }
    }
}

impl Clone for DispatchOutcome {
    fn clone(&self) -> (r: DispatchOutcome)
        ensures
            r == *self,
    {
        self.duplicate()
    }
}

/// The error numbers by which the platform reports the two failures that
/// have a class of their own.
#[derive(Clone, Copy, Debug, PartialEq, Eq, Structural)]
pub struct ErrorCodes {
    /// "No such process".
    pub no_such_process: i32,
    /// "Operation not permitted".
    pub not_permitted: i32,
}

/// `libc::ESRCH`, the platform's error number for "no such process". The
/// number differs between platforms; on none of those that libc defines it
/// for is it zero, and that is all that is claimed of it.
#[verifier::external_body]
fn esrch() -> (code: i32)
    ensures
        code != 0,
{
    libc::ESRCH
}

/// `libc::EPERM`, the platform's error number for "operation not permitted".
/// The number differs between platforms; on none of those that libc defines
/// it for is it zero, and that is all that is claimed of it.
#[verifier::external_body]
fn eperm() -> (code: i32)
    ensures
        code != 0,
{
    libc::EPERM
}

/// The error numbers of the platform this library was built for. Which
/// numbers they are is the platform's choice; neither is zero, the number
/// that stands for "no error".
pub fn platform_error_codes() -> (codes: ErrorCodes)
    ensures
        codes.no_such_process != 0,
        codes.not_permitted != 0,
{
    ErrorCodes { no_such_process: esrch(), not_permitted: eperm() }
}

/// The class of a reply, given the platform's error numbers. A zero status
/// is a delivery whatever the error number says; otherwise the error number
/// decides, "no such process" first; a reply without an error number, or
/// with any other, is kept with its detail.
pub open spec fn classify_spec(
    status: i32,
    errno: Option<i32>,
    detail: String,
    codes: ErrorCodes,
) -> DispatchOutcome {
    if status == 0 {
        DispatchOutcome::Delivered
    } else if errno == Some(codes.no_such_process) {
        DispatchOutcome::NotFound
    } else if errno == Some(codes.not_permitted) {
        DispatchOutcome::PermissionDenied
    } else {
        DispatchOutcome::OtherFailure(detail)
    }
}

/// Classifies the reply to one signal call: `status` is what the call
/// returned, `errno` the error number that the operating system left, if
/// any, and `detail` its text for that error.
pub fn classify_with(status: i32, errno: Option<i32>, detail: String, codes: ErrorCodes) -> (outcome:
    DispatchOutcome)
    ensures
        outcome == classify_spec(status, errno, detail, codes),
{
    if status == 0 {
        return DispatchOutcome::Delivered;
    }
    match errno {
        Some(code) => {
            if code == codes.no_such_process {
                DispatchOutcome::NotFound
            } else if code == codes.not_permitted {
                DispatchOutcome::PermissionDenied
            } else {
                DispatchOutcome::OtherFailure(detail)
            }
        },
        None => DispatchOutcome::OtherFailure(detail),
    }
}

/// Classifies the reply to one signal call by the error numbers of the
/// platform this library was built for. Those numbers are the platform's
/// choice: the outcome is what `classify_spec` gives for them, whichever
/// they are. Neither is zero, so a failure that comes without an error
/// number, or with the number zero, is kept with its detail.
pub fn classify(status: i32, errno: Option<i32>, detail: String) -> (outcome: DispatchOutcome)
    ensures
        exists|codes: ErrorCodes|
            codes.no_such_process != 0 && codes.not_permitted != 0 && outcome == classify_spec(
                status,
                errno,
                detail,
                codes,
            ),
        status == 0 <==> outcome is Delivered,
        status != 0 && (errno is None || errno == Some(0i32)) ==> outcome
            == DispatchOutcome::OtherFailure(detail),
        outcome matches DispatchOutcome::OtherFailure(kept) ==> kept == detail,
{
    classify_with(status, errno, detail, platform_error_codes())
}

} // verus!
