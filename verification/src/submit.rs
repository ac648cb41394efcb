//! What a worker does after an attempt to submit its queued operations and
//! wait for a completion. These are errors of the ring itself, not of the
//! operations that travel through it.

use vstd::prelude::*;

verus! {

/// How long a worker sleeps before it submits again after the kernel was
/// temporarily out of resources, in milliseconds.
pub const BACKOFF_MILLIS: u64 = 100;

/// The four ways to treat an error number of the submit call.
#[derive(Clone, Copy, Debug, PartialEq, Eq, Structural)]
pub enum ErrorClass {
    /// Resource temporarily unavailable: sleep a little, then submit again.
    Backoff,
    /// The completion queue is full: drain it, submit again on the next tick.
    Busy,
    /// The call was interrupted: submit again at once.
    Interrupted,
    /// Anything else: the worker cannot go on.
    Fatal,
}

/// Why a worker stops.
#[derive(Clone, Copy, Debug, PartialEq, Eq, Structural)]
pub enum RingFault {
    /// The error carried no error number.
    Unknown,
    /// The error number is none that a worker recovers from.
    Os(i32),
}

/// The next move of a worker's loop.
#[derive(Clone, Copy, Debug, PartialEq, Eq, Structural)]
pub enum Next {
    /// Go on to drain the completion queue.
    Drain,
    /// Sleep this long, then submit again.
    Sleep { millis: u64 },
    /// Submit again at once.
    Retry,
    /// Give up.
    Stop(RingFault),
}

/// The class of an error number: 11 asks for a backoff, 16 says the queue is
/// busy, 4 that the call was interrupted.
pub open spec fn class_of(code: int) -> ErrorClass {
    if code == 11 {
        ErrorClass::Backoff
    } else if code == 16 {
        ErrorClass::Busy
    } else if code == 4 {
        ErrorClass::Interrupted
    } else {
        ErrorClass::Fatal
    }
}

/// The next move after a submit call that returned `outcome`: the number of
/// operations submitted, or the error number of the failure where it has one.
pub open spec fn next_of(outcome: Result<usize, Option<i32>>) -> Next {
    match outcome {
        Ok(_) => Next::Drain,
        Err(None) => Next::Stop(RingFault::Unknown),
        Err(Some(code)) => if code == 0 {
            Next::Stop(RingFault::Unknown)
        } else {
            match class_of(code as int) {
                ErrorClass::Backoff => Next::Sleep { millis: BACKOFF_MILLIS },
                ErrorClass::Busy => Next::Drain,
                ErrorClass::Interrupted => Next::Retry,
                ErrorClass::Fatal => Next::Stop(RingFault::Os(code)),
            }
        },
    }
}

/// `libc::EAGAIN`, the error number for "resource temporarily unavailable".
/// The constant is 11 on every Linux and Android target of `libc`, and the
/// ring exists on no other; not proved.
#[verifier::external_body]
fn errno_again() -> (code: i32)
    ensures
        code == 11,
{
    libc::EAGAIN
}

/// `libc::EBUSY`, the error number for "device or resource busy". The
/// constant is 16 on every Linux and Android target of `libc`; not proved.
#[verifier::external_body]
fn errno_busy() -> (code: i32)
    ensures
        code == 16,
{
    libc::EBUSY
}

/// `libc::EINTR`, the error number for "interrupted system call". The
/// constant is 4 on every Linux and Android target of `libc`; not proved.
#[verifier::external_body]
fn errno_interrupted() -> (code: i32)
    ensures
        code == 4,
{
    libc::EINTR
}

/// Sorts an error number of the submit call into its class.
pub fn classify(code: i32) -> (class: ErrorClass)
    ensures
        class == class_of(code as int),
{
    if code == errno_again() {
        ErrorClass::Backoff
    } else if code == errno_busy() {
        ErrorClass::Busy
    } else if code == errno_interrupted() {
        ErrorClass::Interrupted
    } else {
        ErrorClass::Fatal
    }
}

/// Decides the next move after a submit call. `outcome` is what the call
/// returned: the number of operations submitted, or the error number of the
/// failure where the error carries one.
pub fn next_move(outcome: Result<usize, Option<i32>>) -> (next: Next)
    ensures
        next == next_of(outcome),
{
    match outcome {
        Ok(_) => Next::Drain,
        Err(None) => Next::Stop(RingFault::Unknown),
        Err(Some(code)) => {
            if code == 0 {
                Next::Stop(RingFault::Unknown)
            } else {
                match classify(code) {
                    ErrorClass::Backoff => Next::Sleep { millis: BACKOFF_MILLIS },
                    ErrorClass::Busy => Next::Drain,
                    ErrorClass::Interrupted => Next::Retry,
                    ErrorClass::Fatal => Next::Stop(RingFault::Os(code)),
                }
            }
        },
    }
}

/// Only an error number that is neither of the three recoverable ones stops
/// a worker, and a successful call never does.
pub proof fn stops_only_on_fatal(outcome: Result<usize, Option<i32>>)
    ensures
        next_of(outcome) is Stop <==> match outcome {
            Ok(_) => false,
            Err(None) => true,
            Err(Some(code)) => code != 11 && code != 16 && code != 4,
        },
{
}

} // verus!
