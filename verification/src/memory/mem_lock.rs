use crate::errno::{eagain, einval, enomem, eperm};
use crate::error::Error;
use vstd::prelude::*;

verus! {

/// What is asked of the system when the daemon locks its pages.
#[derive(Clone, Copy, Debug, PartialEq, Eq, Structural)]
pub enum LockRequest {
    /// The pages mapped now and later, each locked when it is first touched.
    CurrentFutureOnFault,
    /// The pages mapped now and later, locked at once.
    CurrentFuture,
}

/// What to do next while locking the daemon's pages.
#[derive(Clone, Copy, Debug, PartialEq, Eq, Structural)]
pub enum LockStep {
    /// Make this request and come back with its outcome.
    Try(LockRequest),
    /// The pages are locked.
    Locked,
    /// Both requests were refused, the second for this reason.
    Failed(Error),
}

/// The error that stands for `errno` after a refused request to lock memory:
/// `EAGAIN`, `EINVAL`, `ENOMEM`, `EPERM`, or anything else.
pub open spec fn lock_error(errno: i32) -> Error {
    if errno == 11 {
        Error::CouldNotLockMemory
    } else if errno == 22 {
        Error::InvalidFlags
    } else if errno == 12 {
        Error::TooMuchMemoryToLock
    } else if errno == 1 {
        Error::NoPermission
    } else {
        Error::UnknownMlockall
    }
}

/// Reads the answer to a request to lock memory: `answer` is what the system
/// returned, `errno` the error number it left. An answer of 0 is success.
pub fn _mlockall_wrapper(answer: i32, errno: i32) -> (r: Result<(), Error>)
    ensures
        r == if answer == 0 {
            Ok::<(), Error>(())
        } else {
            Err(lock_error(errno))
        },
{
    if answer == 0 {
        return Ok(());
    }
    Err(
        if errno == eagain() {
            Error::CouldNotLockMemory
        } else if errno == einval() {
            Error::InvalidFlags
        } else if errno == enomem() {
            Error::TooMuchMemoryToLock
        } else if errno == eperm() {
            Error::NoPermission
        } else {
            Error::UnknownMlockall
        },
    )
}

/// The next step in locking the daemon's pages, given the outcomes of the
/// requests made so far, first and second.
///
/// The first request locks pages as they are touched. Where the system
/// refuses it, a second one locks them at once, and its outcome is final.
pub fn lock_memory_pages(first: Option<Result<(), Error>>, second: Option<Result<(), Error>>) -> (r:
    LockStep)
    ensures
        r == match (first, second) {
            (None, _) => LockStep::Try(LockRequest::CurrentFutureOnFault),
            (Some(Ok(_)), _) => LockStep::Locked,
            (Some(Err(_)), None) => LockStep::Try(LockRequest::CurrentFuture),
            (Some(Err(_)), Some(Ok(_))) => LockStep::Locked,
            (Some(Err(_)), Some(Err(e))) => LockStep::Failed(e),
        },
{
    match first {
        None => LockStep::Try(LockRequest::CurrentFutureOnFault),
        Some(Ok(_)) => LockStep::Locked,
        Some(Err(_)) => match second {
            None => LockStep::Try(LockRequest::CurrentFuture),
            Some(Ok(_)) => LockStep::Locked,
            Some(Err(e)) => LockStep::Failed(e),
        },
    }
}

} // verus!
