//! The error numbers and signal numbers of Linux that the library tells apart.

use vstd::prelude::*;

verus! {

/// `libc::EPERM`, the error number of an operation that is not permitted.
/// The contract gives its value on Linux.
#[verifier::external_body]
pub(crate) fn eperm() -> (r: i32)
    ensures
        r == 1,
{
    libc::EPERM
}

/// `libc::ESRCH`, the error number for a process that does not exist. The
/// contract gives its value on Linux.
#[verifier::external_body]
pub(crate) fn esrch() -> (r: i32)
    ensures
        r == 3,
{
    libc::ESRCH
}

/// `libc::EAGAIN`, the error number of a resource that is not available for
/// now. The contract gives its value on Linux.
#[verifier::external_body]
pub(crate) fn eagain() -> (r: i32)
    ensures
        r == 11,
{
    libc::EAGAIN
}

/// `libc::ENOMEM`, the error number for a lack of memory. The contract gives
/// its value on Linux.
#[verifier::external_body]
pub(crate) fn enomem() -> (r: i32)
    ensures
        r == 12,
{
    libc::ENOMEM
}

/// `libc::EINVAL`, the error number of an invalid argument. The contract
/// gives its value on Linux.
#[verifier::external_body]
pub(crate) fn einval() -> (r: i32)
    ensures
        r == 22,
{
    libc::EINVAL
}

/// `libc::SIGKILL`, the signal that a process cannot catch. The contract
/// gives its value on Linux.
#[verifier::external_body]
pub(crate) fn sigkill() -> (r: i32)
    ensures
        r == 9,
{
    libc::SIGKILL
}

/// `libc::SIGTERM`, the signal that asks a process to end. The contract gives
/// its value on Linux.
#[verifier::external_body]
pub(crate) fn sigterm() -> (r: i32)
    ensures
        r == 15,
{
    libc::SIGTERM
}

} // verus!
