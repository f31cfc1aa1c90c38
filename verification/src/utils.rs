use crate::errno::{einval, eperm, esrch};
use crate::error::Error;
use crate::text::{is_span_end, lemma_span_end_unique, span_end, ByteSet};
use vstd::prelude::*;
use vstd::string::StringSliceAdditionalSpecFns;
use vstd::utf8::valid_utf8;

verus! {

/// `memchr::memchr` returns the index of the first byte of `haystack` that
/// equals `needle`, and `None` where no byte does.
pub assume_specification[ memchr::memchr ](needle: u8, haystack: &[u8]) -> (r: Option<usize>)
    ensures
        match r {
            Some(i) => {
                &&& i < haystack@.len()
                &&& haystack@[i as int] == needle
                &&& forall|j: int| 0 <= j < i ==> haystack@[j] != needle
            },
            None => forall|j: int| 0 <= j < haystack@.len() ==> haystack@[j] != needle,
        },
;

/// `core::str::from_utf8` gives the text that `bytes` encode, where they are
/// well-formed UTF-8, and fails where they are not.
#[verifier::external_body]
pub(crate) fn utf8_text(bytes: &[u8]) -> (r: Option<&str>)
    ensures
        r is Some <==> valid_utf8(bytes@),
        r matches Some(s) ==> s.spec_bytes() == bytes@,
{
    match core::str::from_utf8(bytes) {
        Ok(s) => Some(s),
        Err(_) => None,
    }
}

/// The bytes before the first NUL byte; all of them where there is none.
pub open spec fn until_nul(s: Seq<u8>) -> Seq<u8> {
    s.subrange(0, span_end(s, 0, ByteSet::Only(0), false))
}

/// The part of `buf` before its first NUL byte.
pub fn bytes_until_first_nil(buf: &[u8]) -> (r: &[u8])
    ensures
        r@ == until_nul(buf@),
{
    let first_nul_idx = match memchr::memchr(0, buf) {
        Some(i) => i,
        None => buf.len(),
    };
    proof {
        assert(is_span_end(buf@, 0, first_nul_idx as int, ByteSet::Only(0), false));
        lemma_span_end_unique(buf@, 0, first_nul_idx as int, ByteSet::Only(0), false);
    }
    vstd::slice::slice_subrange(buf, 0, first_nul_idx)
}

/// The text that `buf` holds before its first NUL byte.
///
/// Fails with `Error::Unicode` exactly when those bytes are not UTF-8.
pub fn str_from_bytes(buf: &[u8]) -> (r: Result<&str, Error>)
    ensures
        match r {
            Ok(s) => valid_utf8(until_nul(buf@)) && s.spec_bytes() == until_nul(buf@),
            Err(e) => e == Error::Unicode && !valid_utf8(until_nul(buf@)),
        },
{
    let bytes = bytes_until_first_nil(buf);
    match utf8_text(bytes) {
        Some(s) => Ok(s),
        None => Err(Error::Unicode),
    }
}

/// What an amount of `bytes`, counted in units of `mem_unit` bytes, comes to
/// in megabytes.
pub open spec fn megabytes(bytes: u64, mem_unit: u64) -> int {
    (bytes / 1_000_000) * mem_unit
}

/// Converts an amount counted in units of `mem_unit` bytes into megabytes.
pub fn bytes_to_megabytes(bytes: u64, mem_unit: u64) -> (r: u64)
    requires
        megabytes(bytes, mem_unit) <= u64::MAX,
    ensures
        r == megabytes(bytes, mem_unit),
{
    bytes / 1_000_000 * mem_unit
}

/// Whether the effective user id `euid` is that of the superuser.
pub fn running_as_sudo(euid: u32) -> (r: bool)
    ensures
        r == (euid == 0),
{
    euid == 0
}

/// The error that stands for `errno` after a failed request for a process
/// group: `EPERM`, `ESRCH`, `EINVAL`, or anything else.
pub open spec fn process_group_error(errno: i32) -> Error {
    if errno == 1 {
        Error::NoPermission
    } else if errno == 3 {
        Error::ProcessGroupNotFound
    } else if errno == 22 {
        Error::InvalidPidSupplied
    } else {
        Error::UnknownGetpguid
    }
}

/// Reads the answer to a request for the process group of a process:
/// `answer` is what the system returned, `errno` the error number it left.
///
/// An answer of -1 is a failure, told apart by `errno`; any other answer is
/// the process group.
pub fn get_process_group(answer: i32, errno: i32) -> (r: Result<i32, Error>)
    ensures
        r == if answer == -1 {
            Err::<i32, Error>(process_group_error(errno))
        } else {
            Ok(answer)
        },
{
    if answer == -1 {
        return Err(
            if errno == eperm() {
                Error::NoPermission
            } else if errno == esrch() {
                Error::ProcessGroupNotFound
            } else if errno == einval() {
                Error::InvalidPidSupplied
            } else {
                Error::UnknownGetpguid
            },
        );
    }
    Ok(answer)
}

/// Reads the answer to a request for the size of a memory page, in bytes: -1
/// is a failure, any other answer the size.
pub fn page_size(answer: i64) -> (r: Result<i64, Error>)
    ensures
        r == if answer == -1 {
            Err::<i64, Error>(Error::SysConfFailed)
        } else {
            Ok(answer)
        },
{
    if answer == -1 {
        return Err(Error::SysConfFailed);
    }
    Ok(answer)
}

} // verus!
