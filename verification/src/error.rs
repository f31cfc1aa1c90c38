use vstd::prelude::*;

verus! {

/// The step at which a process turned out to be missing.
#[derive(Clone, Copy, Debug, PartialEq, Eq, Structural)]
pub enum Origin {
    /// While building the record of a process.
    FromPid,
    /// While looking for a victim.
    ChooseVictim,
    /// While sending a signal.
    Kill,
}

/// Everything that can go wrong in the library.
#[derive(Clone, Copy, Debug, PartialEq, Eq, Structural)]
pub enum Error {
    /// No such process, noticed at the given step.
    ProcessNotFound(Origin),
    /// The process id cannot be addressed.
    InvalidPidSupplied,
    /// The process has no process group.
    ProcessGroupNotFound,
    /// The signal number is not valid.
    InvalidSignal,
    /// A write did not fit in the buffer it was given.
    Io,
    /// The bytes are not UTF-8.
    Unicode,
    /// The caller may not do this.
    NoPermission,
    /// Some pages could not be locked.
    CouldNotLockMemory,
    /// Locking would exceed the limit on locked memory.
    TooMuchMemoryToLock,
    /// The locking flags were refused.
    InvalidFlags,
    /// Locking failed for a reason the system does not document.
    UnknownMlockall,
    /// Sending a signal failed for a reason the system does not document.
    UnknownKill,
    /// Asking for a process group failed for a reason the system does not document.
    UnknownGetpguid,
    /// An ignore pattern is not a valid glob.
    GlobPattern,
    /// The kernel release string holds no version.
    InvalidLinuxVersion,
    /// `statm` does not have the expected shape.
    MalformedStatm,
    /// The memory pressure file does not have the expected shape.
    MalformedPressureFile,
    /// A number could not be read.
    ParseInt,
    /// The page size could not be obtained.
    SysConfFailed,
    /// The memory reading could not be obtained or makes no sense.
    SysInfoFailed,
}

} // verus!
