//! A guard against running out of memory: the rules by which a daemon watches
//! memory pressure, picks the process to end, and ends it.
//!
//! Everything here works on plain values. Reading `/proc`, sending signals and
//! sleeping are left to the program that drives these rules.

pub mod cli;
pub mod errno;
pub mod error;
pub mod kill;
pub mod linux_version;
pub mod memory;
pub mod monitor;
pub mod process;
pub mod procfs;
pub mod text;
pub mod utils;
