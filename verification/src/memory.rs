//! Readings of memory: how much is left, how hard it is pressed, and the
//! request to keep the daemon's own pages in RAM.

pub mod mem_info;
pub mod mem_lock;
pub mod pressure;

pub use self::mem_info::MemoryInfo;
pub use self::mem_lock::lock_memory_pages;
