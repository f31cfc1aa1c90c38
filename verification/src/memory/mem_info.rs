use crate::error::Error;
use crate::utils::megabytes;
use vstd::prelude::*;

verus! {

/// What the system reports of its memory: amounts in units of `mem_unit`
/// bytes.
#[derive(Clone, Copy, Debug, PartialEq, Eq, Structural)]
pub struct SysInfo {
    pub totalram: u64,
    pub freeram: u64,
    pub totalswap: u64,
    pub freeswap: u64,
    pub mem_unit: u32,
}

/// RAM and swap at one moment, in megabytes, with the share that is
/// available.
#[derive(Clone, Copy, Debug, PartialEq, Eq, Structural)]
pub struct MemoryInfo {
    pub total_ram_mb: u64,
    pub total_swap_mb: u64,
    pub available_ram_mb: u64,
    pub available_swap_mb: u64,
    pub available_ram_percent: u8,
    pub available_swap_percent: u8,
}

impl Default for MemoryInfo {
    fn default() -> (r: Self)
        ensures
            r == (MemoryInfo {
                total_ram_mb: 0,
                total_swap_mb: 0,
                available_ram_mb: 0,
                available_swap_mb: 0,
                available_ram_percent: 0,
                available_swap_percent: 0,
            }),
            r.wf(),
    {
        MemoryInfo {
            total_ram_mb: 0,
            total_swap_mb: 0,
            available_ram_mb: 0,
            available_swap_mb: 0,
            available_ram_percent: 0,
            available_swap_percent: 0,
        }
    }
}

/// The share of `total` that `available` is, in percent, rounded down; 0
/// where there is nothing in total.
pub open spec fn percent(available: u64, total: u64) -> int {
    if total == 0 {
        0
    } else {
        available * 100 / (total as int)
    }
}

impl SysInfo {
    /// Whether the reading makes sense: each amount comes to a number of
    /// megabytes that fits in 64 bits, and no more is free than there is.
    pub open spec fn sound(self) -> bool {
        &&& megabytes(self.totalram, self.mem_unit as u64) <= u64::MAX
        &&& megabytes(self.totalswap, self.mem_unit as u64) <= u64::MAX
        &&& megabytes(self.freeram, self.mem_unit as u64) <= megabytes(
            self.totalram,
            self.mem_unit as u64,
        )
        &&& megabytes(self.freeswap, self.mem_unit as u64) <= megabytes(
            self.totalswap,
            self.mem_unit as u64,
        )
    }
}

/// Reads the answer to a request for the system's memory: `answer` is what
/// the system returned, `reading` what it filled in. Any answer but 0 is a
/// failure.
pub fn sys_info(answer: i32, reading: SysInfo) -> (r: Result<SysInfo, Error>)
    ensures
        r == if answer != 0 {
            Err::<SysInfo, Error>(Error::SysInfoFailed)
        } else {
            Ok(reading)
        },
{
    if answer != 0 {
        return Err(Error::SysInfoFailed);
    }
    Ok(reading)
}

fn to_megabytes(amount: u64, mem_unit: u32) -> (r: Option<u64>)
    ensures
        r == if megabytes(amount, mem_unit as u64) <= u64::MAX {
            Some(megabytes(amount, mem_unit as u64) as u64)
        } else {
            None
        },
{
    (amount / 1_000_000).checked_mul(mem_unit as u64)
}

fn ratio(available: u64, total: u64) -> (r: u8)
    requires
        available <= total,
    ensures
        r == percent(available, total),
        r <= 100,
{
    if total == 0 {
        return 0;
    }
    let share: u128 = available as u128 * 100 / (total as u128);
    assert(available * 100 / (total as int) <= 100) by (nonlinear_arith)
        requires
            0 <= available <= total,
            total > 0,
    ;
    share as u8
}

impl MemoryInfo {
    /// Whether the value is what a reading gives: no more is available than
    /// there is, and each percentage is the share that is available.
    pub open spec fn wf(self) -> bool {
        &&& self.available_ram_mb <= self.total_ram_mb
        &&& self.available_swap_mb <= self.total_swap_mb
        &&& self.available_ram_percent == percent(self.available_ram_mb, self.total_ram_mb)
        &&& self.available_swap_percent == percent(self.available_swap_mb, self.total_swap_mb)
    }

    /// The memory that a reading of the system reports.
    ///
    /// Fails with `SysInfoFailed` exactly when the reading is not sound.
    pub fn new(reading: &SysInfo) -> (r: Result<MemoryInfo, Error>)
        ensures
            match r {
                Ok(m) => {
                    &&& reading.sound()
                    &&& m.wf()
                    &&& m.total_ram_mb == megabytes(reading.totalram, reading.mem_unit as u64)
                    &&& m.available_ram_mb == megabytes(reading.freeram, reading.mem_unit as u64)
                    &&& m.total_swap_mb == megabytes(reading.totalswap, reading.mem_unit as u64)
                    &&& m.available_swap_mb == megabytes(
                        reading.freeswap,
                        reading.mem_unit as u64,
                    )
                },
                Err(e) => e == Error::SysInfoFailed && !reading.sound(),
            },
    {
        let mem_unit = reading.mem_unit;
        let total_ram_mb = match to_megabytes(reading.totalram, mem_unit) {
            Some(mb) => mb,
            None => return Err(Error::SysInfoFailed),
        };
        let total_swap_mb = match to_megabytes(reading.totalswap, mem_unit) {
            Some(mb) => mb,
            None => return Err(Error::SysInfoFailed),
        };
        let available_ram_mb = match to_megabytes(reading.freeram, mem_unit) {
            Some(mb) => mb,
            None => return Err(Error::SysInfoFailed),
        };
        let available_swap_mb = match to_megabytes(reading.freeswap, mem_unit) {
            Some(mb) => mb,
            None => return Err(Error::SysInfoFailed),
        };
        if available_ram_mb > total_ram_mb || available_swap_mb > total_swap_mb {
            return Err(Error::SysInfoFailed);
        }
        Ok(
            MemoryInfo {
                total_ram_mb,
                total_swap_mb,
                available_ram_mb,
                available_swap_mb,
                available_ram_percent: ratio(available_ram_mb, total_ram_mb),
                available_swap_percent: ratio(available_swap_mb, total_swap_mb),
            },
        )
    }
}

/// The percentages of a well-formed value lie between 0 and 100, and without
/// swap the share of swap that is available is 0.
pub proof fn lemma_percentages(m: MemoryInfo)
    requires
        m.wf(),
    ensures
        m.available_ram_percent <= 100,
        m.available_swap_percent <= 100,
        m.total_ram_mb == 0 ==> m.available_ram_percent == 0,
        m.total_swap_mb == 0 ==> m.available_swap_percent == 0,
{
    if m.total_ram_mb > 0 {
        assert(m.available_ram_mb * 100 / (m.total_ram_mb as int) <= 100) by (nonlinear_arith)
            requires
                0 <= m.available_ram_mb <= m.total_ram_mb,
                m.total_ram_mb > 0,
        ;
    }
    if m.total_swap_mb > 0 {
        assert(m.available_swap_mb * 100 / (m.total_swap_mb as int) <= 100) by (nonlinear_arith)
            requires
                0 <= m.available_swap_mb <= m.total_swap_mb,
                m.total_swap_mb > 0,
        ;
    }
}

} // verus!
