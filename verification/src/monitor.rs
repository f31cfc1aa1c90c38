use crate::error::Error;
use crate::memory::mem_info::MemoryInfo;
use crate::memory::pressure::Psi;
use crate::process::Process;
use vstd::prelude::*;

verus! {

/// The share of RAM, in percent, at or below which memory counts as low.
pub const RAM_TERMINAL_PERCENT: u8 = 10;

/// The share of swap, in percent, below which no swap counts as headroom.
pub const SWAP_TERMINAL_PERCENT: u8 = 10;

/// The fastest that RAM is expected to fill, in KiB per millisecond.
pub const RAM_FILL_RATE: u64 = 6000;

/// The fastest that swap is expected to fill, in KiB per millisecond.
pub const SWAP_FILL_RATE: u64 = 800;

/// The shortest sleep between two cycles, in milliseconds.
pub const MIN_SLEEP: u64 = 100;

/// The longest sleep that the formula can give, in milliseconds.
pub const MAX_SLEEP: u64 = 0x7fff_ffff_ffff_ffff / 6000 + 0x7fff_ffff_ffff_ffff / 800;

/// What the last reading says of memory.
#[derive(Clone, Copy, Debug, PartialEq, Eq, Structural)]
pub enum MemoryStatus {
    /// Available RAM is at or below `RAM_TERMINAL_PERCENT`, and this is the
    /// pressure that was read right after.
    NearTerminal(Psi),
    /// Nothing calls for a look at the process table.
    Okay,
}

/// Where in its cycle the monitor is: what it waits for.
#[derive(Clone, Copy, Debug, PartialEq, Eq, Structural)]
pub enum Phase {
    /// For a reading of memory; `after_kill` in the second reading of a
    /// cycle, the one that follows a termination.
    Sampling { after_kill: bool },
    /// For a reading of the memory pressure.
    ReadingPressure { after_kill: bool },
    /// For the choice of a victim.
    Choosing,
    /// For the end of the termination of this victim.
    Terminating(Process),
    /// For the end of the sleep between two cycles.
    Sleeping,
}

/// What happened since the monitor last said what to do.
#[derive(Clone, Copy, Debug, PartialEq, Eq)]
pub enum Event {
    /// The sleep is over.
    Woke,
    /// Memory was read, or could not be.
    Sampled(Result<MemoryInfo, Error>),
    /// The memory pressure was read, or could not be.
    Pressure(Result<Psi, Error>),
    /// A victim was chosen, or none was found.
    Victim(Result<Process, Error>),
    /// The termination is over: the victim is gone, or not, or the
    /// termination could not start.
    Terminated(Result<bool, Error>),
}

/// What the monitor asks for.
#[derive(Clone, Copy, Debug, PartialEq, Eq, Structural)]
pub enum Action {
    /// Read how much memory there is and report `Event::Sampled`.
    Sample,
    /// Read the memory pressure and report `Event::Pressure`.
    ReadPressure,
    /// Scan the process table, choose a victim and report `Event::Victim`.
    ChooseVictim,
    /// Terminate this process, with its whole process group if
    /// `whole_group`, and report `Event::Terminated`.
    Terminate { victim: Process, whole_group: bool },
    /// Sleep for so many milliseconds and report `Event::Woke`.
    Sleep(u64),
}

/// The memory, in KiB, that may still fill before the share that is
/// available falls to `terminal_percent`: nothing at or below that share, and
/// never more than fits in 64 bits with a sign.
pub open spec fn headroom_kib(available_percent: u8, terminal_percent: u8, total_mb: u64) -> int {
    let kib = (available_percent - terminal_percent) * total_mb * 10;
    if kib < 0 {
        0
    } else if kib > i64::MAX {
        i64::MAX as int
    } else {
        kib
    }
}

/// How long to sleep with this much memory, in milliseconds: the time in
/// which RAM and swap would fill at their fastest, and `MIN_SLEEP` at least.
pub open spec fn sleep_ms(m: MemoryInfo) -> int {
    let ms = headroom_kib(m.available_ram_percent, RAM_TERMINAL_PERCENT, m.total_ram_mb) / (
    RAM_FILL_RATE as int) + headroom_kib(
        m.available_swap_percent,
        SWAP_TERMINAL_PERCENT,
        m.total_swap_mb,
    ) / (SWAP_FILL_RATE as int);
    if ms < MIN_SLEEP {
        MIN_SLEEP as int
    } else {
        ms
    }
}

fn headroom(available_percent: u8, terminal_percent: u8, total_mb: u64) -> (r: u64)
    ensures
        r == headroom_kib(available_percent, terminal_percent, total_mb),
        r <= i64::MAX,
{
    if available_percent <= terminal_percent {
        assert((available_percent - terminal_percent) * total_mb * 10 <= 0) by (nonlinear_arith)
            requires
                available_percent - terminal_percent <= 0,
                total_mb >= 0,
        ;
        return 0;
    }
    let share: u128 = (available_percent - terminal_percent) as u128;
    assert(0 <= share * total_mb * 10 <= 255 * 0xffff_ffff_ffff_ffff * 10) by (nonlinear_arith)
        requires
            0 <= share <= 255,
            0 <= total_mb <= 0xffff_ffff_ffff_ffff,
    ;
    let kib: u128 = share * (total_mb as u128) * 10;
    if kib > i64::MAX as u128 {
        i64::MAX as u64
    } else {
        kib as u64
    }
}

/// The monitor: the last reading of memory, what it says, and the place in
/// the cycle of reading, deciding, killing and sleeping.
#[derive(Clone, Copy, Debug, PartialEq, Eq, Structural)]
pub struct Monitor {
    pub memory_info: MemoryInfo,
    pub status: MemoryStatus,
    /// The pressure at or above which a victim is looked for.
    pub cutoff_psi: Psi,
    /// Whether a victim is killed with its whole process group.
    pub kill_process_group: bool,
    pub phase: Phase,
}

impl Monitor {
    /// Whether memory is low enough to kill: the status is `NearTerminal`
    /// with a pressure at or above the cutoff.
    pub open spec fn is_low(self) -> bool {
        match self.status {
            MemoryStatus::NearTerminal(psi) => psi.hundredths >= self.cutoff_psi.hundredths,
            MemoryStatus::Okay => false,
        }
    }

    /// What the monitor is waiting for someone to do.
    pub open spec fn pending(self) -> Action {
        match self.phase {
            Phase::Sampling { .. } => Action::Sample,
            Phase::ReadingPressure { .. } => Action::ReadPressure,
            Phase::Choosing => Action::ChooseVictim,
            Phase::Terminating(victim) => Action::Terminate {
                victim,
                whole_group: self.kill_process_group,
            },
            Phase::Sleeping => Action::Sleep(sleep_ms(self.memory_info) as u64),
        }
    }

    /// The monitor once a reading of memory has come in: with RAM at or
    /// below the threshold it wants the pressure; else all is well and it
    /// sleeps.
    pub open spec fn sampled(self, memory_info: MemoryInfo, after_kill: bool) -> Monitor {
        Monitor {
            memory_info,
            status: MemoryStatus::Okay,
            phase: if memory_info.available_ram_percent <= RAM_TERMINAL_PERCENT {
                Phase::ReadingPressure { after_kill }
            } else {
                Phase::Sleeping
            },
            ..self
        }
    }

    /// The monitor after an event. An event that it does not wait for
    /// leaves it as it is.
    pub open spec fn next(self, event: Event) -> Monitor {
        match (self.phase, event) {
            (Phase::Sleeping, Event::Woke) => Monitor {
                phase: Phase::Sampling { after_kill: false },
                ..self
            },
            (Phase::Sampling { after_kill }, Event::Sampled(Ok(memory_info))) => self.sampled(
                memory_info,
                after_kill,
            ),
            (Phase::Sampling { .. }, Event::Sampled(Err(_))) => Monitor {
                status: MemoryStatus::Okay,
                phase: Phase::Sleeping,
                ..self
            },
            (Phase::ReadingPressure { after_kill }, Event::Pressure(Ok(psi))) => Monitor {
                status: MemoryStatus::NearTerminal(psi),
                phase: if !after_kill && psi.hundredths >= self.cutoff_psi.hundredths {
                    Phase::Choosing
                } else {
                    Phase::Sleeping
                },
                ..self
            },
            (Phase::ReadingPressure { .. }, Event::Pressure(Err(_))) => Monitor {
                status: MemoryStatus::Okay,
                phase: Phase::Sleeping,
                ..self
            },
            (Phase::Choosing, Event::Victim(Ok(victim))) => Monitor {
                phase: Phase::Terminating(victim),
                ..self
            },
            (Phase::Choosing, Event::Victim(Err(_))) => Monitor { phase: Phase::Sleeping, ..self },
            (Phase::Terminating(_), Event::Terminated(_)) => Monitor {
                phase: Phase::Sampling { after_kill: true },
                ..self
            },
            _ => self,
        }
    }

    /// What holds of a monitor at all times: its reading of memory is well
    /// formed; its status is `NearTerminal` only with RAM at or below the
    /// threshold; and it is about to kill only while memory is low.
    pub open spec fn inv(self) -> bool {
        &&& self.memory_info.wf()
        &&& self.status is NearTerminal ==> self.memory_info.available_ram_percent
            <= RAM_TERMINAL_PERCENT
        &&& self.phase is Choosing || self.phase is Terminating ==> self.is_low()
        &&& self.phase is ReadingPressure ==> self.memory_info.available_ram_percent
            <= RAM_TERMINAL_PERCENT
    }

    /// A monitor that starts from a first reading of memory, with the
    /// pressure at which to kill and whether to kill whole process groups.
    pub fn new(memory_info: MemoryInfo, cutoff_psi: Psi, kill_process_group: bool) -> (r: Self)
        ensures
            r == (Monitor {
                memory_info,
                status: MemoryStatus::Okay,
                cutoff_psi,
                kill_process_group,
                phase: Phase::Sampling { after_kill: false },
            }).sampled(memory_info, false),
            memory_info.wf() ==> r.inv(),
    {
        Monitor {
            memory_info,
            status: MemoryStatus::Okay,
            cutoff_psi,
            kill_process_group,
            phase: if memory_info.available_ram_percent <= RAM_TERMINAL_PERCENT {
                Phase::ReadingPressure { after_kill: false }
            } else {
                Phase::Sleeping
            },
        }
    }

    /// How long to sleep before the next cycle, in milliseconds.
    pub fn sleep_time_ms(&self) -> (r: u64)
        ensures
            r == sleep_ms(self.memory_info),
            MIN_SLEEP <= r <= MAX_SLEEP,
    {
        let ram_headroom_kib = headroom(
            self.memory_info.available_ram_percent,
            RAM_TERMINAL_PERCENT,
            self.memory_info.total_ram_mb,
        );
        let swap_headroom_kib = headroom(
            self.memory_info.available_swap_percent,
            SWAP_TERMINAL_PERCENT,
            self.memory_info.total_swap_mb,
        );
        let time_to_sleep = ram_headroom_kib / RAM_FILL_RATE + swap_headroom_kib / SWAP_FILL_RATE;
        if time_to_sleep < MIN_SLEEP {
            MIN_SLEEP
        } else {
            time_to_sleep
        }
    }

    /// Whether memory is low enough to kill.
    pub fn memory_is_low(&self) -> (r: bool)
        ensures
            r == self.is_low(),
    {
        match self.status {
            MemoryStatus::NearTerminal(psi) => psi.hundredths >= self.cutoff_psi.hundredths,
            MemoryStatus::Okay => false,
        }
    }

    /// What the monitor is waiting for someone to do.
    pub fn action(&self) -> (r: Action)
        ensures
            r == self.pending(),
    {
        match self.phase {
            Phase::Sampling { .. } => Action::Sample,
            Phase::ReadingPressure { .. } => Action::ReadPressure,
            Phase::Choosing => Action::ChooseVictim,
            Phase::Terminating(victim) => Action::Terminate {
                victim,
                whole_group: self.kill_process_group,
            },
            Phase::Sleeping => Action::Sleep(self.sleep_time_ms()),
        }
    }

    /// One turn of the loop: takes what happened and says what to do next.
    ///
    /// A cycle reads memory; where RAM is at or below the threshold it
    /// reads the pressure, and where that reaches the cutoff it has a victim
    /// chosen and terminated, then reads memory once more; it ends in a
    /// sleep. A reading that fails, or a table without a victim, ends the
    /// cycle in a sleep as well.
    pub fn poll(&mut self, event: Event) -> (r: Action)
        ensures
            *final(self) == old(self).next(event),
            r == old(self).next(event).pending(),
    {
        match (self.phase, event) {
            (Phase::Sleeping, Event::Woke) => {
                self.phase = Phase::Sampling { after_kill: false };
            },
            (Phase::Sampling { after_kill }, Event::Sampled(Ok(memory_info))) => {
                self.memory_info = memory_info;
                self.status = MemoryStatus::Okay;
                self.phase = if memory_info.available_ram_percent <= RAM_TERMINAL_PERCENT {
                    Phase::ReadingPressure { after_kill }
                } else {
                    Phase::Sleeping
                };
            },
            (Phase::Sampling { .. }, Event::Sampled(Err(_))) => {
                self.status = MemoryStatus::Okay;
                self.phase = Phase::Sleeping;
            },
            (Phase::ReadingPressure { after_kill }, Event::Pressure(Ok(psi))) => {
                self.status = MemoryStatus::NearTerminal(psi);
                self.phase = if !after_kill && self.memory_is_low() {
                    Phase::Choosing
                } else {
                    Phase::Sleeping
                };
            },
            (Phase::ReadingPressure { .. }, Event::Pressure(Err(_))) => {
                self.status = MemoryStatus::Okay;
                self.phase = Phase::Sleeping;
            },
            (Phase::Choosing, Event::Victim(Ok(victim))) => {
                self.phase = Phase::Terminating(victim);
            },
            (Phase::Choosing, Event::Victim(Err(_))) => {
                self.phase = Phase::Sleeping;
            },
            (Phase::Terminating(_), Event::Terminated(_)) => {
                self.phase = Phase::Sampling { after_kill: true };
            },
            _ => {},
        }
        self.action()
    }
}

/// The sleep is never shorter than `MIN_SLEEP` nor longer than `MAX_SLEEP`,
/// however much memory there is.
pub proof fn lemma_sleep_bounds(m: MemoryInfo)
    ensures
        MIN_SLEEP <= sleep_ms(m) <= MAX_SLEEP,
{
}

/// With RAM at or below its threshold and less than 101 times
/// `SWAP_FILL_RATE` KiB of headroom in swap, the sleep is `MIN_SLEEP`.
pub proof fn lemma_sleep_at_threshold(m: MemoryInfo)
    requires
        m.available_ram_percent <= RAM_TERMINAL_PERCENT,
        headroom_kib(m.available_swap_percent, SWAP_TERMINAL_PERCENT, m.total_swap_mb) < 101
            * SWAP_FILL_RATE,
    ensures
        sleep_ms(m) == MIN_SLEEP,
{
    assert((m.available_ram_percent - RAM_TERMINAL_PERCENT) * m.total_ram_mb * 10 <= 0)
        by (nonlinear_arith)
        requires
            m.available_ram_percent - RAM_TERMINAL_PERCENT <= 0,
            m.total_ram_mb >= 0,
    ;
}

/// What holds of a monitor at all times still holds after every event that
/// brings a well-formed reading, and the configuration stays as it is.
pub proof fn lemma_inv_holds(m: Monitor, event: Event)
    requires
        m.inv(),
        event matches Event::Sampled(Ok(memory_info)) ==> memory_info.wf(),
    ensures
        m.next(event).inv(),
        m.next(event).cutoff_psi == m.cutoff_psi,
        m.next(event).kill_process_group == m.kill_process_group,
{
}

/// A victim is asked for only where the pressure that was just read, with
/// RAM at or below its threshold, reaches the cutoff, and not in the reading
/// that follows a termination: a cycle kills once at most.
pub proof fn lemma_kill_is_gated(m: Monitor, event: Event)
    requires
        m.inv(),
        !(m.phase is Choosing),
        m.next(event).phase is Choosing,
    ensures
        m.phase == (Phase::ReadingPressure { after_kill: false }),
        event matches Event::Pressure(Ok(psi)) && psi.hundredths >= m.cutoff_psi.hundredths
            && m.next(event).status == MemoryStatus::NearTerminal(psi),
        m.memory_info.available_ram_percent <= RAM_TERMINAL_PERCENT,
{
}

} // verus!
