use crate::errno::{einval, eperm, esrch, sigkill, sigterm};
use crate::error::{Error, Origin};
use crate::process::{matches_at, on_ignore_list, resident_kib, small_number, Process};
use crate::utils::until_nul;
use vstd::utf8::decode_utf8;
use crate::text::{decimal_within, parse_decimal, trim, trimmed};
use vstd::prelude::*;

verus! {

/// The adjustment by which a process opts out of being killed for memory.
pub const NEVER_KILL: i16 = -1000;

/// What a scan of the process table knows of one process.
#[derive(Clone, Copy, Debug, PartialEq, Eq, Structural)]
pub struct Candidate {
    pub process: Process,
    /// Its resident memory, in KiB.
    pub vm_rss_kib: i64,
    /// The adjustment to its badness; `NEVER_KILL` protects it.
    pub oom_score_adj: i16,
    /// Whether its name matches a pattern of the ignore list.
    pub ignored: bool,
}

/// What was read of one process: the contents of four of its files under
/// `/proc`.
#[derive(Clone, Copy, Debug)]
pub struct Readings<'a> {
    pub oom_score: &'a [u8],
    pub statm: &'a [u8],
    pub oom_score_adj: &'a [u8],
    pub comm: &'a [u8],
}

/// The process id that an entry of `/proc` stands for: its name, trimmed,
/// read as a decimal number of 32 bits without sign. `None` for an entry
/// that is no process and for the processes 0 and 1.
pub open spec fn entry_pid(name: Seq<u8>) -> Option<u32> {
    match decimal_within(trimmed(name), false, 0, u32::MAX as int) {
        Some(pid) => if pid > 1 {
            Some(pid as u32)
        } else {
            None
        },
        None => None,
    }
}

/// The process id that an entry of `/proc` of this name stands for, if it is
/// one that a scan looks at.
pub fn candidate_pid(name: &[u8]) -> (r: Option<u32>)
    ensures
        r == entry_pid(name@),
{
    match parse_decimal(trim(name), false, 0, u32::MAX as i64) {
        Some(pid) => if pid > 1 {
            Some(pid as u32)
        } else {
            None
        },
        None => None,
    }
}

/// The name under which `/proc` holds a process, its id in decimal digits,
/// is read back as that id, but for the processes 0 and 1.
pub proof fn lemma_entry_of_pid(pid: u32)
    ensures
        entry_pid(crate::procfs::decimal_digits(pid as nat)) == if pid > 1 {
            Some(pid)
        } else {
            None
        },
{
    crate::procfs::lemma_decimal_digits_read_back(pid as nat);
}

/// Whether the name that `comm` holds puts a process on the ignore list.
/// Without patterns nothing does. With patterns, a name does that some
/// pattern of the list matches; a name that is not UTF-8 cannot be held
/// against them and is an error.
pub open spec fn ignored_by(comm: Seq<u8>, patterns: Option<&[String]>) -> Result<bool, Error> {
    match patterns {
        None => Ok(false),
        Some(patterns) => on_ignore_list(comm, patterns@),
    }
}

/// What the readings of a process make of it as a candidate: its record
/// from `oom_score`, its resident memory from `statm`, its adjustment from
/// `oom_score_adj`, and whether `comm` matches an ignore pattern. The first
/// of the four that cannot be read gives the error.
pub open spec fn examined(
    pid: u32,
    files: Readings,
    page_size: i64,
    patterns: Option<&[String]>,
) -> Result<Candidate, Error> {
    match (
        small_number(files.oom_score@),
        resident_kib(files.statm@, page_size),
        small_number(files.oom_score_adj@),
        ignored_by(files.comm@, patterns),
    ) {
        (Err(_), _, _, _) => Err(Error::ProcessNotFound(Origin::FromPid)),
        (Ok(_), Err(e), _, _) => Err(e),
        (Ok(_), Ok(_), Err(e), _) => Err(e),
        (Ok(_), Ok(_), Ok(_), Err(e)) => Err(e),
        (Ok(oom_score), Ok(vm_rss_kib), Ok(oom_score_adj), Ok(ignored)) => Ok(
            Candidate { process: Process { pid, oom_score }, vm_rss_kib, oom_score_adj, ignored },
        ),
    }
}

impl Candidate {
    /// Makes a candidate of process `pid` from what was read of it, with the
    /// size of a memory page in bytes and the ignore patterns, if any are
    /// configured.
    ///
    /// A process of which a number cannot be read, or whose name is not
    /// UTF-8 while patterns are configured, is no candidate.
    pub fn examine(pid: u32, files: &Readings, page_size: i64, patterns: Option<&[String]>) -> (r:
        Result<Candidate, Error>)
        ensures
            r == examined(pid, *files, page_size, patterns),
    {
        let process = match Process::from_pid(pid, files.oom_score) {
            Ok(process) => process,
            Err(e) => return Err(e),
        };
        let vm_rss_kib = match Process::vm_rss_kib(files.statm, page_size) {
            Ok(kib) => kib,
            Err(e) => return Err(e),
        };
        let oom_score_adj = match Process::oom_score_adj(files.oom_score_adj) {
            Ok(adj) => adj,
            Err(e) => return Err(e),
        };
        let ignored = match patterns {
            Some(patterns) => match Process::is_ignored(files.comm, patterns) {
                Ok(matched) => matched,
                Err(e) => return Err(e),
            },
            None => false,
        };
        Ok(Candidate { process, vm_rss_kib, oom_score_adj, ignored })
    }

    /// Whether the process may be chosen at all: it is not the first process
    /// of the system, matches no ignore pattern, is no kernel thread (those
    /// have no resident memory) and has not opted out.
    pub open spec fn eligible(self) -> bool {
        &&& self.process.pid > 1
        &&& !self.ignored
        &&& self.vm_rss_kib != 0
        &&& self.oom_score_adj != NEVER_KILL
    }

    /// Whether `self` is the worse offender of the two: its badness is
    /// higher, or the same with more resident memory.
    pub open spec fn outranks(self, other: Candidate) -> bool {
        self.process.oom_score > other.process.oom_score || (self.process.oom_score
            == other.process.oom_score && self.vm_rss_kib > other.vm_rss_kib)
    }

    /// Whether the process may be chosen at all (see [`Candidate::eligible`]).
    pub fn is_eligible(&self) -> (r: bool)
        ensures
            r == self.eligible(),
    {
        self.process.pid > 1 && !self.ignored && self.vm_rss_kib != 0 && self.oom_score_adj
            != NEVER_KILL
    }

    /// Whether `self` takes the place of the victim chosen so far.
    ///
    /// It does not where its badness is lower, where it is not eligible, nor
    /// where the badness is the same and it has no more resident memory than
    /// the victim.
    pub fn replaces(&self, victim: &Candidate) -> (r: bool)
        ensures
            r == (self.eligible() && self.outranks(*victim)),
    {
        if victim.process.oom_score > self.process.oom_score {
            return false;
        }
        if !self.is_eligible() {
            return false;
        }
        if self.process.oom_score == victim.process.oom_score && self.vm_rss_kib
            <= victim.vm_rss_kib {
            return false;
        }
        true
    }
}

/// The victim after one more candidate. A candidate that is not eligible
/// changes nothing. The first eligible candidate starts as the victim, and a
/// later one takes its place exactly if it outranks it.
pub open spec fn next_victim(victim: Option<Candidate>, c: Candidate) -> Option<Candidate> {
    if !c.eligible() {
        victim
    } else {
        match victim {
            None => Some(c),
            Some(v) => if c.outranks(v) {
                Some(c)
            } else {
                Some(v)
            },
        }
    }
}

/// Holds one more candidate against the victim chosen so far, which is
/// `None` until an eligible candidate has come, and gives the victim from
/// then on. A scan that cannot hold a table in memory folds its candidates
/// with this.
pub fn offer(victim: Option<Candidate>, candidate: Candidate) -> (r: Option<Candidate>)
    ensures
        r == next_victim(victim, candidate),
{
    if !candidate.is_eligible() {
        return victim;
    }
    match victim {
        None => Some(candidate),
        Some(v) => if candidate.replaces(&v) {
            Some(candidate)
        } else {
            Some(v)
        },
    }
}

/// Holds against the victim chosen so far what the examination of one more
/// process gave. A process that could not be examined, because it is gone
/// or what was read of it is malformed, is passed over and the scan goes
/// on.
pub fn offer_examined(victim: Option<Candidate>, row: Result<Candidate, Error>) -> (r: Option<
    Candidate,
>)
    ensures
        r == match row {
            Ok(c) => next_victim(victim, c),
            Err(_) => victim,
        },
{
    match row {
        Ok(candidate) => offer(victim, candidate),
        Err(_) => victim,
    }
}

/// The process that a scan ends with, given the victim that its last
/// candidate left: `ProcessNotFound` where no candidate was eligible.
pub fn verdict(victim: Option<Candidate>) -> (r: Result<Process, Error>)
    ensures
        r == match victim {
            Some(v) => Ok::<Process, Error>(v.process),
            None => Err(Error::ProcessNotFound(Origin::ChooseVictim)),
        },
{
    match victim {
        Some(v) => Ok(v.process),
        None => Err(Error::ProcessNotFound(Origin::ChooseVictim)),
    }
}

/// The victim among the first `n` candidates of the table.
pub open spec fn victim_among(table: Seq<Candidate>, n: int) -> Option<Candidate>
    decreases n,
{
    if n <= 0 {
        None
    } else {
        next_victim(victim_among(table, n - 1), table[n - 1])
    }
}

/// The victim of a whole table.
pub open spec fn victim_of(table: Seq<Candidate>) -> Option<Candidate> {
    victim_among(table, table.len() as int)
}

/// Picks the process to kill from a table of candidates: the eligible
/// candidate of the highest badness and, among those, of the most resident
/// memory; of several such, the first in the table.
///
/// The answer depends on the table alone. It is `ProcessNotFound` exactly
/// when no candidate is eligible.
pub fn choose_victim(table: &[Candidate]) -> (r: Result<Process, Error>)
    ensures
        r == match victim_of(table@) {
            Some(v) => Ok(v.process),
            None => Err(Error::ProcessNotFound(Origin::ChooseVictim)),
        },
{
    let mut victim: Option<Candidate> = None;
    let mut i: usize = 0;
    while i < table.len()
        invariant
            i <= table@.len(),
            victim == victim_among(table@, i as int),
        decreases table@.len() - i,
    {
        victim = offer(victim, table[i]);
        i += 1;
    }
    verdict(victim)
}

/// The candidate at index `k` is the worst offender among the first `n` of
/// the table: it is eligible, it outranks every eligible candidate before
/// it, and no eligible candidate after it outranks it.
pub open spec fn is_worst_at(table: Seq<Candidate>, n: int, k: int) -> bool {
    &&& 0 <= k < n <= table.len()
    &&& table[k].eligible()
    &&& forall|i: int| 0 <= i < k && table[i].eligible() ==> table[k].outranks(#[trigger] table[i])
    &&& forall|i: int|
        k <= i < n && table[i].eligible() ==> !(#[trigger] table[i]).outranks(table[k])
}

/// The victim is the worst offender among the eligible candidates, the
/// first of them where several are equal; there is no victim exactly when no
/// candidate is eligible.
pub proof fn lemma_victim_is_worst(table: Seq<Candidate>, n: int)
    requires
        0 <= n <= table.len(),
    ensures
        match victim_among(table, n) {
            Some(v) => exists|k: int| is_worst_at(table, n, k) && table[k] == v,
            None => forall|i: int| 0 <= i < n ==> !(#[trigger] table[i]).eligible(),
        },
    decreases n,
{
    if n > 0 {
        lemma_victim_is_worst(table, n - 1);
        let before = victim_among(table, n - 1);
        let c = table[n - 1];
        match before {
            Some(v) => {
                let k = choose|k: int| is_worst_at(table, n - 1, k) && table[k] == v;
                if c.eligible() && c.outranks(v) {
                    assert forall|i: int| 0 <= i < n - 1 && table[i].eligible() implies c.outranks(
                        #[trigger] table[i],
                    ) by {
                        if i < k {
                            assert(v.outranks(table[i]));
                        } else {
                            assert(!table[i].outranks(v));
                        }
                    }
                    assert(is_worst_at(table, n, n - 1));
                } else {
                    assert(is_worst_at(table, n, k));
                }
            },
            None => {
                if c.eligible() {
                    assert(is_worst_at(table, n, n - 1));
                }
            },
        }
    }
}

/// A candidate with a strictly higher badness than the victim chosen so
/// far becomes the new victim, if it has resident memory, has not opted out
/// and matches no ignore pattern.
pub proof fn lemma_higher_score_wins(victim: Candidate, b: Candidate)
    requires
        b.process.pid > 1,
        b.process.oom_score > victim.process.oom_score,
        b.vm_rss_kib > 0,
        b.oom_score_adj != NEVER_KILL,
        !b.ignored,
    ensures
        next_victim(Some(victim), b) == Some(b),
{
}

/// With the same badness, an eligible candidate becomes the new victim
/// exactly if its resident memory is strictly greater; with the same memory
/// the victim chosen so far stays.
pub proof fn lemma_tie_break_by_rss(victim: Candidate, c: Candidate)
    requires
        c.process.oom_score == victim.process.oom_score,
        c.eligible(),
    ensures
        c.vm_rss_kib > victim.vm_rss_kib ==> next_victim(Some(victim), c) == Some(c),
        c.vm_rss_kib <= victim.vm_rss_kib ==> next_victim(Some(victim), c) == Some(victim),
{
}

/// A candidate that is not eligible never changes the victim: not a kernel
/// thread, not a process that has opted out, not one that matches an ignore
/// pattern.
pub proof fn lemma_ineligible_is_skipped(victim: Option<Candidate>, c: Candidate)
    requires
        !c.eligible(),
    ensures
        next_victim(victim, c) == victim,
{
}

/// The victim is eligible: it is not the first process of the system, has
/// resident memory, has not opted out and matches no ignore pattern.
pub proof fn lemma_victim_is_eligible(table: Seq<Candidate>)
    ensures
        victim_of(table) matches Some(v) ==> v.eligible(),
        victim_of(table) is None <==> forall|i: int|
            0 <= i < table.len() ==> !(#[trigger] table[i]).eligible(),
{
    lemma_victim_is_worst(table, table.len() as int);
    if victim_of(table) is Some {
        let v = victim_of(table).unwrap();
        let k = choose|k: int| is_worst_at(table, table.len() as int, k) && table[k] == v;
        assert(table[k].eligible());
    }
}

/// A process that has opted out with `NEVER_KILL` is never chosen, wherever
/// it stands in the table and even with the highest badness.
pub proof fn lemma_protected_never_chosen(table: Seq<Candidate>, i: int)
    requires
        0 <= i < table.len(),
        table[i].oom_score_adj == NEVER_KILL,
    ensures
        victim_of(table) != Some(table[i]),
{
    lemma_victim_is_eligible(table);
}

/// A process whose name matches an ignore pattern is never chosen, whatever
/// its badness.
pub proof fn lemma_ignored_never_chosen(table: Seq<Candidate>, i: int)
    requires
        0 <= i < table.len(),
        table[i].ignored,
    ensures
        victim_of(table) != Some(table[i]),
{
    lemma_victim_is_eligible(table);
}

/// A process whose name matches a pattern of the configured list comes out
/// of its examination as ignored, wherever in the list the pattern stands,
/// and so is never chosen.
pub proof fn lemma_match_is_ignored(
    pid: u32,
    files: Readings,
    page_size: i64,
    patterns: &[String],
    j: int,
)
    requires
        examined(pid, files, page_size, Some(patterns)) is Ok,
        matches_at(patterns@, decode_utf8(crate::text::trimmed(until_nul(files.comm@))), j),
    ensures
        examined(pid, files, page_size, Some(patterns)).unwrap().ignored,
        !examined(pid, files, page_size, Some(patterns)).unwrap().eligible(),
{
}

/// A process without resident memory, a kernel thread, is never chosen.
pub proof fn lemma_kernel_thread_never_chosen(table: Seq<Candidate>, i: int)
    requires
        0 <= i < table.len(),
        table[i].vm_rss_kib == 0,
    ensures
        victim_of(table) != Some(table[i]),
{
    lemma_victim_is_eligible(table);
}

/// The first process of the system is never chosen.
pub proof fn lemma_init_never_chosen(table: Seq<Candidate>)
    ensures
        victim_of(table) matches Some(v) ==> v.process.pid > 1,
{
    lemma_victim_is_eligible(table);
}

/// A candidate that is not eligible changes nothing wherever it stands: the
/// table with it has the victim of the table without it.
pub proof fn lemma_ineligible_changes_nothing(table: Seq<Candidate>, n: int, c: Candidate)
    requires
        0 <= n <= table.len(),
        !c.eligible(),
    ensures
        victim_of(table.insert(n, c)) == victim_of(table),
{
    lemma_insert_ineligible(table, n, c, table.len() as int);
}

proof fn lemma_insert_ineligible(table: Seq<Candidate>, n: int, c: Candidate, m: int)
    requires
        0 <= n <= m <= table.len(),
        !c.eligible(),
    ensures
        victim_among(table.insert(n, c), m + 1) == victim_among(table, m),
    decreases m,
{
    let longer = table.insert(n, c);
    if m > n {
        lemma_insert_ineligible(table, n, c, m - 1);
        assert(longer[m] == table[m - 1]);
    } else {
        assert(longer[n] == c);
        lemma_same_prefix(table, longer, n);
    }
}

proof fn lemma_same_prefix(a: Seq<Candidate>, b: Seq<Candidate>, n: int)
    requires
        0 <= n <= a.len(),
        n <= b.len(),
        forall|i: int| 0 <= i < n ==> a[i] == b[i],
    ensures
        victim_among(a, n) == victim_among(b, n),
    decreases n,
{
    if n > 0 {
        lemma_same_prefix(a, b, n - 1);
    }
}

/// The error that stands for `errno` after a signal could not be sent:
/// `EINVAL`, `EPERM`, `ESRCH`, or anything else.
pub open spec fn kill_error(errno: i32) -> Error {
    if errno == 22 {
        Error::InvalidSignal
    } else if errno == 1 {
        Error::NoPermission
    } else if errno == 3 {
        Error::ProcessNotFound(Origin::Kill)
    } else {
        Error::UnknownKill
    }
}

/// Reads the answer to the sending of a signal: `answer` is what the system
/// returned, `errno` the error number it left. An answer of -1 is a failure,
/// told apart by `errno`.
pub fn kill_process(answer: i32, errno: i32) -> (r: Result<(), Error>)
    ensures
        r == if answer == -1 {
            Err::<(), Error>(kill_error(errno))
        } else {
            Ok(())
        },
{
    if answer == -1 {
        return Err(
            if errno == einval() {
                Error::InvalidSignal
            } else if errno == eperm() {
                Error::NoPermission
            } else if errno == esrch() {
                Error::ProcessNotFound(Origin::Kill)
            } else {
                Error::UnknownKill
            },
        );
    }
    Ok(())
}

/// A signal that ends a process.
#[derive(Clone, Copy, Debug, PartialEq, Eq, Structural)]
pub enum Signal {
    /// Asks the process to end.
    Term,
    /// Ends the process.
    Kill,
}

impl Signal {
    /// The number of the signal.
    pub fn number(self) -> (r: i32)
        ensures
            r == match self {
                Signal::Term => 15i32,
                Signal::Kill => 9i32,
            },
    {
        match self {
            Signal::Term => sigterm(),
            Signal::Kill => sigkill(),
        }
    }
}

/// The time to wait before each look at the victim, in milliseconds.
pub const POLL_INTERVAL_MS: u64 = 500;

/// How many times the victim is looked at before giving up.
pub const MAX_POLLS: u8 = 20;

/// What whoever drives a termination does next.
#[derive(Clone, Copy, Debug, PartialEq, Eq, Structural)]
pub enum Step {
    /// Send `signal` to `target`, whatever comes of it; then do as for
    /// `Poll`.
    SignalAndPoll { target: i32, signal: Signal },
    /// Wait for `POLL_INTERVAL_MS`, look whether the victim is alive, and
    /// report it.
    Poll,
    /// The termination is over; the victim is gone, or not.
    Done(bool),
}

/// The termination of one victim: a request to end, a look at the victim
/// every half second, the signal that cannot be caught once the first look
/// finds it alive, and an end after `MAX_POLLS` looks.
#[derive(Clone, Copy, Debug, PartialEq, Eq, Structural)]
pub struct Terminator {
    /// The process to look at.
    pub pid: u32,
    /// Whom the signals go to: the victim, or its process group as a
    /// negative number.
    pub target: i32,
    /// How many looks were reported.
    pub polls: u8,
    /// Whether `Signal::Kill` was asked for.
    pub sigkill_sent: bool,
    /// How it ended, once it has.
    pub outcome: Option<bool>,
}

impl Terminator {
    /// Whether the signals go to one process or one process group, never to
    /// the first process, to the caller's own group or to everyone.
    pub open spec fn addressable(self) -> bool {
        self.target > 1 || self.target < -1
    }

    /// A termination that has not been started.
    pub open spec fn fresh(self) -> bool {
        self.polls == 0 && !self.sigkill_sent && self.outcome is None
    }

    /// The state after a look at the victim was reported.
    pub open spec fn after(self, alive: bool) -> Terminator {
        if self.outcome is Some || self.polls >= MAX_POLLS {
            self
        } else {
            Terminator {
                polls: (self.polls + 1) as u8,
                sigkill_sent: self.sigkill_sent || (alive && self.polls + 1 < MAX_POLLS),
                outcome: if !alive {
                    Some(true)
                } else if self.polls + 1 == MAX_POLLS {
                    Some(false)
                } else {
                    None
                },
                ..self
            }
        }
    }

    /// What to do once a look at the victim was reported.
    pub open spec fn step_after(self, alive: bool) -> Step {
        match self.outcome {
            Some(gone) => Step::Done(gone),
            None => if self.polls >= MAX_POLLS {
                Step::Done(false)
            } else if !alive {
                Step::Done(true)
            } else if self.polls + 1 == MAX_POLLS {
                Step::Done(false)
            } else if !self.sigkill_sent {
                Step::SignalAndPoll { target: self.target, signal: Signal::Kill }
            } else {
                Step::Poll
            },
        }
    }

    /// The state after the looks `answers[0]`, ..., `answers[n - 1]`.
    pub open spec fn after_all(self, answers: Seq<bool>, n: int) -> Terminator
        decreases n,
    {
        if n <= 0 {
            self
        } else {
            self.after_all(answers, n - 1).after(answers[n - 1])
        }
    }

    /// The steps of a termination whose looks at the victim give `answers`:
    /// the first step, then the step after each look.
    pub open spec fn steps(self, answers: Seq<bool>) -> Seq<Step> {
        Seq::new(
            answers.len() + 1,
            |i: int|
                if i == 0 {
                    Step::SignalAndPoll { target: self.target, signal: Signal::Term }
                } else {
                    self.after_all(answers, i - 1).step_after(answers[i - 1])
                },
        )
    }

    /// The first step: ask the victim to end.
    pub fn first(&self) -> (r: Step)
        ensures
            r == (Step::SignalAndPoll { target: self.target, signal: Signal::Term }),
    {
        Step::SignalAndPoll { target: self.target, signal: Signal::Term }
    }

    /// Takes the report of a look at the victim and says what to do next.
    ///
    /// A victim that is gone ends the termination with `Done(true)`. One
    /// that is alive is sent `Signal::Kill` after the first look and only
    /// then, and is looked at again, until the look of number `MAX_POLLS`
    /// ends the termination with `Done(false)`. Once over, the termination
    /// stays as it is and repeats its outcome.
    pub fn polled(&mut self, alive: bool) -> (r: Step)
        ensures
            *final(self) == old(self).after(alive),
            r == old(self).step_after(alive),
    {
        match self.outcome {
            Some(gone) => return Step::Done(gone),
            None => {},
        }
        if self.polls >= MAX_POLLS {
            return Step::Done(false);
        }
        self.polls = self.polls + 1;
        if !alive {
            self.outcome = Some(true);
            return Step::Done(true);
        }
        if self.polls == MAX_POLLS {
            self.outcome = Some(false);
            return Step::Done(false);
        }
        if !self.sigkill_sent {
            self.sigkill_sent = true;
            return Step::SignalAndPoll { target: self.target, signal: Signal::Kill };
        }
        Step::Poll
    }
}

/// Starts the termination of `process` alone.
///
/// Fails with `InvalidPidSupplied` exactly when the process is the first of
/// the system or its id is not one that a signal can be sent to.
pub fn kill_and_wait(process: &Process) -> (r: Result<Terminator, Error>)
    ensures
        r matches Ok(t) ==> t.fresh() && t.addressable(),
        r == if 1 < process.pid <= i32::MAX {
            Ok::<Terminator, Error>(
                Terminator {
                    pid: process.pid,
                    target: process.pid as i32,
                    polls: 0,
                    sigkill_sent: false,
                    outcome: None,
                },
            )
        } else {
            Err(Error::InvalidPidSupplied)
        },
{
    if process.pid <= 1 || process.pid > i32::MAX as u32 {
        return Err(Error::InvalidPidSupplied);
    }
    Ok(
        Terminator {
            pid: process.pid,
            target: process.pid as i32,
            polls: 0,
            sigkill_sent: false,
            outcome: None,
        },
    )
}

/// Starts the termination of the whole process group of `process`, given in
/// `group` the answer to the request for that group.
///
/// The signals go to the negated group id. Where the group id is not
/// greater than 1, its negative would address the caller's own group or
/// every process, not a group: the signals then go to the process alone.
///
/// Fails as `kill_and_wait` does; else with the error in `group`, if it is
/// one.
pub fn kill_process_group(process: &Process, group: Result<i32, Error>) -> (r: Result<
    Terminator,
    Error,
>)
    ensures
        r matches Ok(t) ==> t.fresh() && t.addressable(),
        r == if !(1 < process.pid <= i32::MAX) {
            Err::<Terminator, Error>(Error::InvalidPidSupplied)
        } else {
            match group {
                Err(e) => Err(e),
                Ok(pgid) => Ok(
                    Terminator {
                        pid: process.pid,
                        target: if pgid > 1 {
                            (-pgid) as i32
                        } else {
                            process.pid as i32
                        },
                        polls: 0,
                        sigkill_sent: false,
                        outcome: None,
                    },
                ),
            }
        },
{
    let alone = match kill_and_wait(process) {
        Ok(t) => t,
        Err(e) => return Err(e),
    };
    match group {
        Err(e) => Err(e),
        Ok(pgid) => if pgid > 1 {
            Ok(Terminator { target: -pgid, ..alone })
        } else {
            Ok(alone)
        },
    }
}

/// The signals that the first `n` of the steps ask for, in order.
pub open spec fn signals_among(steps: Seq<Step>, n: int) -> Seq<Signal>
    decreases n,
{
    if n <= 0 {
        Seq::empty()
    } else {
        match steps[n - 1] {
            Step::SignalAndPoll { signal, .. } => signals_among(steps, n - 1).push(signal),
            _ => signals_among(steps, n - 1),
        }
    }
}

/// The signals that the steps ask for, in order.
pub open spec fn signals(steps: Seq<Step>) -> Seq<Signal> {
    signals_among(steps, steps.len() as int)
}

proof fn lemma_no_more_signals(steps: Seq<Step>, from: int, n: int)
    requires
        0 <= from <= n <= steps.len(),
        forall|i: int| from <= i < n ==> !(#[trigger] steps[i] is SignalAndPoll),
    ensures
        signals_among(steps, n) == signals_among(steps, from),
    decreases n - from,
{
    if n > from {
        lemma_no_more_signals(steps, from, n - 1);
    }
}

/// While every look finds the victim alive, the termination goes on: after
/// `n` looks, fewer than `MAX_POLLS`, it has counted them and is not over,
/// and `Signal::Kill` was asked for exactly if there was a look.
pub proof fn lemma_alive_so_far(t: Terminator, answers: Seq<bool>, n: int)
    requires
        t.fresh(),
        0 <= n <= answers.len(),
        n < MAX_POLLS,
        forall|i: int| 0 <= i < n ==> answers[i],
    ensures
        t.after_all(answers, n) == (Terminator {
            polls: n as u8,
            sigkill_sent: n >= 1,
            outcome: None,
            ..t
        }),
    decreases n,
{
    if n > 0 {
        lemma_alive_so_far(t, answers, n - 1);
    }
}

/// A victim that never exits is sent `Signal::Term` once, then
/// `Signal::Kill` once, right after the first look, and nothing more; the
/// termination gives up with `Done(false)` at the look of number `MAX_POLLS`.
pub proof fn lemma_escalation_timing(t: Terminator, answers: Seq<bool>)
    requires
        t.fresh(),
        answers.len() == MAX_POLLS,
        forall|i: int| 0 <= i < answers.len() ==> answers[i],
    ensures
        t.steps(answers).len() == MAX_POLLS + 1,
        t.steps(answers)[0] == (Step::SignalAndPoll { target: t.target, signal: Signal::Term }),
        t.steps(answers)[1] == (Step::SignalAndPoll { target: t.target, signal: Signal::Kill }),
        forall|i: int| 2 <= i < MAX_POLLS ==> t.steps(answers)[i] == Step::Poll,
        t.steps(answers)[MAX_POLLS as int] == Step::Done(false),
        t.after_all(answers, MAX_POLLS as int).outcome == Some(false),
        t.after_all(answers, MAX_POLLS as int).polls == MAX_POLLS,
        forall|n: int| 0 <= n < MAX_POLLS ==> t.after_all(answers, n).outcome is None,
        signals(t.steps(answers)) == seq![Signal::Term, Signal::Kill],
{
    let steps = t.steps(answers);
    assert forall|i: int| 1 <= i <= MAX_POLLS implies steps[i] == (if i == 1 {
        Step::SignalAndPoll { target: t.target, signal: Signal::Kill }
    } else if i < MAX_POLLS {
        Step::Poll
    } else {
        Step::Done(false)
    }) by {
        lemma_alive_so_far(t, answers, i - 1);
    }
    lemma_alive_so_far(t, answers, MAX_POLLS - 1);
    assert forall|n: int| 0 <= n < MAX_POLLS implies t.after_all(answers, n).outcome is None by {
        lemma_alive_so_far(t, answers, n);
    }
    assert(signals_among(steps, 2) =~= seq![Signal::Term, Signal::Kill]) by {
        reveal_with_fuel(signals_among, 3);
    }
    lemma_no_more_signals(steps, 2, steps.len() as int);
}

/// A victim that is gone at the first look ends the termination with
/// `Done(true)`, and `Signal::Kill` is never asked for, whatever is reported
/// afterwards.
pub proof fn lemma_escalation_avoided(t: Terminator, answers: Seq<bool>)
    requires
        t.fresh(),
        answers.len() >= 1,
        !answers[0],
    ensures
        t.steps(answers)[0] == (Step::SignalAndPoll { target: t.target, signal: Signal::Term }),
        forall|i: int| 1 <= i <= answers.len() ==> t.steps(answers)[i] == Step::Done(true),
        forall|n: int| 1 <= n <= answers.len() ==> !t.after_all(answers, n).sigkill_sent,
        forall|n: int| 1 <= n <= answers.len() ==> t.after_all(answers, n).polls == 1,
        signals(t.steps(answers)) == seq![Signal::Term],
{
    assert forall|n: int| 1 <= n <= answers.len() implies t.after_all(answers, n) == (Terminator {
        polls: 1,
        outcome: Some(true),
        ..t
    }) by {
        lemma_gone_at_first_look(t, answers, n);
    }
    assert forall|i: int| 1 <= i <= answers.len() implies t.steps(answers)[i] == Step::Done(
        true,
    ) by {
        if i > 1 {
            lemma_gone_at_first_look(t, answers, i - 1);
        }
    }
    let steps = t.steps(answers);
    assert(signals_among(steps, 1) =~= seq![Signal::Term]) by {
        reveal_with_fuel(signals_among, 2);
    }
    lemma_no_more_signals(steps, 1, steps.len() as int);
}

proof fn lemma_gone_at_first_look(t: Terminator, answers: Seq<bool>, n: int)
    requires
        t.fresh(),
        1 <= n <= answers.len(),
        !answers[0],
    ensures
        t.after_all(answers, n) == (Terminator { polls: 1, outcome: Some(true), ..t }),
    decreases n,
{
    if n > 1 {
        lemma_gone_at_first_look(t, answers, n - 1);
    } else {
        assert(t.after_all(answers, 0) == t);
    }
}

/// A termination keeps the addresses it was started with: every signal
/// goes where the first one went.
pub proof fn lemma_addresses_stay(t: Terminator, alive: bool)
    ensures
        t.after(alive).pid == t.pid,
        t.after(alive).target == t.target,
        t.step_after(alive) matches Step::SignalAndPoll { target, .. } ==> target == t.target,
{
}

} // verus!
