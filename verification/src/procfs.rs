//! The paths of the files under `/proc` that the daemon reads, written into
//! a buffer of the caller without any allocation.

use crate::error::Error;
use crate::text::{
    blank_at, blank_before, decimal, digits_value, has_sign, is_number, trim_end, trim_start,
    trimmed, ByteSet,
};
use vstd::prelude::*;
use vstd::string::StringSliceAdditionalSpecFns;

verus! {

/// A file that `/proc` holds for each process.
#[derive(Clone, Copy, Debug, PartialEq, Eq, Structural)]
pub enum ProcFile {
    Comm,
    OomScore,
    OomScoreAdj,
    Statm,
}

impl ProcFile {
    /// The name of the file.
    pub open spec fn name(self) -> &'static str {
        match self {
            ProcFile::Comm => "comm",
            ProcFile::OomScore => "oom_score",
            ProcFile::OomScoreAdj => "oom_score_adj",
            ProcFile::Statm => "statm",
        }
    }

    /// The name of the file.
    pub fn file_name(self) -> (r: &'static str)
        ensures
            r == self.name(),
    {
        match self {
            ProcFile::Comm => "comm",
            ProcFile::OomScore => "oom_score",
            ProcFile::OomScoreAdj => "oom_score_adj",
            ProcFile::Statm => "statm",
        }
    }
}

/// The decimal digits of `n`, as text.
pub open spec fn decimal_digits(n: nat) -> Seq<u8>
    decreases n,
{
    if n < 10 {
        seq![(0x30 + n) as u8]
    } else {
        decimal_digits(n / 10).push((0x30 + n % 10) as u8)
    }
}

/// The path of `file` for process `pid`, with the NUL byte that ends it:
/// `/proc/<pid>/<file>`.
pub open spec fn path_of(pid: u32, file: ProcFile) -> Seq<u8> {
    "/proc/".spec_bytes() + decimal_digits(pid as nat) + "/".spec_bytes() + file.name().spec_bytes()
        + seq![0u8]
}

/// What a buffer that held `before` holds once `text` was written at its
/// start: the text and, behind it, what was there; or as much of the text as
/// fits.
pub open spec fn overwritten(before: Seq<u8>, text: Seq<u8>) -> Seq<u8> {
    if text.len() <= before.len() {
        text + before.skip(text.len() as int)
    } else {
        text.take(before.len() as int)
    }
}

/// 10 to the power of `k`.
pub open spec fn pow10(k: nat) -> nat
    decreases k,
{
    if k == 0 {
        1
    } else {
        10 * pow10((k - 1) as nat)
    }
}

/// A number below 10 to the power of `k`, with `k` at least 1, has `k`
/// decimal digits at most.
pub proof fn lemma_decimal_digits_len(n: nat, k: nat)
    requires
        k >= 1,
        n < pow10(k),
    ensures
        1 <= decimal_digits(n).len() <= k,
    decreases n,
{
    if n >= 10 {
        assert(pow10(1) == 10) by {
            reveal_with_fuel(pow10, 2);
        }
        if k == 1 {
            assert(false);
        }
        lemma_decimal_digits_len(n / 10, (k - 1) as nat);
    }
}

/// The decimal digits of a number read back as that number, trimmed or not:
/// what is written into a path is what a scan reads off an entry's name.
pub proof fn lemma_decimal_digits_read_back(n: nat)
    ensures
        is_number(decimal_digits(n)),
        digits_value(decimal_digits(n)) == n,
        trimmed(decimal_digits(n)) == decimal_digits(n),
        decimal(decimal_digits(n), false) == Some(n as int),
    decreases n,
{
    let s = decimal_digits(n);
    if n >= 10 {
        lemma_decimal_digits_read_back(n / 10);
        let shorter = decimal_digits(n / 10);
        assert(s.drop_last() =~= shorter);
        assert(s.last() == (0x30 + n % 10) as u8);
        assert forall|i: int| 0 <= i < s.len() implies ByteSet::Digit.has(#[trigger] s[i]) by {
            if i < shorter.len() {
                assert(s[i] == shorter[i]);
            }
        }
        assert(s[0] == shorter[0]);
    } else {
        assert(s.drop_last() =~= Seq::<u8>::empty());
        assert(digits_value(s.drop_last()) == 0);
    }
    assert(ByteSet::Digit.has(s[0]));
    assert(!has_sign(s, false));
    assert(blank_at(s, 0) == 0);
    assert(trim_start(s) == 0);
    let n = s.len() as int;
    assert(ByteSet::Digit.has(s[n - 1]));
    if n >= 2 {
        assert(ByteSet::Digit.has(s[n - 2]));
    }
    if n >= 3 {
        assert(ByteSet::Digit.has(s[n - 3]));
    }
    assert(blank_before(s, 0, n) == 0);
    assert(trim_end(s) == n);
    assert(s.subrange(0, n) =~= s);
}

fn pid_digits(pid: u32) -> (r: ([u8; 10], usize))
    ensures
        r.1 < 10,
        r.0@.subrange(r.1 as int, 10) == decimal_digits(pid as nat),
{
    let mut digits: [u8; 10] = [0; 10];
    let mut i: usize = 9;
    let mut n: u32 = pid;
    proof {
        assert(pow10(10) == 10_000_000_000) by {
            reveal_with_fuel(pow10, 11);
        }
    }
    while n >= 10
        invariant
            i <= 9,
            n < pow10((i + 1) as nat),
            decimal_digits(pid as nat) == decimal_digits(n as nat) + digits@.subrange(i + 1, 10),
        decreases n,
    {
        proof {
            assert(pow10(1) == 10) by {
                reveal_with_fuel(pow10, 2);
            }
            if i == 0 {
                assert(false);
            }
        }
        digits[i] = 0x30 + (n % 10) as u8;
        proof {
            let low = digits@.subrange(i + 1, 10);
            assert(digits@.subrange(i as int, 10) =~= seq![(0x30 + n % 10) as u8] + low);
            assert(decimal_digits(n as nat) == decimal_digits((n / 10) as nat).push(
                (0x30 + n % 10) as u8,
            ));
            assert(decimal_digits((n / 10) as nat).push((0x30 + n % 10) as u8) + low
                =~= decimal_digits((n / 10) as nat) + digits@.subrange(i as int, 10));
        }
        n = n / 10;
        i = i - 1;
    }
    digits[i] = 0x30 + n as u8;
    proof {
        assert(decimal_digits(n as nat) + digits@.subrange(i + 1, 10) =~= digits@.subrange(
            i as int,
            10,
        ));
    }
    (digits, i)
}

fn append(
    buf: &mut [u8],
    pos: usize,
    bytes: &[u8],
    Ghost(before): Ghost<Seq<u8>>,
    Ghost(text): Ghost<Seq<u8>>,
) -> (end: usize)
    requires
        old(buf)@ == overwritten(before, text),
        pos == if text.len() <= before.len() {
            text.len()
        } else {
            before.len()
        },
    ensures
        final(buf)@ == overwritten(before, text + bytes@),
        end == if (text + bytes@).len() <= before.len() {
            (text + bytes@).len()
        } else {
            before.len()
        },
{
    let n = buf.len();
    let mut at: usize = pos;
    let mut j: usize = 0;
    while j < bytes.len() && at < n
        invariant
            j <= bytes@.len(),
            n == before.len(),
            buf@ == overwritten(before, text + bytes@.take(j as int)),
            at == if (text + bytes@.take(j as int)).len() <= before.len() {
                (text + bytes@.take(j as int)).len()
            } else {
                before.len()
            },
        decreases bytes@.len() - j,
    {
        let ghost so_far = text + bytes@.take(j as int);
        buf[at] = bytes[j];
        proof {
            let longer = text + bytes@.take(j + 1);
            assert(longer =~= so_far.push(bytes@[j as int]));
            assert(buf@ =~= overwritten(before, longer));
        }
        at += 1;
        j += 1;
    }
    proof {
        let so_far = text + bytes@.take(j as int);
        let all = text + bytes@;
        if j == bytes@.len() {
            assert(bytes@.take(j as int) =~= bytes@);
        } else {
            assert(so_far.len() >= before.len());
            assert(all.take(before.len() as int) =~= so_far.take(before.len() as int));
            assert(overwritten(before, so_far) =~= overwritten(before, all));
        }
    }
    at
}

/// Writes the path of `file` for process `pid` at the start of `buf`, with
/// the NUL byte that ends it, and returns its length.
///
/// Fails with `Error::Io` exactly when the path is longer than `buf`, which
/// then holds as much of the path as fits.
pub fn write_path(pid: u32, file: ProcFile, buf: &mut [u8]) -> (r: Result<usize, Error>)
    ensures
        final(buf)@ == overwritten(old(buf)@, path_of(pid, file)),
        r == if path_of(pid, file).len() <= old(buf)@.len() {
            Ok::<usize, Error>(path_of(pid, file).len() as usize)
        } else {
            Err(Error::Io)
        },
{
    let ghost before = buf@;
    let (digits, first) = pid_digits(pid);
    let name = file.file_name();
    let nul: [u8; 1] = [0];
    proof {
        assert(overwritten(before, Seq::<u8>::empty()) =~= before);
    }
    let ghost mut text = Seq::<u8>::empty();
    let mut end = append(buf, 0, "/proc/".as_bytes(), Ghost(before), Ghost(text));
    proof {
        text = text + "/proc/".spec_bytes();
    }
    end = append(
        buf,
        end,
        vstd::slice::slice_subrange(digits.as_slice(), first, 10),
        Ghost(before),
        Ghost(text),
    );
    proof {
        text = text + decimal_digits(pid as nat);
    }
    end = append(buf, end, "/".as_bytes(), Ghost(before), Ghost(text));
    proof {
        text = text + "/".spec_bytes();
    }
    end = append(buf, end, name.as_bytes(), Ghost(before), Ghost(text));
    proof {
        text = text + name.spec_bytes();
    }
    end = append(buf, end, nul.as_slice(), Ghost(before), Ghost(text));
    proof {
        text = text + seq![0u8];
        assert(nul@ =~= seq![0u8]);
        assert(text =~= path_of(pid, file));
        lemma_path_len(pid, file);
    }
    let total = 6 + (10 - first) + 1 + name.len() + 1;
    if total <= buf.len() {
        Ok(total)
    } else {
        Err(Error::Io)
    }
}

/// The parts of a path have the lengths that they show: a path is between 13
/// and 31 bytes long, so a buffer of 31 bytes or more holds every path.
pub proof fn lemma_path_len(pid: u32, file: ProcFile)
    ensures
        "/proc/".spec_bytes().len() == 6,
        "/".spec_bytes().len() == 1,
        file.name().spec_bytes().len() == match file {
            ProcFile::Comm => 4nat,
            ProcFile::OomScore => 9nat,
            ProcFile::OomScoreAdj => 13nat,
            ProcFile::Statm => 5nat,
        },
        path_of(pid, file).len() == 8 + decimal_digits(pid as nat).len() + file.name().spec_bytes().len(),
        13 <= path_of(pid, file).len() <= 31,
{
    broadcast use vstd::string::is_ascii_spec_bytes;

    reveal_strlit("/proc/");
    reveal_strlit("/");
    reveal_strlit("comm");
    reveal_strlit("oom_score");
    reveal_strlit("oom_score_adj");
    reveal_strlit("statm");
    assert(vstd::string::is_ascii("/proc/"));
    assert(vstd::string::is_ascii("/"));
    assert(vstd::string::is_ascii("comm"));
    assert(vstd::string::is_ascii("oom_score"));
    assert(vstd::string::is_ascii("oom_score_adj"));
    assert(vstd::string::is_ascii("statm"));
    assert(pow10(10) == 10_000_000_000) by {
        reveal_with_fuel(pow10, 11);
    }
    lemma_decimal_digits_len(pid as nat, 10);
}

} // verus!
