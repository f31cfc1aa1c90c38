use crate::error::{Error, Origin};
use crate::text::{decimal_within, nth_word, parse_decimal, trim, trimmed, word};
use crate::utils::{bytes_until_first_nil, str_from_bytes, until_nul, utf8_text};
use vstd::prelude::*;
use vstd::string::StringSliceAdditionalSpecFns;
use vstd::utf8::{decode_utf8, encode_utf8_decode_utf8, valid_utf8};

verus! {

/// `glob::Pattern`, a compiled glob pattern.
#[verifier::external_type_specification]
#[verifier::external_body]
pub struct ExPattern(glob::Pattern);

/// `glob::PatternError`, which says why a text is no glob pattern.
#[verifier::external_type_specification]
#[verifier::external_body]
pub struct ExPatternError(glob::PatternError);

/// What `glob::Pattern::new` makes of a text: a compiled pattern, or nothing
/// where the text is not a valid glob.
pub uninterp spec fn compiled(text: Seq<char>) -> Option<glob::Pattern>;

/// What `glob::Pattern::matches` answers for a compiled pattern and a text.
pub uninterp spec fn pattern_matches(pattern: glob::Pattern, text: Seq<char>) -> bool;

/// `glob::Pattern::new` compiles a text, or refuses it; what it answers
/// depends on the text alone.
pub assume_specification[ glob::Pattern::new ](pattern: &str) -> (r: Result<
    glob::Pattern,
    glob::PatternError,
>)
    ensures
        match r {
            Ok(p) => compiled(pattern@) == Some(p),
            Err(_) => compiled(pattern@) is None,
        },
;

/// `glob::Pattern::matches` says whether the whole of a text matches the
/// pattern, case counting; what it answers depends on the two alone.
pub assume_specification[ glob::Pattern::matches ](pattern: &glob::Pattern, text: &str) -> (r:
    bool)
    ensures
        r == pattern_matches(*pattern, text@),
;

/// One process, as a scan of the process table records it.
#[derive(Clone, Copy, Debug, PartialEq, Eq, Structural)]
pub struct Process {
    pub pid: u32,
    /// The badness that the kernel computed: the higher, the sooner killed.
    pub oom_score: i16,
}

impl Default for Process {
    fn default() -> (r: Self)
        ensures
            r == (Process { pid: 0, oom_score: 0 }),
    {
        Process { pid: 0, oom_score: 0 }
    }
}

/// The number that a file of `/proc` holding one small integer gives: the
/// text before the first NUL byte, trimmed, read as a decimal integer of 16
/// bits.
pub open spec fn small_number(contents: Seq<u8>) -> Result<i16, Error> {
    let text = until_nul(contents);
    if !valid_utf8(text) {
        Err(Error::Unicode)
    } else {
        match decimal_within(trimmed(text), true, i16::MIN as int, i16::MAX as int) {
            Some(v) => Ok(v as i16),
            None => Err(Error::ParseInt),
        }
    }
}

/// The quotient of `a` by `b`, rounded towards zero.
pub open spec fn quotient(a: int, b: int) -> int
    recommends
        b > 0,
{
    if a >= 0 {
        a / b
    } else {
        -((-a) / b)
    }
}

/// The resident memory, in KiB, that the contents of `statm` give for pages
/// of `page_size` bytes: the second column, a number of pages, times the page
/// size, divided by 1024.
pub open spec fn resident_kib(contents: Seq<u8>, page_size: i64) -> Result<i64, Error> {
    let text = until_nul(contents);
    if !valid_utf8(text) {
        Err(Error::Unicode)
    } else {
        match word(text, 1) {
            None => Err(Error::MalformedStatm),
            Some(column) => match decimal_within(column, true, i64::MIN as int, i64::MAX as int) {
                None => Err(Error::ParseInt),
                Some(pages) => if i64::MIN <= pages * page_size <= i64::MAX {
                    Ok(quotient(pages * page_size, 1024) as i64)
                } else {
                    Err(Error::MalformedStatm)
                },
            },
        }
    }
}

/// What one pattern settles, given whether it is a valid glob and whether
/// it matches the name: a pattern that is no valid glob ends the search with
/// `GlobPattern`, one that matches ends it with `true`, and one that does not
/// match settles nothing.
pub open spec fn pattern_says(valid: bool, matched: bool) -> Option<Result<bool, Error>> {
    if !valid {
        Some(Err(Error::GlobPattern))
    } else if matched {
        Some(Ok(true))
    } else {
        None
    }
}

/// What one pattern settles (see [`pattern_says`]): the answer of the
/// search, or `None` where the search goes on with the next pattern.
pub fn hold_against(valid: bool, matched: bool) -> (r: Option<Result<bool, Error>>)
    ensures
        r == pattern_says(valid, matched),
{
    if !valid {
        Some(Err(Error::GlobPattern))
    } else if matched {
        Some(Ok(true))
    } else {
        None
    }
}

/// Whether `name` matches one of `patterns` from index `from` on, taken in
/// order: the first pattern that settles something gives the answer, and
/// where none does the answer is `false`.
pub open spec fn matches_any(patterns: Seq<String>, name: Seq<char>, from: int) -> Result<
    bool,
    Error,
>
    decreases patterns.len() - from,
{
    if from < 0 || from >= patterns.len() {
        Ok(false)
    } else {
        let pattern = compiled(patterns[from]@);
        match pattern_says(
            pattern is Some,
            pattern is Some && pattern_matches(pattern.unwrap(), name),
        ) {
            Some(answer) => answer,
            None => matches_any(patterns, name, from + 1),
        }
    }
}

/// Whether the name that a `comm` file holds, trimmed, matches one of
/// `patterns`.
pub open spec fn unkillable(comm: Seq<u8>, patterns: Seq<String>) -> Result<bool, Error> {
    let name = trimmed(until_nul(comm));
    if !valid_utf8(name) {
        Err(Error::Unicode)
    } else {
        matches_any(patterns, decode_utf8(name), 0)
    }
}

/// Whether the pattern at index `j` of the list is a valid glob that matches
/// `name`.
pub open spec fn matches_at(patterns: Seq<String>, name: Seq<char>, j: int) -> bool {
    &&& 0 <= j < patterns.len()
    &&& compiled(patterns[j]@) is Some
    &&& pattern_matches(compiled(patterns[j]@).unwrap(), name)
}

/// Whether the name that a `comm` file holds, trimmed, is on the ignore
/// list: some pattern of the list is a valid glob and matches it, wherever
/// in the list it stands and whatever stands beside it.
pub open spec fn on_ignore_list(comm: Seq<u8>, patterns: Seq<String>) -> Result<bool, Error> {
    let name = trimmed(until_nul(comm));
    if !valid_utf8(name) {
        Err(Error::Unicode)
    } else {
        Ok(exists|j: int| matches_at(patterns, decode_utf8(name), j))
    }
}

/// A name that the search in order finds to match is on the ignore list.
pub proof fn lemma_unkillable_is_ignored(patterns: Seq<String>, name: Seq<char>, from: int)
    requires
        0 <= from,
        matches_any(patterns, name, from) == Ok::<bool, Error>(true),
    ensures
        exists|j: int| from <= j && matches_at(patterns, name, j),
    decreases patterns.len() - from,
{
    if from < patterns.len() {
        let pattern = compiled(patterns[from]@);
        if pattern is Some && pattern_matches(pattern.unwrap(), name) {
            assert(matches_at(patterns, name, from));
        } else {
            lemma_unkillable_is_ignored(patterns, name, from + 1);
        }
    }
}

fn read_small_number(buf: &[u8]) -> (r: Result<i16, Error>)
    ensures
        r == small_number(buf@),
{
    let text = match str_from_bytes(buf) {
        Ok(text) => text,
        Err(e) => return Err(e),
    };
    match parse_decimal(trim(text.as_bytes()), true, i16::MIN as i64, i16::MAX as i64) {
        Some(v) => Ok(v as i16),
        None => Err(Error::ParseInt),
    }
}

impl Process {
    /// The record of process `pid`, given in `buf` what its `oom_score` file
    /// holds.
    ///
    /// Fails with `ProcessNotFound` exactly when `buf` does not hold a score.
    pub fn from_pid(pid: u32, buf: &[u8]) -> (r: Result<Self, Error>)
        ensures
            r == match small_number(buf@) {
                Ok(oom_score) => Ok(Process { pid, oom_score }),
                Err(_) => Err(Error::ProcessNotFound(Origin::FromPid)),
            },
    {
        match Self::oom_score_from_pid(buf) {
            Ok(oom_score) => Ok(Process { pid, oom_score }),
            Err(_) => Err(Error::ProcessNotFound(Origin::FromPid)),
        }
    }

    /// Whether the process is alive, given the answer to a request for its
    /// process group: a positive group says that the process id is taken, by
    /// a running process or by one that has exited and was not reaped yet.
    pub fn is_alive(group_id: i32) -> (r: bool)
        ensures
            r == (group_id > 0),
    {
        group_id > 0
    }

    /// The name of the process, given in `buf` what its `comm` file holds:
    /// the text before the first NUL byte, not trimmed.
    ///
    /// Fails with `Error::Unicode` exactly when that is not UTF-8.
    pub fn comm(buf: &[u8]) -> (r: Result<&str, Error>)
        ensures
            match r {
                Ok(s) => valid_utf8(until_nul(buf@)) && s.spec_bytes() == until_nul(buf@),
                Err(e) => e == Error::Unicode && !valid_utf8(until_nul(buf@)),
            },
    {
        str_from_bytes(buf)
    }

    /// The badness of a process, given in `buf` what its `oom_score` file
    /// holds.
    pub fn oom_score_from_pid(buf: &[u8]) -> (r: Result<i16, Error>)
        ensures
            r == small_number(buf@),
    {
        read_small_number(buf)
    }

    /// The resident memory of a process in KiB, given in `buf` what its
    /// `statm` file holds and the size of a memory page in bytes.
    ///
    /// Fails with `MalformedStatm` where there is no second column or the
    /// memory does not fit in 64 bits, with `ParseInt` where the column is no
    /// number, with `Unicode` where the file is not UTF-8.
    pub fn vm_rss_kib(buf: &[u8], page_size: i64) -> (r: Result<i64, Error>)
        ensures
            r == resident_kib(buf@, page_size),
    {
        let text = match str_from_bytes(buf) {
            Ok(text) => text,
            Err(e) => return Err(e),
        };
        let column = match nth_word(text.as_bytes(), 1) {
            Some(column) => column,
            None => return Err(Error::MalformedStatm),
        };
        let pages = match parse_decimal(column, true, i64::MIN, i64::MAX) {
            Some(pages) => pages,
            None => return Err(Error::ParseInt),
        };
        match pages.checked_mul(page_size) {
            Some(bytes) => {
                if bytes >= 0 {
                    Ok(bytes / 1024)
                } else {
                    Ok((-((-(bytes as i128)) / 1024)) as i64)
                }
            },
            None => Err(Error::MalformedStatm),
        }
    }

    /// Whether the name of a process, given in `buf` what its `comm` file
    /// holds, matches one of the glob patterns.
    ///
    /// Fails with `Unicode` where the name is not UTF-8, and with
    /// `GlobPattern` where a pattern that is no valid glob comes before any
    /// that matches.
    pub fn is_unkillable(buf: &[u8], patterns: &[String]) -> (r: Result<bool, Error>)
        ensures
            r == unkillable(buf@, patterns@),
    {
        let comm = match utf8_text(trim(bytes_until_first_nil(buf))) {
            Some(comm) => comm,
            None => return Err(Error::Unicode),
        };
        proof {
            encode_utf8_decode_utf8(comm@);
        }
        let mut i: usize = 0;
        while i < patterns.len()
            invariant
                i <= patterns@.len(),
                valid_utf8(trimmed(until_nul(buf@))),
                comm@ == decode_utf8(trimmed(until_nul(buf@))),
                matches_any(patterns@, comm@, 0) == matches_any(patterns@, comm@, i as int),
            decreases patterns@.len() - i,
        {
            let (valid, matched) = match glob::Pattern::new(patterns[i].as_str()) {
                Ok(pattern) => (true, pattern.matches(comm)),
                Err(_) => (false, false),
            };
            match hold_against(valid, matched) {
                Some(answer) => return answer,
                None => {},
            }
            i += 1;
        }
        Ok(false)
    }

    /// Whether the name of a process, given in `buf` what its `comm` file
    /// holds, is on the ignore list: some pattern is a valid glob and
    /// matches it. A text of the list that is no valid glob matches nothing
    /// and takes nothing from the patterns around it.
    ///
    /// Fails with `Unicode` exactly when the name is not UTF-8.
    pub fn is_ignored(buf: &[u8], patterns: &[String]) -> (r: Result<bool, Error>)
        ensures
            r == on_ignore_list(buf@, patterns@),
    {
        let comm = match utf8_text(trim(bytes_until_first_nil(buf))) {
            Some(comm) => comm,
            None => return Err(Error::Unicode),
        };
        proof {
            encode_utf8_decode_utf8(comm@);
        }
        let mut i: usize = 0;
        while i < patterns.len()
            invariant
                i <= patterns@.len(),
                valid_utf8(trimmed(until_nul(buf@))),
                comm@ == decode_utf8(trimmed(until_nul(buf@))),
                forall|j: int| 0 <= j < i ==> !matches_at(patterns@, comm@, j),
            decreases patterns@.len() - i,
        {
            let (valid, matched) = match glob::Pattern::new(patterns[i].as_str()) {
                Ok(pattern) => (true, pattern.matches(comm)),
                Err(_) => (false, false),
            };
            match hold_against(valid, matched) {
                Some(Ok(true)) => {
                    assert(matches_at(patterns@, comm@, i as int));
                    return Ok(true);
                },
                _ => {},
            }
            i += 1;
        }
        Ok(false)
    }

    /// The adjustment to the badness of a process, given in `buf` what its
    /// `oom_score_adj` file holds.
    pub fn oom_score_adj(buf: &[u8]) -> (r: Result<i16, Error>)
        ensures
            r == small_number(buf@),
    {
        read_small_number(buf)
    }
}

} // verus!
