//! Bytes as text: runs of bytes, trimming, words and decimal numbers.

use vstd::prelude::*;

verus! {

/// A set of bytes that scanning tells apart from the rest.
#[derive(Clone, Copy, Debug, PartialEq, Eq, Structural)]
pub enum ByteSet {
    /// Space, tab, line feed, form feed and carriage return: what separates words.
    Space,
    /// The decimal digits.
    Digit,
    /// One byte.
    Only(u8),
}

impl ByteSet {
    /// Whether `b` belongs to the set.
    pub open spec fn has(self, b: u8) -> bool {
        match self {
            ByteSet::Space => b == 0x20 || b == 0x09 || b == 0x0a || b == 0x0c || b == 0x0d,
            ByteSet::Digit => 0x30 <= b && b <= 0x39,
            ByteSet::Only(x) => b == x,
        }
    }

    /// Whether `b` belongs to the set.
    pub fn contains(&self, b: u8) -> (r: bool)
        ensures
            r == self.has(b),
    {
        match self {
            ByteSet::Space => b == 0x20 || b == 0x09 || b == 0x0a || b == 0x0c || b == 0x0d,
            ByteSet::Digit => 0x30 <= b && b <= 0x39,
            ByteSet::Only(x) => b == *x,
        }
    }
}

/// `end` is where the run that starts at `from` stops: every byte of `s` from
/// `from` up to `end` is in `set` exactly if `inside`, and the byte at `end`,
/// if there is one, is not.
pub open spec fn is_span_end(s: Seq<u8>, from: int, end: int, set: ByteSet, inside: bool) -> bool {
    &&& 0 <= from <= end <= s.len()
    &&& forall|j: int| from <= j < end ==> set.has(#[trigger] s[j]) == inside
    &&& end < s.len() ==> set.has(s[end]) != inside
}

/// Where the run that starts at `from` stops (see [`is_span_end`]).
pub open spec fn span_end(s: Seq<u8>, from: int, set: ByteSet, inside: bool) -> int {
    choose|end: int| is_span_end(s, from, end, set, inside)
}

/// A run stops in one place only.
pub proof fn lemma_span_end_unique(s: Seq<u8>, from: int, end: int, set: ByteSet, inside: bool)
    requires
        is_span_end(s, from, end, set, inside),
    ensures
        span_end(s, from, set, inside) == end,
{
    let c = span_end(s, from, set, inside);
    assert(is_span_end(s, from, c, set, inside));
    if c < end {
        assert(set.has(s[c]) == inside);
    } else if end < c {
        assert(set.has(s[end]) == inside);
    }
}

/// Every run that starts inside the text stops somewhere.
pub proof fn lemma_span_end_exists(s: Seq<u8>, from: int, set: ByteSet, inside: bool)
    requires
        0 <= from <= s.len(),
    ensures
        is_span_end(s, from, span_end(s, from, set, inside), set, inside),
    decreases s.len() - from,
{
    if from < s.len() && set.has(s[from]) == inside {
        lemma_span_end_exists(s, from + 1, set, inside);
        let e = span_end(s, from + 1, set, inside);
        assert(is_span_end(s, from, e, set, inside));
    } else {
        assert(is_span_end(s, from, from, set, inside));
    }
}

/// Scans `buf` from `from` for the end of the run of bytes that are in `set`
/// (`inside`) or out of it (`!inside`).
pub fn scan(buf: &[u8], from: usize, set: ByteSet, inside: bool) -> (end: usize)
    requires
        from <= buf@.len(),
    ensures
        is_span_end(buf@, from as int, end as int, set, inside),
        end == span_end(buf@, from as int, set, inside),
{
    let mut i: usize = from;
    while i < buf.len() && set.contains(buf[i]) == inside
        invariant
            from <= i <= buf@.len(),
            forall|j: int| from <= j < i ==> set.has(#[trigger] buf@[j]) == inside,
        decreases buf@.len() - i,
    {
        i += 1;
    }
    proof {
        lemma_span_end_unique(buf@, from as int, i as int, set, inside);
    }
    i
}

/// Whether the three bytes encode a white space character in UTF-8:
/// U+1680, U+2000 to U+200A, U+2028, U+2029, U+202F, U+205F or U+3000.
pub open spec fn is_wide_blank(a: u8, b: u8, c: u8) -> bool {
    ||| a == 0xe1 && b == 0x9a && c == 0x80
    ||| a == 0xe2 && b == 0x80 && (0x80 <= c <= 0x8a || c == 0xa8 || c == 0xa9 || c == 0xaf)
    ||| a == 0xe2 && b == 0x81 && c == 0x9f
    ||| a == 0xe3 && b == 0x80 && c == 0x80
}

/// How many bytes the white space character takes that is encoded in UTF-8
/// at index `i` of `s`; 0 where none stands there. White space is what
/// Unicode calls so: tab to carriage return and the space, in one byte;
/// U+0085 and U+00A0, in two; the wide ones, in three.
pub open spec fn blank_at(s: Seq<u8>, i: int) -> int {
    if i < 0 || i >= s.len() {
        0
    } else if s[i] == 0x20 || (0x09 <= s[i] <= 0x0d) {
        1
    } else if i + 1 < s.len() && s[i] == 0xc2 && (s[i + 1] == 0x85 || s[i + 1] == 0xa0) {
        2
    } else if i + 2 < s.len() && is_wide_blank(s[i], s[i + 1], s[i + 2]) {
        3
    } else {
        0
    }
}

/// How many bytes the white space character takes that ends just before
/// index `end` of `s` and does not start before `start`; 0 where there is
/// none.
pub open spec fn blank_before(s: Seq<u8>, start: int, end: int) -> int {
    if start <= end - 1 && blank_at(s, end - 1) == 1 {
        1
    } else if start <= end - 2 && blank_at(s, end - 2) == 2 {
        2
    } else if start <= end - 3 && blank_at(s, end - 3) == 3 {
        3
    } else {
        0
    }
}

/// Where the text from `i` on starts once leading white space is removed.
pub open spec fn trim_start_from(s: Seq<u8>, i: int) -> int
    decreases s.len() - i,
{
    if blank_at(s, i) > 0 {
        trim_start_from(s, i + blank_at(s, i))
    } else {
        i
    }
}

/// Where the text between `start` and `end` stops once trailing white space
/// is removed.
pub open spec fn trim_end_from(s: Seq<u8>, start: int, end: int) -> int
    decreases end - start,
{
    if blank_before(s, start, end) > 0 {
        trim_end_from(s, start, end - blank_before(s, start, end))
    } else {
        end
    }
}

/// Where the text starts once leading white space is removed.
pub open spec fn trim_start(s: Seq<u8>) -> int {
    trim_start_from(s, 0)
}

/// Where the text stops once trailing white space is removed.
pub open spec fn trim_end(s: Seq<u8>) -> int {
    trim_end_from(s, trim_start(s), s.len() as int)
}

/// The text without the white space at its start and at its end.
pub open spec fn trimmed(s: Seq<u8>) -> Seq<u8> {
    s.subrange(trim_start(s), trim_end(s))
}

fn is_wide(a: u8, b: u8, c: u8) -> (r: bool)
    ensures
        r == is_wide_blank(a, b, c),
{
    (a == 0xe1 && b == 0x9a && c == 0x80) || (a == 0xe2 && b == 0x80 && ((0x80 <= c && c <= 0x8a)
        || c == 0xa8 || c == 0xa9 || c == 0xaf)) || (a == 0xe2 && b == 0x81 && c == 0x9f) || (a
        == 0xe3 && b == 0x80 && c == 0x80)
}

/// How many bytes the white space character at index `i` of `buf` takes; 0
/// where none stands there.
pub fn blank_len(buf: &[u8], i: usize) -> (r: usize)
    ensures
        r == blank_at(buf@, i as int),
        r <= 3,
        i + r <= buf@.len() || r == 0,
{
    let n = buf.len();
    if i >= n {
        0
    } else if buf[i] == 0x20 || (0x09 <= buf[i] && buf[i] <= 0x0d) {
        1
    } else if n - i > 1 && buf[i] == 0xc2 && (buf[i + 1] == 0x85 || buf[i + 1] == 0xa0) {
        2
    } else if n - i > 2 && is_wide(buf[i], buf[i + 1], buf[i + 2]) {
        3
    } else {
        0
    }
}

fn blank_len_before(buf: &[u8], start: usize, end: usize) -> (r: usize)
    requires
        start <= end <= buf@.len(),
    ensures
        r == blank_before(buf@, start as int, end as int),
        start + r <= end,
{
    if end - start >= 1 && blank_len(buf, end - 1) == 1 {
        1
    } else if end - start >= 2 && blank_len(buf, end - 2) == 2 {
        2
    } else if end - start >= 3 && blank_len(buf, end - 3) == 3 {
        3
    } else {
        0
    }
}

/// Removes the white space at both ends of `buf`.
pub fn trim(buf: &[u8]) -> (r: &[u8])
    ensures
        r@ == trimmed(buf@),
{
    let n = buf.len();
    let mut start: usize = 0;
    loop
        invariant
            start <= buf@.len() == n,
            trim_start(buf@) == trim_start_from(buf@, start as int),
        ensures
            start <= buf@.len(),
            trim_start(buf@) == start,
        decreases buf@.len() - start,
    {
        let k = blank_len(buf, start);
        if k == 0 {
            break ;
        }
        start += k;
    }
    let mut end: usize = n;
    loop
        invariant
            start <= end <= buf@.len(),
            trim_end_from(buf@, start as int, buf@.len() as int) == trim_end_from(
                buf@,
                start as int,
                end as int,
            ),
        ensures
            start <= end <= buf@.len(),
            trim_end_from(buf@, start as int, buf@.len() as int) == end,
        decreases end - start,
    {
        let k = blank_len_before(buf, start, end);
        if k == 0 {
            break ;
        }
        end -= k;
    }
    vstd::slice::slice_subrange(buf, start, end)
}

/// The text up to its first line feed.
pub open spec fn first_line(s: Seq<u8>) -> Seq<u8> {
    s.subrange(0, span_end(s, 0, ByteSet::Only(0x0a), false))
}

/// The first line of `buf`, without its line feed.
pub fn first_line_of(buf: &[u8]) -> (r: &[u8])
    ensures
        r@ == first_line(buf@),
{
    let end = scan(buf, 0, ByteSet::Only(0x0a), false);
    vstd::slice::slice_subrange(buf, 0, end)
}

/// Where the word of index `k` starts; the length of the text if it has no
/// such word. Words are what `Space` separates.
pub open spec fn word_start(s: Seq<u8>, k: nat) -> int
    decreases k, 0nat,
{
    span_end(
        s,
        if k == 0 {
            0
        } else {
            word_end(s, (k - 1) as nat)
        },
        ByteSet::Space,
        true,
    )
}

/// Where the word of index `k` stops.
pub open spec fn word_end(s: Seq<u8>, k: nat) -> int
    decreases k, 1nat,
{
    span_end(s, word_start(s, k), ByteSet::Space, false)
}

/// The word of index `k`, counted from 0, if the text has that many.
pub open spec fn word(s: Seq<u8>, k: nat) -> Option<Seq<u8>> {
    if word_start(s, k) < word_end(s, k) {
        Some(s.subrange(word_start(s, k), word_end(s, k)))
    } else {
        None
    }
}

/// The word of index `k` of `buf`, counted from 0.
pub fn nth_word(buf: &[u8], k: usize) -> (r: Option<&[u8]>)
    ensures
        match r {
            Some(w) => word(buf@, k as nat) == Some(w@),
            None => word(buf@, k as nat) is None,
        },
{
    let mut pos: usize = 0;
    let mut i: usize = 0;
    loop
        invariant
            i <= k,
            pos <= buf@.len(),
            pos == if i == 0 {
                0
            } else {
                word_end(buf@, (i - 1) as nat)
            },
        decreases k - i,
    {
        let start = scan(buf, pos, ByteSet::Space, true);
        let end = scan(buf, start, ByteSet::Space, false);
        assert(start == word_start(buf@, i as nat));
        assert(end == word_end(buf@, i as nat));
        if i == k {
            if start < end {
                return Some(vstd::slice::slice_subrange(buf, start, end));
            } else {
                return None;
            }
        }
        pos = end;
        i += 1;
    }
}

/// The number that a run of decimal digits denotes.
pub open spec fn digits_value(s: Seq<u8>) -> nat
    decreases s.len(),
{
    if s.len() == 0 {
        0
    } else {
        digits_value(s.drop_last()) * 10 + (s.last() - 0x30) as nat
    }
}

/// One decimal digit or more, and nothing else.
pub open spec fn is_number(s: Seq<u8>) -> bool {
    s.len() > 0 && forall|i: int| 0 <= i < s.len() ==> ByteSet::Digit.has(#[trigger] s[i])
}

/// Whether the text starts with a sign: `+`, or `-` where `signed`.
pub open spec fn has_sign(s: Seq<u8>, signed: bool) -> bool {
    s.len() > 0 && (s[0] == 0x2b || (signed && s[0] == 0x2d))
}

/// The integer that the whole text denotes: an optional sign, then one
/// decimal digit or more. `-` is a sign only where `signed`.
pub open spec fn decimal(s: Seq<u8>, signed: bool) -> Option<int> {
    let body = if has_sign(s, signed) {
        s.skip(1)
    } else {
        s
    };
    if !is_number(body) {
        None
    } else if has_sign(s, signed) && s[0] == 0x2d {
        Some(-(digits_value(body) as int))
    } else {
        Some(digits_value(body) as int)
    }
}

/// [`decimal`], where the integer lies between `lo` and `hi`.
pub open spec fn decimal_within(s: Seq<u8>, signed: bool, lo: int, hi: int) -> Option<int> {
    match decimal(s, signed) {
        Some(v) => if lo <= v <= hi {
            Some(v)
        } else {
            None
        },
        None => None,
    }
}

/// The digits read so far never denote more than all of them.
pub proof fn lemma_digits_value_prefix(s: Seq<u8>, n: int)
    requires
        0 <= n <= s.len(),
        forall|i: int| 0 <= i < s.len() ==> ByteSet::Digit.has(#[trigger] s[i]),
    ensures
        digits_value(s.subrange(0, n)) <= digits_value(s),
    decreases s.len() - n,
{
    if n == s.len() {
        assert(s.subrange(0, n) =~= s);
    } else {
        lemma_digits_value_prefix(s, n + 1);
        let t = s.subrange(0, n + 1);
        assert(t.drop_last() =~= s.subrange(0, n));
        assert(ByteSet::Digit.has(s[n]));
        assert(t.last() == s[n]);
    }
}

/// Reads the whole of `buf` as a decimal integer between `lo` and `hi`.
pub fn parse_decimal(buf: &[u8], signed: bool, lo: i64, hi: i64) -> (r: Option<i64>)
    ensures
        match r {
            Some(v) => decimal_within(buf@, signed, lo as int, hi as int) == Some(v as int),
            None => decimal_within(buf@, signed, lo as int, hi as int) is None,
        },
{
    let n = buf.len();
    let signed_here = n > 0 && (buf[0] == 0x2b || (signed && buf[0] == 0x2d));
    let negative = signed_here && buf[0] == 0x2d;
    let first: usize = if signed_here {
        1
    } else {
        0
    };
    let ghost body = buf@.subrange(first as int, n as int);
    proof {
        if signed_here {
            assert(body =~= buf@.skip(1));
        } else {
            assert(body =~= buf@);
        }
    }
    if first == n {
        return None;
    }
    if (negative && lo > 0) || (!negative && hi < 0) {
        return None;
    }
    let limit: u64 = if negative {
        (-(lo as i128)) as u64
    } else {
        hi as u64
    };
    let mut acc: u64 = 0;
    let mut i: usize = first;
    while i < n
        invariant
            first <= i <= n,
            n == buf@.len(),
            first < n,
            negative ==> lo <= 0,
            !negative ==> hi >= 0,
            body == buf@.subrange(first as int, n as int),
            body == if has_sign(buf@, signed) {
                buf@.skip(1)
            } else {
                buf@
            },
            negative == (has_sign(buf@, signed) && buf@[0] == 0x2d),
            limit == if negative {
                -lo
            } else {
                hi as int
            },
            forall|j: int| 0 <= j < i - first ==> ByteSet::Digit.has(#[trigger] body[j]),
            acc == digits_value(body.subrange(0, i - first)),
            acc <= limit,
        decreases n - i,
    {
        let b = buf[i];
        if !ByteSet::Digit.contains(b) {
            proof {
                assert(body[i - first] == b);
            }
            return None;
        }
        let next: u128 = acc as u128 * 10 + (b - 0x30) as u128;
        proof {
            let t = body.subrange(0, i + 1 - first);
            assert(t.drop_last() =~= body.subrange(0, i - first));
            assert(t.last() == b);
            assert(digits_value(t) == next);
            if next > limit {
                if is_number(body) {
                    lemma_digits_value_prefix(body, i + 1 - first);
                }
            }
        }
        if next > limit as u128 {
            return None;
        }
        acc = next as u64;
        i += 1;
    }
    proof {
        assert(body.subrange(0, n - first) =~= body);
        assert(is_number(body));
    }
    let value: i64 = if negative {
        (-(acc as i128)) as i64
    } else {
        acc as i64
    };
    if lo <= value && value <= hi {
        Some(value)
    } else {
        None
    }
}

} // verus!
