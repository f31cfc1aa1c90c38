use crate::error::Error;
use crate::text::{
    digits_value, first_line, first_line_of, nth_word, scan, span_end, trim, trimmed, word, ByteSet,
};
use crate::utils::{str_from_bytes, until_nul};
use vstd::prelude::*;
use vstd::utf8::valid_utf8;

verus! {

/// A share of time that tasks were stalled, in hundredths of a percent: the
/// kernel prints two decimals.
#[derive(Clone, Copy, Debug, PartialEq, Eq, Structural)]
pub struct Psi {
    pub hundredths: u32,
}

/// The digit at index `i` of `s`; 0 past its end.
pub open spec fn digit_or_zero(s: Seq<u8>, i: int) -> int {
    if 0 <= i < s.len() {
        s[i] - 0x30
    } else {
        0
    }
}

/// The hundredths that a decimal number denotes: one digit or more, then
/// optionally a dot and any number of digits, of which those after the
/// second are dropped. `None` where the text is no such number.
pub open spec fn hundredths_of(v: Seq<u8>) -> Option<int> {
    let dot = span_end(v, 0, ByteSet::Digit, true);
    let whole = digits_value(v.subrange(0, dot)) as int;
    if dot == 0 {
        None
    } else if dot == v.len() {
        Some(whole * 100)
    } else if v[dot] != 0x2e {
        None
    } else if span_end(v, dot + 1, ByteSet::Digit, true) != v.len() {
        None
    } else {
        Some(whole * 100 + digit_or_zero(v, dot + 1) * 10 + digit_or_zero(v, dot + 2))
    }
}

/// The bytes of `some`, the word that the line of interest starts with.
pub open spec fn some_word() -> Seq<u8> {
    seq![0x73u8, 0x6fu8, 0x6du8, 0x65u8]
}

/// The bytes of `avg10=`, which the value of interest follows.
pub open spec fn avg10_key() -> Seq<u8> {
    seq![0x61u8, 0x76u8, 0x67u8, 0x31u8, 0x30u8, 0x3du8]
}

/// The value of the field `avg10` on a line of the form
/// `some avg10=<value> ...`; `None` where the line is of another form.
pub open spec fn avg10_field(line: Seq<u8>) -> Option<Seq<u8>> {
    match (word(line, 0), word(line, 1)) {
        (Some(first), Some(second)) => if first == some_word() && second.len() >= 6
            && second.subrange(0, 6) == avg10_key() {
            Some(second.subrange(6, second.len() as int))
        } else {
            None
        },
        _ => None,
    }
}

/// What the contents of the memory pressure file say of the 10 second
/// average of the `some` line, which must be the first.
pub open spec fn some_avg10(contents: Seq<u8>) -> Result<Psi, Error> {
    let text = until_nul(contents);
    if !valid_utf8(text) {
        Err(Error::Unicode)
    } else {
        match avg10_field(first_line(text)) {
            None => Err(Error::MalformedPressureFile),
            Some(value) => match hundredths_of(trimmed(value)) {
                Some(h) => if h <= u32::MAX {
                    Ok(Psi { hundredths: h as u32 })
                } else {
                    Err(Error::MalformedPressureFile)
                },
                None => Err(Error::MalformedPressureFile),
            },
        }
    }
}

fn is_some_word(w: &[u8]) -> (r: bool)
    ensures
        r == (w@ == some_word()),
{
    let r = w.len() == 4 && w[0] == 0x73 && w[1] == 0x6f && w[2] == 0x6d && w[3] == 0x65;
    proof {
        if r {
            assert(w@ =~= some_word());
        } else if w@.len() == 4 {
            assert(some_word()[0] == 0x73 && some_word()[1] == 0x6f && some_word()[2] == 0x6d
                && some_word()[3] == 0x65);
        } else {
            assert(some_word().len() == 4);
        }
    }
    r
}

fn has_avg10_key(w: &[u8]) -> (r: bool)
    ensures
        r == (w@.len() >= 6 && w@.subrange(0, 6) == avg10_key()),
{
    let r = w.len() >= 6 && w[0] == 0x61 && w[1] == 0x76 && w[2] == 0x67 && w[3] == 0x31 && w[4]
        == 0x30 && w[5] == 0x3d;
    proof {
        if w@.len() >= 6 {
            let k = w@.subrange(0, 6);
            if r {
                assert(k =~= avg10_key());
            } else {
                assert(k[0] == w@[0] && k[1] == w@[1] && k[2] == w@[2] && k[3] == w@[3] && k[4]
                    == w@[4] && k[5] == w@[5]);
                assert(avg10_key()[0] == 0x61 && avg10_key()[1] == 0x76 && avg10_key()[2] == 0x67
                    && avg10_key()[3] == 0x31 && avg10_key()[4] == 0x30 && avg10_key()[5]
                    == 0x3d);
            }
        }
    }
    r
}

fn read_digit(v: &[u8], dot: usize, k: usize) -> (r: u64)
    requires
        dot < v@.len(),
        1 <= k <= 2,
        forall|j: int| dot < j < v@.len() ==> ByteSet::Digit.has(#[trigger] v@[j]),
    ensures
        r == digit_or_zero(v@, dot + k),
        r <= 9,
{
    if v.len() - dot > k {
        (v[dot + k] - 0x30) as u64
    } else {
        0
    }
}

/// Reads a decimal number with up to two decimals that count, in
/// hundredths.
pub fn parse_hundredths(v: &[u8]) -> (r: Option<u32>)
    ensures
        r == match hundredths_of(v@) {
            Some(h) => if h <= u32::MAX {
                Some(h as u32)
            } else {
                None
            },
            None => None,
        },
{
    let dot = scan(v, 0, ByteSet::Digit, true);
    if dot == 0 {
        return None;
    }
    let ghost digits = v@.subrange(0, dot as int);
    let mut whole: u64 = 0;
    let mut i: usize = 0;
    while i < dot
        invariant
            i <= dot <= v@.len(),
            digits == v@.subrange(0, dot as int),
            forall|j: int| 0 <= j < dot ==> ByteSet::Digit.has(#[trigger] v@[j]),
            whole == digits_value(digits.subrange(0, i as int)),
            whole <= u32::MAX,
            0 < dot == span_end(v@, 0, ByteSet::Digit, true),
        decreases dot - i,
    {
        let next = whole * 10 + (v[i] - 0x30) as u64;
        proof {
            let t = digits.subrange(0, i + 1);
            assert(t.drop_last() =~= digits.subrange(0, i as int));
            assert(t.last() == v@[i as int]);
            assert(digits_value(t) == next);
            if next > u32::MAX {
                assert(forall|j: int| 0 <= j < digits.len() ==> ByteSet::Digit.has(#[trigger] digits[j]));
                crate::text::lemma_digits_value_prefix(digits, i + 1);
                if dot < v@.len() {
                    crate::text::lemma_span_end_exists(v@, dot + 1, ByteSet::Digit, true);
                }
            }
        }
        if next > u32::MAX as u64 {
            return None;
        }
        whole = next;
        i += 1;
    }
    proof {
        assert(digits.subrange(0, dot as int) =~= digits);
    }
    let hundredths: u64 = if dot == v.len() {
        whole * 100
    } else if v[dot] != 0x2e {
        return None;
    } else {
        let end = scan(v, dot + 1, ByteSet::Digit, true);
        if end != v.len() {
            return None;
        }
        whole * 100 + read_digit(v, dot, 1) * 10 + read_digit(v, dot, 2)
    };
    if hundredths > u32::MAX as u64 {
        None
    } else {
        Some(hundredths as u32)
    }
}

/// The 10 second average of the `some` line of the memory pressure file,
/// given in `buf` what the file holds.
///
/// The first line must read `some avg10=<value>`, with more fields after it
/// or none, where the value is a decimal number. Fails with
/// `MalformedPressureFile` exactly when the text is of another form or the
/// value does not fit, and with `Unicode` exactly when the text is not UTF-8.
pub fn pressure_some_avg10(buf: &[u8]) -> (r: Result<Psi, Error>)
    ensures
        r == some_avg10(buf@),
{
    let text = match str_from_bytes(buf) {
        Ok(text) => text,
        Err(e) => return Err(e),
    };
    let first = first_line_of(text.as_bytes());
    let indicator = match nth_word(first, 0) {
        Some(w) => w,
        None => return Err(Error::MalformedPressureFile),
    };
    let entry = match nth_word(first, 1) {
        Some(w) => w,
        None => return Err(Error::MalformedPressureFile),
    };
    if !is_some_word(indicator) || !has_avg10_key(entry) {
        return Err(Error::MalformedPressureFile);
    }
    let value = vstd::slice::slice_subrange(entry, 6, entry.len());
    match parse_hundredths(trim(value)) {
        Some(hundredths) => Ok(Psi { hundredths }),
        None => Err(Error::MalformedPressureFile),
    }
}

} // verus!
