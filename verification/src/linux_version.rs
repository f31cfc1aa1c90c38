use crate::text::{decimal_within, parse_decimal, scan, span_end, ByteSet};
use std::cmp::Ordering;
use vstd::prelude::*;
use vstd::std_specs::cmp::PartialOrdSpecImpl;
use vstd::string::StringSliceAdditionalSpecFns;

verus! {

/// The major and minor number of a Linux release.
#[derive(Clone, Copy, Debug, PartialEq, Eq, Structural)]
pub struct LinuxVersion {
    pub major: u8,
    pub minor: u8,
}

/// The number between 0 and 255 that the bytes of `s` from `from` up to the
/// next dot denote, with the place of that dot. `None` where no dot follows
/// or what stands before it is no such number.
pub open spec fn component(s: Seq<u8>, from: int) -> Option<(u8, int)> {
    let dot = span_end(s, from, ByteSet::Only(0x2e), false);
    if dot >= s.len() {
        None
    } else {
        match decimal_within(s.subrange(from, dot), false, 0, 255) {
            Some(v) => Some((v as u8, dot)),
            None => None,
        }
    }
}

/// The version that a release string starts with: a major number, a dot, a
/// minor number and a dot. What follows the second dot is not looked at.
pub open spec fn version_of(s: Seq<u8>) -> Option<LinuxVersion> {
    match component(s, 0) {
        Some((major, dot)) => match component(s, dot + 1) {
            Some((minor, _)) => Some(LinuxVersion { major, minor }),
            None => None,
        },
        None => None,
    }
}

fn read_component(bytes: &[u8], from: usize) -> (r: Option<(u8, usize)>)
    requires
        from <= bytes@.len(),
    ensures
        match r {
            Some((v, dot)) => component(bytes@, from as int) == Some((v, dot as int)) && dot
                < bytes@.len(),
            None => component(bytes@, from as int) is None,
        },
{
    let dot = scan(bytes, from, ByteSet::Only(0x2e), false);
    if dot >= bytes.len() {
        return None;
    }
    match parse_decimal(vstd::slice::slice_subrange(bytes, from, dot), false, 0, 255) {
        Some(v) => Some((v as u8, dot)),
        None => None,
    }
}

impl LinuxVersion {
    /// Reads the major and the minor number off a release string such as
    /// `uname -r` prints: `5.16.18-1-MANJARO` gives 5 and 16.
    pub fn from_str(release: &str) -> (r: Option<Self>)
        ensures
            r == version_of(release.spec_bytes()),
    {
        let bytes = release.as_bytes();
        let n = bytes.len();
        match read_component(bytes, 0) {
            Some((major, dot)) => {
                assert(dot < n);
                match read_component(bytes, dot + 1) {
                    Some((minor, _)) => Some(LinuxVersion { major, minor }),
                    None => None,
                }
            },
            None => None,
        }
    }

    /// How two versions compare: by major number first, then by minor number.
    pub open spec fn compare(self, other: Self) -> Ordering {
        if self.major < other.major {
            Ordering::Less
        } else if self.major > other.major {
            Ordering::Greater
        } else if self.minor < other.minor {
            Ordering::Less
        } else if self.minor > other.minor {
            Ordering::Greater
        } else {
            Ordering::Equal
        }
    }
}

impl PartialOrd for LinuxVersion {
    fn partial_cmp(&self, other: &Self) -> (r: Option<Ordering>) {
        if self.major < other.major {
            Some(Ordering::Less)
        } else if self.major > other.major {
            Some(Ordering::Greater)
        } else if self.minor < other.minor {
            Some(Ordering::Less)
        } else if self.minor > other.minor {
            Some(Ordering::Greater)
        } else {
            Some(Ordering::Equal)
        }
    }
}

impl PartialOrdSpecImpl for LinuxVersion {
    open spec fn obeys_partial_cmp_spec() -> bool {
        true
    }

    open spec fn partial_cmp_spec(&self, other: &Self) -> Option<Ordering> {
        Some(self.compare(*other))
    }
}

} // verus!
