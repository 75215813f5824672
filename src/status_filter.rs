//! The status-code predicate.
use vstd::prelude::*;
use crate::bytes::{decimal, digits_end, read_decimal, skip_digits};
use crate::PatternError;
use vstd::string::StringSliceAdditionalSpecFns;

verus! {

pub open spec fn is_x(b: u8) -> bool {
    b == 120 || b == 88
}

/// The codes that the item `s[lo..hi)` stands for, as an inclusive range:
/// `NNN` (one code), `Nxx` (the hundred codes of a class) or `NNN-NNN`.
pub open spec fn status_item(s: Seq<u8>, lo: int, hi: int) -> Option<(u16, u16)> {
    if hi - lo == 3 && digits_end(s, lo, hi) == hi {
        let c = decimal(s, lo, hi) as u16;
        Some((c, c))
    } else if hi - lo == 3 && digits_end(s, lo, lo + 1) == lo + 1 && is_x(s[lo + 1]) && is_x(
        s[lo + 2],
    ) {
        let c = (decimal(s, lo, lo + 1) * 100) as u16;
        Some((c, (c + 99) as u16))
    } else if hi - lo == 7 && digits_end(s, lo, hi) == lo + 3 && s[lo + 3] == 45 && digits_end(
        s,
        lo + 4,
        hi,
    ) == hi && decimal(s, lo, lo + 3) <= decimal(s, lo + 4, hi) {
        Some((decimal(s, lo, lo + 3) as u16, decimal(s, lo + 4, hi) as u16))
    } else {
        None
    }
}

/// The ranges of the comma-separated items of `s[start..hi)`, where the
/// current item began at `start` and `s[start..i)` holds no comma.
pub open spec fn status_items(s: Seq<u8>, start: int, i: int, hi: int) -> Option<Seq<(u16, u16)>>
    decreases hi - i,
{
    if i >= hi {
        match status_item(s, start, hi) {
            Some(r) => Some(seq![r]),
            None => None,
        }
    } else if s[i] == 44 {
        match (status_item(s, start, i), status_items(s, i + 1, i + 1, hi)) {
            (Some(r), Some(rest)) => Some(seq![r] + rest),
            _ => None,
        }
    } else {
        status_items(s, start, i + 1, hi)
    }
}

/// The ranges that a whole status pattern stands for.
pub open spec fn status_pattern(s: Seq<u8>) -> Option<Seq<(u16, u16)>> {
    status_items(s, 0, 0, s.len() as int)
}

pub open spec fn in_ranges(ranges: Seq<(u16, u16)>, status: u16) -> bool {
    exists|k: int| 0 <= k < ranges.len() && ranges[k].0 <= status <= #[trigger] ranges[k].1
}

/// Accepts the status codes of a set of inclusive ranges.
pub struct StatusFilter {
    pub ranges: Vec<(u16, u16)>,
}

fn item(s: &[u8], lo: usize, hi: usize) -> (r: Option<(u16, u16)>)
    requires
        lo <= hi <= s@.len(),
    ensures
        r == status_item(s@, lo as int, hi as int),
{
    if hi - lo == 3 && skip_digits(s, lo, hi) == hi {
        let c = read_decimal(s, lo, hi) as u16;
        return Some((c, c));
    }
    if hi - lo == 3 && skip_digits(s, lo, lo + 1) == lo + 1 && (s[lo + 1] == 120 || s[lo + 1]
        == 88) && (s[lo + 2] == 120 || s[lo + 2] == 88) {
        let d = read_decimal(s, lo, lo + 1);
        proof {
            assert(decimal(s@, lo as int, lo as int) == 0);
            assert(crate::bytes::is_digit(s@[lo as int]));
            assert(d == s@[lo as int] - 48);
        }
        let c = (d * 100) as u16;
        return Some((c, c + 99));
    }
    if hi - lo == 7 && skip_digits(s, lo, hi) == lo + 3 && s[lo + 3] == 45 && skip_digits(
        s,
        lo + 4,
        hi,
    ) == hi {
        let a = read_decimal(s, lo, lo + 3);
        let b = read_decimal(s, lo + 4, hi);
        if a <= b {
            return Some((a as u16, b as u16));
        }
    }
    None
}

fn items(s: &[u8], start: usize, i: usize, hi: usize) -> (r: Option<Vec<(u16, u16)>>)
    requires
        start <= i <= hi <= s@.len(),
    ensures
        match r {
            Some(v) => status_items(s@, start as int, i as int, hi as int) == Some(v@),
            None => status_items(s@, start as int, i as int, hi as int) is None,
        },
    decreases hi - i,
{
    if i >= hi {
        match item(s, start, hi) {
            Some(x) => Some(vec![x]),
            None => None,
        }
    } else if s[i] == 44 {
        match item(s, start, i) {
            Some(x) => match items(s, i + 1, i + 1, hi) {
                Some(rest) => {
                    let ghost tail = rest@;
                    let mut all = rest;
                    all.insert(0, x);
                    proof {
                        assert(all@ =~= seq![x] + tail);
                    }
                    Some(all)
                },
                None => None,
            },
            None => None,
        }
    } else {
        items(s, start, i + 1, hi)
    }
}

impl StatusFilter {
    /// Compiles a comma-separated list of codes, classes and ranges.
    pub fn from_str(pattern: &str) -> (r: Result<StatusFilter, PatternError>)
        ensures
            match r {
                Ok(f) => status_pattern(pattern.spec_bytes()) == Some(f.ranges@),
                Err(e) => status_pattern(pattern.spec_bytes()) is None && e.pattern@ == pattern@,
            },
    {
        let s = pattern.as_bytes();
        match items(s, 0, 0, s.len()) {
            Some(ranges) => Ok(StatusFilter { ranges }),
            None => Err(PatternError { pattern: pattern.to_owned() }),
        }
    }

    /// True when `status` lies in one of the ranges.
    pub fn accepts(&self, status: u16) -> (r: bool)
        ensures
            r == in_ranges(self.ranges@, status),
    {
        let mut k: usize = 0;
        while k < self.ranges.len()
            invariant
                k <= self.ranges@.len(),
                forall|j: int|
                    0 <= j < k ==> !(self.ranges@[j].0 <= status <= #[trigger] self.ranges@[j].1),
            decreases self.ranges@.len() - k,
        {
            let (lo, hi) = self.ranges[k];
            if lo <= status && status <= hi {
                return true;
            }
            k = k + 1;
        }
        false
    }
}

} // verus!
