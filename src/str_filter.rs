//! The string predicate: wildcard matching with optional negation.
use vstd::prelude::*;
use crate::bytes::{first_at, find_byte};
use crate::PatternError;
use vstd::string::StringSliceAdditionalSpecFns;

verus! {

/// `s[j..]` matches `p[i..]`, where `*` in `p` stands for any run of bytes
/// and every other byte for itself.
pub open spec fn glob(p: Seq<u8>, s: Seq<u8>, i: int, j: int) -> bool
    decreases p.len() - i, s.len() - j,
{
    if i >= p.len() {
        j >= s.len()
    } else if p[i] == 42 {
        glob(p, s, i + 1, j) || (j < s.len() && glob(p, s, i, j + 1))
    } else {
        j < s.len() && p[i] == s[j] && glob(p, s, i + 1, j + 1)
    }
}

/// What a string pattern compiles to: whether it is negated (a leading `!`),
/// and the wildcard pattern that a value must match. A pattern without `*`
/// matches the values that contain it. Empty patterns are refused.
pub open spec fn str_pattern(s: Seq<u8>) -> Option<(bool, Seq<u8>)> {
    let negated = s.len() > 0 && s[0] == 33;
    let start: int = if negated {
        1
    } else {
        0
    };
    let body = s.subrange(start, s.len() as int);
    if body.len() == 0 {
        None
    } else if first_at(s, start, s.len() as int, 42) == s.len() {
        Some((negated, seq![42u8] + body + seq![42u8]))
    } else {
        Some((negated, body))
    }
}

/// Accepts the strings that match a wildcard pattern, or with `negated`
/// those that do not.
pub struct StrFilter {
    pub negated: bool,
    pub pattern: Vec<u8>,
}

fn glob_at(p: &Vec<u8>, s: &[u8], i: usize, j: usize) -> (r: bool)
    requires
        i <= p@.len(),
        j <= s@.len(),
    ensures
        r == glob(p@, s@, i as int, j as int),
    decreases p@.len() - i, s@.len() - j,
{
    if i >= p.len() {
        j >= s.len()
    } else if p[i] == 42 {
        glob_at(p, s, i + 1, j) || (j < s.len() && glob_at(p, s, i, j + 1))
    } else {
        j < s.len() && p[i] == s[j] && glob_at(p, s, i + 1, j + 1)
    }
}

impl StrFilter {
    /// Compiles a string pattern.
    pub fn new(pattern: &str) -> (r: Result<StrFilter, PatternError>)
        ensures
            match r {
                Ok(f) => str_pattern(pattern.spec_bytes()) == Some((f.negated, f.pattern@)),
                Err(e) => str_pattern(pattern.spec_bytes()) is None && e.pattern@ == pattern@,
            },
    {
        let s = pattern.as_bytes();
        let n = s.len();
        let negated = n > 0 && s[0] == 33;
        let start: usize = if negated {
            1
        } else {
            0
        };
        if start >= n {
            return Err(PatternError { pattern: pattern.to_owned() });
        }
        let wrap = find_byte(s, start, n, 42) == n;
        let mut body: Vec<u8> = Vec::new();
        if wrap {
            body.push(42);
        }
        let ghost first = body@;
        let mut i: usize = start;
        while i < n
            invariant
                start <= i <= n,
                n == s@.len(),
                body@ == first + s@.subrange(start as int, i as int),
            decreases n - i,
        {
            body.push(s[i]);
            i = i + 1;
            proof {
                assert(body@ =~= first + s@.subrange(start as int, i as int));
            }
        }
        if wrap {
            body.push(42);
        }
        proof {
            let bd = s@.subrange(start as int, n as int);
            if wrap {
                assert(body@ =~= seq![42u8] + bd + seq![42u8]);
            } else {
                assert(body@ =~= bd);
            }
        }
        Ok(StrFilter { negated, pattern: body })
    }

    /// True when `value` matches the pattern, or with `negated` when it does not.
    pub fn accepts(&self, value: &str) -> (r: bool)
        ensures
            r == (glob(self.pattern@, value.spec_bytes(), 0, 0) != self.negated),
    {
        glob_at(&self.pattern, value.as_bytes(), 0, 0) != self.negated
    }
}

} // verus!
