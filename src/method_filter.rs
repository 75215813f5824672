//! The HTTP-method predicate.
use vstd::prelude::*;
use vstd::string::StringSliceAdditionalSpecFns;

verus! {

/// ASCII letters in lower case; every other byte unchanged.
pub open spec fn fold_byte(b: u8) -> u8 {
    if 65 <= b <= 90 {
        (b + 32) as u8
    } else {
        b
    }
}

pub open spec fn fold(s: Seq<u8>) -> Seq<u8> {
    Seq::new(s.len(), |k: int| fold_byte(s[k]))
}

/// The folded names of the comma-separated items of `s[start..hi)`, where
/// the current item began at `start` and `s[start..i)` holds no comma.
pub open spec fn method_names(s: Seq<u8>, start: int, i: int, hi: int) -> Seq<Seq<u8>>
    decreases hi - i,
{
    if i >= hi {
        seq![fold(s.subrange(start, hi))]
    } else if s[i] == 44 {
        seq![fold(s.subrange(start, i))] + method_names(s, i + 1, i + 1, hi)
    } else {
        method_names(s, start, i + 1, hi)
    }
}

/// The names that a whole method pattern lists.
pub open spec fn method_pattern(s: Seq<u8>) -> Seq<Seq<u8>> {
    method_names(s, 0, 0, s.len() as int)
}

/// Accepts the methods that equal one of a list of names, whatever the case
/// of their letters.
pub struct MethodFilter {
    pub names: Vec<Vec<u8>>,
}

pub open spec fn names_view(names: Seq<Vec<u8>>) -> Seq<Seq<u8>> {
    Seq::new(names.len(), |k: int| names[k]@)
}

fn folded(s: &[u8], lo: usize, hi: usize) -> (r: Vec<u8>)
    requires
        lo <= hi <= s@.len(),
    ensures
        r@ == fold(s@.subrange(lo as int, hi as int)),
{
    let mut v: Vec<u8> = Vec::new();
    let mut i: usize = lo;
    while i < hi
        invariant
            lo <= i <= hi,
            hi <= s@.len(),
            v@ =~= fold(s@.subrange(lo as int, i as int)),
        decreases hi - i,
    {
        let b = s[i];
        v.push(if 65 <= b && b <= 90 { b + 32 } else { b });
        i = i + 1;
        assert(v@ =~= fold(s@.subrange(lo as int, i as int)));
    }
    v
}

fn names(s: &[u8], start: usize, i: usize, hi: usize) -> (r: Vec<Vec<u8>>)
    requires
        start <= i <= hi <= s@.len(),
    ensures
        names_view(r@) == method_names(s@, start as int, i as int, hi as int),
    decreases hi - i,
{
    if i >= hi {
        let v = vec![folded(s, start, hi)];
        assert(names_view(v@) =~= method_names(s@, start as int, i as int, hi as int));
        v
    } else if s[i] == 44 {
        let x = folded(s, start, i);
        let rest = names(s, i + 1, i + 1, hi);
        let ghost tail = rest@;
        let mut all = rest;
        all.insert(0, x);
        assert(names_view(all@) =~= seq![x@] + names_view(tail));
        all
    } else {
        names(s, start, i + 1, hi)
    }
}

fn equals_folded(name: &Vec<u8>, m: &[u8]) -> (r: bool)
    ensures
        r == (name@ == fold(m@)),
{
    if name.len() != m.len() {
        return false;
    }
    let mut k: usize = 0;
    while k < m.len()
        invariant
            k <= m@.len(),
            name@.len() == m@.len(),
            forall|j: int| 0 <= j < k ==> name@[j] == fold_byte(#[trigger] m@[j]),
        decreases m@.len() - k,
    {
        let b = m[k];
        let f = if 65 <= b && b <= 90 { b + 32 } else { b };
        if name[k] != f {
            assert(name@[k as int] != fold(m@)[k as int]);
            return false;
        }
        k = k + 1;
    }
    assert(name@ =~= fold(m@));
    true
}

impl MethodFilter {
    /// Compiles a comma-separated list of method names. Any text is taken:
    /// a name that is no HTTP method is compared like any other.
    pub fn from_str(pattern: &str) -> (r: MethodFilter)
        ensures
            names_view(r.names@) == method_pattern(pattern.spec_bytes()),
    {
        let s = pattern.as_bytes();
        MethodFilter { names: names(s, 0, 0, s.len()) }
    }

    /// True when `method` equals one of the names, letters compared without case.
    pub fn contains(&self, method: &str) -> (r: bool)
        ensures
            r == names_view(self.names@).contains(fold(method.spec_bytes())),
    {
        let m = method.as_bytes();
        let mut k: usize = 0;
        while k < self.names.len()
            invariant
                k <= self.names@.len(),
                m@ == method.spec_bytes(),
                forall|j: int| 0 <= j < k ==> self.names@[j]@ != fold(m@),
            decreases self.names@.len() - k,
        {
            if equals_folded(&self.names[k], m) {
                assert(names_view(self.names@)[k as int] == fold(m@));
                return true;
            }
            k = k + 1;
        }
        assert(!names_view(self.names@).contains(fold(m@))) by {
            if names_view(self.names@).contains(fold(m@)) {
                let j = choose|j: int| 0 <= j < names_view(self.names@).len() && names_view(self.names@)[j] == fold(m@);
                assert(self.names@[j]@ == fold(m@));
            }
        }
        false
    }
}

} // verus!
