//! Scanning helpers over byte slices, stated against index ranges.
use vstd::prelude::*;

verus! {

pub open spec fn is_digit(b: u8) -> bool {
    48 <= b <= 57
}

/// Index of the first byte of `s[lo..hi)` equal to `c`, or `hi` when there is none.
pub open spec fn first_at(s: Seq<u8>, lo: int, hi: int, c: u8) -> int
    decreases hi - lo,
{
    if lo >= hi {
        hi
    } else if s[lo] == c {
        lo
    } else {
        first_at(s, lo + 1, hi, c)
    }
}

/// Index of the first non-digit byte of `s[lo..hi)`, or `hi` when there is none.
pub open spec fn digits_end(s: Seq<u8>, lo: int, hi: int) -> int
    decreases hi - lo,
{
    if lo >= hi {
        hi
    } else if !is_digit(s[lo]) {
        lo
    } else {
        digits_end(s, lo + 1, hi)
    }
}

/// Decimal value of the digits `s[lo..hi)`.
pub open spec fn decimal(s: Seq<u8>, lo: int, hi: int) -> nat
    decreases hi - lo,
{
    if hi <= lo {
        0
    } else {
        decimal(s, lo, hi - 1) * 10 + (s[hi - 1] - 48) as nat
    }
}

pub open spec fn pow10(n: nat) -> nat
    decreases n,
{
    if n == 0 {
        1
    } else {
        10 * pow10((n - 1) as nat)
    }
}

pub proof fn lemma_digits_end_bounds(s: Seq<u8>, lo: int, hi: int)
    requires
        lo <= hi,
    ensures
        lo <= digits_end(s, lo, hi) <= hi,
        forall|i: int| lo <= i < digits_end(s, lo, hi) ==> is_digit(#[trigger] s[i]),
    decreases hi - lo,
{
    if lo < hi && is_digit(s[lo]) {
        lemma_digits_end_bounds(s, lo + 1, hi);
    }
}

proof fn lemma_first_at_bounds(s: Seq<u8>, lo: int, hi: int, c: u8)
    requires
        lo <= hi,
    ensures
        lo <= first_at(s, lo, hi, c) <= hi,
        first_at(s, lo, hi, c) < hi ==> s[first_at(s, lo, hi, c)] == c,
    decreases hi - lo,
{
    if lo < hi && s[lo] != c {
        lemma_first_at_bounds(s, lo + 1, hi, c);
    }
}

pub proof fn lemma_first_at_absent(s: Seq<u8>, lo: int, hi: int, c: u8)
    requires
        forall|i: int| lo <= i < hi ==> s[i] != c,
    ensures
        first_at(s, lo, hi, c) == hi,
    decreases hi - lo,
{
    if lo < hi {
        lemma_first_at_absent(s, lo + 1, hi, c);
    }
}

/// Position of the first `c` in `s[lo..hi)`, or `hi`.
pub fn find_byte(s: &[u8], lo: usize, hi: usize, c: u8) -> (r: usize)
    requires
        lo <= hi <= s@.len(),
    ensures
        r == first_at(s@, lo as int, hi as int, c),
        lo <= r <= hi,
        r < hi ==> s@[r as int] == c,
{
    proof {
        lemma_first_at_bounds(s@, lo as int, hi as int, c);
    }
    let mut i: usize = lo;
    while i < hi
        invariant
            lo <= i <= hi,
            hi <= s@.len(),
            first_at(s@, i as int, hi as int, c) == first_at(s@, lo as int, hi as int, c),
        decreases hi - i,
    {
        if s[i] == c {
            return i;
        }
        i = i + 1;
    }
    i
}

/// Position of the first non-digit in `s[lo..hi)`, or `hi`.
pub fn skip_digits(s: &[u8], lo: usize, hi: usize) -> (r: usize)
    requires
        lo <= hi <= s@.len(),
    ensures
        r == digits_end(s@, lo as int, hi as int),
        lo <= r <= hi,
        forall|i: int| lo <= i < r ==> is_digit(#[trigger] s@[i]),
{
    proof {
        lemma_digits_end_bounds(s@, lo as int, hi as int);
    }
    let mut i: usize = lo;
    while i < hi
        invariant
            lo <= i <= hi,
            hi <= s@.len(),
            digits_end(s@, i as int, hi as int) == digits_end(s@, lo as int, hi as int),
            forall|k: int| lo <= k < i ==> is_digit(#[trigger] s@[k]),
        decreases hi - i,
    {
        if !(48 <= s[i] && s[i] <= 57) {
            return i;
        }
        i = i + 1;
    }
    i
}

/// Value of the decimal digits `s[lo..hi)`, at most four of them.
pub fn read_decimal(s: &[u8], lo: usize, hi: usize) -> (r: u32)
    requires
        lo <= hi <= s@.len(),
        hi - lo <= 4,
        forall|i: int| lo <= i < hi ==> is_digit(#[trigger] s@[i]),
    ensures
        r == decimal(s@, lo as int, hi as int),
        r < 10000,
{
    let mut v: u32 = 0;
    let mut i: usize = lo;
    assert(pow10(4) == 10000) by {
        reveal_with_fuel(pow10, 5);
    }
    while i < hi
        invariant
            lo <= i <= hi,
            hi <= s@.len(),
            hi - lo <= 4,
            forall|k: int| lo <= k < hi ==> is_digit(#[trigger] s@[k]),
            v == decimal(s@, lo as int, i as int),
            v < pow10((i - lo) as nat),
            pow10(4) == 10000,
        decreases hi - i,
    {
        let d = s[i] - 48;
        let ghost p = pow10((i - lo) as nat);
        proof {
            assert(is_digit(s@[i as int]));
            assert(v * 10 + d < p * 10) by (nonlinear_arith)
                requires
                    v < p,
                    d <= 9,
            ;
            assert(pow10((i + 1 - lo) as nat) == 10 * p);
            lemma_pow10_mono((i + 1 - lo) as nat, 4);
        }
        v = v * 10 + d as u32;
        i = i + 1;
    }
    proof {
        lemma_pow10_mono((hi - lo) as nat, 4);
    }
    v
}

proof fn lemma_pow10_mono(a: nat, b: nat)
    requires
        a <= b,
    ensures
        pow10(a) <= pow10(b),
    decreases b,
{
    if a < b {
        lemma_pow10_mono(a, (b - 1) as nat);
    }
}

} // verus!
