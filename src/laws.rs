//! Laws of the filter chain, stated over the views that the contracts use.
use vstd::prelude::*;
use vstd::utf8::encode_utf8;
use crate::args::Args;
use crate::bytes::{decimal, digits_end, lemma_digits_end_bounds, lemma_first_at_absent};
use crate::date::{shared_year_month, Date};
use crate::filters::{
    all_accept, bumped, evaluated, fails, filter_accepts, first_rejecting, planned, slot,
    FilteringView,
};
use crate::log_line::LogLine;

verus! {

/// With no criterion configured nothing is built.
pub proof fn unconfigured_builds_nothing(args: Args, dy: Option<u16>, dm: Option<u8>)
    requires
        forall|k: int| 0 <= k < 6 ==> slot(args, k) is None,
    ensures
        planned(args, 6, dy, dm).len() == 0,
{
    assert(planned(args, 0, dy, dm).len() == 0);
    assert(planned(args, 1, dy, dm).len() == 0);
    assert(planned(args, 2, dy, dm).len() == 0);
    assert(planned(args, 3, dy, dm).len() == 0);
    assert(planned(args, 4, dy, dm).len() == 0);
    assert(planned(args, 5, dy, dm).len() == 0);
}

/// A chain without criteria keeps every record and changes nothing.
pub proof fn empty_chain_keeps_all(
    before: Seq<FilteringView>,
    line: LogLine,
    r: bool,
    after: Seq<FilteringView>,
)
    requires
        before.len() == 0,
        evaluated(before, line, r, after),
    ensures
        r,
        after == before,
{
}

/// With a single criterion the answer is that criterion's verdict, and its
/// count grows by one exactly when it rejects.
pub proof fn single_criterion_decides(
    before: Seq<FilteringView>,
    line: LogLine,
    r: bool,
    after: Seq<FilteringView>,
)
    requires
        before.len() == 1,
        before[0].removed_count < usize::MAX,
        evaluated(before, line, r, after),
    ensures
        r == filter_accepts(before[0].filter, line),
        after.len() == 1,
        after[0].pattern == before[0].pattern,
        after[0].filter == before[0].filter,
        after[0].removed_count == before[0].removed_count + if r {
            0int
        } else {
            1int
        },
{
    if r {
        assert(filter_accepts(before[0].filter, line));
    } else {
        let k = choose|k: int|
            first_rejecting(before, line, k) && after == before.update(k, bumped(before[k]));
        assert(k == 0);
    }
}

/// When the first of two criteria rejects a record, it alone counts it,
/// even where the second would reject it too.
pub proof fn first_rejection_counts_alone(
    before: Seq<FilteringView>,
    line: LogLine,
    r: bool,
    after: Seq<FilteringView>,
)
    requires
        before.len() == 2,
        before[0].removed_count < usize::MAX,
        !filter_accepts(before[0].filter, line),
        evaluated(before, line, r, after),
    ensures
        !r,
        after.len() == 2,
        after[0].removed_count == before[0].removed_count + 1,
        after[1] == before[1],
{
    assert(!all_accept(before, line));
    let k = choose|k: int|
        first_rejecting(before, line, k) && after == before.update(k, bumped(before[k]));
    assert(k == 0);
}

/// `s` reads `M-D`: a month and a day of one or two digits each, and no year.
pub open spec fn month_day_form(s: Seq<u8>) -> bool {
    let n = s.len() as int;
    let e1 = digits_end(s, 0, n);
    &&& 1 <= e1 <= 2
    &&& e1 < n
    &&& s[e1] == 45
    &&& digits_end(s, e1 + 1, n) == n
    &&& 1 <= n - (e1 + 1) <= 2
}

proof fn lemma_month_day_point(s: Seq<u8>)
    requires
        month_day_form(s),
    ensures
        crate::bytes::first_at(s, 0, s.len() as int, 46) == s.len(),
{
    let n = s.len() as int;
    let e1 = digits_end(s, 0, n);
    lemma_digits_end_bounds(s, 0, n);
    lemma_digits_end_bounds(s, e1 + 1, n);
    assert forall|i: int| 0 <= i < n implies s[i] != 46 by {
        if i < e1 {
            assert(crate::bytes::is_digit(s[i]));
        } else if i > e1 {
            assert(crate::bytes::is_digit(s[i]));
        }
    }
    lemma_first_at_absent(s, 0, n, 46);
}

/// A date pattern without a year cannot be compiled when the record dates
/// span more than one year.
pub proof fn yearless_date_needs_one_year(args: Args, p: String, first: Date, last: Date)
    requires
        args.date == Some(p),
        month_day_form(encode_utf8(p@)),
        first.year != last.year,
    ensures
        fails(args, 0, shared_year_month(first, last).0, shared_year_month(first, last).1),
{
    lemma_month_day_point(encode_utf8(p@));
}

/// A valid date pattern without a year compiles, to that day of the shared
/// year, when the record dates lie within one year.
pub proof fn yearless_date_takes_shared_year(args: Args, p: String, first: Date, last: Date)
    requires
        args.date == Some(p),
        month_day_form(encode_utf8(p@)),
        first.year == last.year,
        1 <= decimal(encode_utf8(p@), 0, digits_end(encode_utf8(p@), 0, encode_utf8(p@).len() as int))
            <= 12,
        1 <= decimal(
            encode_utf8(p@),
            digits_end(encode_utf8(p@), 0, encode_utf8(p@).len() as int) + 1,
            encode_utf8(p@).len() as int,
        ) <= 31,
    ensures
        !fails(args, 0, shared_year_month(first, last).0, shared_year_month(first, last).1),
{
    let s = encode_utf8(p@);
    lemma_month_day_point(s);
}

} // verus!
