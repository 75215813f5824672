//! The chain of criteria that decides which records are kept.
use vstd::prelude::*;
use vstd::utf8::encode_utf8;
use smallvec::SmallVec;
use crate::args::Args;
use crate::date::{date_le, date_pattern, shared_year_month, unique_year_month, Date, DateFilter};
use crate::log_line::LogLine;
use crate::method_filter::{fold, method_pattern, names_view, MethodFilter};
use crate::status_filter::{in_ranges, status_pattern, StatusFilter};
use crate::str_filter::{glob, str_pattern, StrFilter};
use crate::PatternError;

verus! {

/// What a compiled predicate accepts, by the field it tests.
pub enum FilterView {
    Date(DateFilter),
    Ip(bool, Seq<u8>),
    Method(Seq<Seq<u8>>),
    Path(bool, Seq<u8>),
    Referer(bool, Seq<u8>),
    Status(Seq<(u16, u16)>),
}

/// A criterion as a value: its pattern, its predicate, and how many records it removed.
pub struct FilteringView {
    pub pattern: Seq<char>,
    pub filter: FilterView,
    pub removed_count: usize,
}

/// The predicate of a criterion, tagged with the field of the record it tests.
pub enum Filter {
    Date(DateFilter),
    Ip(StrFilter),
    Method(MethodFilter),
    Path(StrFilter),
    Referer(StrFilter),
    Status(StatusFilter),
}

impl View for Filter {
    type V = FilterView;

    open spec fn view(&self) -> FilterView {
        match self {
            Filter::Date(f) => FilterView::Date(*f),
            Filter::Ip(f) => FilterView::Ip(f.negated, f.pattern@),
            Filter::Method(f) => FilterView::Method(names_view(f.names@)),
            Filter::Path(f) => FilterView::Path(f.negated, f.pattern@),
            Filter::Referer(f) => FilterView::Referer(f.negated, f.pattern@),
            Filter::Status(f) => FilterView::Status(f.ranges@),
        }
    }
}

pub open spec fn str_accepts(negated: bool, pattern: Seq<u8>, value: String) -> bool {
    glob(pattern, encode_utf8(value@), 0, 0) != negated
}

/// Whether the predicate `f` keeps the record `line`.
pub open spec fn filter_accepts(f: FilterView, line: LogLine) -> bool {
    match f {
        FilterView::Date(d) => date_le(d.min, line.date) && date_le(line.date, d.max),
        FilterView::Ip(n, p) => str_accepts(n, p, line.remote_addr),
        FilterView::Method(names) => names.contains(fold(encode_utf8(line.method@))),
        FilterView::Path(n, p) => str_accepts(n, p, line.path),
        FilterView::Referer(n, p) => str_accepts(n, p, line.referer),
        FilterView::Status(r) => in_ranges(r, line.status),
    }
}

/// The label under which a predicate's field is reported.
pub open spec fn field_label(f: FilterView) -> Seq<char> {
    match f {
        FilterView::Date(_) => "date"@,
        FilterView::Ip(..) => "remote address"@,
        FilterView::Method(_) => "method"@,
        FilterView::Path(..) => "path"@,
        FilterView::Referer(..) => "referer"@,
        FilterView::Status(_) => "status"@,
    }
}

impl Filter {
    /// True when the predicate keeps `line`, judged on the field it tests.
    pub fn accepts(&self, line: &LogLine) -> (r: bool)
        ensures
            r == filter_accepts(self@, *line),
    {
        match self {
            Filter::Date(f) => f.contains(line.date),
            Filter::Ip(f) => f.accepts(line.remote_addr.as_str()),
            Filter::Method(f) => f.contains(line.method.as_str()),
            Filter::Path(f) => f.accepts(line.path.as_str()),
            Filter::Referer(f) => f.accepts(line.referer.as_str()),
            Filter::Status(f) => f.accepts(line.status),
        }
    }

    /// The name of the field that the predicate tests, for reports.
    pub fn field_name(&self) -> (r: &'static str)
        ensures
            r@ == field_label(self@),
    {
        proof {
            reveal_strlit("date");
            reveal_strlit("remote address");
            reveal_strlit("method");
            reveal_strlit("path");
            reveal_strlit("referer");
            reveal_strlit("status");
        }
        match self {
            Filter::Date(_) => "date",
            Filter::Ip(_) => "remote address",
            Filter::Method(_) => "method",
            Filter::Path(_) => "path",
            Filter::Referer(_) => "referer",
            Filter::Status(_) => "status",
        }
    }
}

/// One active criterion: its pattern as given, its predicate, and the number
/// of records it removed.
pub struct Filtering {
    pub pattern: String,
    pub filter: Filter,
    pub removed_count: usize,
}

impl View for Filtering {
    type V = FilteringView;

    open spec fn view(&self) -> FilteringView {
        FilteringView { pattern: self.pattern@, filter: self.filter@, removed_count: self.removed_count }
    }
}

impl Filtering {
    /// A criterion that has removed nothing yet.
    pub fn new(pattern: &str, filter: Filter) -> (r: Filtering)
        ensures
            r@ == (FilteringView { pattern: pattern@, filter: filter@, removed_count: 0 }),
    {
        Filtering { pattern: pattern.to_owned(), filter, removed_count: 0 }
    }
}

} // verus!

verus! {

/// The criteria of a chain, in order, kept inline in a `SmallVec` (Verus
/// does not take the declaration of `SmallVec` itself).
#[verifier::external_body]
pub struct Filterings {
    items: SmallVec<[Filtering; 5]>,
}

/// The criteria that a `Filterings` holds, in order.
pub uninterp spec fn rows_of(v: Filterings) -> Seq<FilteringView>;

/// Relies on `SmallVec::new`: the new vector is empty.
#[verifier::external_body]
fn rows_new() -> (r: Filterings)
    ensures
        rows_of(r) == Seq::<FilteringView>::empty(),
{
    Filterings { items: SmallVec::new() }
}

/// Relies on `SmallVec::push`: the item is appended at the end.
#[verifier::external_body]
fn rows_push(v: &mut Filterings, f: Filtering)
    ensures
        rows_of(*final(v)) == rows_of(*old(v)).push(f@),
{
    v.items.push(f)
}

/// Relies on `SmallVec::len`: the number of items held.
#[verifier::external_body]
fn rows_len(v: &Filterings) -> (r: usize)
    ensures
        r == rows_of(*v).len(),
{
    v.items.len()
}

/// Relies on indexing a `SmallVec`, which panics out of bounds: the item at `i`.
#[verifier::external_body]
fn rows_get(v: &Filterings, i: usize) -> (r: &Filtering)
    requires
        i < rows_of(*v).len(),
    ensures
        r@ == rows_of(*v)[i as int],
{
    &v.items[i]
}

/// Relies on `SmallVec::remove`, which panics when `i` is not below the length:
/// the item at `i` is taken out and returned, the later ones shift left.
#[verifier::external_body]
fn rows_remove(v: &mut Filterings, i: usize) -> (r: Filtering)
    requires
        i < rows_of(*old(v)).len(),
    ensures
        r@ == rows_of(*old(v))[i as int],
        rows_of(*final(v)) == rows_of(*old(v)).remove(i as int),
{
    v.items.remove(i)
}

/// Relies on `SmallVec::insert`, which panics when `i` exceeds the length:
/// the item is placed at `i`, the later ones shift right.
#[verifier::external_body]
fn rows_insert(v: &mut Filterings, i: usize, f: Filtering)
    requires
        i <= rows_of(*old(v)).len(),
    ensures
        rows_of(*final(v)) == rows_of(*old(v)).insert(i as int, f@),
{
    v.items.insert(i, f)
}

/// The record passes every criterion of `rows`.
pub open spec fn all_accept(rows: Seq<FilteringView>, line: LogLine) -> bool {
    forall|k: int| 0 <= k < rows.len() ==> filter_accepts(#[trigger] rows[k].filter, line)
}

/// `k` is the first criterion of `rows` that rejects the record.
pub open spec fn first_rejecting(rows: Seq<FilteringView>, line: LogLine, k: int) -> bool {
    &&& 0 <= k < rows.len()
    &&& !filter_accepts(rows[k].filter, line)
    &&& forall|j: int| 0 <= j < k ==> filter_accepts(#[trigger] rows[j].filter, line)
}

pub open spec fn bumped(f: FilteringView) -> FilteringView {
    FilteringView { removed_count: (f.removed_count + 1) as usize, ..f }
}

/// One evaluation of `line` took the criteria from `before` to `after` and
/// answered `r`: the record is kept when every criterion accepts it;
/// otherwise the first criterion that rejects it, and that one alone, counts
/// one more removal.
pub open spec fn evaluated(
    before: Seq<FilteringView>,
    line: LogLine,
    r: bool,
    after: Seq<FilteringView>,
) -> bool {
    &&& r == all_accept(before, line)
    &&& r ==> after == before
    &&& !r ==> exists|k: int|
        first_rejecting(before, line, k) && after == before.update(k, bumped(before[k]))
}

/// The pattern configured for the `k`-th field, in the order date, address,
/// method, path, referer, status.
pub open spec fn slot(args: Args, k: int) -> Option<String> {
    if k == 0 {
        args.date
    } else if k == 1 {
        args.ip
    } else if k == 2 {
        args.method
    } else if k == 3 {
        args.path
    } else if k == 4 {
        args.referer
    } else {
        args.status
    }
}

/// The predicate that pattern `p` compiles to for the `k`-th field, if any.
pub open spec fn compiled(k: int, p: Seq<char>, dy: Option<u16>, dm: Option<u8>) -> Option<FilterView> {
    let b = encode_utf8(p);
    if k == 0 {
        match date_pattern(b, dy, dm) {
            Some(d) => Some(FilterView::Date(d)),
            None => None,
        }
    } else if k == 2 {
        Some(FilterView::Method(method_pattern(b)))
    } else if k == 5 {
        match status_pattern(b) {
            Some(r) => Some(FilterView::Status(r)),
            None => None,
        }
    } else {
        match str_pattern(b) {
            Some((n, g)) => Some(
                if k == 1 {
                    FilterView::Ip(n, g)
                } else if k == 3 {
                    FilterView::Path(n, g)
                } else {
                    FilterView::Referer(n, g)
                },
            ),
            None => None,
        }
    }
}

/// The `k`-th field is configured with a pattern that does not compile.
pub open spec fn fails(args: Args, k: int, dy: Option<u16>, dm: Option<u8>) -> bool {
    slot(args, k) is Some && compiled(k, slot(args, k)->0@, dy, dm) is None
}

/// The criteria built from the first `k` fields.
pub open spec fn planned(args: Args, k: int, dy: Option<u16>, dm: Option<u8>) -> Seq<FilteringView>
    decreases k,
{
    if k <= 0 {
        Seq::empty()
    } else {
        let before = planned(args, k - 1, dy, dm);
        match slot(args, k - 1) {
            Some(p) => match compiled(k - 1, p@, dy, dm) {
                Some(f) => before.push(FilteringView { pattern: p@, filter: f, removed_count: 0 }),
                None => before,
            },
            None => before,
        }
    }
}

pub open spec fn field_of(k: int) -> Seq<char> {
    if k == 0 {
        "date"@
    } else if k == 1 {
        "remote address"@
    } else if k == 2 {
        "method"@
    } else if k == 3 {
        "path"@
    } else if k == 4 {
        "referer"@
    } else {
        "status"@
    }
}

/// A configured pattern that did not compile, with the field it was given for.
#[derive(Debug)]
pub struct FilterError {
    pub field: &'static str,
    pub error: PatternError,
}

/// The ordered criteria that records must pass.
pub struct Filterer {
    pub first_date: Date,
    pub filterings: Filterings,
}

fn configured(args: &Args, k: usize) -> (r: &Option<String>)
    requires
        k < 6,
    ensures
        *r == slot(*args, k as int),
{
    if k == 0 {
        &args.date
    } else if k == 1 {
        &args.ip
    } else if k == 2 {
        &args.method
    } else if k == 3 {
        &args.path
    } else if k == 4 {
        &args.referer
    } else {
        &args.status
    }
}

fn compile(k: usize, p: &str, dy: Option<u16>, dm: Option<u8>) -> (r: Result<Filter, PatternError>)
    requires
        k < 6,
    ensures
        match r {
            Ok(f) => compiled(k as int, p@, dy, dm) == Some(f@),
            Err(e) => compiled(k as int, p@, dy, dm) is None && e.pattern@ == p@,
        },
{
    if k == 0 {
        match DateFilter::new(p, dy, dm) {
            Ok(f) => Ok(Filter::Date(f)),
            Err(e) => Err(e),
        }
    } else if k == 2 {
        Ok(Filter::Method(MethodFilter::from_str(p)))
    } else if k == 5 {
        match StatusFilter::from_str(p) {
            Ok(f) => Ok(Filter::Status(f)),
            Err(e) => Err(e),
        }
    } else {
        match StrFilter::new(p) {
            Ok(f) => Ok(
                if k == 1 {
                    Filter::Ip(f)
                } else if k == 3 {
                    Filter::Path(f)
                } else {
                    Filter::Referer(f)
                },
            ),
            Err(e) => Err(e),
        }
    }
}

fn field_label_at(k: usize) -> (r: &'static str)
    ensures
        r@ == field_of(k as int),
{
    proof {
        reveal_strlit("date");
        reveal_strlit("remote address");
        reveal_strlit("method");
        reveal_strlit("path");
        reveal_strlit("referer");
        reveal_strlit("status");
    }
    if k == 0 {
        "date"
    } else if k == 1 {
        "remote address"
    } else if k == 2 {
        "method"
    } else if k == 3 {
        "path"
    } else if k == 4 {
        "referer"
    } else {
        "status"
    }
}

impl Filterer {
    /// The criteria of the whole chain, in evaluation order.
    pub open spec fn rows(&self) -> Seq<FilteringView> {
        rows_of(self.filterings)
    }

    /// Builds the criteria configured in `args`, in the order date, address,
    /// method, path, referer, status. Date patterns that leave out the year
    /// or month take those shared by `first_date` and `last_date`. Fails on
    /// the first configured pattern that does not compile.
    pub fn new(args: &Args, first_date: Date, last_date: Date) -> (r: Result<Filterer, FilterError>)
        ensures
            ({
                let (dy, dm) = shared_year_month(first_date, last_date);
                match r {
                    Ok(f) => {
                        &&& forall|k: int| 0 <= k < 6 ==> !fails(*args, k, dy, dm)
                        &&& f.rows() == planned(*args, 6, dy, dm)
                        &&& f.first_date == first_date
                    },
                    Err(e) => exists|k: int|
                        {
                            &&& 0 <= k < 6
                            &&& fails(*args, k, dy, dm)
                            &&& forall|j: int| 0 <= j < k ==> !fails(*args, j, dy, dm)
                            &&& e.field@ == field_of(k)
                            &&& e.error.pattern@ == slot(*args, k)->0@
                        },
                }
            }),
    {
        let (default_year, default_month) = unique_year_month(first_date, last_date);
        let mut filterings = rows_new();
        let mut k: usize = 0;
        while k < 6
            invariant
                k <= 6,
                (default_year, default_month) == shared_year_month(first_date, last_date),
                rows_of(filterings) == planned(*args, k as int, default_year, default_month),
                forall|j: int| 0 <= j < k ==> !fails(*args, j, default_year, default_month),
            decreases 6 - k,
        {
            match configured(args, k) {
                Some(s) => match compile(k, s.as_str(), default_year, default_month) {
                    Ok(filter) => {
                        rows_push(&mut filterings, Filtering::new(s.as_str(), filter));
                    },
                    Err(error) => {
                        return Err(FilterError { field: field_label_at(k), error });
                    },
                },
                None => {},
            }
            k = k + 1;
        }
        Ok(Filterer { first_date, filterings })
    }

    /// The date predicate, when one is configured.
    pub fn date_filter(&self) -> (r: Option<&DateFilter>)
        ensures
            match r {
                Some(d) => exists|k: int|
                    {
                        &&& 0 <= k < self.rows().len()
                        &&& self.rows()[k].filter == FilterView::Date(*d)
                        &&& forall|j: int|
                            0 <= j < k ==> !(#[trigger] self.rows()[j].filter is Date)
                    },
                None => forall|k: int|
                    0 <= k < self.rows().len() ==> !(#[trigger] self.rows()[k].filter is Date),
            },
    {
        let n = rows_len(&self.filterings);
        let mut i: usize = 0;
        while i < n
            invariant
                i <= n,
                n == self.rows().len(),
                forall|k: int| 0 <= k < i ==> !(#[trigger] self.rows()[k].filter is Date),
            decreases n - i,
        {
            if let Filter::Date(f) = &rows_get(&self.filterings, i).filter {
                return Some(f);
            }
            i = i + 1;
        }
        None
    }

    /// Runs `line` through the criteria in order. The first that rejects it
    /// counts one more removal and ends the evaluation with `false`; when
    /// none does, the answer is `true`.
    pub fn accepts(&mut self, line: &LogLine) -> (r: bool)
        requires
            forall|k: int|
                0 <= k < old(self).rows().len() ==> #[trigger] old(self).rows()[k].removed_count
                    < usize::MAX,
        ensures
            evaluated(old(self).rows(), *line, r, final(self).rows()),
            final(self).first_date == old(self).first_date,
    {
        let n = rows_len(&self.filterings);
        let ghost before = self.rows();
        let mut i: usize = 0;
        while i < n
            invariant
                i <= n,
                n == before.len(),
                before == old(self).rows(),
                self.rows() == before,
                self.first_date == old(self).first_date,
                forall|k: int| 0 <= k < i ==> filter_accepts(#[trigger] before[k].filter, *line),
                forall|k: int| 0 <= k < n ==> #[trigger] before[k].removed_count < usize::MAX,
            decreases n - i,
        {
            if !rows_get(&self.filterings, i).filter.accepts(line) {
                let mut f = rows_remove(&mut self.filterings, i);
                f.removed_count = f.removed_count + 1;
                assert(f@ == bumped(before[i as int]));
                rows_insert(&mut self.filterings, i, f);
                proof {
                    assert(first_rejecting(before, *line, i as int));
                    assert(!all_accept(before, *line));
                    assert(self.rows() =~= before.update(i as int, bumped(before[i as int])));
                }
                return false;
            }
            i = i + 1;
        }
        true
    }

    /// The number of criteria.
    pub fn filtering_count(&self) -> (r: usize)
        ensures
            r == self.rows().len(),
    {
        rows_len(&self.filterings)
    }

    /// The `i`-th criterion in evaluation order.
    pub fn filtering(&self, i: usize) -> (r: &Filtering)
        requires
            i < self.rows().len(),
        ensures
            r@ == self.rows()[i as int],
    {
        rows_get(&self.filterings, i)
    }

    /// True when at least one criterion is configured.
    pub fn has_filters(&self) -> (r: bool)
        ensures
            r == (self.rows().len() > 0),
    {
        rows_len(&self.filterings) != 0
    }
}

} // verus!
