//! Calendar dates and the date predicate.
use vstd::prelude::*;
use crate::bytes::{decimal, digits_end, first_at, find_byte, read_decimal, skip_digits};
use crate::PatternError;
use vstd::string::StringSliceAdditionalSpecFns;

verus! {

/// A calendar day of a log record.
#[derive(Clone, Copy, Debug, PartialEq, Eq, Structural)]
pub struct Date {
    pub year: u16,
    pub month: u8,
    pub day: u8,
}

/// `a` falls on or before `b`.
pub open spec fn date_le(a: Date, b: Date) -> bool {
    a.year < b.year || (a.year == b.year && (a.month < b.month || (a.month == b.month && a.day
        <= b.day)))
}

impl Date {
    pub fn new(year: u16, month: u8, day: u8) -> (r: Date)
        ensures
            r == (Date { year, month, day }),
    {
        Date { year, month, day }
    }

    /// True when `self` falls on or before `other`.
    pub fn is_on_or_before(&self, other: &Date) -> (r: bool)
        ensures
            r == date_le(*self, *other),
    {
        self.year < other.year || (self.year == other.year && (self.month < other.month || (
        self.month == other.month && self.day <= other.day)))
    }
}

/// The year shared by both dates, and the month too when they share it.
pub open spec fn shared_year_month(first: Date, last: Date) -> (Option<u16>, Option<u8>) {
    if first.year != last.year {
        (None, None)
    } else if first.month != last.month {
        (Some(first.year), None)
    } else {
        (Some(first.year), Some(first.month))
    }
}

/// Defaults for date patterns that leave out the year or the month: those
/// that every date between `first_date` and `last_date` shares.
pub fn unique_year_month(first_date: Date, last_date: Date) -> (r: (Option<u16>, Option<u8>))
    ensures
        r == shared_year_month(first_date, last_date),
{
    if first_date.year != last_date.year {
        (None, None)
    } else if first_date.month != last_date.month {
        (Some(first_date.year), None)
    } else {
        (Some(first_date.year), Some(first_date.month))
    }
}

/// Accepts the dates of a closed interval.
#[derive(Clone, Copy, Debug, PartialEq, Eq, Structural)]
pub struct DateFilter {
    pub min: Date,
    pub max: Date,
}

pub open spec fn span(y: int, m1: int, d1: int, m2: int, d2: int) -> Option<(Date, Date)> {
    Some(
        (
            Date { year: y as u16, month: m1 as u8, day: d1 as u8 },
            Date { year: y as u16, month: m2 as u8, day: d2 as u8 },
        ),
    )
}

/// A single day; the month must lie in 1..=12 and the day in 1..=31.
pub open spec fn day_span(y: int, m: int, d: int) -> Option<(Date, Date)> {
    if 1 <= m <= 12 && 1 <= d <= 31 {
        span(y, m, d, m, d)
    } else {
        None
    }
}

/// A whole month, from its first day to day 31.
pub open spec fn month_span(y: int, m: int) -> Option<(Date, Date)> {
    if 1 <= m <= 12 {
        span(y, m, 1, m, 31)
    } else {
        None
    }
}

/// The interval that the point pattern `s[lo..hi)` stands for. The forms are
/// `YYYY-M-D` (one day), `YYYY-M` (a month), `YYYY` (a year), `M-D` (a day of
/// the default year) and `D` (a day of the default year and month); month
/// and day have one or two digits.
pub open spec fn point_span(s: Seq<u8>, lo: int, hi: int, dy: Option<u16>, dm: Option<u8>) -> Option<
    (Date, Date),
> {
    let e1 = digits_end(s, lo, hi);
    let n1 = e1 - lo;
    let v1 = decimal(s, lo, e1) as int;
    if n1 < 1 || n1 == 3 || n1 > 4 {
        None
    } else if e1 == hi {
        if n1 == 4 {
            span(v1, 1, 1, 12, 31)
        } else {
            match (dy, dm) {
                (Some(y), Some(m)) => day_span(y as int, m as int, v1),
                _ => None,
            }
        }
    } else if s[e1] != 45 {
        None
    } else {
        let e2 = digits_end(s, e1 + 1, hi);
        let n2 = e2 - (e1 + 1);
        let v2 = decimal(s, e1 + 1, e2) as int;
        if n2 < 1 || n2 > 2 {
            None
        } else if e2 == hi {
            if n1 == 4 {
                month_span(v1, v2)
            } else {
                match dy {
                    Some(y) => day_span(y as int, v1, v2),
                    None => None,
                }
            }
        } else if s[e2] != 45 || n1 != 4 {
            None
        } else {
            let e3 = digits_end(s, e2 + 1, hi);
            let n3 = e3 - (e2 + 1);
            if n3 < 1 || n3 > 2 || e3 != hi {
                None
            } else {
                day_span(v1, v2, decimal(s, e2 + 1, e3) as int)
            }
        }
    }
}

/// The filter that the date pattern `s` stands for: one point pattern, or two
/// joined by `..` for the interval from the start of the first to the end of
/// the second.
pub open spec fn date_pattern(s: Seq<u8>, dy: Option<u16>, dm: Option<u8>) -> Option<DateFilter> {
    let n = s.len() as int;
    let k = first_at(s, 0, n, 46);
    if k == n {
        match point_span(s, 0, n, dy, dm) {
            Some(p) => Some(DateFilter { min: p.0, max: p.1 }),
            None => None,
        }
    } else if k + 1 < n && s[k + 1] == 46 {
        match (point_span(s, 0, k, dy, dm), point_span(s, k + 2, n, dy, dm)) {
            (Some(a), Some(b)) => Some(DateFilter { min: a.0, max: b.1 }),
            _ => None,
        }
    } else {
        None
    }
}

fn make_day(y: u16, m: u32, d: u32) -> (r: Option<(Date, Date)>)
    requires
        m < 10000,
        d < 10000,
    ensures
        r == day_span(y as int, m as int, d as int),
{
    if 1 <= m && m <= 12 && 1 <= d && d <= 31 {
        let day = Date { year: y, month: m as u8, day: d as u8 };
        Some((day, day))
    } else {
        None
    }
}

fn point(s: &[u8], lo: usize, hi: usize, dy: Option<u16>, dm: Option<u8>) -> (r: Option<
    (Date, Date),
>)
    requires
        lo <= hi <= s@.len(),
    ensures
        r == point_span(s@, lo as int, hi as int, dy, dm),
{
    let e1 = skip_digits(s, lo, hi);
    let n1 = e1 - lo;
    if n1 < 1 || n1 == 3 || n1 > 4 {
        return None;
    }
    let v1 = read_decimal(s, lo, e1);
    if e1 == hi {
        if n1 == 4 {
            return Some(
                (
                    Date { year: v1 as u16, month: 1, day: 1 },
                    Date { year: v1 as u16, month: 12, day: 31 },
                ),
            );
        }
        return match (dy, dm) {
            (Some(y), Some(m)) => make_day(y, m as u32, v1),
            _ => None,
        };
    }
    if s[e1] != 45 {
        return None;
    }
    let e2 = skip_digits(s, e1 + 1, hi);
    let n2 = e2 - (e1 + 1);
    if n2 < 1 || n2 > 2 {
        return None;
    }
    let v2 = read_decimal(s, e1 + 1, e2);
    if e2 == hi {
        if n1 == 4 {
            if 1 <= v2 && v2 <= 12 {
                return Some(
                    (
                        Date { year: v1 as u16, month: v2 as u8, day: 1 },
                        Date { year: v1 as u16, month: v2 as u8, day: 31 },
                    ),
                );
            }
            return None;
        }
        return match dy {
            Some(y) => make_day(y, v1, v2),
            None => None,
        };
    }
    if s[e2] != 45 || n1 != 4 {
        return None;
    }
    let e3 = skip_digits(s, e2 + 1, hi);
    let n3 = e3 - (e2 + 1);
    if n3 < 1 || n3 > 2 || e3 != hi {
        return None;
    }
    let v3 = read_decimal(s, e2 + 1, e3);
    make_day(v1 as u16, v2, v3)
}

impl DateFilter {
    /// Compiles a date pattern; `default_year` and `default_month` complete
    /// the forms that leave them out.
    pub fn new(pattern: &str, default_year: Option<u16>, default_month: Option<u8>) -> (r: Result<
        DateFilter,
        PatternError,
    >)
        ensures
            match r {
                Ok(f) => date_pattern(pattern.spec_bytes(), default_year, default_month) == Some(f),
                Err(e) => date_pattern(pattern.spec_bytes(), default_year, default_month) is None
                    && e.pattern@ == pattern@,
            },
    {
        let s = pattern.as_bytes();
        let n = s.len();
        let k = find_byte(s, 0, n, 46);
        let found = if k == n {
            match point(s, 0, n, default_year, default_month) {
                Some(p) => Some(DateFilter { min: p.0, max: p.1 }),
                None => None,
            }
        } else if k + 1 < n && s[k + 1] == 46 {
            match (point(s, 0, k, default_year, default_month), point(s, k + 2, n, default_year, default_month)) {
                (Some(a), Some(b)) => Some(DateFilter { min: a.0, max: b.1 }),
                _ => None,
            }
        } else {
            None
        };
        match found {
            Some(f) => Ok(f),
            None => Err(PatternError { pattern: pattern.to_owned() }),
        }
    }

    /// True when `date` lies in the interval, bounds included.
    pub fn contains(&self, date: Date) -> (r: bool)
        ensures
            r == (date_le(self.min, date) && date_le(date, self.max)),
    {
        self.min.is_on_or_before(&date) && date.is_on_or_before(&self.max)
    }
}

} // verus!
