//! Record filtering for access-log analysis: field predicates compiled from
//! user patterns, and an ordered chain of criteria that accepts or rejects
//! each log line while counting, per criterion, the lines it removed.
use vstd::prelude::*;

pub mod bytes;
pub mod date;
pub mod status_filter;
pub mod str_filter;
pub mod method_filter;
pub mod log_line;
pub mod args;
pub mod filters;
pub mod laws;

verus! {

/// A pattern string that could not be compiled into a predicate.
#[derive(Debug)]
pub struct PatternError {
    pub pattern: String,
}

} // verus!
