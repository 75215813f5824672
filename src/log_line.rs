//! The parsed log record that the filters read.
use vstd::prelude::*;
use crate::date::Date;

verus! {

/// One parsed access-log entry.
pub struct LogLine {
    pub date: Date,
    pub remote_addr: String,
    pub method: String,
    pub path: String,
    pub referer: String,
    pub status: u16,
}

} // verus!
