//! The filtering part of the configuration: one optional pattern per field.
use vstd::prelude::*;

verus! {

/// Patterns that restrict the records analysed; an absent one restricts nothing.
pub struct Args {
    pub date: Option<String>,
    pub ip: Option<String>,
    pub method: Option<String>,
    pub path: Option<String>,
    pub referer: Option<String>,
    pub status: Option<String>,
}

} // verus!
