//! Wire names of the RFC status: the lowercase form kept by the storage
//! layer, rendered and parsed.

use vstd::prelude::*;

use crate::changes::RFCStatus;
use crate::common::str_eq;

verus! {

/// The wire name of a status.
pub open spec fn spec_status_text(s: RFCStatus) -> Seq<char> {
    match s {
        RFCStatus::Open => "open"@,
        RFCStatus::InProgress => "inprogress"@,
        RFCStatus::Closed => "closed"@,
    }
}

/// The status a wire name stands for, if any.
pub open spec fn spec_status_of(t: Seq<char>) -> Option<RFCStatus> {
    if t == "open"@ {
        Some(RFCStatus::Open)
    } else if t == "inprogress"@ {
        Some(RFCStatus::InProgress)
    } else if t == "closed"@ {
        Some(RFCStatus::Closed)
    } else {
        None
    }
}

/// The wire name of a status.
pub fn status_to_str(s: RFCStatus) -> (r: &'static str)
    ensures
        r@ == spec_status_text(s),
{
    match s {
        RFCStatus::Open => "open",
        RFCStatus::InProgress => "inprogress",
        RFCStatus::Closed => "closed",
    }
}

/// Parse a wire name back into a status.
pub fn status_from_str(t: &str) -> (r: Option<RFCStatus>)
    ensures
        r == spec_status_of(t@),
{
    if str_eq(t, "open") {
        Some(RFCStatus::Open)
    } else if str_eq(t, "inprogress") {
        Some(RFCStatus::InProgress)
    } else if str_eq(t, "closed") {
        Some(RFCStatus::Closed)
    } else {
        None
    }
}

} // verus!
