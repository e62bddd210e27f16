//! Wire names of the Problem enumerations: the lowercase form kept by the
//! storage layer, rendered and parsed.

use vstd::prelude::*;

use crate::common::str_eq;
use crate::problems::ProblemStatus;

verus! {

/// The wire name of a status.
pub open spec fn spec_status_text(s: ProblemStatus) -> Seq<char> {
    match s {
        ProblemStatus::Open => "open"@,
        ProblemStatus::KnownError => "knownerror"@,
        ProblemStatus::Resolved => "resolved"@,
        ProblemStatus::Closed => "closed"@,
    }
}

/// The status a wire name stands for, if any.
pub open spec fn spec_status_of(t: Seq<char>) -> Option<ProblemStatus> {
    if t == "open"@ {
        Some(ProblemStatus::Open)
    } else if t == "knownerror"@ {
        Some(ProblemStatus::KnownError)
    } else if t == "resolved"@ {
        Some(ProblemStatus::Resolved)
    } else if t == "closed"@ {
        Some(ProblemStatus::Closed)
    } else {
        None
    }
}

/// The wire name of a status.
pub fn status_to_str(s: ProblemStatus) -> (r: &'static str)
    ensures
        r@ == spec_status_text(s),
{
    match s {
        ProblemStatus::Open => "open",
        ProblemStatus::KnownError => "knownerror",
        ProblemStatus::Resolved => "resolved",
        ProblemStatus::Closed => "closed",
    }
}

/// Parse a wire name back into a status.
pub fn status_from_str(t: &str) -> (r: Option<ProblemStatus>)
    ensures
        r == spec_status_of(t@),
{
    if str_eq(t, "open") {
        Some(ProblemStatus::Open)
    } else if str_eq(t, "knownerror") {
        Some(ProblemStatus::KnownError)
    } else if str_eq(t, "resolved") {
        Some(ProblemStatus::Resolved)
    } else if str_eq(t, "closed") {
        Some(ProblemStatus::Closed)
    } else {
        None
    }
}

} // verus!
