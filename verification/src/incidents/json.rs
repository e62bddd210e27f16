//! JSON rendering of an Incident record.
//!
//! The record's priority is not stored: it is computed here, at the
//! serialization boundary, from the stored impact and urgency, so the
//! rendered priority can never disagree with them.

use vstd::prelude::*;

use crate::common::{spec_uuid_text, str_eq, uuid_text};
use crate::incidents::{
    spec_priority, Incident, IncidentImpact, IncidentPrio, IncidentStatus, IncidentUrgency,
};
use crate::json::{
    chars_to_string, push_char, push_opt_member, push_text_member, spec_member, spec_opt_text,
    spec_quote,
};

verus! {

/// The wire name of a status, the lowercase form kept by the storage layer.
pub open spec fn spec_status_text(s: IncidentStatus) -> Seq<char> {
    match s {
        IncidentStatus::Open => "open"@,
        IncidentStatus::InProgress => "inprogress"@,
        IncidentStatus::Closed => "closed"@,
    }
}

/// The wire name of an impact level.
pub open spec fn spec_impact_text(i: IncidentImpact) -> Seq<char> {
    match i {
        IncidentImpact::High => "high"@,
        IncidentImpact::Medium => "medium"@,
        IncidentImpact::Low => "low"@,
    }
}

/// The wire name of an urgency level.
pub open spec fn spec_urgency_text(u: IncidentUrgency) -> Seq<char> {
    match u {
        IncidentUrgency::High => "high"@,
        IncidentUrgency::Medium => "medium"@,
        IncidentUrgency::Low => "low"@,
    }
}

/// The wire name of a priority.
pub open spec fn spec_prio_text(p: IncidentPrio) -> Seq<char> {
    match p {
        IncidentPrio::Critical => "critical"@,
        IncidentPrio::High => "high"@,
        IncidentPrio::Moderate => "moderate"@,
        IncidentPrio::Low => "low"@,
    }
}

/// The wire name of a status.
pub fn status_to_str(s: IncidentStatus) -> (r: &'static str)
    ensures
        r@ == spec_status_text(s),
{
    match s {
        IncidentStatus::Open => "open",
        IncidentStatus::InProgress => "inprogress",
        IncidentStatus::Closed => "closed",
    }
}

/// The wire name of an impact level.
pub fn impact_to_str(i: IncidentImpact) -> (r: &'static str)
    ensures
        r@ == spec_impact_text(i),
{
    match i {
        IncidentImpact::High => "high",
        IncidentImpact::Medium => "medium",
        IncidentImpact::Low => "low",
    }
}

/// The wire name of an urgency level.
pub fn urgency_to_str(u: IncidentUrgency) -> (r: &'static str)
    ensures
        r@ == spec_urgency_text(u),
{
    match u {
        IncidentUrgency::High => "high",
        IncidentUrgency::Medium => "medium",
        IncidentUrgency::Low => "low",
    }
}

/// The wire name of a priority.
pub fn prio_to_str(p: IncidentPrio) -> (r: &'static str)
    ensures
        r@ == spec_prio_text(p),
{
    match p {
        IncidentPrio::Critical => "critical",
        IncidentPrio::High => "high",
        IncidentPrio::Moderate => "moderate",
        IncidentPrio::Low => "low",
    }
}

/// The status a wire name stands for, if any.
pub open spec fn spec_status_of(t: Seq<char>) -> Option<IncidentStatus> {
    if t == "open"@ {
        Some(IncidentStatus::Open)
    } else if t == "inprogress"@ {
        Some(IncidentStatus::InProgress)
    } else if t == "closed"@ {
        Some(IncidentStatus::Closed)
    } else {
        None
    }
}

/// The impact level a wire name stands for, if any.
pub open spec fn spec_impact_of(t: Seq<char>) -> Option<IncidentImpact> {
    if t == "high"@ {
        Some(IncidentImpact::High)
    } else if t == "medium"@ {
        Some(IncidentImpact::Medium)
    } else if t == "low"@ {
        Some(IncidentImpact::Low)
    } else {
        None
    }
}

/// The urgency level a wire name stands for, if any.
pub open spec fn spec_urgency_of(t: Seq<char>) -> Option<IncidentUrgency> {
    if t == "high"@ {
        Some(IncidentUrgency::High)
    } else if t == "medium"@ {
        Some(IncidentUrgency::Medium)
    } else if t == "low"@ {
        Some(IncidentUrgency::Low)
    } else {
        None
    }
}

/// Parse a wire name back into a status.
pub fn status_from_str(t: &str) -> (r: Option<IncidentStatus>)
    ensures
        r == spec_status_of(t@),
{
    if str_eq(t, "open") {
        Some(IncidentStatus::Open)
    } else if str_eq(t, "inprogress") {
        Some(IncidentStatus::InProgress)
    } else if str_eq(t, "closed") {
        Some(IncidentStatus::Closed)
    } else {
        None
    }
}

/// Parse a wire name back into an impact level.
pub fn impact_from_str(t: &str) -> (r: Option<IncidentImpact>)
    ensures
        r == spec_impact_of(t@),
{
    if str_eq(t, "high") {
        Some(IncidentImpact::High)
    } else if str_eq(t, "medium") {
        Some(IncidentImpact::Medium)
    } else if str_eq(t, "low") {
        Some(IncidentImpact::Low)
    } else {
        None
    }
}

/// Parse a wire name back into an urgency level.
pub fn urgency_from_str(t: &str) -> (r: Option<IncidentUrgency>)
    ensures
        r == spec_urgency_of(t@),
{
    if str_eq(t, "high") {
        Some(IncidentUrgency::High)
    } else if str_eq(t, "medium") {
        Some(IncidentUrgency::Medium)
    } else if str_eq(t, "low") {
        Some(IncidentUrgency::Low)
    } else {
        None
    }
}

/// The rendering of an Incident record: every stored attribute, with the
/// priority member computed from the stored impact and urgency.
pub open spec fn spec_incident_json(r: Incident) -> Seq<char> {
    seq!['{'] + spec_member("id"@, spec_quote(spec_uuid_text(r.id))) + seq![','] + spec_member(
        "title"@,
        spec_quote(r.title@),
    ) + seq![','] + spec_member("status"@, spec_quote(spec_status_text(r.status))) + seq![',']
        + spec_member("created_at"@, spec_quote(r.created_at@)) + seq![','] + spec_member(
        "resolved_at"@,
        spec_opt_text(r.resolved_at),
    ) + seq![','] + spec_member("impact"@, spec_quote(spec_impact_text(r.impact))) + seq![',']
        + spec_member("urgency"@, spec_quote(spec_urgency_text(r.urgency))) + seq![',']
        + spec_member(
        "priority"@,
        spec_quote(spec_prio_text(spec_priority(r.impact, r.urgency))),
    ) + seq![','] + spec_member("owner"@, spec_opt_text(r.owner)) + seq![','] + spec_member(
        "asignee"@,
        spec_opt_text(r.asignee),
    ) + seq![','] + spec_member("description"@, spec_quote(r.description@)) + seq!['}']
}

/// Serialize an Incident record, computing the priority member on the way
/// out.
pub fn incident_to_json(r: &Incident) -> (out: String)
    ensures
        out@ == spec_incident_json(*r),
{
    let mut buf: Vec<char> = Vec::new();
    push_char(&mut buf, '{');
    proof {
        assert(buf@ =~= seq!['{']);
    }
    let id_text = uuid_text(r.id);
    push_text_member(&mut buf, "id", id_text.as_str());
    push_char(&mut buf, ',');
    push_text_member(&mut buf, "title", r.title.as_str());
    push_char(&mut buf, ',');
    push_text_member(&mut buf, "status", status_to_str(r.status));
    push_char(&mut buf, ',');
    push_text_member(&mut buf, "created_at", r.created_at.as_str());
    push_char(&mut buf, ',');
    push_opt_member(&mut buf, "resolved_at", &r.resolved_at);
    push_char(&mut buf, ',');
    push_text_member(&mut buf, "impact", impact_to_str(r.impact));
    push_char(&mut buf, ',');
    push_text_member(&mut buf, "urgency", urgency_to_str(r.urgency));
    push_char(&mut buf, ',');
    push_text_member(&mut buf, "priority", prio_to_str(r.priority()));
    push_char(&mut buf, ',');
    push_opt_member(&mut buf, "owner", &r.owner);
    push_char(&mut buf, ',');
    push_opt_member(&mut buf, "asignee", &r.asignee);
    push_char(&mut buf, ',');
    push_text_member(&mut buf, "description", r.description.as_str());
    push_char(&mut buf, '}');
    proof {
        assert(buf@ == spec_incident_json(*r));
    }
    chars_to_string(&buf)
}

} // verus!
