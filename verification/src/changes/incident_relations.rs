//! Relations between RFCs and Incidents. A relation row carries a
//! synthetic id beside the two foreign keys. It may only be created when
//! the RFC exists and the incident exists; a failed creation leaves no row
//! behind.

use vstd::prelude::*;

use crate::changes::RFC;
use crate::error::Error;
use crate::incidents::Incident;

verus! {

/// A stored relation between an RFC and a incident.
#[derive(Clone, Copy, Debug, PartialEq, Eq, Structural)]
pub struct RFCIncidentRelation {
    pub id: u128,
    pub rfc_id: u128,
    pub incident_id: u128,
}

/// Payload for creating a relation: the incident to link.
#[derive(Clone, Copy, Debug)]
pub struct RFCIncidentCreateset {
    pub incident_id: u128,
}

/// No two rows of the table share an id.
pub open spec fn unique_ids(s: Seq<RFCIncidentRelation>) -> bool {
    forall|i: int, j: int| 0 <= i < j < s.len() ==> s[i].id != s[j].id
}

/// Some row of the table has this id.
pub open spec fn contains_id(s: Seq<RFCIncidentRelation>, id: u128) -> bool {
    exists|i: int| 0 <= i < s.len() && (#[trigger] s[i]).id == id
}

/// The index of the row with this id (meaningful when `contains_id`).
pub open spec fn index_of(s: Seq<RFCIncidentRelation>, id: u128) -> int {
    choose|i: int| 0 <= i < s.len() && (#[trigger] s[i]).id == id
}

/// The row with this id (meaningful when `contains_id`).
pub open spec fn record_at(s: Seq<RFCIncidentRelation>, id: u128) -> RFCIncidentRelation {
    s[index_of(s, id)]
}

/// The rows that belong to one RFC, in table order.
pub open spec fn relations_of(s: Seq<RFCIncidentRelation>, rfc_id: u128) -> Seq<RFCIncidentRelation>
    decreases s.len(),
{
    if s.len() == 0 {
        Seq::empty()
    } else {
        let rest = relations_of(s.drop_last(), rfc_id);
        if s.last().rfc_id == rfc_id {
            rest.push(s.last())
        } else {
            rest
        }
    }
}

/// Find the index of the row with this id, scanning the table.
fn find_index(items: &Vec<RFCIncidentRelation>, id: u128) -> (r: Option<usize>)
    ensures
        match r {
            Some(i) => i < items@.len() && items@[i as int].id == id,
            None => !contains_id(items@, id),
        },
{
    let mut i: usize = 0;
    while i < items.len()
        invariant
            i <= items@.len(),
            forall|j: int| 0 <= j < i ==> (#[trigger] items@[j]).id != id,
        decreases items@.len() - i,
    {
        if items[i].id == id {
            return Some(i);
        }
        i += 1;
    }
    None
}

/// A found index is the index: with unique ids, any index holding the id is
/// `index_of`.
proof fn lemma_index_agrees(s: Seq<RFCIncidentRelation>, id: u128, i: int)
    requires
        unique_ids(s),
        0 <= i < s.len(),
        s[i].id == id,
    ensures
        index_of(s, id) == i,
        contains_id(s, id),
        record_at(s, id) == s[i],
{
    assert(contains_id(s, id));
    let k = index_of(s, id);
    assert(0 <= k < s.len() && s[k].id == id);
    if k < i {
        assert(s[k].id != s[i].id);
    } else if i < k {
        assert(s[i].id != s[k].id);
    }
}

/// Check that the RFC referenced by the path exists.
fn check_valid_rfc(rfcs: &Vec<RFC>, id: u128) -> (r: bool)
    ensures
        r == crate::changes::contains_id(rfcs@, id),
{
    let mut i: usize = 0;
    while i < rfcs.len()
        invariant
            i <= rfcs@.len(),
            forall|j: int| 0 <= j < i ==> (#[trigger] rfcs@[j]).id != id,
        decreases rfcs@.len() - i,
    {
        if rfcs[i].id == id {
            return true;
        }
        i += 1;
    }
    false
}

/// Check that the incident referenced by the payload exists.
fn check_valid_incident(incidents: &Vec<Incident>, id: u128) -> (r: bool)
    ensures
        r == crate::incidents::contains_id(incidents@, id),
{
    let mut i: usize = 0;
    while i < incidents.len()
        invariant
            i <= incidents@.len(),
            forall|j: int| 0 <= j < i ==> (#[trigger] incidents@[j]).id != id,
        decreases incidents@.len() - i,
    {
        if incidents[i].id == id {
            return true;
        }
        i += 1;
    }
    false
}

/// List the relations of one RFC, or `NotFound` when the RFC does not
/// exist.
pub fn load_all(relations: &Vec<RFCIncidentRelation>, rfcs: &Vec<RFC>, rfc_id: u128) -> (r: Result<
    Vec<RFCIncidentRelation>,
    Error,
>)
    ensures
        if crate::changes::contains_id(rfcs@, rfc_id) {
            r matches Ok(v) && v@ == relations_of(relations@, rfc_id)
        } else {
            r matches Err(Error::NotFound)
        },
{
    if !check_valid_rfc(rfcs, rfc_id) {
        return Err(Error::NotFound);
    }
    let mut out: Vec<RFCIncidentRelation> = Vec::new();
    let mut i: usize = 0;
    while i < relations.len()
        invariant
            i <= relations@.len(),
            out@ == relations_of(relations@.subrange(0, i as int), rfc_id),
        decreases relations@.len() - i,
    {
        proof {
            assert(relations@.subrange(0, i + 1).drop_last() =~= relations@.subrange(0, i as int));
            assert(relations@.subrange(0, i + 1).last() == relations@[i as int]);
        }
        if relations[i].rfc_id == rfc_id {
            out.push(relations[i]);
        }
        i += 1;
    }
    proof {
        assert(relations@.subrange(0, relations@.len() as int) =~= relations@);
    }
    Ok(out)
}

/// Create a relation between an RFC and a incident. The RFC is checked
/// first (`NotFound`), then the incident (`ConstraintError`); either
/// failure creates no row.
pub fn create(
    relations: &mut Vec<RFCIncidentRelation>,
    rfcs: &Vec<RFC>,
    incidents: &Vec<Incident>,
    rfc_id: u128,
    cs: RFCIncidentCreateset,
    id: u128,
) -> (r: Result<RFCIncidentRelation, Error>)
    requires
        unique_ids(old(relations)@),
    ensures
        unique_ids(final(relations)@),
        if !crate::changes::contains_id(rfcs@, rfc_id) {
            final(relations)@ == old(relations)@ && r matches Err(Error::NotFound)
        } else if !crate::incidents::contains_id(incidents@, cs.incident_id) {
            final(relations)@ == old(relations)@ && r matches Err(Error::ConstraintError)
        } else if contains_id(old(relations)@, id) {
            final(relations)@ == old(relations)@ && r matches Err(Error::StorageError)
        } else {
            r matches Ok(rel) && rel == (RFCIncidentRelation { id, rfc_id, incident_id: cs.incident_id })
                && final(relations)@ == old(relations)@.push(rel)
        },
{
    if !check_valid_rfc(rfcs, rfc_id) {
        return Err(Error::NotFound);
    }
    if !check_valid_incident(incidents, cs.incident_id) {
        return Err(Error::ConstraintError);
    }
    match find_index(relations, id) {
        Some(i) => {
            proof {
                lemma_index_agrees(relations@, id, i as int);
            }
            Err(Error::StorageError)
        },
        None => {
            let rel = RFCIncidentRelation { id, rfc_id, incident_id: cs.incident_id };
            relations.push(rel);
            proof {
                assert forall|p: int, q: int|
                    0 <= p < q < relations@.len() implies relations@[p].id != relations@[q].id by {
                    if q < relations@.len() - 1 {
                        assert(old(relations)@[p].id != old(relations)@[q].id);
                    } else {
                        assert(!contains_id(old(relations)@, id));
                        assert(old(relations)@[p].id != id);
                    }
                }
            }
            Ok(rel)
        },
    }
}

/// Remove the relation with this id under this RFC, or report `NotFound`.
/// The row must belong to the RFC named in the path.
pub fn delete(relations: &mut Vec<RFCIncidentRelation>, rfc_id: u128, id: u128) -> (r: Result<(), Error>)
    requires
        unique_ids(old(relations)@),
    ensures
        unique_ids(final(relations)@),
        if contains_id(old(relations)@, id) && record_at(old(relations)@, id).rfc_id == rfc_id {
            r is Ok && final(relations)@ == old(relations)@.remove(index_of(old(relations)@, id))
        } else {
            final(relations)@ == old(relations)@ && r matches Err(Error::NotFound)
        },
{
    match find_index(relations, id) {
        None => Err(Error::NotFound),
        Some(i) => {
            proof {
                lemma_index_agrees(relations@, id, i as int);
            }
            if relations[i].rfc_id != rfc_id {
                return Err(Error::NotFound);
            }
            relations.remove(i);
            proof {
                old(relations)@.remove_ensures(i as int);
                assert forall|p: int, q: int|
                    0 <= p < q < relations@.len() implies relations@[p].id != relations@[q].id by {
                    let p0: int = if p < i { p } else { p + 1 };
                    let q0: int = if q < i { q } else { q + 1 };
                    assert(relations@[p] == old(relations)@[p0]);
                    assert(relations@[q] == old(relations)@[q0]);
                    assert(old(relations)@[p0].id != old(relations)@[q0].id);
                }
            }
            Ok(())
        },
    }
}

} // verus!
