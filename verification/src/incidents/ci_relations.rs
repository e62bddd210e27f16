//! Relations between Incidents and Configuration Items. A relation is
//! identified by the pair of foreign keys and carries a free-text
//! description. It may only be created when the incident exists and the
//! configuration item exists; a failed creation leaves no row behind.

use vstd::prelude::*;

use crate::configitems::ConfigItem;
use crate::error::Error;
use crate::incidents::Incident;

verus! {

/// A stored relation between an Incident and a Configuration Item.
#[derive(Debug)]
pub struct IncidentCIRelation {
    pub incident_id: u128,
    pub ci_id: u128,
    pub description: String,
}

impl Clone for IncidentCIRelation {
    fn clone(&self) -> (r: Self)
        ensures
            r == *self,
    {
        IncidentCIRelation {
            incident_id: self.incident_id,
            ci_id: self.ci_id,
            description: self.description.clone(),
        }
    }
}

/// No two rows of the table share the pair of foreign keys.
pub open spec fn unique_pairs(s: Seq<IncidentCIRelation>) -> bool {
    forall|i: int, j: int|
        0 <= i < j < s.len() ==> !(s[i].incident_id == s[j].incident_id && s[i].ci_id
            == s[j].ci_id)
}

/// Some row of the table links this incident and this configuration item.
pub open spec fn contains_pair(s: Seq<IncidentCIRelation>, incident_id: u128, ci_id: u128) -> bool {
    exists|i: int|
        0 <= i < s.len() && (#[trigger] s[i]).incident_id == incident_id && s[i].ci_id == ci_id
}

/// The index of the row with this pair (meaningful when `contains_pair`).
pub open spec fn index_of_pair(s: Seq<IncidentCIRelation>, incident_id: u128, ci_id: u128) -> int {
    choose|i: int|
        0 <= i < s.len() && (#[trigger] s[i]).incident_id == incident_id && s[i].ci_id == ci_id
}

/// The rows that belong to one incident, in table order.
pub open spec fn relations_of(s: Seq<IncidentCIRelation>, incident_id: u128) -> Seq<
    IncidentCIRelation,
>
    decreases s.len(),
{
    if s.len() == 0 {
        Seq::empty()
    } else {
        let rest = relations_of(s.drop_last(), incident_id);
        if s.last().incident_id == incident_id {
            rest.push(s.last())
        } else {
            rest
        }
    }
}

/// Find the index of the row with this pair, scanning the table.
fn find_index(items: &Vec<IncidentCIRelation>, incident_id: u128, ci_id: u128) -> (r: Option<usize>)
    ensures
        match r {
            Some(i) => i < items@.len() && items@[i as int].incident_id == incident_id
                && items@[i as int].ci_id == ci_id,
            None => !contains_pair(items@, incident_id, ci_id),
        },
{
    let mut i: usize = 0;
    while i < items.len()
        invariant
            i <= items@.len(),
            forall|j: int|
                0 <= j < i ==> !((#[trigger] items@[j]).incident_id == incident_id
                    && items@[j].ci_id == ci_id),
        decreases items@.len() - i,
    {
        if items[i].incident_id == incident_id && items[i].ci_id == ci_id {
            return Some(i);
        }
        i += 1;
    }
    None
}

/// A found index is the index: with unique pairs, any index holding the pair
/// is `index_of_pair`.
proof fn lemma_index_agrees(s: Seq<IncidentCIRelation>, incident_id: u128, ci_id: u128, i: int)
    requires
        unique_pairs(s),
        0 <= i < s.len(),
        s[i].incident_id == incident_id,
        s[i].ci_id == ci_id,
    ensures
        index_of_pair(s, incident_id, ci_id) == i,
        contains_pair(s, incident_id, ci_id),
{
    assert(contains_pair(s, incident_id, ci_id));
    let k = index_of_pair(s, incident_id, ci_id);
    assert(0 <= k < s.len() && s[k].incident_id == incident_id && s[k].ci_id == ci_id);
    if k < i {
        assert(!(s[k].incident_id == s[i].incident_id && s[k].ci_id == s[i].ci_id));
    } else if i < k {
        assert(!(s[i].incident_id == s[k].incident_id && s[i].ci_id == s[k].ci_id));
    }
}

/// Check that the incident referenced by the path exists.
fn check_valid_incident(incidents: &Vec<Incident>, id: u128) -> (r: bool)
    ensures
        r == crate::incidents::contains_id(incidents@, id),
{
    let mut i: usize = 0;
    while i < incidents.len()
        invariant
            i <= incidents@.len(),
            forall|j: int| 0 <= j < i ==> (#[trigger] incidents@[j]).id != id,
        decreases incidents@.len() - i,
    {
        if incidents[i].id == id {
            return true;
        }
        i += 1;
    }
    false
}

/// Check that the configuration item referenced by the payload exists.
fn check_valid_ci(configitems: &Vec<ConfigItem>, id: u128) -> (r: bool)
    ensures
        r == crate::configitems::contains_id(configitems@, id),
{
    let mut i: usize = 0;
    while i < configitems.len()
        invariant
            i <= configitems@.len(),
            forall|j: int| 0 <= j < i ==> (#[trigger] configitems@[j]).id != id,
        decreases configitems@.len() - i,
    {
        if configitems[i].id == id {
            return true;
        }
        i += 1;
    }
    false
}

/// List the relations of one incident, or `NotFound` when the incident does
/// not exist.
pub fn load_all(
    relations: &Vec<IncidentCIRelation>,
    incidents: &Vec<Incident>,
    incident_id: u128,
) -> (r: Result<Vec<IncidentCIRelation>, Error>)
    ensures
        if crate::incidents::contains_id(incidents@, incident_id) {
            r matches Ok(v) && v@ == relations_of(relations@, incident_id)
        } else {
            r matches Err(Error::NotFound)
        },
{
    if !check_valid_incident(incidents, incident_id) {
        return Err(Error::NotFound);
    }
    let mut out: Vec<IncidentCIRelation> = Vec::new();
    let mut i: usize = 0;
    while i < relations.len()
        invariant
            i <= relations@.len(),
            out@ == relations_of(relations@.subrange(0, i as int), incident_id),
        decreases relations@.len() - i,
    {
        proof {
            assert(relations@.subrange(0, i + 1).drop_last() =~= relations@.subrange(0, i as int));
            assert(relations@.subrange(0, i + 1).last() == relations@[i as int]);
        }
        if relations[i].incident_id == incident_id {
            out.push(relations[i].clone());
        }
        i += 1;
    }
    proof {
        assert(relations@.subrange(0, relations@.len() as int) =~= relations@);
    }
    Ok(out)
}

/// Create a relation between an incident and a configuration item. The
/// incident is checked first (`NotFound`), then the configuration item
/// (`ConstraintError`); either failure creates no row. The new row carries
/// an empty description.
pub fn create(
    relations: &mut Vec<IncidentCIRelation>,
    incidents: &Vec<Incident>,
    configitems: &Vec<ConfigItem>,
    incident_id: u128,
    ci_id: u128,
) -> (r: Result<IncidentCIRelation, Error>)
    requires
        unique_pairs(old(relations)@),
    ensures
        unique_pairs(final(relations)@),
        if !crate::incidents::contains_id(incidents@, incident_id) {
            final(relations)@ == old(relations)@ && r matches Err(Error::NotFound)
        } else if !crate::configitems::contains_id(configitems@, ci_id) {
            final(relations)@ == old(relations)@ && r matches Err(Error::ConstraintError)
        } else if contains_pair(old(relations)@, incident_id, ci_id) {
            final(relations)@ == old(relations)@ && r matches Err(Error::StorageError)
        } else {
            r matches Ok(rel) && rel.incident_id == incident_id && rel.ci_id == ci_id
                && rel.description@ == Seq::<char>::empty() && final(relations)@ == old(
                relations,
            )@.push(rel)
        },
{
    if !check_valid_incident(incidents, incident_id) {
        return Err(Error::NotFound);
    }
    if !check_valid_ci(configitems, ci_id) {
        return Err(Error::ConstraintError);
    }
    match find_index(relations, incident_id, ci_id) {
        Some(i) => {
            proof {
                lemma_index_agrees(relations@, incident_id, ci_id, i as int);
            }
            Err(Error::StorageError)
        },
        None => {
            let rel = IncidentCIRelation { incident_id, ci_id, description: String::new() };
            let out = rel.clone();
            proof {
                assert(out == rel);
            }
            relations.push(rel);
            proof {
                assert forall|p: int, q: int|
                    0 <= p < q < relations@.len() implies !(relations@[p].incident_id
                    == relations@[q].incident_id && relations@[p].ci_id == relations@[q].ci_id)
                    by {
                    if q < relations@.len() - 1 {
                        assert(!(old(relations)@[p].incident_id == old(relations)@[q].incident_id
                            && old(relations)@[p].ci_id == old(relations)@[q].ci_id));
                    } else {
                        assert(!contains_pair(old(relations)@, incident_id, ci_id));
                        assert(!(old(relations)@[p].incident_id == incident_id && old(
                            relations,
                        )@[p].ci_id == ci_id));
                    }
                }
            }
            Ok(out)
        },
    }
}

/// Replace the description of an existing relation, returning the row as
/// stored; `NotFound` when the pair is not linked.
pub fn update(
    relations: &mut Vec<IncidentCIRelation>,
    incident_id: u128,
    ci_id: u128,
    description: String,
) -> (r: Result<IncidentCIRelation, Error>)
    requires
        unique_pairs(old(relations)@),
    ensures
        unique_pairs(final(relations)@),
        if contains_pair(old(relations)@, incident_id, ci_id) {
            r matches Ok(rel) && rel.incident_id == incident_id && rel.ci_id == ci_id
                && rel.description == description && final(relations)@ == old(relations)@.update(
                index_of_pair(old(relations)@, incident_id, ci_id),
                rel,
            )
        } else {
            final(relations)@ == old(relations)@ && r matches Err(Error::NotFound)
        },
{
    match find_index(relations, incident_id, ci_id) {
        None => Err(Error::NotFound),
        Some(i) => {
            proof {
                lemma_index_agrees(relations@, incident_id, ci_id, i as int);
            }
            let rel = IncidentCIRelation { incident_id, ci_id, description };
            let out = rel.clone();
            relations[i] = rel;
            proof {
                assert forall|p: int, q: int|
                    0 <= p < q < relations@.len() implies !(relations@[p].incident_id
                    == relations@[q].incident_id && relations@[p].ci_id == relations@[q].ci_id)
                    by {
                    assert(relations@[p].incident_id == old(relations)@[p].incident_id
                        && relations@[p].ci_id == old(relations)@[p].ci_id);
                    assert(relations@[q].incident_id == old(relations)@[q].incident_id
                        && relations@[q].ci_id == old(relations)@[q].ci_id);
                    assert(!(old(relations)@[p].incident_id == old(relations)@[q].incident_id
                        && old(relations)@[p].ci_id == old(relations)@[q].ci_id));
                }
            }
            Ok(out)
        },
    }
}

/// Remove the relation between this incident and this configuration item,
/// or report `NotFound`.
pub fn delete(relations: &mut Vec<IncidentCIRelation>, incident_id: u128, ci_id: u128) -> (r:
    Result<(), Error>)
    requires
        unique_pairs(old(relations)@),
    ensures
        unique_pairs(final(relations)@),
        if contains_pair(old(relations)@, incident_id, ci_id) {
            r is Ok && final(relations)@ == old(relations)@.remove(
                index_of_pair(old(relations)@, incident_id, ci_id),
            )
        } else {
            final(relations)@ == old(relations)@ && r matches Err(Error::NotFound)
        },
{
    match find_index(relations, incident_id, ci_id) {
        None => Err(Error::NotFound),
        Some(i) => {
            proof {
                lemma_index_agrees(relations@, incident_id, ci_id, i as int);
            }
            relations.remove(i);
            proof {
                old(relations)@.remove_ensures(i as int);
                assert forall|p: int, q: int|
                    0 <= p < q < relations@.len() implies !(relations@[p].incident_id
                    == relations@[q].incident_id && relations@[p].ci_id == relations@[q].ci_id)
                    by {
                    let p0: int = if p < i { p } else { p + 1 };
                    let q0: int = if q < i { q } else { q + 1 };
                    assert(relations@[p] == old(relations)@[p0]);
                    assert(relations@[q] == old(relations)@[q0]);
                    assert(!(old(relations)@[p0].incident_id == old(relations)@[q0].incident_id
                        && old(relations)@[p0].ci_id == old(relations)@[q0].ci_id));
                }
            }
            Ok(())
        },
    }
}

} // verus!
