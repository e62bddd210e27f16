//! Relations between Problems and Incidents. A relation is
//! identified by the pair of foreign keys and carries a free-text
//! description. It may only be created when the problem exists and the
//! incident exists; a failed creation leaves no row behind.

use vstd::prelude::*;

use crate::error::Error;
use crate::incidents::Incident;
use crate::problems::Problem;

verus! {

/// A stored relation between a Problem and an Incident.
#[derive(Debug)]
pub struct ProblemIncidentRelation {
    pub problem_id: u128,
    pub incident_id: u128,
    pub description: String,
}

impl Clone for ProblemIncidentRelation {
    fn clone(&self) -> (r: Self)
        ensures
            r == *self,
    {
        ProblemIncidentRelation {
            problem_id: self.problem_id,
            incident_id: self.incident_id,
            description: self.description.clone(),
        }
    }
}

/// No two rows of the table share the pair of foreign keys.
pub open spec fn unique_pairs(s: Seq<ProblemIncidentRelation>) -> bool {
    forall|i: int, j: int|
        0 <= i < j < s.len() ==> !(s[i].problem_id == s[j].problem_id && s[i].incident_id
            == s[j].incident_id)
}

/// Some row of the table links this problem and this incident.
pub open spec fn contains_pair(s: Seq<ProblemIncidentRelation>, problem_id: u128, incident_id: u128) -> bool {
    exists|i: int|
        0 <= i < s.len() && (#[trigger] s[i]).problem_id == problem_id && s[i].incident_id == incident_id
}

/// The index of the row with this pair (meaningful when `contains_pair`).
pub open spec fn index_of_pair(s: Seq<ProblemIncidentRelation>, problem_id: u128, incident_id: u128) -> int {
    choose|i: int|
        0 <= i < s.len() && (#[trigger] s[i]).problem_id == problem_id && s[i].incident_id == incident_id
}

/// The rows that belong to one problem, in table order.
pub open spec fn relations_of(s: Seq<ProblemIncidentRelation>, problem_id: u128) -> Seq<
    ProblemIncidentRelation,
>
    decreases s.len(),
{
    if s.len() == 0 {
        Seq::empty()
    } else {
        let rest = relations_of(s.drop_last(), problem_id);
        if s.last().problem_id == problem_id {
            rest.push(s.last())
        } else {
            rest
        }
    }
}

/// Find the index of the row with this pair, scanning the table.
fn find_index(items: &Vec<ProblemIncidentRelation>, problem_id: u128, incident_id: u128) -> (r: Option<usize>)
    ensures
        match r {
            Some(i) => i < items@.len() && items@[i as int].problem_id == problem_id
                && items@[i as int].incident_id == incident_id,
            None => !contains_pair(items@, problem_id, incident_id),
        },
{
    let mut i: usize = 0;
    while i < items.len()
        invariant
            i <= items@.len(),
            forall|j: int|
                0 <= j < i ==> !((#[trigger] items@[j]).problem_id == problem_id
                    && items@[j].incident_id == incident_id),
        decreases items@.len() - i,
    {
        if items[i].problem_id == problem_id && items[i].incident_id == incident_id {
            return Some(i);
        }
        i += 1;
    }
    None
}

/// A found index is the index: with unique pairs, any index holding the pair
/// is `index_of_pair`.
proof fn lemma_index_agrees(s: Seq<ProblemIncidentRelation>, problem_id: u128, incident_id: u128, i: int)
    requires
        unique_pairs(s),
        0 <= i < s.len(),
        s[i].problem_id == problem_id,
        s[i].incident_id == incident_id,
    ensures
        index_of_pair(s, problem_id, incident_id) == i,
        contains_pair(s, problem_id, incident_id),
{
    assert(contains_pair(s, problem_id, incident_id));
    let k = index_of_pair(s, problem_id, incident_id);
    assert(0 <= k < s.len() && s[k].problem_id == problem_id && s[k].incident_id == incident_id);
    if k < i {
        assert(!(s[k].problem_id == s[i].problem_id && s[k].incident_id == s[i].incident_id));
    } else if i < k {
        assert(!(s[i].problem_id == s[k].problem_id && s[i].incident_id == s[k].incident_id));
    }
}

/// Check that the problem referenced by the path exists.
fn check_valid_problem(problems: &Vec<Problem>, id: u128) -> (r: bool)
    ensures
        r == crate::problems::contains_id(problems@, id),
{
    let mut i: usize = 0;
    while i < problems.len()
        invariant
            i <= problems@.len(),
            forall|j: int| 0 <= j < i ==> (#[trigger] problems@[j]).id != id,
        decreases problems@.len() - i,
    {
        if problems[i].id == id {
            return true;
        }
        i += 1;
    }
    false
}

/// Check that the incident referenced by the payload exists.
fn check_valid_incident(incidents: &Vec<Incident>, id: u128) -> (r: bool)
    ensures
        r == crate::incidents::contains_id(incidents@, id),
{
    let mut i: usize = 0;
    while i < incidents.len()
        invariant
            i <= incidents@.len(),
            forall|j: int| 0 <= j < i ==> (#[trigger] incidents@[j]).id != id,
        decreases incidents@.len() - i,
    {
        if incidents[i].id == id {
            return true;
        }
        i += 1;
    }
    false
}

/// List the relations of one problem, or `NotFound` when the problem does
/// not exist.
pub fn load_all(
    relations: &Vec<ProblemIncidentRelation>,
    problems: &Vec<Problem>,
    problem_id: u128,
) -> (r: Result<Vec<ProblemIncidentRelation>, Error>)
    ensures
        if crate::problems::contains_id(problems@, problem_id) {
            r matches Ok(v) && v@ == relations_of(relations@, problem_id)
        } else {
            r matches Err(Error::NotFound)
        },
{
    if !check_valid_problem(problems, problem_id) {
        return Err(Error::NotFound);
    }
    let mut out: Vec<ProblemIncidentRelation> = Vec::new();
    let mut i: usize = 0;
    while i < relations.len()
        invariant
            i <= relations@.len(),
            out@ == relations_of(relations@.subrange(0, i as int), problem_id),
        decreases relations@.len() - i,
    {
        proof {
            assert(relations@.subrange(0, i + 1).drop_last() =~= relations@.subrange(0, i as int));
            assert(relations@.subrange(0, i + 1).last() == relations@[i as int]);
        }
        if relations[i].problem_id == problem_id {
            out.push(relations[i].clone());
        }
        i += 1;
    }
    proof {
        assert(relations@.subrange(0, relations@.len() as int) =~= relations@);
    }
    Ok(out)
}

/// Create a relation between a problem and an incident. The problem is
/// checked first (`NotFound`), then the incident (`ConstraintError`);
/// either failure creates no row. The new row carries an empty
/// description.
pub fn create(
    relations: &mut Vec<ProblemIncidentRelation>,
    problems: &Vec<Problem>,
    incidents: &Vec<Incident>,
    problem_id: u128,
    incident_id: u128,
) -> (r: Result<ProblemIncidentRelation, Error>)
    requires
        unique_pairs(old(relations)@),
    ensures
        unique_pairs(final(relations)@),
        if !crate::problems::contains_id(problems@, problem_id) {
            final(relations)@ == old(relations)@ && r matches Err(Error::NotFound)
        } else if !crate::incidents::contains_id(incidents@, incident_id) {
            final(relations)@ == old(relations)@ && r matches Err(Error::ConstraintError)
        } else if contains_pair(old(relations)@, problem_id, incident_id) {
            final(relations)@ == old(relations)@ && r matches Err(Error::StorageError)
        } else {
            r matches Ok(rel) && rel.problem_id == problem_id && rel.incident_id == incident_id
                && rel.description@ == Seq::<char>::empty() && final(relations)@ == old(
                relations,
            )@.push(rel)
        },
{
    if !check_valid_problem(problems, problem_id) {
        return Err(Error::NotFound);
    }
    if !check_valid_incident(incidents, incident_id) {
        return Err(Error::ConstraintError);
    }
    match find_index(relations, problem_id, incident_id) {
        Some(i) => {
            proof {
                lemma_index_agrees(relations@, problem_id, incident_id, i as int);
            }
            Err(Error::StorageError)
        },
        None => {
            let rel = ProblemIncidentRelation { problem_id, incident_id, description: String::new() };
            let out = rel.clone();
            proof {
                assert(out == rel);
            }
            relations.push(rel);
            proof {
                assert forall|p: int, q: int|
                    0 <= p < q < relations@.len() implies !(relations@[p].problem_id
                    == relations@[q].problem_id && relations@[p].incident_id == relations@[q].incident_id)
                    by {
                    if q < relations@.len() - 1 {
                        assert(!(old(relations)@[p].problem_id == old(relations)@[q].problem_id
                            && old(relations)@[p].incident_id == old(relations)@[q].incident_id));
                    } else {
                        assert(!contains_pair(old(relations)@, problem_id, incident_id));
                        assert(!(old(relations)@[p].problem_id == problem_id && old(
                            relations,
                        )@[p].incident_id == incident_id));
                    }
                }
            }
            Ok(out)
        },
    }
}

/// Replace the description of an existing relation, returning the row as
/// stored; `NotFound` when the pair is not linked.
pub fn update(
    relations: &mut Vec<ProblemIncidentRelation>,
    problem_id: u128,
    incident_id: u128,
    description: String,
) -> (r: Result<ProblemIncidentRelation, Error>)
    requires
        unique_pairs(old(relations)@),
    ensures
        unique_pairs(final(relations)@),
        if contains_pair(old(relations)@, problem_id, incident_id) {
            r matches Ok(rel) && rel.problem_id == problem_id && rel.incident_id == incident_id
                && rel.description == description && final(relations)@ == old(relations)@.update(
                index_of_pair(old(relations)@, problem_id, incident_id),
                rel,
            )
        } else {
            final(relations)@ == old(relations)@ && r matches Err(Error::NotFound)
        },
{
    match find_index(relations, problem_id, incident_id) {
        None => Err(Error::NotFound),
        Some(i) => {
            proof {
                lemma_index_agrees(relations@, problem_id, incident_id, i as int);
            }
            let rel = ProblemIncidentRelation { problem_id, incident_id, description };
            let out = rel.clone();
            relations[i] = rel;
            proof {
                assert forall|p: int, q: int|
                    0 <= p < q < relations@.len() implies !(relations@[p].problem_id
                    == relations@[q].problem_id && relations@[p].incident_id == relations@[q].incident_id)
                    by {
                    assert(relations@[p].problem_id == old(relations)@[p].problem_id
                        && relations@[p].incident_id == old(relations)@[p].incident_id);
                    assert(relations@[q].problem_id == old(relations)@[q].problem_id
                        && relations@[q].incident_id == old(relations)@[q].incident_id);
                    assert(!(old(relations)@[p].problem_id == old(relations)@[q].problem_id
                        && old(relations)@[p].incident_id == old(relations)@[q].incident_id));
                }
            }
            Ok(out)
        },
    }
}

/// Remove the relation between this problem and this incident, or report
/// `NotFound`.
pub fn delete(relations: &mut Vec<ProblemIncidentRelation>, problem_id: u128, incident_id: u128) -> (r:
    Result<(), Error>)
    requires
        unique_pairs(old(relations)@),
    ensures
        unique_pairs(final(relations)@),
        if contains_pair(old(relations)@, problem_id, incident_id) {
            r is Ok && final(relations)@ == old(relations)@.remove(
                index_of_pair(old(relations)@, problem_id, incident_id),
            )
        } else {
            final(relations)@ == old(relations)@ && r matches Err(Error::NotFound)
        },
{
    match find_index(relations, problem_id, incident_id) {
        None => Err(Error::NotFound),
        Some(i) => {
            proof {
                lemma_index_agrees(relations@, problem_id, incident_id, i as int);
            }
            relations.remove(i);
            proof {
                old(relations)@.remove_ensures(i as int);
                assert forall|p: int, q: int|
                    0 <= p < q < relations@.len() implies !(relations@[p].problem_id
                    == relations@[q].problem_id && relations@[p].incident_id == relations@[q].incident_id)
                    by {
                    let p0: int = if p < i { p } else { p + 1 };
                    let q0: int = if q < i { q } else { q + 1 };
                    assert(relations@[p] == old(relations)@[p0]);
                    assert(relations@[q] == old(relations)@[q0]);
                    assert(!(old(relations)@[p0].problem_id == old(relations)@[q0].problem_id
                        && old(relations)@[p0].incident_id == old(relations)@[q0].incident_id));
                }
            }
            Ok(())
        },
    }
}

} // verus!
