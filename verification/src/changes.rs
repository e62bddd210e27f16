//! Requests for Change (RFCs): record shape, createset and updateset
//! payloads, validation, merge semantics, and the repository operations over
//! the in-memory table.

use vstd::prelude::*;

use crate::common::{check_name, check_text, clone_opt_string, valid_name, valid_text};
use crate::error::Error;
use crate::patch::{spec_keep_or_set, spec_patch_opt, validate_not_null, PatchField};

pub mod incident_relations;
/// Wire names of the RFC status.
pub mod json;
pub mod problem_relations;

verus! {

/// Status of an RFC. New RFCs default to `Open`.
#[derive(Clone, Copy, Debug, PartialEq, Eq, Structural)]
pub enum RFCStatus {
    Open,
    InProgress,
    Closed,
}

/// A stored Request for Change.
#[derive(Debug)]
pub struct RFC {
    pub id: u128,
    pub title: String,
    pub status: RFCStatus,
    pub created_at: String,
    pub finished_at: Option<String>,
    pub requester: String,
    pub description: String,
}

impl Clone for RFC {
    fn clone(&self) -> (r: Self)
        ensures
            r == *self,
    {
        RFC {
            id: self.id,
            title: self.title.clone(),
            status: self.status,
            created_at: self.created_at.clone(),
            finished_at: clone_opt_string(&self.finished_at),
            requester: self.requester.clone(),
            description: self.description.clone(),
        }
    }
}

/// Payload for creating an RFC. Omitted status and creation time receive
/// defaults on create.
pub struct RFCCreateset {
    pub title: String,
    pub status: Option<RFCStatus>,
    pub created_at: Option<String>,
    pub finished_at: Option<String>,
    pub requester: String,
    pub description: String,
}

/// Payload for partially updating an RFC. `title`, `status`, `created_at`,
/// `requester` and `description` are required and may not be explicitly
/// nulled.
pub struct RFCUpdateset {
    pub title: PatchField<String>,
    pub status: PatchField<RFCStatus>,
    pub created_at: PatchField<String>,
    pub finished_at: PatchField<String>,
    pub requester: PatchField<String>,
    pub description: PatchField<String>,
}

/// The first constraint a createset breaks, if any, as the name of the
/// offending field.
pub open spec fn createset_violation(cs: RFCCreateset) -> Option<Seq<char>> {
    if !valid_name(cs.title@) {
        Some("title"@)
    } else if !valid_text(cs.requester@) {
        Some("requester"@)
    } else if !valid_text(cs.description@) {
        Some("description"@)
    } else {
        None
    }
}

/// The first constraint an updateset breaks, if any: a required field set to
/// null, or a supplied value out of bounds.
pub open spec fn updateset_violation(u: RFCUpdateset) -> Option<Seq<char>> {
    if u.title is Null {
        Some("title"@)
    } else if u.title matches PatchField::Value(v) && !valid_name(v@) {
        Some("title"@)
    } else if u.status is Null {
        Some("status"@)
    } else if u.created_at is Null {
        Some("created_at"@)
    } else if u.requester is Null {
        Some("requester"@)
    } else if u.requester matches PatchField::Value(q) && !valid_text(q@) {
        Some("requester"@)
    } else if u.description is Null {
        Some("description"@)
    } else if u.description matches PatchField::Value(d) && !valid_text(d@) {
        Some("description"@)
    } else {
        None
    }
}

/// Validate a createset, reporting the offending field on failure.
pub fn validate_createset(cs: &RFCCreateset) -> (r: Result<(), Error>)
    ensures
        match createset_violation(*cs) {
            Some(f) => r matches Err(Error::ValidationError(m)) && m@ == f,
            None => r is Ok,
        },
{
    if !check_name(cs.title.as_str()) {
        return Err(Error::ValidationError(String::from_str("title")));
    }
    if !check_text(cs.requester.as_str()) {
        return Err(Error::ValidationError(String::from_str("requester")));
    }
    if !check_text(cs.description.as_str()) {
        return Err(Error::ValidationError(String::from_str("description")));
    }
    Ok(())
}

/// Validate an updateset: required fields must not be nulled, supplied
/// values must satisfy the field bounds.
pub fn validate_updateset(u: &RFCUpdateset) -> (r: Result<(), Error>)
    ensures
        match updateset_violation(*u) {
            Some(f) => r matches Err(Error::ValidationError(m)) && m@ == f,
            None => r is Ok,
        },
{
    if !validate_not_null(&u.title) {
        return Err(Error::ValidationError(String::from_str("title")));
    }
    if let PatchField::Value(v) = &u.title {
        if !check_name(v.as_str()) {
            return Err(Error::ValidationError(String::from_str("title")));
        }
    }
    if !validate_not_null(&u.status) {
        return Err(Error::ValidationError(String::from_str("status")));
    }
    if !validate_not_null(&u.created_at) {
        return Err(Error::ValidationError(String::from_str("created_at")));
    }
    if !validate_not_null(&u.requester) {
        return Err(Error::ValidationError(String::from_str("requester")));
    }
    if let PatchField::Value(q) = &u.requester {
        if !check_text(q.as_str()) {
            return Err(Error::ValidationError(String::from_str("requester")));
        }
    }
    if !validate_not_null(&u.description) {
        return Err(Error::ValidationError(String::from_str("description")));
    }
    if let PatchField::Value(d) = &u.description {
        if !check_text(d.as_str()) {
            return Err(Error::ValidationError(String::from_str("description")));
        }
    }
    Ok(())
}

/// The record a valid createset produces: omitted status becomes `Open`,
/// omitted creation time becomes `now`.
pub open spec fn spec_new_rfc(cs: RFCCreateset, id: u128, now: String) -> RFC {
    RFC {
        id: id,
        title: cs.title,
        status: match cs.status {
            Some(s) => s,
            None => RFCStatus::Open,
        },
        created_at: match cs.created_at {
            Some(t) => t,
            None => now,
        },
        finished_at: cs.finished_at,
        requester: cs.requester,
        description: cs.description,
    }
}

/// Build the record for a createset, resolving defaults.
pub fn new_rfc(cs: RFCCreateset, id: u128, now: String) -> (r: RFC)
    ensures
        r == spec_new_rfc(cs, id, now),
{
    RFC {
        id: id,
        title: cs.title,
        status: match cs.status {
            Some(s) => s,
            None => RFCStatus::Open,
        },
        created_at: match cs.created_at {
            Some(t) => t,
            None => now,
        },
        finished_at: cs.finished_at,
        requester: cs.requester,
        description: cs.description,
    }
}

/// The record after merging an updateset: `Missing` keeps the stored value,
/// `Null` clears an optional attribute, `Value(v)` stores `v`. The id is
/// never patchable.
pub open spec fn spec_apply_updateset(r: RFC, u: RFCUpdateset) -> RFC {
    RFC {
        id: r.id,
        title: spec_keep_or_set(u.title, r.title),
        status: spec_keep_or_set(u.status, r.status),
        created_at: spec_keep_or_set(u.created_at, r.created_at),
        finished_at: spec_patch_opt(u.finished_at, r.finished_at),
        requester: spec_keep_or_set(u.requester, r.requester),
        description: spec_keep_or_set(u.description, r.description),
    }
}

/// Merge an updateset onto a stored record.
pub fn apply_updateset(r: &RFC, u: RFCUpdateset) -> (out: RFC)
    ensures
        out == spec_apply_updateset(*r, u),
{
    RFC {
        id: r.id,
        title: match u.title {
            PatchField::Value(v) => v,
            _ => r.title.clone(),
        },
        status: match u.status {
            PatchField::Value(v) => v,
            _ => r.status,
        },
        created_at: match u.created_at {
            PatchField::Value(v) => v,
            _ => r.created_at.clone(),
        },
        finished_at: match u.finished_at {
            PatchField::Missing => clone_opt_string(&r.finished_at),
            PatchField::Null => None,
            PatchField::Value(v) => Some(v),
        },
        requester: match u.requester {
            PatchField::Value(v) => v,
            _ => r.requester.clone(),
        },
        description: match u.description {
            PatchField::Value(v) => v,
            _ => r.description.clone(),
        },
    }
}

/// An updateset whose every field is `Missing`.
pub open spec fn all_missing(u: RFCUpdateset) -> bool {
    &&& u.title is Missing
    &&& u.status is Missing
    &&& u.created_at is Missing
    &&& u.finished_at is Missing
    &&& u.requester is Missing
    &&& u.description is Missing
}

/// Submitting `Null` for an optional field clears it, whatever was stored.
pub proof fn lemma_null_clears(r: RFC, u: RFCUpdateset)
    ensures
        u.finished_at is Null ==> spec_apply_updateset(r, u).finished_at is None,
{
}

/// Submitting `Null` for a required field is a validation failure, so the
/// update is rejected before any write.
pub proof fn lemma_required_null_rejected(u: RFCUpdateset)
    ensures
        u.title is Null || u.status is Null || u.created_at is Null || u.requester is Null
            || u.description is Null ==> updateset_violation(u) is Some,
{
}

/// No two records of the table share an id.
pub open spec fn unique_ids(s: Seq<RFC>) -> bool {
    forall|i: int, j: int| 0 <= i < j < s.len() ==> s[i].id != s[j].id
}

/// Some record of the table has this id.
pub open spec fn contains_id(s: Seq<RFC>, id: u128) -> bool {
    exists|i: int| 0 <= i < s.len() && (#[trigger] s[i]).id == id
}

/// The index of the record with this id (meaningful when `contains_id`).
pub open spec fn index_of(s: Seq<RFC>, id: u128) -> int {
    choose|i: int| 0 <= i < s.len() && (#[trigger] s[i]).id == id
}

/// The record with this id (meaningful when `contains_id`).
pub open spec fn record_at(s: Seq<RFC>, id: u128) -> RFC {
    s[index_of(s, id)]
}

/// Find the index of the record with this id, scanning the table.
fn find_index(items: &Vec<RFC>, id: u128) -> (r: Option<usize>)
    ensures
        match r {
            Some(i) => i < items@.len() && items@[i as int].id == id,
            None => !contains_id(items@, id),
        },
{
    let mut i: usize = 0;
    while i < items.len()
        invariant
            i <= items@.len(),
            forall|j: int| 0 <= j < i ==> (#[trigger] items@[j]).id != id,
        decreases items@.len() - i,
    {
        if items[i].id == id {
            return Some(i);
        }
        i += 1;
    }
    None
}

/// A found index is the index: with unique ids, any index holding the id is
/// `index_of`.
proof fn lemma_index_agrees(s: Seq<RFC>, id: u128, i: int)
    requires
        unique_ids(s),
        0 <= i < s.len(),
        s[i].id == id,
    ensures
        index_of(s, id) == i,
        contains_id(s, id),
        record_at(s, id) == s[i],
{
    assert(contains_id(s, id));
    let k = index_of(s, id);
    assert(0 <= k < s.len() && s[k].id == id);
    if k < i {
        assert(s[k].id != s[i].id);
    } else if i < k {
        assert(s[i].id != s[k].id);
    }
}

/// Return every stored record, in table order.
pub fn load_all(items: &Vec<RFC>) -> (r: Vec<RFC>)
    ensures
        r@ == items@,
{
    let mut out: Vec<RFC> = Vec::new();
    let mut i: usize = 0;
    while i < items.len()
        invariant
            i <= items@.len(),
            out@ == items@.subrange(0, i as int),
        decreases items@.len() - i,
    {
        out.push(items[i].clone());
        proof {
            assert(out@ =~= items@.subrange(0, i + 1));
        }
        i += 1;
    }
    proof {
        assert(items@.subrange(0, items@.len() as int) =~= items@);
    }
    out
}

/// Return the record with this id, or `NotFound`.
pub fn load(items: &Vec<RFC>, id: u128) -> (r: Result<RFC, Error>)
    requires
        unique_ids(items@),
    ensures
        contains_id(items@, id) ==> (r matches Ok(rec) && rec == record_at(items@, id)),
        !contains_id(items@, id) ==> r matches Err(Error::NotFound),
{
    match find_index(items, id) {
        Some(i) => {
            proof {
                lemma_index_agrees(items@, id, i as int);
            }
            Ok(items[i].clone())
        },
        None => Err(Error::NotFound),
    }
}

/// Validate the createset, resolve defaults, and insert the new record.
/// Succeeds exactly on a valid createset and a fresh id, returning the
/// record as stored.
pub fn create(items: &mut Vec<RFC>, cs: RFCCreateset, id: u128, now: String) -> (r: Result<
    RFC,
    Error,
>)
    requires
        unique_ids(old(items)@),
    ensures
        unique_ids(final(items)@),
        match createset_violation(cs) {
            Some(f) => final(items)@ == old(items)@ && (r matches Err(Error::ValidationError(m))
                && m@ == f),
            None => if contains_id(old(items)@, id) {
                final(items)@ == old(items)@ && r matches Err(Error::StorageError)
            } else {
                r matches Ok(rec) && rec == spec_new_rfc(cs, id, now) && final(items)@ == old(
                    items,
                )@.push(spec_new_rfc(cs, id, now))
            },
        },
{
    match validate_createset(&cs) {
        Err(e) => {
            return Err(e);
        },
        Ok(()) => {},
    }
    match find_index(items, id) {
        Some(i) => {
            proof {
                lemma_index_agrees(items@, id, i as int);
            }
            Err(Error::StorageError)
        },
        None => {
            let rec = new_rfc(cs, id, now);
            let out = rec.clone();
            items.push(rec);
            proof {
                assert forall|p: int, q: int|
                    0 <= p < q < items@.len() implies items@[p].id != items@[q].id by {
                    if q < items@.len() - 1 {
                        assert(old(items)@[p].id != old(items)@[q].id);
                    } else {
                        assert(!contains_id(old(items)@, id));
                        assert(old(items)@[p].id != id);
                    }
                }
            }
            Ok(out)
        },
    }
}

/// Validate the updateset, then merge it onto the stored record in place.
/// Returns the post-merge record; a validation failure or a missing id
/// leaves the table untouched.
pub fn update(items: &mut Vec<RFC>, id: u128, u: RFCUpdateset) -> (r: Result<
    RFC,
    Error,
>)
    requires
        unique_ids(old(items)@),
    ensures
        unique_ids(final(items)@),
        match updateset_violation(u) {
            Some(f) => final(items)@ == old(items)@ && (r matches Err(Error::ValidationError(m))
                && m@ == f),
            None => if contains_id(old(items)@, id) {
                r matches Ok(rec) && rec == spec_apply_updateset(record_at(old(items)@, id), u)
                    && final(items)@ == old(items)@.update(
                    index_of(old(items)@, id),
                    spec_apply_updateset(record_at(old(items)@, id), u),
                )
            } else {
                final(items)@ == old(items)@ && r matches Err(Error::NotFound)
            },
        },
{
    match validate_updateset(&u) {
        Err(e) => {
            return Err(e);
        },
        Ok(()) => {},
    }
    match find_index(items, id) {
        None => Err(Error::NotFound),
        Some(i) => {
            proof {
                lemma_index_agrees(items@, id, i as int);
            }
            let newr = apply_updateset(&items[i], u);
            let out = newr.clone();
            items[i] = newr;
            proof {
                assert forall|p: int, q: int|
                    0 <= p < q < items@.len() implies items@[p].id != items@[q].id by {
                    assert(items@[p].id == old(items)@[p].id);
                    assert(items@[q].id == old(items)@[q].id);
                    assert(old(items)@[p].id != old(items)@[q].id);
                }
            }
            Ok(out)
        },
    }
}

/// Remove the record with this id, or report `NotFound`.
pub fn delete(items: &mut Vec<RFC>, id: u128) -> (r: Result<(), Error>)
    requires
        unique_ids(old(items)@),
    ensures
        unique_ids(final(items)@),
        if contains_id(old(items)@, id) {
            r is Ok && final(items)@ == old(items)@.remove(index_of(old(items)@, id))
        } else {
            final(items)@ == old(items)@ && r matches Err(Error::NotFound)
        },
{
    match find_index(items, id) {
        None => Err(Error::NotFound),
        Some(i) => {
            proof {
                lemma_index_agrees(items@, id, i as int);
            }
            items.remove(i);
            proof {
                old(items)@.remove_ensures(i as int);
                assert forall|p: int, q: int|
                    0 <= p < q < items@.len() implies items@[p].id != items@[q].id by {
                    let p0: int = if p < i { p } else { p + 1 };
                    let q0: int = if q < i { q } else { q + 1 };
                    assert(items@[p] == old(items)@[p0]);
                    assert(items@[q] == old(items)@[q0]);
                    assert(old(items)@[p0].id != old(items)@[q0].id);
                }
            }
            Ok(())
        },
    }
}

/// An all-`Missing` updateset is the identity: the merged record equals the
/// stored one, and writing it back leaves the table exactly as it was.
pub proof fn lemma_all_missing_is_identity(s: Seq<RFC>, id: u128, u: RFCUpdateset)
    requires
        all_missing(u),
        unique_ids(s),
        contains_id(s, id),
    ensures
        spec_apply_updateset(record_at(s, id), u) == record_at(s, id),
        s.update(index_of(s, id), spec_apply_updateset(record_at(s, id), u)) == s,
{
    assert(s.update(index_of(s, id), spec_apply_updateset(record_at(s, id), u)) =~= s);
}

/// Applying the same updateset twice gives the same record as applying it
/// once.
pub proof fn lemma_apply_idempotent(r: RFC, u: RFCUpdateset)
    ensures
        spec_apply_updateset(spec_apply_updateset(r, u), u) == spec_apply_updateset(r, u),
{
}

} // verus!
