//! Change records of a Configuration Item: every change carries the time it
//! was implemented and a link to its documentation. Records live under one
//! Configuration Item, which must exist for a record to be listed or
//! created.

use vstd::prelude::*;

use crate::common::{
    check_text, lemma_lex_le_total, lemma_lex_le_trans, lex_le, str_le, valid_text,
};
use crate::configitems::ConfigItem;
use crate::error::Error;
use crate::patch::{spec_keep_or_set, validate_not_null, PatchField};

verus! {

/// A stored change record of a Configuration Item.
#[derive(Debug)]
pub struct CIChange {
    pub id: u128,
    pub ci_id: u128,
    pub implementation_timedate: String,
    pub documentation: String,
}

impl Clone for CIChange {
    fn clone(&self) -> (r: Self)
        ensures
            r == *self,
    {
        CIChange {
            id: self.id,
            ci_id: self.ci_id,
            implementation_timedate: self.implementation_timedate.clone(),
            documentation: self.documentation.clone(),
        }
    }
}

/// Payload for creating a change record. The implementation time is
/// mandatory; there is no default.
pub struct CIChangeCreateset {
    pub implementation_timedate: String,
    pub documentation: String,
}

/// Payload for partially updating a change record. Both fields are required
/// and may not be explicitly nulled.
pub struct CIChangeUpdateset {
    pub implementation_timedate: PatchField<String>,
    pub documentation: PatchField<String>,
}

/// The first constraint a createset breaks, if any, as the name of the
/// offending field.
pub open spec fn createset_violation(cs: CIChangeCreateset) -> Option<Seq<char>> {
    if !valid_text(cs.documentation@) {
        Some("documentation"@)
    } else {
        None
    }
}

/// The first constraint an updateset breaks, if any: a required field set to
/// null, or a supplied value out of bounds.
pub open spec fn updateset_violation(u: CIChangeUpdateset) -> Option<Seq<char>> {
    if u.implementation_timedate is Null {
        Some("implementation_timedate"@)
    } else if u.documentation is Null {
        Some("documentation"@)
    } else if u.documentation matches PatchField::Value(d) && !valid_text(d@) {
        Some("documentation"@)
    } else {
        None
    }
}

/// Validate a createset, reporting the offending field on failure.
pub fn validate_createset(cs: &CIChangeCreateset) -> (r: Result<(), Error>)
    ensures
        match createset_violation(*cs) {
            Some(f) => r matches Err(Error::ValidationError(m)) && m@ == f,
            None => r is Ok,
        },
{
    if !check_text(cs.documentation.as_str()) {
        return Err(Error::ValidationError(String::from_str("documentation")));
    }
    Ok(())
}

/// Validate an updateset: required fields must not be nulled, supplied
/// values must satisfy the field bounds.
pub fn validate_updateset(u: &CIChangeUpdateset) -> (r: Result<(), Error>)
    ensures
        match updateset_violation(*u) {
            Some(f) => r matches Err(Error::ValidationError(m)) && m@ == f,
            None => r is Ok,
        },
{
    if !validate_not_null(&u.implementation_timedate) {
        return Err(Error::ValidationError(String::from_str("implementation_timedate")));
    }
    if !validate_not_null(&u.documentation) {
        return Err(Error::ValidationError(String::from_str("documentation")));
    }
    if let PatchField::Value(d) = &u.documentation {
        if !check_text(d.as_str()) {
            return Err(Error::ValidationError(String::from_str("documentation")));
        }
    }
    Ok(())
}

/// The record a valid createset produces under one Configuration Item.
pub open spec fn spec_new_ci_change(cs: CIChangeCreateset, ci_id: u128, id: u128) -> CIChange {
    CIChange {
        id: id,
        ci_id: ci_id,
        implementation_timedate: cs.implementation_timedate,
        documentation: cs.documentation,
    }
}

/// The record after merging an updateset: `Missing` keeps the stored value,
/// `Value(v)` stores `v`. The id and the owning Configuration Item are
/// never patchable.
pub open spec fn spec_apply_updateset(r: CIChange, u: CIChangeUpdateset) -> CIChange {
    CIChange {
        id: r.id,
        ci_id: r.ci_id,
        implementation_timedate: spec_keep_or_set(
            u.implementation_timedate,
            r.implementation_timedate,
        ),
        documentation: spec_keep_or_set(u.documentation, r.documentation),
    }
}

/// Merge an updateset onto a stored record.
pub fn apply_updateset(r: &CIChange, u: CIChangeUpdateset) -> (out: CIChange)
    ensures
        out == spec_apply_updateset(*r, u),
{
    CIChange {
        id: r.id,
        ci_id: r.ci_id,
        implementation_timedate: match u.implementation_timedate {
            PatchField::Value(v) => v,
            _ => r.implementation_timedate.clone(),
        },
        documentation: match u.documentation {
            PatchField::Value(v) => v,
            _ => r.documentation.clone(),
        },
    }
}

/// No two records of the table share an id.
pub open spec fn unique_ids(s: Seq<CIChange>) -> bool {
    forall|i: int, j: int| 0 <= i < j < s.len() ==> s[i].id != s[j].id
}

/// Some record of the table has this id.
pub open spec fn contains_id(s: Seq<CIChange>, id: u128) -> bool {
    exists|i: int| 0 <= i < s.len() && (#[trigger] s[i]).id == id
}

/// The index of the record with this id (meaningful when `contains_id`).
pub open spec fn index_of(s: Seq<CIChange>, id: u128) -> int {
    choose|i: int| 0 <= i < s.len() && (#[trigger] s[i]).id == id
}

/// The record with this id (meaningful when `contains_id`).
pub open spec fn record_at(s: Seq<CIChange>, id: u128) -> CIChange {
    s[index_of(s, id)]
}

/// The ordering key of a change record: the text of its implementation
/// time. For the RFC 3339 form the tables keep, lexicographic order on this
/// key is chronological order.
pub open spec fn time_key(c: CIChange) -> Seq<char> {
    c.implementation_timedate@
}

/// The records run from the latest implementation time to the earliest.
pub open spec fn sorted_desc(s: Seq<CIChange>) -> bool {
    forall|i: int, j: int| 0 <= i < j < s.len() ==> lex_le(time_key(s[j]), time_key(s[i]))
}

/// Insert a record into a descending listing: it goes behind every record
/// whose implementation time is equal or later.
pub open spec fn insert_desc(s: Seq<CIChange>, x: CIChange) -> Seq<CIChange>
    decreases s.len(),
{
    if s.len() == 0 {
        seq![x]
    } else if lex_le(time_key(x), time_key(s[0])) {
        seq![s[0]] + insert_desc(s.drop_first(), x)
    } else {
        seq![x] + s
    }
}

/// The change records of one Configuration Item, ordered by implementation
/// time, latest first; records sharing a time keep their table order.
pub open spec fn changes_desc(s: Seq<CIChange>, ci_id: u128) -> Seq<CIChange>
    decreases s.len(),
{
    if s.len() == 0 {
        Seq::empty()
    } else {
        let rest = changes_desc(s.drop_last(), ci_id);
        if s.last().ci_id == ci_id {
            insert_desc(rest, s.last())
        } else {
            rest
        }
    }
}

/// Inserting at the position the scan finds is `insert_desc`.
proof fn lemma_insert_desc_at(s: Seq<CIChange>, x: CIChange, p: int)
    requires
        0 <= p <= s.len(),
        forall|j: int| 0 <= j < p ==> lex_le(time_key(x), time_key(#[trigger] s[j])),
        p < s.len() ==> !lex_le(time_key(x), time_key(s[p])),
    ensures
        insert_desc(s, x) == s.insert(p, x),
    decreases s.len(),
{
    if s.len() == 0 {
        assert(insert_desc(s, x) =~= s.insert(0, x));
    } else if p == 0 {
        assert(insert_desc(s, x) =~= s.insert(0, x));
    } else {
        assert(lex_le(time_key(x), time_key(s[0])));
        lemma_insert_desc_at(s.drop_first(), x, p - 1);
        assert(seq![s[0]] + s.drop_first().insert(p - 1, x) =~= s.insert(p, x));
    }
}

/// An inserted listing holds the new record and the old ones, nothing else.
proof fn lemma_insert_desc_elems(s: Seq<CIChange>, x: CIChange)
    ensures
        insert_desc(s, x).len() == s.len() + 1,
        forall|i: int|
            0 <= i < insert_desc(s, x).len() ==> insert_desc(s, x)[i] == x || s.contains(
                #[trigger] insert_desc(s, x)[i],
            ),
    decreases s.len(),
{
    if s.len() == 0 {
    } else if lex_le(time_key(x), time_key(s[0])) {
        lemma_insert_desc_elems(s.drop_first(), x);
        let r = insert_desc(s, x);
        let inner = insert_desc(s.drop_first(), x);
        assert forall|i: int| 0 <= i < r.len() implies r[i] == x || s.contains(#[trigger] r[i]) by {
            if i == 0 {
                assert(s[0] == r[0]);
                assert(s.contains(r[0]));
            } else {
                assert(r[i] == inner[i - 1]);
                if inner[i - 1] != x {
                    assert(s.drop_first().contains(inner[i - 1]));
                    let k = choose|k: int|
                        0 <= k < s.drop_first().len() && s.drop_first()[k] == inner[i - 1];
                    assert(s[k + 1] == inner[i - 1]);
                    assert(s.contains(r[i]));
                }
            }
        }
    } else {
        let r = insert_desc(s, x);
        assert forall|i: int| 0 <= i < r.len() implies r[i] == x || s.contains(#[trigger] r[i]) by {
            if i > 0 {
                assert(r[i] == s[i - 1]);
                assert(s.contains(r[i]));
            }
        }
    }
}

/// Insertion keeps the listing descending.
proof fn lemma_insert_desc_sorted(s: Seq<CIChange>, x: CIChange)
    requires
        sorted_desc(s),
    ensures
        sorted_desc(insert_desc(s, x)),
    decreases s.len(),
{
    if s.len() == 0 {
    } else if lex_le(time_key(x), time_key(s[0])) {
        assert(sorted_desc(s.drop_first())) by {
            assert forall|i: int, j: int|
                0 <= i < j < s.drop_first().len() implies lex_le(
                time_key(s.drop_first()[j]),
                time_key(s.drop_first()[i]),
            ) by {
                assert(s.drop_first()[i] == s[i + 1]);
                assert(s.drop_first()[j] == s[j + 1]);
                assert(lex_le(time_key(s[j + 1]), time_key(s[i + 1])));
            }
        }
        lemma_insert_desc_sorted(s.drop_first(), x);
        lemma_insert_desc_elems(s.drop_first(), x);
        let r = insert_desc(s, x);
        let inner = insert_desc(s.drop_first(), x);
        assert forall|i: int, j: int|
            0 <= i < j < r.len() implies lex_le(time_key(r[j]), time_key(r[i])) by {
            if i == 0 {
                assert(r[0] == s[0]);
                assert(r[j] == inner[j - 1]);
                if inner[j - 1] == x {
                } else {
                    assert(s.drop_first().contains(inner[j - 1]));
                    let k = choose|k: int|
                        0 <= k < s.drop_first().len() && s.drop_first()[k] == inner[j - 1];
                    assert(s[k + 1] == inner[j - 1]);
                    assert(lex_le(time_key(s[k + 1]), time_key(s[0])));
                }
            } else {
                assert(r[i] == inner[i - 1]);
                assert(r[j] == inner[j - 1]);
                assert(lex_le(time_key(inner[j - 1]), time_key(inner[i - 1])));
            }
        }
    } else {
        let r = insert_desc(s, x);
        lemma_lex_le_total(time_key(x), time_key(s[0]));
        assert forall|i: int, j: int|
            0 <= i < j < r.len() implies lex_le(time_key(r[j]), time_key(r[i])) by {
            if i == 0 {
                assert(r[j] == s[j - 1]);
                if j > 1 {
                    assert(lex_le(time_key(s[j - 1]), time_key(s[0])));
                    lemma_lex_le_trans(time_key(s[j - 1]), time_key(s[0]), time_key(x));
                }
            } else {
                assert(r[i] == s[i - 1]);
                assert(r[j] == s[j - 1]);
                assert(lex_le(time_key(s[j - 1]), time_key(s[i - 1])));
            }
        }
    }
}

/// The listing of a Configuration Item's changes is descending in
/// implementation time.
pub proof fn lemma_changes_desc_sorted(s: Seq<CIChange>, ci_id: u128)
    ensures
        sorted_desc(changes_desc(s, ci_id)),
    decreases s.len(),
{
    if s.len() > 0 {
        lemma_changes_desc_sorted(s.drop_last(), ci_id);
        if s.last().ci_id == ci_id {
            lemma_insert_desc_sorted(changes_desc(s.drop_last(), ci_id), s.last());
        }
    }
}

/// Find the index of the record with this id, scanning the table.
fn find_index(items: &Vec<CIChange>, id: u128) -> (r: Option<usize>)
    ensures
        match r {
            Some(i) => i < items@.len() && items@[i as int].id == id,
            None => !contains_id(items@, id),
        },
{
    let mut i: usize = 0;
    while i < items.len()
        invariant
            i <= items@.len(),
            forall|j: int| 0 <= j < i ==> (#[trigger] items@[j]).id != id,
        decreases items@.len() - i,
    {
        if items[i].id == id {
            return Some(i);
        }
        i += 1;
    }
    None
}

/// A found index is the index: with unique ids, any index holding the id is
/// `index_of`.
proof fn lemma_index_agrees(s: Seq<CIChange>, id: u128, i: int)
    requires
        unique_ids(s),
        0 <= i < s.len(),
        s[i].id == id,
    ensures
        index_of(s, id) == i,
        contains_id(s, id),
        record_at(s, id) == s[i],
{
    assert(contains_id(s, id));
    let k = index_of(s, id);
    assert(0 <= k < s.len() && s[k].id == id);
    if k < i {
        assert(s[k].id != s[i].id);
    } else if i < k {
        assert(s[i].id != s[k].id);
    }
}

/// Check that the Configuration Item referenced by the path exists.
fn check_valid_ci(configitems: &Vec<ConfigItem>, id: u128) -> (r: bool)
    ensures
        r == crate::configitems::contains_id(configitems@, id),
{
    let mut i: usize = 0;
    while i < configitems.len()
        invariant
            i <= configitems@.len(),
            forall|j: int| 0 <= j < i ==> (#[trigger] configitems@[j]).id != id,
        decreases configitems@.len() - i,
    {
        if configitems[i].id == id {
            return true;
        }
        i += 1;
    }
    false
}

/// The position a record takes in a descending listing: the first index
/// whose implementation time is strictly earlier.
fn insert_position(items: &Vec<CIChange>, x: &CIChange) -> (p: usize)
    ensures
        p <= items@.len(),
        forall|j: int| 0 <= j < p ==> lex_le(time_key(*x), time_key(#[trigger] items@[j])),
        p < items@.len() ==> !lex_le(time_key(*x), time_key(items@[p as int])),
{
    let mut i: usize = 0;
    while i < items.len()
        invariant
            i <= items@.len(),
            forall|j: int| 0 <= j < i ==> lex_le(time_key(*x), time_key(#[trigger] items@[j])),
        decreases items@.len() - i,
    {
        if !str_le(
            x.implementation_timedate.as_str(),
            items[i].implementation_timedate.as_str(),
        ) {
            return i;
        }
        i += 1;
    }
    i
}

/// List the change records of one Configuration Item, latest
/// implementation time first, or `NotFound` when the item does not exist.
pub fn load_all(items: &Vec<CIChange>, configitems: &Vec<ConfigItem>, ci_id: u128) -> (r: Result<
    Vec<CIChange>,
    Error,
>)
    ensures
        if crate::configitems::contains_id(configitems@, ci_id) {
            r matches Ok(v) && v@ == changes_desc(items@, ci_id)
        } else {
            r matches Err(Error::NotFound)
        },
{
    if !check_valid_ci(configitems, ci_id) {
        return Err(Error::NotFound);
    }
    let mut out: Vec<CIChange> = Vec::new();
    let mut i: usize = 0;
    while i < items.len()
        invariant
            i <= items@.len(),
            out@ == changes_desc(items@.subrange(0, i as int), ci_id),
        decreases items@.len() - i,
    {
        proof {
            assert(items@.subrange(0, i + 1).drop_last() =~= items@.subrange(0, i as int));
            assert(items@.subrange(0, i + 1).last() == items@[i as int]);
        }
        if items[i].ci_id == ci_id {
            let p = insert_position(&out, &items[i]);
            let rec = items[i].clone();
            proof {
                lemma_insert_desc_at(out@, rec, p as int);
            }
            out.insert(p, rec);
        }
        i += 1;
    }
    proof {
        assert(items@.subrange(0, items@.len() as int) =~= items@);
    }
    Ok(out)
}

/// Return the change record with this id under this Configuration Item, or
/// `NotFound`.
pub fn load(items: &Vec<CIChange>, id: u128, ci_id: u128) -> (r: Result<CIChange, Error>)
    requires
        unique_ids(items@),
    ensures
        if contains_id(items@, id) && record_at(items@, id).ci_id == ci_id {
            r matches Ok(rec) && rec == record_at(items@, id)
        } else {
            r matches Err(Error::NotFound)
        },
{
    match find_index(items, id) {
        None => Err(Error::NotFound),
        Some(i) => {
            proof {
                lemma_index_agrees(items@, id, i as int);
            }
            if items[i].ci_id != ci_id {
                return Err(Error::NotFound);
            }
            Ok(items[i].clone())
        },
    }
}

/// Validate the createset, confirm the Configuration Item exists, and
/// insert the new record. The validation failure comes before the
/// existence check, and neither failure writes anything.
pub fn create(
    items: &mut Vec<CIChange>,
    configitems: &Vec<ConfigItem>,
    ci_id: u128,
    cs: CIChangeCreateset,
    id: u128,
) -> (r: Result<CIChange, Error>)
    requires
        unique_ids(old(items)@),
    ensures
        unique_ids(final(items)@),
        match createset_violation(cs) {
            Some(f) => final(items)@ == old(items)@ && (r matches Err(Error::ValidationError(m))
                && m@ == f),
            None => if !crate::configitems::contains_id(configitems@, ci_id) {
                final(items)@ == old(items)@ && r matches Err(Error::NotFound)
            } else if contains_id(old(items)@, id) {
                final(items)@ == old(items)@ && r matches Err(Error::StorageError)
            } else {
                r matches Ok(rec) && rec == spec_new_ci_change(cs, ci_id, id) && final(items)@
                    == old(items)@.push(spec_new_ci_change(cs, ci_id, id))
            },
        },
{
    match validate_createset(&cs) {
        Err(e) => {
            return Err(e);
        },
        Ok(()) => {},
    }
    if !check_valid_ci(configitems, ci_id) {
        return Err(Error::NotFound);
    }
    match find_index(items, id) {
        Some(i) => {
            proof {
                lemma_index_agrees(items@, id, i as int);
            }
            Err(Error::StorageError)
        },
        None => {
            let rec = CIChange {
                id,
                ci_id,
                implementation_timedate: cs.implementation_timedate,
                documentation: cs.documentation,
            };
            let out = rec.clone();
            items.push(rec);
            proof {
                assert forall|p: int, q: int|
                    0 <= p < q < items@.len() implies items@[p].id != items@[q].id by {
                    if q < items@.len() - 1 {
                        assert(old(items)@[p].id != old(items)@[q].id);
                    } else {
                        assert(!contains_id(old(items)@, id));
                        assert(old(items)@[p].id != id);
                    }
                }
            }
            Ok(out)
        },
    }
}

/// Validate the updateset, then merge it onto the stored record in place.
/// The record must exist under the named Configuration Item.
pub fn update(items: &mut Vec<CIChange>, id: u128, ci_id: u128, u: CIChangeUpdateset) -> (r: Result<
    CIChange,
    Error,
>)
    requires
        unique_ids(old(items)@),
    ensures
        unique_ids(final(items)@),
        match updateset_violation(u) {
            Some(f) => final(items)@ == old(items)@ && (r matches Err(Error::ValidationError(m))
                && m@ == f),
            None => if contains_id(old(items)@, id) && record_at(old(items)@, id).ci_id == ci_id {
                r matches Ok(rec) && rec == spec_apply_updateset(record_at(old(items)@, id), u)
                    && final(items)@ == old(items)@.update(
                    index_of(old(items)@, id),
                    spec_apply_updateset(record_at(old(items)@, id), u),
                )
            } else {
                final(items)@ == old(items)@ && r matches Err(Error::NotFound)
            },
        },
{
    match validate_updateset(&u) {
        Err(e) => {
            return Err(e);
        },
        Ok(()) => {},
    }
    match find_index(items, id) {
        None => Err(Error::NotFound),
        Some(i) => {
            proof {
                lemma_index_agrees(items@, id, i as int);
            }
            if items[i].ci_id != ci_id {
                return Err(Error::NotFound);
            }
            let newr = apply_updateset(&items[i], u);
            let out = newr.clone();
            items[i] = newr;
            proof {
                assert forall|p: int, q: int|
                    0 <= p < q < items@.len() implies items@[p].id != items@[q].id by {
                    assert(items@[p].id == old(items)@[p].id);
                    assert(items@[q].id == old(items)@[q].id);
                    assert(old(items)@[p].id != old(items)@[q].id);
                }
            }
            Ok(out)
        },
    }
}

/// Remove the change record with this id under this Configuration Item, or
/// report `NotFound`.
pub fn delete(items: &mut Vec<CIChange>, id: u128, ci_id: u128) -> (r: Result<(), Error>)
    requires
        unique_ids(old(items)@),
    ensures
        unique_ids(final(items)@),
        if contains_id(old(items)@, id) && record_at(old(items)@, id).ci_id == ci_id {
            r is Ok && final(items)@ == old(items)@.remove(index_of(old(items)@, id))
        } else {
            final(items)@ == old(items)@ && r matches Err(Error::NotFound)
        },
{
    match find_index(items, id) {
        None => Err(Error::NotFound),
        Some(i) => {
            proof {
                lemma_index_agrees(items@, id, i as int);
            }
            if items[i].ci_id != ci_id {
                return Err(Error::NotFound);
            }
            items.remove(i);
            proof {
                old(items)@.remove_ensures(i as int);
                assert forall|p: int, q: int|
                    0 <= p < q < items@.len() implies items@[p].id != items@[q].id by {
                    let p0: int = if p < i { p } else { p + 1 };
                    let q0: int = if q < i { q } else { q + 1 };
                    assert(items@[p] == old(items)@[p0]);
                    assert(items@[q] == old(items)@[q0]);
                    assert(old(items)@[p0].id != old(items)@[q0].id);
                }
            }
            Ok(())
        },
    }
}

/// An updateset whose every field is `Missing`.
pub open spec fn all_missing(u: CIChangeUpdateset) -> bool {
    &&& u.implementation_timedate is Missing
    &&& u.documentation is Missing
}

/// An all-`Missing` updateset is the identity: the merged record equals the
/// stored one, and writing it back leaves the table exactly as it was.
pub proof fn lemma_all_missing_is_identity(s: Seq<CIChange>, id: u128, u: CIChangeUpdateset)
    requires
        all_missing(u),
        unique_ids(s),
        contains_id(s, id),
    ensures
        spec_apply_updateset(record_at(s, id), u) == record_at(s, id),
        s.update(index_of(s, id), spec_apply_updateset(record_at(s, id), u)) == s,
{
    assert(s.update(index_of(s, id), spec_apply_updateset(record_at(s, id), u)) =~= s);
}

/// Submitting `Null` for a required field is a validation failure, so the
/// update is rejected before any write.
pub proof fn lemma_required_null_rejected(u: CIChangeUpdateset)
    ensures
        u.implementation_timedate is Null || u.documentation is Null ==> updateset_violation(u)
            is Some,
{
}

/// Applying the same updateset twice gives the same record as applying it
/// once.
pub proof fn lemma_apply_idempotent(r: CIChange, u: CIChangeUpdateset)
    ensures
        spec_apply_updateset(spec_apply_updateset(r, u), u) == spec_apply_updateset(r, u),
{
}

} // verus!
