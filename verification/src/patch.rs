//! Tri-state patch fields.
//!
//! A partial-update payload must distinguish "leave this attribute alone"
//! from "clear this attribute" from "set this attribute to a value". A plain
//! `Option` collapses the first two, so every patchable attribute of an
//! updateset is a [`PatchField`].

use vstd::prelude::*;

verus! {

/// One patchable attribute of an update payload.
#[derive(Debug, PartialEq)]
pub enum PatchField<T> {
    /// The attribute was absent from the payload: keep the stored value.
    Missing,
    /// The attribute was explicitly set to null: clear the stored value.
    Null,
    /// The attribute was set to this value.
    Value(T),
}

impl<T> PatchField<T> {
    /// True when applying this field would keep the stored value unchanged.
    pub fn leave_unchanged(&self) -> (r: bool)
        ensures
            r == (self is Missing),
    {
        matches!(self, PatchField::Missing)
    }
}

/// What a patch field does to a required (always-present) attribute:
/// `Value(v)` replaces it, everything else keeps the current value.
/// A `Null` never reaches this merge on a required attribute, because
/// validation rejects it first; keeping the value mirrors what the
/// update statement would do with a null argument.
pub open spec fn spec_keep_or_set<T>(f: PatchField<T>, cur: T) -> T {
    match f {
        PatchField::Value(v) => v,
        _ => cur,
    }
}

/// What a patch field does to an optional attribute: `Missing` keeps the
/// current value, `Null` clears it, `Value(v)` stores `v`.
pub open spec fn spec_patch_opt<T>(f: PatchField<T>, cur: Option<T>) -> Option<T> {
    match f {
        PatchField::Missing => cur,
        PatchField::Null => None,
        PatchField::Value(v) => Some(v),
    }
}

/// The required-field guard: a required attribute may be left `Missing`
/// but never explicitly nulled.
pub fn validate_not_null<T>(f: &PatchField<T>) -> (r: bool)
    ensures
        r == !(f is Null),
{
    !matches!(f, PatchField::Null)
}

/// Merging a patch field is idempotent: applying the same field twice gives
/// the same result as applying it once.
pub proof fn lemma_keep_or_set_idempotent<T>(f: PatchField<T>, cur: T)
    ensures
        spec_keep_or_set(f, spec_keep_or_set(f, cur)) == spec_keep_or_set(f, cur),
{
}

/// Same for optional attributes.
pub proof fn lemma_patch_opt_idempotent<T>(f: PatchField<T>, cur: Option<T>)
    ensures
        spec_patch_opt(f, spec_patch_opt(f, cur)) == spec_patch_opt(f, cur),
{
}

} // verus!
