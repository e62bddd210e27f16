//! JSON codec for Configuration Item payloads.
//!
//! A createset serializes with every member present, `null` standing for an
//! omitted optional attribute. An updateset serializes its `Missing` fields
//! by omitting them entirely, so an updateset that changes nothing renders
//! as the empty object; decoding maps an absent key to `Missing`, a `null`
//! to `Null`, and a value to `Value`.

use vstd::prelude::*;

use crate::common::str_eq;
use crate::configitems::{all_missing, CIStatus, ConfigItemCreateset, ConfigItemUpdateset};
use crate::json::{
    chars_to_string, find_member, lemma_lookup_view, parse_object, push_char, push_null,
    push_opt_member, push_quoted, push_text_member, spec_lookup, spec_lookup_view, spec_member,
    spec_null_text, spec_object_members, spec_opt_text, spec_quote, str_to_chars, JsonMember,
    JsonValue,
};
use crate::patch::PatchField;

verus! {

/// The wire name of a status, the lowercase form kept by the storage layer.
pub open spec fn spec_status_text(s: CIStatus) -> Seq<char> {
    match s {
        CIStatus::Active => "active"@,
        CIStatus::Inactive => "inactive"@,
        CIStatus::Maintenance => "maintenance"@,
        CIStatus::Testing => "testing"@,
        CIStatus::Retired => "retired"@,
    }
}

/// The status a wire name stands for, if any.
pub open spec fn spec_status_of(t: Seq<char>) -> Option<CIStatus> {
    if t == "active"@ {
        Some(CIStatus::Active)
    } else if t == "inactive"@ {
        Some(CIStatus::Inactive)
    } else if t == "maintenance"@ {
        Some(CIStatus::Maintenance)
    } else if t == "testing"@ {
        Some(CIStatus::Testing)
    } else if t == "retired"@ {
        Some(CIStatus::Retired)
    } else {
        None
    }
}

/// The wire name of a status.
pub fn status_to_str(s: CIStatus) -> (r: &'static str)
    ensures
        r@ == spec_status_text(s),
{
    match s {
        CIStatus::Active => "active",
        CIStatus::Inactive => "inactive",
        CIStatus::Maintenance => "maintenance",
        CIStatus::Testing => "testing",
        CIStatus::Retired => "retired",
    }
}

/// Parse a wire name back into a status.
pub fn status_from_str(t: &str) -> (r: Option<CIStatus>)
    ensures
        r == spec_status_of(t@),
{
    if str_eq(t, "active") {
        Some(CIStatus::Active)
    } else if str_eq(t, "inactive") {
        Some(CIStatus::Inactive)
    } else if str_eq(t, "maintenance") {
        Some(CIStatus::Maintenance)
    } else if str_eq(t, "testing") {
        Some(CIStatus::Testing)
    } else if str_eq(t, "retired") {
        Some(CIStatus::Retired)
    } else {
        None
    }
}

/// The rendering of a createset: all six members, in declaration order.
pub open spec fn spec_createset_json(cs: ConfigItemCreateset) -> Seq<char> {
    seq!['{'] + spec_member("name"@, spec_quote(cs.name@)) + seq![','] + spec_member(
        "status"@,
        match cs.status {
            Some(st) => spec_quote(spec_status_text(st)),
            None => spec_null_text(),
        },
    ) + seq![','] + spec_member("created_at"@, spec_opt_text(cs.created_at)) + seq![',']
        + spec_member("type"@, spec_opt_text(cs.ci_type)) + seq![','] + spec_member(
        "owner"@,
        spec_opt_text(cs.owner),
    ) + seq![','] + spec_member("description"@, spec_quote(cs.description@)) + seq!['}']
}

/// Serialize a createset. Every member is present; omitted optional
/// attributes render as `null`.
/// Append the status member of a createset.
fn push_status_member(out: &mut Vec<char>, key: &str, o: &Option<CIStatus>)
    ensures
        final(out)@ == old(out)@ + spec_member(
            key@,
            match *o {
                Some(st) => spec_quote(spec_status_text(st)),
                None => spec_null_text(),
            },
        ),
{
    push_quoted(out, key);
    push_char(out, ':');
    match o {
        Some(st) => push_quoted(out, status_to_str(*st)),
        None => push_null(out),
    }
    proof {
        assert(out@ =~= old(out)@ + spec_member(
            key@,
            match *o {
                Some(st) => spec_quote(spec_status_text(st)),
                None => spec_null_text(),
            },
        ));
    }
}

/// Serialize a createset. Every member is present; omitted optional
/// attributes render as `null`.
pub fn createset_to_json(cs: &ConfigItemCreateset) -> (r: String)
    ensures
        r@ == spec_createset_json(*cs),
{
    let mut out: Vec<char> = Vec::new();
    push_char(&mut out, '{');
    proof {
        assert(out@ =~= seq!['{']);
    }
    push_text_member(&mut out, "name", cs.name.as_str());
    push_char(&mut out, ',');
    push_status_member(&mut out, "status", &cs.status);
    push_char(&mut out, ',');
    push_opt_member(&mut out, "created_at", &cs.created_at);
    push_char(&mut out, ',');
    push_opt_member(&mut out, "type", &cs.ci_type);
    push_char(&mut out, ',');
    push_opt_member(&mut out, "owner", &cs.owner);
    push_char(&mut out, ',');
    push_text_member(&mut out, "description", cs.description.as_str());
    push_char(&mut out, '}');
    proof {
        assert(out@ == spec_createset_json(*cs));
    }
    chars_to_string(&out)
}

/// One step of the updateset rendering: append a patchable string member
/// to the text built so far, with a separating comma when members came
/// before it; a `Missing` field appends nothing. Returns the new text and
/// whether any member has been emitted yet.
pub open spec fn spec_append_text_piece(
    acc: Seq<char>,
    any: bool,
    key: Seq<char>,
    f: PatchField<String>,
) -> (Seq<char>, bool) {
    match f {
        PatchField::Missing => (acc, any),
        PatchField::Null => (
            (if any {
                acc + seq![',']
            } else {
                acc
            }) + spec_member(key, spec_null_text()),
            true,
        ),
        PatchField::Value(v) => (
            (if any {
                acc + seq![',']
            } else {
                acc
            }) + spec_member(key, spec_quote(v@)),
            true,
        ),
    }
}

/// One step of the updateset rendering for the patchable status member.
pub open spec fn spec_append_status_piece(
    acc: Seq<char>,
    any: bool,
    key: Seq<char>,
    f: PatchField<CIStatus>,
) -> (Seq<char>, bool) {
    match f {
        PatchField::Missing => (acc, any),
        PatchField::Null => (
            (if any {
                acc + seq![',']
            } else {
                acc
            }) + spec_member(key, spec_null_text()),
            true,
        ),
        PatchField::Value(st) => (
            (if any {
                acc + seq![',']
            } else {
                acc
            }) + spec_member(key, spec_quote(spec_status_text(st))),
            true,
        ),
    }
}

/// The rendering of an updateset: its non-`Missing` members in declaration
/// order, comma-separated, inside braces.
pub open spec fn spec_updateset_json(u: ConfigItemUpdateset) -> Seq<char> {
    let s0 = (seq!['{'], false);
    let s1 = spec_append_text_piece(s0.0, s0.1, "name"@, u.name);
    let s2 = spec_append_status_piece(s1.0, s1.1, "status"@, u.status);
    let s3 = spec_append_text_piece(s2.0, s2.1, "created_at"@, u.created_at);
    let s4 = spec_append_text_piece(s3.0, s3.1, "type"@, u.ci_type);
    let s5 = spec_append_text_piece(s4.0, s4.1, "owner"@, u.owner);
    let s6 = spec_append_text_piece(s5.0, s5.1, "description"@, u.description);
    s6.0 + seq!['}']
}

/// Append one patchable string member, unless it is `Missing`. `any` says
/// whether members came before it; the result says whether any have now.
fn push_text_piece(out: &mut Vec<char>, any: bool, key: &str, f: &PatchField<String>) -> (r: bool)
    ensures
        (final(out)@, r) == spec_append_text_piece(old(out)@, any, key@, *f),
{
    match f {
        PatchField::Missing => any,
        PatchField::Null => {
            if any {
                out.push(',');
            }
            push_quoted(out, key);
            out.push(':');
            push_null(out);
            proof {
                assert(out@ =~= spec_append_text_piece(old(out)@, any, key@, *f).0);
            }
            true
        },
        PatchField::Value(v) => {
            if any {
                out.push(',');
            }
            push_quoted(out, key);
            out.push(':');
            push_quoted(out, v.as_str());
            proof {
                assert(out@ =~= spec_append_text_piece(old(out)@, any, key@, *f).0);
            }
            true
        },
    }
}

/// Append the patchable status member, unless it is `Missing`.
fn push_status_piece(out: &mut Vec<char>, any: bool, key: &str, f: &PatchField<CIStatus>) -> (r:
    bool)
    ensures
        (final(out)@, r) == spec_append_status_piece(old(out)@, any, key@, *f),
{
    match f {
        PatchField::Missing => any,
        PatchField::Null => {
            if any {
                out.push(',');
            }
            push_quoted(out, key);
            out.push(':');
            push_null(out);
            proof {
                assert(out@ =~= spec_append_status_piece(old(out)@, any, key@, *f).0);
            }
            true
        },
        PatchField::Value(st) => {
            if any {
                out.push(',');
            }
            push_quoted(out, key);
            out.push(':');
            push_quoted(out, status_to_str(*st));
            proof {
                assert(out@ =~= spec_append_status_piece(old(out)@, any, key@, *f).0);
            }
            true
        },
    }
}

/// Serialize an updateset: `Missing` fields are omitted entirely, so an
/// updateset that changes nothing renders as the empty object `{}`.
pub fn updateset_to_json(u: &ConfigItemUpdateset) -> (r: String)
    ensures
        r@ == spec_updateset_json(*u),
        all_missing(*u) ==> r@ == "{}"@,
{
    let mut out: Vec<char> = Vec::new();
    out.push('{');
    let mut any = push_text_piece(&mut out, false, "name", &u.name);
    any = push_status_piece(&mut out, any, "status", &u.status);
    any = push_text_piece(&mut out, any, "created_at", &u.created_at);
    any = push_text_piece(&mut out, any, "type", &u.ci_type);
    any = push_text_piece(&mut out, any, "owner", &u.owner);
    let _ = push_text_piece(&mut out, any, "description", &u.description);
    out.push('}');
    proof {
        assert(out@ =~= spec_updateset_json(*u));
        if all_missing(*u) {
            reveal_strlit("{}");
            assert(out@ =~= "{}"@);
        }
    }
    chars_to_string(&out)
}

/// The patch field a lookup result decodes to: absent key `Missing`, null
/// `Null`, string `Value`.
pub open spec fn spec_patch_text_of(o: Option<JsonValue>) -> PatchField<String> {
    match o {
        None => PatchField::Missing,
        Some(JsonValue::Null) => PatchField::Null,
        Some(JsonValue::Text(t)) => PatchField::Value(t),
    }
}

/// The patch field the status lookup decodes to; an unknown status name
/// fails the decode.
pub open spec fn spec_patch_status_of(o: Option<JsonValue>) -> Option<PatchField<CIStatus>> {
    match o {
        None => Some(PatchField::Missing),
        Some(JsonValue::Null) => Some(PatchField::Null),
        Some(JsonValue::Text(t)) => match spec_status_of(t@) {
            Some(st) => Some(PatchField::Value(st)),
            None => None,
        },
    }
}

/// The updateset a member list decodes to, each field independently; `None`
/// when the status name is unknown.
pub open spec fn spec_updateset_of_members(ms: Seq<JsonMember>) -> Option<ConfigItemUpdateset> {
    match spec_patch_status_of(spec_lookup(ms, "status"@)) {
        None => None,
        Some(st) => Some(
            ConfigItemUpdateset {
                name: spec_patch_text_of(spec_lookup(ms, "name"@)),
                status: st,
                created_at: spec_patch_text_of(spec_lookup(ms, "created_at"@)),
                ci_type: spec_patch_text_of(spec_lookup(ms, "type"@)),
                owner: spec_patch_text_of(spec_lookup(ms, "owner"@)),
                description: spec_patch_text_of(spec_lookup(ms, "description"@)),
            },
        ),
    }
}

/// Decode one patchable string attribute out of a member list.
fn patch_text_field(ms: &Vec<JsonMember>, key: &str) -> (r: PatchField<String>)
    ensures
        r == spec_patch_text_of(spec_lookup(ms@, key@)),
{
    match find_member(ms, key) {
        None => PatchField::Missing,
        Some(JsonValue::Null) => PatchField::Null,
        Some(JsonValue::Text(t)) => PatchField::Value(t.clone()),
    }
}

/// Decode the members of an update payload into an updateset, field by
/// field; `None` when the status name is unknown.
pub fn updateset_from_members(ms: &Vec<JsonMember>) -> (r: Option<ConfigItemUpdateset>)
    ensures
        r == spec_updateset_of_members(ms@),
{
    let status = match find_member(ms, "status") {
        None => PatchField::Missing,
        Some(JsonValue::Null) => PatchField::Null,
        Some(JsonValue::Text(t)) => match status_from_str(t.as_str()) {
            Some(st) => PatchField::Value(st),
            None => {
                return None;
            },
        },
    };
    Some(
        ConfigItemUpdateset {
            name: patch_text_field(ms, "name"),
            status,
            created_at: patch_text_field(ms, "created_at"),
            ci_type: patch_text_field(ms, "type"),
            owner: patch_text_field(ms, "owner"),
            description: patch_text_field(ms, "description"),
        },
    )
}

/// A decoded patch field matches a view-level lookup result: an absent key
/// gives `Missing`, a null member `Null`, a string member `Value` with that
/// text.
pub open spec fn patch_text_matches(f: PatchField<String>, o: Option<Option<Seq<char>>>) -> bool {
    match o {
        None => f is Missing,
        Some(None) => f is Null,
        Some(Some(t)) => f matches PatchField::Value(v) && v@ == t,
    }
}

/// The status patch a view-level lookup decodes to; an unknown status name
/// fails the decode.
pub open spec fn spec_patch_status_of_view(o: Option<Option<Seq<char>>>) -> Option<
    PatchField<CIStatus>,
> {
    match o {
        None => Some(PatchField::Missing),
        Some(None) => Some(PatchField::Null),
        Some(Some(t)) => match spec_status_of(t) {
            Some(st) => Some(PatchField::Value(st)),
            None => None,
        },
    }
}

/// What decoding an update payload whose text parses to these member views
/// must produce: each field decoded independently from the last member
/// under its key, the whole decode failing on an unknown status name.
pub open spec fn updateset_decode_ok(
    mvs: Seq<(Seq<char>, Option<Seq<char>>)>,
    r: Option<ConfigItemUpdateset>,
) -> bool {
    match spec_patch_status_of_view(spec_lookup_view(mvs, "status"@)) {
        None => r is None,
        Some(st) => r matches Some(u) && u.status == st && patch_text_matches(
            u.name,
            spec_lookup_view(mvs, "name"@),
        ) && patch_text_matches(u.created_at, spec_lookup_view(mvs, "created_at"@))
            && patch_text_matches(u.ci_type, spec_lookup_view(mvs, "type"@))
            && patch_text_matches(u.owner, spec_lookup_view(mvs, "owner"@))
            && patch_text_matches(u.description, spec_lookup_view(mvs, "description"@)),
    }
}

/// Decode an update payload from JSON text: the text must parse as one
/// strings-or-null object, and each field then comes from the member under
/// its key. The empty object `{}` decodes to the updateset whose every
/// field is `Missing`.
pub fn updateset_from_json(s: &str) -> (r: Option<ConfigItemUpdateset>)
    ensures
        match spec_object_members(s@) {
            None => r is None,
            Some(mvs) => updateset_decode_ok(mvs, r),
        },
        s@ == "{}"@ ==> (r matches Some(u) && all_missing(u)),
{
    let chars = str_to_chars(s);
    proof {
        if s@ == "{}"@ {
            reveal_strlit("{}");
            assert(s@.len() == 2 && s@[0] == '{' && s@[1] == '}');
            assert(crate::json::spec_skip_ws(s@, 0) == 0);
            assert(crate::json::spec_skip_ws(s@, 1) == 1);
            assert(crate::json::spec_skip_ws(s@, 2) == 2);
        }
    }
    match parse_object(&chars) {
        None => None,
        Some(ms) => {
            proof {
                lemma_lookup_view(ms@, "status"@);
                lemma_lookup_view(ms@, "name"@);
                lemma_lookup_view(ms@, "created_at"@);
                lemma_lookup_view(ms@, "type"@);
                lemma_lookup_view(ms@, "owner"@);
                lemma_lookup_view(ms@, "description"@);
            }
            updateset_from_members(&ms)
        },
    }
}

/// The string a lookup result holds, if it holds one: absent and null both
/// give `None`.
pub open spec fn spec_text_of(o: Option<JsonValue>) -> Option<String> {
    match o {
        Some(JsonValue::Text(t)) => Some(t),
        _ => None,
    }
}

/// The optional status of a create payload; an unknown name fails the
/// decode (outer `None`).
pub open spec fn spec_opt_status_of(o: Option<JsonValue>) -> Option<Option<CIStatus>> {
    match o {
        None => Some(None),
        Some(JsonValue::Null) => Some(None),
        Some(JsonValue::Text(t)) => match spec_status_of(t@) {
            Some(st) => Some(Some(st)),
            None => None,
        },
    }
}

/// The createset a member list decodes to: `name` and `description` must be
/// present strings, the rest may be absent or null.
pub open spec fn spec_createset_of_members(ms: Seq<JsonMember>) -> Option<ConfigItemCreateset> {
    match (spec_text_of(spec_lookup(ms, "name"@)), spec_text_of(
        spec_lookup(ms, "description"@),
    )) {
        (Some(n), Some(d)) => match spec_opt_status_of(spec_lookup(ms, "status"@)) {
            None => None,
            Some(st) => Some(
                ConfigItemCreateset {
                    name: n,
                    status: st,
                    created_at: spec_text_of(spec_lookup(ms, "created_at"@)),
                    ci_type: spec_text_of(spec_lookup(ms, "type"@)),
                    owner: spec_text_of(spec_lookup(ms, "owner"@)),
                    description: d,
                },
            ),
        },
        _ => None,
    }
}

/// Decode one optional string attribute out of a member list.
fn opt_text_field(ms: &Vec<JsonMember>, key: &str) -> (r: Option<String>)
    ensures
        r == spec_text_of(spec_lookup(ms@, key@)),
{
    match find_member(ms, key) {
        Some(JsonValue::Text(t)) => Some(t.clone()),
        _ => None,
    }
}

/// Decode the members of a create payload into a createset; `None` when a
/// required attribute is missing or null, or the status name is unknown.
pub fn createset_from_members(ms: &Vec<JsonMember>) -> (r: Option<ConfigItemCreateset>)
    ensures
        r == spec_createset_of_members(ms@),
{
    let name = match find_member(ms, "name") {
        Some(JsonValue::Text(t)) => t.clone(),
        _ => {
            return None;
        },
    };
    let description = match find_member(ms, "description") {
        Some(JsonValue::Text(t)) => t.clone(),
        _ => {
            return None;
        },
    };
    let status = match find_member(ms, "status") {
        None => None,
        Some(JsonValue::Null) => None,
        Some(JsonValue::Text(t)) => match status_from_str(t.as_str()) {
            Some(st) => Some(st),
            None => {
                return None;
            },
        },
    };
    Some(
        ConfigItemCreateset {
            name,
            status,
            created_at: opt_text_field(ms, "created_at"),
            ci_type: opt_text_field(ms, "type"),
            owner: opt_text_field(ms, "owner"),
            description,
        },
    )
}

/// A decoded optional attribute matches a view-level lookup result: an
/// absent key and a null member both give `None`.
pub open spec fn opt_text_matches(o: Option<String>, v: Option<Option<Seq<char>>>) -> bool {
    match v {
        Some(Some(t)) => o matches Some(x) && x@ == t,
        _ => o is None,
    }
}

/// The string a view-level lookup holds, if it holds one.
pub open spec fn spec_text_of_view(o: Option<Option<Seq<char>>>) -> Option<Seq<char>> {
    match o {
        Some(Some(t)) => Some(t),
        _ => None,
    }
}

/// The optional status a view-level lookup decodes to; an unknown name
/// fails the decode (outer `None`).
pub open spec fn spec_opt_status_of_view(o: Option<Option<Seq<char>>>) -> Option<Option<CIStatus>> {
    match o {
        Some(Some(t)) => match spec_status_of(t) {
            Some(st) => Some(Some(st)),
            None => None,
        },
        _ => Some(None),
    }
}

/// What decoding a create payload whose text parses to these member views
/// must produce: `name` and `description` must be present strings, the
/// rest may be absent or null.
pub open spec fn createset_decode_ok(
    mvs: Seq<(Seq<char>, Option<Seq<char>>)>,
    r: Option<ConfigItemCreateset>,
) -> bool {
    match (spec_text_of_view(spec_lookup_view(mvs, "name"@)), spec_text_of_view(
        spec_lookup_view(mvs, "description"@),
    )) {
        (Some(n), Some(d)) => match spec_opt_status_of_view(spec_lookup_view(mvs, "status"@)) {
            None => r is None,
            Some(st) => r matches Some(cs) && cs.name@ == n && cs.description@ == d && cs.status
                == st && opt_text_matches(cs.created_at, spec_lookup_view(mvs, "created_at"@))
                && opt_text_matches(cs.ci_type, spec_lookup_view(mvs, "type"@))
                && opt_text_matches(cs.owner, spec_lookup_view(mvs, "owner"@)),
        },
        _ => r is None,
    }
}

/// Decode a create payload from JSON text: the text must parse as one
/// strings-or-null object, and each attribute then comes from the member
/// under its key.
pub fn createset_from_json(s: &str) -> (r: Option<ConfigItemCreateset>)
    ensures
        match spec_object_members(s@) {
            None => r is None,
            Some(mvs) => createset_decode_ok(mvs, r),
        },
{
    let chars = str_to_chars(s);
    match parse_object(&chars) {
        None => None,
        Some(ms) => {
            proof {
                lemma_lookup_view(ms@, "name"@);
                lemma_lookup_view(ms@, "description"@);
                lemma_lookup_view(ms@, "status"@);
                lemma_lookup_view(ms@, "created_at"@);
                lemma_lookup_view(ms@, "type"@);
                lemma_lookup_view(ms@, "owner"@);
            }
            createset_from_members(&ms)
        },
    }
}

} // verus!
