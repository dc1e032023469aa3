//! The bridge to `serde_json` and `json_patch`: JSON text parsed, and two
//! documents compared, by those crates, with this library's documents going in
//! and coming out.
use crate::diff::{ops_view, PatchOp, PatchOpView};
use crate::json::{members_view, Json, JsonView};
use json_patch::PatchOperation;
use vstd::prelude::*;

verus! {

/// `serde_json::Value`, carried through as it is.
#[verifier::external_type_specification]
#[verifier::external_body]
pub struct ExValue(serde_json::Value);

/// `serde_json::Error`, carried through as it is.
#[verifier::external_type_specification]
#[verifier::external_body]
pub struct ExJsonError(serde_json::Error);

/// Copies a `serde_json::Value` into a document of this library, variant by
/// variant: a number by the text that `serde_json` prints for it, an object by
/// its members in the order in which `serde_json` walks them. Nothing is
/// claimed of the result.
#[verifier::external_body]
pub(crate) fn json_from_value(value: &serde_json::Value) -> Json {
    match value {
        serde_json::Value::Null => Json::Null,
        serde_json::Value::Bool(b) => Json::Bool(*b),
        serde_json::Value::Number(n) => Json::Number(n.to_string()),
        serde_json::Value::String(s) => Json::String(s.clone()),
        serde_json::Value::Array(items) => Json::Array(items.iter().map(json_from_value).collect()),
        serde_json::Value::Object(map) => Json::Object(
            map.iter().map(|(k, v)| (k.clone(), json_from_value(v))).collect(),
        ),
    }
}

/// What `serde_json::from_str` makes of a text when a JSON object is asked
/// for: its members, or `None` where the text is rejected.
pub uninterp spec fn parsed_object(text: Seq<char>) -> Option<Seq<(Seq<char>, JsonView)>>;

/// `serde_json::from_str` at the type `Map<String, Value>`: the members of the
/// object that the text holds, or the crate's error. The contract names the
/// result and says no more of it.
#[verifier::external_body]
pub(crate) fn parse_object(text: &str) -> (r: Result<Vec<(String, Json)>, serde_json::Error>)
    ensures
        r is Ok == parsed_object(text@) is Some,
        r matches Ok(members) ==> parsed_object(text@) == Some(members_view(members@)),
{
    let map = serde_json::from_str::<serde_json::Map<String, serde_json::Value>>(text)?;
    Ok(map.iter().map(|(k, v)| (k.clone(), json_from_value(v))).collect())
}

/// `json_patch::PatchOperation`, carried through as it is.
#[verifier::external_type_specification]
#[verifier::external_body]
pub struct ExPatchOperation(PatchOperation);

/// Copies a document of this library into a `serde_json::Value`, variant by
/// variant; a number goes through `serde_json::from_str` on its text. `None`
/// where some number's text is rejected there. Nothing more is claimed of the
/// result.
#[verifier::external_body]
pub(crate) fn json_to_value(document: &Json) -> Option<serde_json::Value> {
    Some(match document {
        Json::Null => serde_json::Value::Null,
        Json::Bool(b) => serde_json::Value::Bool(*b),
        Json::Number(text) => serde_json::Value::Number(serde_json::from_str(text).ok()?),
        Json::String(s) => serde_json::Value::String(s.clone()),
        Json::Array(items) => serde_json::Value::Array(
            items.iter().map(json_to_value).collect::<Option<_>>()?,
        ),
        Json::Object(members) => serde_json::Value::Object(
            members.iter().map(|(k, v)| Some((k.clone(), json_to_value(v)?))).collect::<Option<_>>()?,
        ),
    })
}

/// Copies one operation of a `json_patch::Patch`, variant by variant: each
/// pointer by the text that `jsonptr` prints for it, each value as
/// `json_from_value` copies it. Nothing is claimed of the result.
#[verifier::external_body]
pub(crate) fn patch_op_from(op: &PatchOperation) -> PatchOp {
    let path = op.path().to_string();
    match op {
        PatchOperation::Add(o) => PatchOp::Add { path, value: json_from_value(&o.value) },
        PatchOperation::Remove(_) => PatchOp::Remove { path },
        PatchOperation::Replace(o) => PatchOp::Replace { path, value: json_from_value(&o.value) },
        PatchOperation::Move(o) => PatchOp::Move { from: o.from.to_string(), path },
        PatchOperation::Copy(o) => PatchOp::Copy { from: o.from.to_string(), path },
        PatchOperation::Test(o) => PatchOp::Test { path, value: json_from_value(&o.value) },
    }
}

/// The operations of the JSON Patch that `json_patch::diff` gives for two
/// documents, or `None` where a document holds a number whose text
/// `serde_json` rejects.
pub uninterp spec fn patch_between(have: JsonView, want: JsonView) -> Option<Seq<PatchOpView>>;

/// `json_patch::diff` on the two documents. The contract names the result and
/// says no more of it.
#[verifier::external_body]
pub(crate) fn diff_documents(have: &Json, want: &Json) -> (r: Option<Vec<PatchOp>>)
    ensures
        r is Some == patch_between(have@, want@) is Some,
        r matches Some(ops) ==> patch_between(have@, want@) == Some(ops_view(ops@)),
{
    let patch = json_patch::diff(&json_to_value(have)?, &json_to_value(want)?);
    Some(patch.0.iter().map(patch_op_from).collect())
}

} // verus!
