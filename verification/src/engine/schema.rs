//! Documents and the schema stage of validation: an artifact's YAML text
//! and a schema's JSON text read into the library's document model, and
//! a JSON Schema, compiled by `jsonschema`, checked against a parsed
//! document.

use vstd::prelude::*;

use crate::error::{error_message, VectisError};
use crate::json::{finding, findings_view, Finding, Json};
use crate::text::owned;

verus! {

/// `serde_json::Value`, the document type `jsonschema` checks.
#[verifier::external_type_specification]
#[verifier::external_body]
pub struct ExValue(serde_json::Value);

/// A library document as a `serde_json::Value`, member for member; a
/// number's text is read with `serde_json::Number`'s `FromStr`. `None`
/// when some number text is not a JSON number.
#[verifier::external_body]
fn serde_value(j: &Json) -> Option<serde_json::Value> {
    Some(match j {
        Json::Null => serde_json::Value::Null,
        Json::Bool(b) => serde_json::Value::Bool(*b),
        Json::Number(n) => serde_json::Value::Number(n.parse().ok()?),
        Json::Str(s) => serde_json::Value::String(s.clone()),
        Json::Array(v) => serde_json::Value::Array(v.iter().map(serde_value).collect::<Option<_>>()?),
        Json::Object(es) => serde_json::Value::Object(
            es.iter().map(|(k, v)| Some((k.clone(), serde_value(v)?))).collect::<Option<_>>()?,
        ),
    })
}

/// A `serde_json::Value` as a library document, member for member (a
/// number as its decimal text, an object's members in the value's
/// order).
#[verifier::external_body]
fn json_of_value(v: &serde_json::Value) -> Json {
    match v {
        serde_json::Value::Null => Json::Null,
        serde_json::Value::Bool(b) => Json::Bool(*b),
        serde_json::Value::Number(n) => Json::Number(n.to_string()),
        serde_json::Value::String(s) => Json::Str(s.clone()),
        serde_json::Value::Array(items) => Json::Array(items.iter().map(json_of_value).collect()),
        serde_json::Value::Object(map) => Json::Object(map.iter().map(|(k, v)| (k.clone(), json_of_value(v))).collect()),
    }
}

/// What `serde_saphyr` makes of a YAML text read as a
/// `serde_json::Value`: the document, or the parser's message.
pub uninterp spec fn yaml_doc(text: Seq<char>) -> Result<Json, Seq<char>>;

/// Parse a YAML text with `serde_saphyr::from_str::<serde_json::Value>`
/// (see `yaml_doc`). The contract only names the result: YAML is not
/// restated here.
#[verifier::external_body]
pub fn parse_yaml(text: &str) -> (r: Result<Json, String>)
    ensures
        yaml_doc(text@) == match r {
            Ok(j) => Ok(j),
            Err(e) => Err(e@),
        },
{
    match serde_saphyr::from_str::<serde_json::Value>(text) {
        Ok(v) => Ok(json_of_value(&v)),
        Err(e) => Err(e.to_string()),
    }
}

/// What `serde_json` makes of a JSON text read as a `serde_json::Value`:
/// the document, or the parser's message.
pub uninterp spec fn json_doc(text: Seq<char>) -> Result<Json, Seq<char>>;

/// Parse a JSON text with `serde_json::from_str::<serde_json::Value>`
/// (see `json_doc`). The contract only names the result.
#[verifier::external_body]
pub fn parse_json(text: &str) -> (r: Result<Json, String>)
    ensures
        json_doc(text@) == match r {
            Ok(j) => Ok(j),
            Err(e) => Err(e@),
        },
{
    match serde_json::from_str::<serde_json::Value>(text) {
        Ok(v) => Ok(json_of_value(&v)),
        Err(e) => Err(e.to_string()),
    }
}

/// A schema document from what reading its file gave: the parsed JSON;
/// an unreadable file or a text that is not JSON is an `Internal` error
/// naming the schema (`name`, read at `path`).
pub fn schema_document(name: &str, path: &str, read: Result<String, String>) -> (r: Result<
    Json,
    VectisError,
>)
    ensures
        match read {
            Err(e) => r is Err && r->Err_0 is Internal && error_message(r->Err_0) == "embedded "@
                + name@ + " not readable at "@ + path@ + ": "@ + e@,
            Ok(t) => match json_doc(t@) {
                Ok(j) => r == Ok::<Json, VectisError>(j),
                Err(m) => r is Err && r->Err_0 is Internal && error_message(r->Err_0) == "embedded "@
                    + name@ + " is not JSON: "@ + m,
            },
        },
{
    match read {
        Err(e) => {
            let mut msg = owned("embedded ");
            msg.append(name);
            msg.append(" not readable at ");
            msg.append(path);
            msg.append(": ");
            msg.append(e.as_str());
            Err(VectisError::Internal { message: msg })
        },
        Ok(t) => match parse_json(t.as_str()) {
            Ok(j) => Ok(j),
            Err(m) => {
                let mut msg = owned("embedded ");
                msg.append(name);
                msg.append(" is not JSON: ");
                msg.append(m.as_str());
                Err(VectisError::Internal { message: msg })
            },
        },
    }
}

/// What `jsonschema` makes of a schema and a document: `None` when
/// either holds a number text that `serde_json` does not read as a
/// number (so nothing was checked); otherwise each violation as its
/// instance location (a JSON Pointer) and message, in the order the
/// validator reports them, or, when the schema does not compile, the
/// compiler's message.
pub uninterp spec fn schema_check(schema: Json, instance: Json) -> Option<
    Result<Seq<(Seq<char>, Seq<char>)>, Seq<char>>,
>;

/// Convert both documents, compile `schema` with
/// `jsonschema::validator_for` and list what `Validator::iter_errors`
/// reports on `instance` (see `schema_check`). The contract only names
/// the result: JSON Schema's semantics are not restated here.
#[verifier::external_body]
fn run_schema(schema: &Json, instance: &Json) -> (r: Option<Result<Vec<(String, String)>, String>>)
    ensures
        schema_check(*schema, *instance) == match r {
            None => None,
            Some(Ok(v)) => Some(Ok(v@.map_values(|p: (String, String)| (p.0@, p.1@)))),
            Some(Err(e)) => Some(Err(e@)),
        },
{
    let (Some(s), Some(doc)) = (serde_value(schema), serde_value(instance)) else { return None };
    Some(match jsonschema::validator_for(&s) {
        Err(e) => Err(e.to_string()),
        Ok(v) => Ok(v.iter_errors(&doc).map(|e| (e.instance_path().to_string(), e.to_string())).collect()),
    })
}

/// The failure when a number text cannot be handed to the validator.
pub open spec fn unreadable_number(name: Seq<char>) -> Seq<char> {
    "a number in the document or in the embedded "@ + name + " is not valid JSON"@
}

/// The schema stage of a validation run: the findings `schema_check`
/// reports on the document; a schema (named `name`) that does not
/// compile, or a number text that cannot be handed to the validator, is
/// an `Internal` error.
pub fn schema_findings(name: &str, schema: &Json, instance: &Json) -> (r: Result<
    Vec<Finding>,
    VectisError,
>)
    ensures
        match schema_check(*schema, *instance) {
            None => r is Err && r->Err_0 is Internal && error_message(r->Err_0) == unreadable_number(
                name@,
            ),
            Some(Ok(v)) => r is Ok && findings_view(r->Ok_0@) == v,
            Some(Err(e)) => r is Err && r->Err_0 is Internal && error_message(r->Err_0) == "embedded "@
                + name@ + " failed to compile: "@ + e,
        },
{
    match run_schema(schema, instance) {
        None => {
            let mut msg = owned("a number in the document or in the embedded ");
            msg.append(name);
            msg.append(" is not valid JSON");
            Err(VectisError::Internal { message: msg })
        },
        Some(Err(e)) => {
            let mut msg = owned("embedded ");
            msg.append(name);
            msg.append(" failed to compile: ");
            msg.append(e.as_str());
            Err(VectisError::Internal { message: msg })
        },
        Some(Ok(pairs)) => {
            let ghost pv = pairs@.map_values(|p: (String, String)| (p.0@, p.1@));
            let mut out: Vec<Finding> = Vec::new();
            let mut i: usize = 0;
            while i < pairs.len()
                invariant
                    i <= pairs@.len(),
                    pv == pairs@.map_values(|p: (String, String)| (p.0@, p.1@)),
                    findings_view(out@) == pv.subrange(0, i as int),
                decreases pairs@.len() - i,
            {
                let path = pairs[i].0.clone();
                let message = pairs[i].1.clone();
                let ghost before = findings_view(out@);
                out.push(finding(path, message));
                assert(findings_view(out@) =~= before.push(pv[i as int]));
                assert(pv.subrange(0, i + 1) =~= pv.subrange(0, i as int).push(pv[i as int]));
                i = i + 1;
            }
            assert(pv.subrange(0, pairs@.len() as int) =~= pv);
            Ok(out)
        },
    }
}

} // verus!
