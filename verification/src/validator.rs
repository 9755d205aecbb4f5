//! Validation of spec files against the bundled schema.

use vstd::prelude::*;
use crate::json::{serde_of, JsonValue};
use crate::schema::{schema, spec_schema};
use crate::text::{chars_of, concat, concat3, texts};
use crate::yaml::{parse_yaml, yaml_document, yaml_error};

verus! {

/// The verdict on one spec text.
pub struct ValidationResult {
    /// Whether the text is a valid spec.
    pub valid: bool,
    /// Why not, in words; empty when `valid`.
    pub errors: Vec<String>,
}

/// One way in which a document breaks the schema.
pub struct Violation {
    /// Where in the document, as a JSON pointer; empty for the root.
    pub path: String,
    /// What is wrong there.
    pub message: String,
}

/// Where a violation is reported: its path, or `/` for the root.
pub open spec fn reported_path(path: Seq<char>) -> Seq<char> {
    if path.len() == 0 {
        "/"@
    } else {
        path
    }
}

/// The line that reports `violation`.
pub open spec fn violation_line(violation: Violation) -> Seq<char> {
    reported_path(violation.path@) + ": "@ + violation.message@
}

/// The lines that report `violations`, in order.
pub open spec fn violation_lines(violations: Seq<Violation>) -> Seq<Seq<char>> {
    Seq::new(violations.len(), |i: int| violation_line(violations[i]))
}

/// The line that reports a text that is not YAML.
pub open spec fn parse_failure_line(e: Seq<char>) -> Seq<char> {
    "YAML parse error: "@ + e
}

/// Whether `jsonschema::validator_for` compiles `schema` into a validator.
pub uninterp spec fn schema_compiles(schema: JsonValue) -> bool;

/// Whether the validator that `jsonschema::validator_for` compiles from
/// `schema` finds no violation in `data`: `Validator::iter_errors` yields
/// nothing.
pub uninterp spec fn schema_accepts(schema: JsonValue, data: JsonValue) -> bool;

/// Whether the document `data` is a valid spec: the bundled schema compiles
/// and finds no violation in it.
pub open spec fn document_valid(data: JsonValue) -> bool {
    schema_compiles(spec_schema()) && schema_accepts(spec_schema(), data)
}

/// True when `verdict` is the verdict of validating the document `data`,
/// as far as it is stated: it is valid exactly when the document is a valid
/// spec, and exactly when it lists no error.
pub open spec fn verdict_on_document(data: JsonValue, verdict: ValidationResult) -> bool {
    &&& verdict.valid == document_valid(data)
    &&& verdict.valid == (verdict.errors@.len() == 0)
}

/// True when `verdict` is a verdict that validating the text `content` can
/// come to: a text that is YAML has the verdict of its document, and a text
/// that is not YAML is rejected with the one line that says so.
pub open spec fn verdict_on(content: Seq<char>, verdict: ValidationResult) -> bool {
    match yaml_document(content) {
        Some(data) => verdict_on_document(data, verdict),
        None => !verdict.valid && texts(verdict.errors@) == seq![
            parse_failure_line(yaml_error(content).unwrap()),
        ],
    }
}

/// Validates `data` against `schema`: the schema is compiled with
/// `jsonschema::validator_for`, and `Validator::iter_errors` lists the
/// violations, each taken as its instance path and its message. A schema
/// that does not compile is reported by the message of that failure.
///
/// Believed of the two: whether the schema compiles depends on the schema
/// alone, and whether any violation is listed depends on the schema and the
/// document alone. (The validator is built without its resolvers, so a
/// reference that leaves the schema is refused, not fetched.) Nothing is
/// promised about the violations themselves, their wording or their order.
#[verifier::external_body]
fn schema_violations(schema: &JsonValue, data: &JsonValue) -> (r: Result<Vec<Violation>, String>)
    ensures
        (r is Ok) == schema_compiles(*schema),
        r matches Ok(v) ==> (v@.len() == 0) == schema_accepts(*schema, *data),
{
    let validator = jsonschema::validator_for(&serde_of(schema)).map_err(|e| e.to_string())?;
    let instance = serde_of(data);
    Ok(
        validator.iter_errors(&instance).map(
            |e| Violation { path: e.instance_path().to_string(), message: e.to_string() },
        ).collect(),
    )
}

/// The verdict for a list of violations: valid when the list is empty,
/// otherwise one line per violation, each naming the place and the fault.
pub fn report(violations: &Vec<Violation>) -> (r: ValidationResult)
    ensures
        r.valid == (violations@.len() == 0),
        r.errors@.len() == violations@.len(),
        texts(r.errors@) == violation_lines(violations@),
{
    let mut errors: Vec<String> = Vec::new();
    let mut i: usize = 0;
    while i < violations.len()
        invariant
            i <= violations.len(),
            errors@.len() == i,
            forall|j: int| 0 <= j < i ==> errors@[j]@ == violation_line(violations@[j]),
        decreases violations.len() - i,
    {
        let v = &violations[i];
        let line = if chars_of(v.path.as_str()).len() == 0 {
            concat3("/", ": ", v.message.as_str())
        } else {
            concat3(v.path.as_str(), ": ", v.message.as_str())
        };
        errors.push(line);
        i += 1;
    }
    assert(texts(errors@) =~= violation_lines(violations@));
    ValidationResult { valid: violations.len() == 0, errors }
}

/// The verdict on a text that is not YAML, or on a schema that cannot be
/// used: invalid, with the one line given.
pub fn rejected(line: String) -> (r: ValidationResult)
    ensures
        !r.valid,
        r.errors@.len() == 1,
        texts(r.errors@) == seq![line@],
{
    let mut errors: Vec<String> = Vec::new();
    let ghost l = line@;
    errors.push(line);
    assert(texts(errors@) =~= seq![l]);
    ValidationResult { valid: false, errors }
}

/// Validates `data` against the bundled schema. The verdict is valid exactly
/// when the schema finds no violation in `data`, and exactly when it lists
/// no error.
pub fn validate_document(data: &JsonValue) -> (r: ValidationResult)
    ensures
        verdict_on_document(*data, r),
{
    let bundled = schema();
    match schema_violations(&bundled, data) {
        Ok(violations) => {
            report(&violations)
        },
        Err(e) => rejected(e),
    }
}

/// Validates a spec given as YAML text against the bundled schema.
///
/// A text that is not YAML is invalid, with one error that says so and
/// carries the parser's message. Otherwise the text is valid exactly when the
/// schema finds no fault with it; each fault is one error, naming the place
/// in the document and what is wrong there.
pub fn validate_spec(content: &str) -> (r: ValidationResult)
    ensures
        verdict_on(content@, r),
{
    match parse_yaml(content) {
        Ok(data) => validate_document(&data),
        Err(e) => {
            rejected(concat("YAML parse error: ", e.as_str()))
        },
    }
}

} // verus!
