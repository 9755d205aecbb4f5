//! Reading YAML text into a document tree.

use vstd::prelude::*;
use crate::json::{tree_of, JsonValue};
use crate::text::concat;

verus! {

/// The three ways reading a YAML text can end.
pub enum YamlOutcome {
    /// The text is YAML and converts to a document.
    Document(JsonValue),
    /// The text is not YAML; the parser's message.
    Syntax(String),
    /// The text is YAML but has no JSON form; the converter's message.
    Conversion(String),
}

/// The result of `parse_yaml`: the document, or the message to report.
pub type YamlResult = Result<JsonValue, String>;

/// What reading `content` as YAML gives.
pub uninterp spec fn yaml_outcome(content: Seq<char>) -> YamlOutcome;

/// What starts the message of a failed conversion.
pub open spec fn conversion_prefix() -> Seq<char> {
    "YAML to JSON conversion error: "@
}

/// The document that `outcome` stands for, if it stands for one.
pub open spec fn outcome_document(outcome: YamlOutcome) -> Option<JsonValue> {
    match outcome {
        YamlOutcome::Document(v) => Some(v),
        _ => None,
    }
}

/// The error message that `outcome` stands for, if it stands for one.
pub open spec fn outcome_error(outcome: YamlOutcome) -> Option<Seq<char>> {
    match outcome {
        YamlOutcome::Document(_) => None,
        YamlOutcome::Syntax(e) => Some(e@),
        YamlOutcome::Conversion(e) => Some(conversion_prefix() + e@),
    }
}

/// The document that parsing `content` gives, if it parses.
pub open spec fn yaml_document(content: Seq<char>) -> Option<JsonValue> {
    outcome_document(yaml_outcome(content))
}

/// The message that parsing `content` fails with, if it fails.
pub open spec fn yaml_error(content: Seq<char>) -> Option<Seq<char>> {
    outcome_error(yaml_outcome(content))
}

/// Reads `content` with `serde_yaml_ng::from_str` and turns the YAML value
/// into a JSON tree with `serde_json::to_value`. The outcome is a function of
/// the text alone; each of the two crates' errors is handed on as its
/// message.
#[verifier::external_body]
fn read_yaml(content: &str) -> (r: YamlOutcome)
    ensures
        r == yaml_outcome(content@),
{
    match serde_yaml_ng::from_str::<serde_yaml_ng::Value>(content) {
        Err(e) => YamlOutcome::Syntax(e.to_string()),
        Ok(y) => match serde_json::to_value(y) {
            Ok(v) => YamlOutcome::Document(tree_of(&v)),
            Err(e) => YamlOutcome::Conversion(e.to_string()),
        },
    }
}

/// Turns the outcome of reading a YAML text into a result: the document, or
/// the message to report. A failed conversion is reported with a prefix that
/// tells it from a syntax error.
pub fn yaml_result(outcome: YamlOutcome) -> (r: YamlResult)
    ensures
        match r {
            Ok(v) => outcome_document(outcome) == Some(v),
            Err(e) => outcome_error(outcome) == Some(e@),
        },
{
    match outcome {
        YamlOutcome::Document(v) => Ok(v),
        YamlOutcome::Syntax(e) => Err(e),
        YamlOutcome::Conversion(e) => Err(
            concat("YAML to JSON conversion error: ", e.as_str()),
        ),
    }
}

/// Parses `content` as YAML into a document tree.
pub fn parse_yaml(content: &str) -> (r: YamlResult)
    ensures
        match r {
            Ok(v) => yaml_document(content@) == Some(v),
            Err(e) => yaml_error(content@) == Some(e@),
        },
{
    yaml_result(read_yaml(content))
}

} // verus!
