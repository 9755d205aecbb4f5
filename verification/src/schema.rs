//! The bundled JSON Schema for spec files.

use vstd::prelude::*;
use crate::json::{json_document, parse_json_text, JsonValue};
use crate::text::owned;

verus! {

/// The bundled JSON Schema, as text.
pub const SCHEMA_STR: &'static str = "{
  \"$schema\": \"https://json-schema.org/draft/2020-12/schema\",
  \"$id\": \"https://notarai.dev/schema/0.5/spec.schema.json\",
  \"title\": \"NotarAI spec\",
  \"description\": \"Intent, behaviors, constraints and governed artifacts of one part of a project.\",
  \"type\": \"object\",
  \"required\": [
    \"schema_version\",
    \"intent\",
    \"behaviors\",
    \"artifacts\"
  ],
  \"properties\": {
    \"schema_version\": {
      \"type\": \"string\",
      \"enum\": [
        \"0.5\",
        \"0.4\"
      ]
    },
    \"intent\": {
      \"type\": \"string\",
      \"minLength\": 1
    },
    \"behaviors\": {
      \"type\": \"array\",
      \"items\": {
        \"$ref\": \"#/$defs/behavior\"
      }
    },
    \"constraints\": {
      \"type\": \"array\",
      \"items\": {
        \"type\": \"string\"
      }
    },
    \"invariants\": {
      \"type\": \"array\",
      \"items\": {
        \"type\": \"string\"
      }
    },
    \"artifacts\": {
      \"type\": \"object\",
      \"additionalProperties\": {
        \"type\": \"array\",
        \"items\": {
          \"$ref\": \"#/$defs/artifact\"
        }
      }
    },
    \"subsystems\": {
      \"type\": \"array\",
      \"items\": {
        \"$ref\": \"#/$defs/subsystem\"
      }
    }
  },
  \"$defs\": {
    \"behavior\": {
      \"type\": \"object\",
      \"required\": [
        \"name\",
        \"given\",
        \"then\"
      ],
      \"properties\": {
        \"name\": {
          \"type\": \"string\",
          \"minLength\": 1
        },
        \"given\": {
          \"type\": \"string\"
        },
        \"then\": {
          \"type\": \"string\"
        }
      }
    },
    \"artifact\": {
      \"type\": \"object\",
      \"required\": [
        \"path\"
      ],
      \"properties\": {
        \"path\": {
          \"type\": \"string\",
          \"minLength\": 1
        },
        \"role\": {
          \"type\": \"string\"
        }
      }
    },
    \"subsystem\": {
      \"type\": \"object\",
      \"required\": [
        \"$ref\"
      ],
      \"properties\": {
        \"$ref\": {
          \"type\": \"string\",
          \"minLength\": 1
        }
      }
    }
  }
}
";

/// The bundled schema as a document; the null document if the text did not
/// parse.
pub open spec fn spec_schema() -> JsonValue {
    match json_document(SCHEMA_STR@) {
        Ok(doc) => doc,
        Err(_) => JsonValue::Null,
    }
}

/// The first string of the list under `properties.schema_version.enum` of
/// `doc`.
pub open spec fn declared_version(doc: JsonValue) -> Option<Seq<char>> {
    match doc.spec_get("properties"@) {
        Some(properties) => match properties.spec_get("schema_version"@) {
            Some(version) => match version.spec_get("enum"@) {
                Some(choices) => match choices.spec_as_array() {
                    Some(items) => if items.len() > 0 {
                        items[0].spec_as_str()
                    } else {
                        None
                    },
                    None => None,
                },
                None => None,
            },
            None => None,
        },
        None => None,
    }
}

/// The bundled schema, parsed.
pub fn schema() -> (r: JsonValue)
    ensures
        r == spec_schema(),
{
    match parse_json_text(SCHEMA_STR) {
        Ok(doc) => doc,
        Err(_) => JsonValue::Null,
    }
}

/// The `$id` of the bundled schema, if it has one.
pub fn schema_id() -> (r: Option<String>)
    ensures
        match r {
            Some(id) => spec_schema().spec_get_str("$id"@) == Some(id@),
            None => spec_schema().spec_get_str("$id"@) is None,
        },
{
    let doc = schema();
    match doc.get_str("$id") {
        Some(id) => Some(owned(id)),
        None => None,
    }
}

/// The schema version that `doc`, a schema, declares as current: the first
/// value its `schema_version` property may take.
pub fn version_of(doc: &JsonValue) -> (r: Option<String>)
    ensures
        match r {
            Some(v) => declared_version(*doc) == Some(v@),
            None => declared_version(*doc) is None,
        },
{
    let properties = match doc.get("properties") {
        Some(p) => p,
        None => {
            return None;
        },
    };
    let version = match properties.get("schema_version") {
        Some(v) => v,
        None => {
            return None;
        },
    };
    let choices = match version.get("enum") {
        Some(c) => c,
        None => {
            return None;
        },
    };
    let items = match choices.as_array() {
        Some(items) => items,
        None => {
            return None;
        },
    };
    if items.len() == 0 {
        return None;
    }
    match items[0].as_str() {
        Some(v) => Some(owned(v)),
        None => None,
    }
}

/// The schema version of the bundled schema.
pub fn bundled_version() -> (r: Option<String>)
    ensures
        match r {
            Some(v) => declared_version(spec_schema()) == Some(v@),
            None => declared_version(spec_schema()) is None,
        },
{
    let doc = schema();
    version_of(&doc)
}

} // verus!
