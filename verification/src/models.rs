//! The messages exchanged with model endpoints, and the response formats
//! that a caller may ask for.

use vstd::prelude::*;
use vstd::string::StringExecFns;

verus! {

/// A JSON value of the `serde_json` crate.
#[verifier::external_type_specification]
#[verifier::external_body]
pub struct ExJsonValue(serde_json::Value);

/// Response format for OpenAI-compatible APIs.
#[derive(Debug)]
pub enum ResponseFormat {
    Text,
    JsonObject,
    JsonSchema { json_schema: JsonSchemaDefinition },
}

/// A named JSON schema that the response is to follow.
#[derive(Debug)]
pub struct JsonSchemaDefinition {
    pub name: String,
    pub schema: serde_json::Value,
    pub strict: Option<bool>,
}

/// The word for a truth value.
pub open spec fn bool_text(b: bool) -> Seq<char> {
    if b {
        "true"@
    } else {
        "false"@
    }
}

impl ResponseFormat {
    /// Whether the format asks for a JSON response.
    pub open spec fn is_json(self) -> bool {
        !(self is Text)
    }

    /// The format in words: `text`, `json-object`, or the name of the
    /// schema and whether it is strict. A schema that does not say counts
    /// as not strict.
    pub open spec fn description(self) -> Seq<char> {
        match self {
            ResponseFormat::Text => "text"@,
            ResponseFormat::JsonObject => "json-object"@,
            ResponseFormat::JsonSchema { json_schema } => "json-schema (name: "@ + json_schema.name@
                + ", strict: "@ + bool_text(
                match json_schema.strict {
                    Some(strict) => strict,
                    None => false,
                },
            ) + ")"@,
        }
    }

    pub fn text() -> (r: ResponseFormat)
        ensures
            r is Text,
    {
        ResponseFormat::Text
    }

    pub fn json() -> (r: ResponseFormat)
        ensures
            r is JsonObject,
    {
        ResponseFormat::JsonObject
    }

    pub fn json_schema(name: String, schema: serde_json::Value, strict: bool) -> (r: ResponseFormat)
        ensures
            r == (ResponseFormat::JsonSchema {
                json_schema: JsonSchemaDefinition { name, schema, strict: Some(strict) },
            }),
    {
        ResponseFormat::JsonSchema {
            json_schema: JsonSchemaDefinition { name, schema, strict: Some(strict) },
        }
    }

    /// Whether the format asks for a JSON response.
    pub fn wants_json(&self) -> (b: bool)
        ensures
            b == self.is_json(),
    {
        match self {
            ResponseFormat::Text => false,
            _ => true,
        }
    }

    /// The format in words.
    pub fn describe(&self) -> (r: String)
        ensures
            r@ == self.description(),
    {
        match self {
            ResponseFormat::Text => String::from_str("text"),
            ResponseFormat::JsonObject => String::from_str("json-object"),
            ResponseFormat::JsonSchema { json_schema } => {
                let strict = match json_schema.strict {
                    Some(strict) => strict,
                    None => false,
                };
                let mut r = String::from_str("json-schema (name: ");
                r.append(json_schema.name.as_str());
                r.append(", strict: ");
                if strict {
                    r.append("true");
                } else {
                    r.append("false");
                }
                r.append(")");
                r
            },
        }
    }
}

/// One message of a conversation.
#[derive(Debug, Clone, PartialEq, Eq)]
pub struct Message {
    pub role: String,
    pub content: String,
}

/// One choice of an OpenAI-style response.
#[derive(Debug, Clone, PartialEq, Eq)]
pub struct Choice {
    pub message: Message,
}

/// An OpenAI-style response.
#[derive(Debug, Clone, PartialEq, Eq)]
pub struct OpenAIResponse {
    pub choices: Vec<Choice>,
}

/// The response of a `/api/generate` endpoint.
#[derive(Debug, Clone, PartialEq, Eq)]
pub struct OllamaResponse {
    pub response: String,
}

} // verus!
