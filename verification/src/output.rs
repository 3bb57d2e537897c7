//! The envelope in which the command-line client reports a response or an
//! error.

use crate::models::ResponseFormat;
use vstd::prelude::*;
use vstd::string::StringExecFns;

verus! {

/// The error of the `serde_json` crate for a text that is no JSON document.
#[verifier::external_type_specification]
#[verifier::external_body]
pub struct ExJsonError(serde_json::Error);

/// The JSON value that a text denotes, if it is a JSON document.
pub uninterp spec fn json_parse(text: Seq<char>) -> Option<serde_json::Value>;

/// Calls `serde_json::from_str` for a `serde_json::Value`. Whether the text
/// is a JSON document, and which value it denotes, depends on the text
/// alone.
#[verifier::external_body]
fn parse_json(text: &str) -> (r: Result<serde_json::Value, serde_json::Error>)
    ensures
        r is Ok <==> json_parse(text@) is Some,
        r matches Ok(value) ==> json_parse(text@) == Some(value),
{
    serde_json::from_str::<serde_json::Value>(text)
}

/// The response as it is reported: as plain text, or as the JSON value that
/// the text denotes.
#[derive(Debug)]
pub enum ResponseBody {
    Text(String),
    Json(serde_json::Value),
}

/// The mathematical content of a `ResponseBody`.
pub enum ResponseBodyView {
    Text(Seq<char>),
    Json(serde_json::Value),
}

impl View for ResponseBody {
    type V = ResponseBodyView;

    open spec fn view(&self) -> ResponseBodyView {
        match *self {
            ResponseBody::Text(text) => ResponseBodyView::Text(text@),
            ResponseBody::Json(value) => ResponseBodyView::Json(value),
        }
    }
}

/// The code and the message of an error.
#[derive(Debug, Clone, PartialEq, Eq)]
pub struct ErrorInfo {
    pub code: String,
    pub message: String,
}

/// The envelope of one invocation. `M` is the metadata of the invocation,
/// which the envelope carries and does not read.
pub struct CliOutput<M> {
    /// `success` or `error`.
    pub status: String,
    pub response: Option<ResponseBody>,
    pub metadata: M,
    pub error: Option<ErrorInfo>,
}

/// The body that a response is reported with, given the value that it
/// parsed to: that value, or the text itself where there is none.
pub open spec fn body_of(response: Seq<char>, parsed: Option<serde_json::Value>) -> ResponseBodyView {
    match parsed {
        Some(value) => ResponseBodyView::Json(value),
        None => ResponseBodyView::Text(response),
    }
}

/// Whether a response is read as JSON: the caller asked for a JSON format.
pub open spec fn read_as_json(response_format: Option<&ResponseFormat>) -> bool {
    match response_format {
        Some(format) => format.is_json(),
        None => false,
    }
}

/// The body that a response is reported with under a format. Where JSON was
/// asked for and the response is a JSON document, it is the value of that
/// document; in every other case it is the text.
pub open spec fn reported_body(response: Seq<char>, response_format: Option<&ResponseFormat>) -> ResponseBodyView {
    if read_as_json(response_format) {
        body_of(response, json_parse(response))
    } else {
        ResponseBodyView::Text(response)
    }
}

impl<M> CliOutput<M> {
    /// Creates a success output for a response and the value that it parsed
    /// to, if it was parsed.
    pub fn success_from(response: String, metadata: M, parsed: Option<serde_json::Value>) -> (r:
        Self)
        ensures
            r.status@ == "success"@,
            r.response is Some,
            r.response->Some_0@ == body_of(response@, parsed),
            r.metadata == metadata,
            r.error is None,
    {
        let body = match parsed {
            Some(value) => ResponseBody::Json(value),
            None => ResponseBody::Text(response),
        };
        CliOutput {
            status: String::from_str("success"),
            response: Some(body),
            metadata,
            error: None,
        }
    }

    /// Creates a success output. Where the format asks for JSON, the
    /// response is parsed; a response that is no JSON document is reported
    /// as text all the same.
    pub fn success(response: String, metadata: M, response_format: Option<&ResponseFormat>) -> (r:
        Self)
        ensures
            r.status@ == "success"@,
            r.response is Some,
            r.response->Some_0@ == reported_body(response@, response_format),
            r.metadata == metadata,
            r.error is None,
    {
        let as_json = match response_format {
            Some(format) => format.wants_json(),
            None => false,
        };
        let parsed = if as_json {
            match parse_json(response.as_str()) {
                Ok(value) => Some(value),
                Err(_) => None,
            }
        } else {
            None
        };
        CliOutput::success_from(response, metadata, parsed)
    }

    /// Creates an error output.
    pub fn error(code: String, message: String, metadata: M) -> (r: Self)
        ensures
            r.status@ == "error"@,
            r.response is None,
            r.metadata == metadata,
            r.error == Some(ErrorInfo { code, message }),
    {
        CliOutput {
            status: String::from_str("error"),
            response: None,
            metadata,
            error: Some(ErrorInfo { code, message }),
        }
    }
}

} // verus!
