use llm_guard::constants::{http, input_limits, llm_defaults, output_limits, pdf_limits};
use llm_guard::error::CliError;
use llm_guard::models::{Choice, Message, OllamaResponse, OpenAIResponse, ResponseFormat};
use llm_guard::output::{CliOutput, ErrorInfo, ResponseBody};

#[test]
fn error_codes_and_exit_codes() {
    let cases: Vec<(CliError, &str, i32)> = vec![
        (
            CliError::ContextLimitExceeded { required: 10, limit: 4, excess: 6 },
            "CONTEXT_LIMIT_EXCEEDED",
            2,
        ),
        (CliError::HttpError("connection refused".to_string()), "HTTP_ERROR", 3),
        (CliError::InvalidResponse("x".to_string()), "INVALID_RESPONSE", 4),
        (CliError::FileNotFound("x".to_string()), "FILE_NOT_FOUND", 5),
        (CliError::InvalidArguments("x".to_string()), "INVALID_ARGUMENTS", 6),
        (CliError::AuthenticationFailed("x".to_string()), "AUTH_FAILED", 7),
        (CliError::PdfProcessingFailed("x".to_string()), "PDF_PROCESSING_FAILED", 8),
    ];
    for (error, code, exit) in cases {
        assert_eq!(error.code(), code);
        assert_eq!(error.exit_code(), exit);
    }
}

#[test]
fn response_formats_in_words() {
    assert_eq!(ResponseFormat::text().describe(), "text");
    assert_eq!(ResponseFormat::json().describe(), "json-object");
    let schema = serde_json::Value::Bool(true);
    assert_eq!(
        ResponseFormat::json_schema("person".to_string(), schema.clone(), true).describe(),
        "json-schema (name: person, strict: true)"
    );
    assert_eq!(
        ResponseFormat::json_schema("person".to_string(), schema, false).describe(),
        "json-schema (name: person, strict: false)"
    );
}

#[test]
fn json_schema_keeps_its_parts() {
    let schema = serde_json::from_str::<serde_json::Value>("{\"type\":\"object\"}").unwrap();
    match ResponseFormat::json_schema("s".to_string(), schema.clone(), true) {
        ResponseFormat::JsonSchema { json_schema } => {
            assert_eq!(json_schema.name, "s");
            assert_eq!(json_schema.schema, schema);
            assert_eq!(json_schema.strict, Some(true));
        }
        other => panic!("unexpected format {:?}", other),
    }
    assert!(!ResponseFormat::text().wants_json());
    assert!(ResponseFormat::json().wants_json());
}

#[test]
fn success_parses_a_json_response_when_asked() {
    let format = ResponseFormat::json();
    let out = CliOutput::success("{\"a\": [1, 2]}".to_string(), 7u8, Some(&format));
    assert_eq!(out.status, "success");
    assert_eq!(out.metadata, 7u8);
    assert!(out.error.is_none());
    let expected = serde_json::from_str::<serde_json::Value>("{\"a\":[1,2]}").unwrap();
    match out.response {
        Some(ResponseBody::Json(value)) => assert_eq!(value, expected),
        other => panic!("unexpected body {:?}", other),
    }
}

#[test]
fn success_falls_back_to_text() {
    let format = ResponseFormat::json();
    let out = CliOutput::success("not json".to_string(), (), Some(&format));
    match out.response {
        Some(ResponseBody::Text(text)) => assert_eq!(text, "not json"),
        other => panic!("unexpected body {:?}", other),
    }
    // Without a JSON format the response is text even if it is a document.
    let text = ResponseFormat::text();
    let out = CliOutput::success("{\"a\":1}".to_string(), (), Some(&text));
    match out.response {
        Some(ResponseBody::Text(text)) => assert_eq!(text, "{\"a\":1}"),
        other => panic!("unexpected body {:?}", other),
    }
    let out = CliOutput::success("[1]".to_string(), (), None);
    assert!(matches!(out.response, Some(ResponseBody::Text(_))));
}

#[test]
fn success_from_takes_the_parsed_value() {
    let out = CliOutput::success_from("x".to_string(), (), Some(serde_json::Value::Null));
    match out.response {
        Some(ResponseBody::Json(value)) => assert_eq!(value, serde_json::Value::Null),
        other => panic!("unexpected body {:?}", other),
    }
    let out = CliOutput::success_from("x".to_string(), (), None);
    assert!(matches!(out.response, Some(ResponseBody::Text(_))));
}

#[test]
fn error_output_carries_code_and_message() {
    let out = CliOutput::error("HTTP_ERROR".to_string(), "refused".to_string(), 3u32);
    assert_eq!(out.status, "error");
    assert!(out.response.is_none());
    assert_eq!(out.metadata, 3u32);
    assert_eq!(
        out.error,
        Some(ErrorInfo { code: "HTTP_ERROR".to_string(), message: "refused".to_string() })
    );
}

#[test]
fn plain_messages_hold_their_fields() {
    let message = Message { role: "assistant".to_string(), content: "first".to_string() };
    let response = OpenAIResponse { choices: vec![Choice { message: message.clone() }] };
    assert_eq!(response.choices[0].message, message);
    let ollama = OllamaResponse { response: "hi".to_string() };
    assert_eq!(ollama.response, "hi");
}

#[test]
fn limits_and_defaults() {
    assert_eq!(input_limits::MAX_INPUT_BYTES, 1024 * 1024);
    assert_eq!(input_limits::MAX_TOKENS_ESTIMATED, 200_000);
    assert_eq!(output_limits::MAX_OUTPUT_BYTES, 512_000);
    assert_eq!(pdf_limits::MAX_PDF_SIZE_BYTES, 10 * 1024 * 1024);
    assert_eq!(pdf_limits::MAX_EXTRACTION_TIMEOUT_SECS, 60);
    assert_eq!(llm_defaults::DEFAULT_MAX_TOKENS, 4000);
    assert_eq!(llm_defaults::DEFAULT_TIMEOUT_SECS, 300);
    assert_eq!(http::POOL_IDLE_TIMEOUT_SECS, 90);
    assert_eq!(http::MAX_REDIRECTS, 10);
}
