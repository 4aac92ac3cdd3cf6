use ready::error::ReadyError;
use ready::json::{to_json_text, JsonMember, JsonNumber, JsonValue};
use ready::llm::openai::{
    api_status_error, chat_completions_url, chat_payload, enforce_strict_schema, extract_message_content,
    fallback_output_error, fallback_system_prompt, schema_payload, structured_output_error,
};

fn to_json(v: serde_json::Value) -> JsonValue {
    match v {
        serde_json::Value::Null => JsonValue::Null,
        serde_json::Value::Bool(b) => JsonValue::Bool(b),
        serde_json::Value::Number(n) => {
            if let Some(u) = n.as_u64() {
                JsonValue::Number(JsonNumber::PosInt(u))
            } else if let Some(i) = n.as_i64() {
                JsonValue::Number(JsonNumber::NegInt(i))
            } else {
                JsonValue::Number(JsonNumber::Float(n.to_string()))
            }
        }
        serde_json::Value::String(s) => JsonValue::String(s),
        serde_json::Value::Array(items) => JsonValue::Array(items.into_iter().map(to_json).collect()),
        serde_json::Value::Object(map) => {
            JsonValue::Object(map.into_iter().map(|(key, value)| JsonMember { key, value: to_json(value) }).collect())
        }
    }
}

fn jv(text: &str) -> JsonValue {
    to_json(serde_json::from_str(text).expect("valid JSON"))
}

fn llm_message(error: ReadyError) -> String {
    match error {
        ReadyError::Llm(message) => message,
        other => panic!("expected an LLM error, got {other:?}"),
    }
}

#[test]
fn strict_schema_requires_every_property_and_closes_objects() {
    let mut schema = jv(r#"{"type":"object","properties":{"b":{"type":"string"},"a":{"type":"object","properties":{"x":{"type":"integer"}}}}}"#);
    enforce_strict_schema(&mut schema);
    assert_eq!(
        to_json_text(&schema),
        r#"{"additionalProperties":false,"properties":{"a":{"additionalProperties":false,"properties":{"x":{"type":"integer"}},"required":["x"],"type":"object"},"b":{"type":"string"}},"required":["a","b"],"type":"object"}"#
    );
}

#[test]
fn schema_without_properties_is_left_alone() {
    let mut schema = jv(r#"{"type":"array","items":{"type":"string"}}"#);
    enforce_strict_schema(&mut schema);
    assert_eq!(to_json_text(&schema), r#"{"items":{"type":"string"},"type":"array"}"#);
}

#[test]
fn request_bodies_are_written_as_the_api_expects() {
    assert_eq!(
        to_json_text(&chat_payload("gpt-4o", "sys", "user")),
        r#"{"messages":[{"content":"sys","role":"system"},{"content":"user","role":"user"}],"model":"gpt-4o","temperature":0.0}"#
    );
    let body = schema_payload("m", "s", "u", &jv(r#"{"properties":{"k":{}}}"#));
    assert_eq!(
        to_json_text(&body),
        r#"{"messages":[{"content":"s","role":"system"},{"content":"u","role":"user"}],"model":"m","response_format":{"json_schema":{"name":"extraction","schema":{"additionalProperties":false,"properties":{"k":{}},"required":["k"]},"strict":true},"type":"json_schema"},"temperature":0.0}"#
    );
}

#[test]
fn endpoint_url_drops_trailing_slashes() {
    assert_eq!(chat_completions_url("https://api.openai.com/v1//"), "https://api.openai.com/v1/chat/completions");
    assert_eq!(chat_completions_url("http://localhost:8080"), "http://localhost:8080/chat/completions");
}

#[test]
fn message_content_variants() {
    assert_eq!(extract_message_content(&jv(r#"{"choices":[{"message":{"content":"hi"}}]}"#)).unwrap(), "hi");
    assert_eq!(extract_message_content(&jv(r#"{"choices":[{"message":{"content":null}}]}"#)).unwrap(), "");
    assert_eq!(
        extract_message_content(&jv(r#"{"choices":[{"message":{"content":[{"text":"a"},{"type":"x"},{"text":"b"}]}}]}"#)).unwrap(),
        "ab"
    );
    assert_eq!(extract_message_content(&jv(r#"{"choices":[{"message":{"content":{"k":1}}}]}"#)).unwrap(), r#"{"k":1}"#);
    assert_eq!(
        llm_message(extract_message_content(&jv(r#"{"choices":[]}"#)).unwrap_err()),
        r#"Missing choices[0].message.content in response: {"choices":[]}"#
    );
}

#[test]
fn error_texts_quote_status_body_and_reply() {
    assert_eq!(
        llm_message(api_status_error("401 Unauthorized", &jv(r#"{"error":"bad key"}"#))),
        r#"OpenAI-compatible API returned 401 Unauthorized: {"error":"bad key"}"#
    );
    assert_eq!(
        llm_message(structured_output_error("expected value at line 1 column 1", "not \"json\"")),
        r#"Structured-output response was not valid JSON: expected value at line 1 column 1; raw response: "not \"json\"""#
    );
    assert_eq!(fallback_system_prompt("S", "{}"), "S\n\nRespond with a JSON object only — no prose, no markdown fences. The JSON must conform to this schema:\n{}");
}

#[test]
fn fallback_error_quotes_reply_with_debug_escapes() {
    assert_eq!(
        llm_message(fallback_output_error("trailing characters", "a\u{1}b\n\"c\"\\")),
        "Fallback structured extraction could not parse JSON: trailing characters; raw response: \"a\\u{1}b\\n\\\"c\\\"\\\\\""
    );
}

#[test]
fn object_schemas_under_array_items_are_made_strict() {
    let mut schema = jv(r#"{"type":"array","items":{"type":"object","properties":{"a":{"type":"string"}}}}"#);
    enforce_strict_schema(&mut schema);
    assert_eq!(
        to_json_text(&schema),
        r#"{"items":{"additionalProperties":false,"properties":{"a":{"type":"string"}},"required":["a"],"type":"object"},"type":"array"}"#
    );
}

#[test]
fn object_schemas_without_properties_and_in_item_tuples_are_closed() {
    let mut schema = jv(r#"{"type":"object","properties":{"tags":{"type":"array","items":[{"type":"object"},{"type":"string"}]}}}"#);
    enforce_strict_schema(&mut schema);
    assert_eq!(
        to_json_text(&schema),
        r#"{"additionalProperties":false,"properties":{"tags":{"items":[{"additionalProperties":false,"type":"object"},{"type":"string"}],"type":"array"}},"required":["tags"],"type":"object"}"#
    );
}
