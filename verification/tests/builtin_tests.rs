use ready::tools::builtin::builtin_descriptions;
use ready::tools::models::ToolDescription;

fn find_tool(tool_id: &str) -> ToolDescription {
    builtin_descriptions().into_iter().find(|tool| tool.id == tool_id).expect("tool should exist")
}

fn names(tool: &ToolDescription) -> Vec<&str> {
    tool.arguments.iter().map(|arg| arg.name.as_str()).collect()
}

fn types(tool: &ToolDescription) -> Vec<&str> {
    tool.arguments.iter().map(|arg| arg.value_type.as_str()).collect()
}

#[test]
fn returns_three_tools() {
    assert_eq!(builtin_descriptions().len(), 3);
}

#[test]
fn delegate_to_llm_signature() {
    let tool = find_tool("delegate_to_large_language_model");
    assert_eq!(names(&tool), vec!["system_prompt", "user_prompt"]);
    assert_eq!(types(&tool), vec!["str", "str"]);
    assert_eq!(tool.returns.value_type.as_deref(), Some("str"));
}

#[test]
fn extract_from_plaintext_signature() {
    let tool = find_tool("extract_from_plaintext");
    assert_eq!(names(&tool), vec!["system_prompt", "plaintext", "json_schema"]);
    assert_eq!(types(&tool), vec!["str", "str", "dict"]);
    assert_eq!(tool.returns.value_type.as_deref(), Some("dict"));
}

#[test]
fn sort_list_signature() {
    let tool = find_tool("sort_list");
    assert_eq!(names(&tool), vec!["items", "key", "reverse"]);
    assert_eq!(types(&tool), vec!["list[dict]", "str", "bool"]);
    assert_eq!(tool.returns.value_type.as_deref(), Some("list[dict]"));
}

use ready::error::ReadyError;
use ready::json::JsonValue;
use ready::tools::builtin::{prepare_builtin_call, BuiltinRequest, DEFAULT_EXTRACTION_PROMPT};
use ready::tools::models::ToolCall;

fn call(tool_id: &str, args: Vec<JsonValue>) -> ToolCall {
    ToolCall { tool_id: tool_id.to_string(), args, continuation: None }
}

fn text(s: &str) -> JsonValue {
    JsonValue::String(s.to_string())
}

#[test]
fn delegate_call_carries_both_prompts() {
    let request = prepare_builtin_call(&call("delegate_to_large_language_model", vec![text("sys"), text("user")]), "unused");
    assert!(matches!(request, Ok(BuiltinRequest::Delegate { system_prompt, user_prompt })
        if system_prompt == "sys" && user_prompt == "user"));
}

#[test]
fn extraction_without_system_prompt_uses_the_default() {
    let request = prepare_builtin_call(
        &call("extract_from_plaintext", vec![text(""), text("plain"), JsonValue::Null]),
        DEFAULT_EXTRACTION_PROMPT,
    );
    assert!(matches!(request, Ok(BuiltinRequest::Extract { system_prompt, user_prompt, schema })
        if system_prompt == DEFAULT_EXTRACTION_PROMPT && user_prompt == "plain" && schema == JsonValue::Null));
}

#[test]
fn builtin_argument_errors_name_the_argument() {
    let error = prepare_builtin_call(&call("delegate_to_large_language_model", vec![text("sys")]), "p").unwrap_err();
    assert!(matches!(error, ReadyError::Tool { tool_id, message }
        if tool_id == "delegate_to_large_language_model" && message == "Expected arguments: system_prompt, user_prompt"));
    let error = prepare_builtin_call(&call("sort_list", vec![text("not a list"), text("k"), JsonValue::Bool(true)]), "p")
        .unwrap_err();
    assert!(matches!(error, ReadyError::Tool { message, .. } if message == "Argument 'items' must be a list"));
    let error = prepare_builtin_call(&call("sort_list", vec![JsonValue::Array(vec![]), text("k"), text("yes")]), "p")
        .unwrap_err();
    assert!(matches!(error, ReadyError::Tool { message, .. } if message == "Argument 'reverse' must be a bool"));
}

#[test]
fn unknown_tool_id_is_not_found() {
    let error = prepare_builtin_call(&call("nope", vec![]), "p").unwrap_err();
    assert!(matches!(error, ReadyError::ToolNotFound(id) if id == "nope"));
}
