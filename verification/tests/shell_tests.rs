use ready::error::ReadyError;
use ready::json::{JsonNumber, JsonValue};
use ready::tools::models::{ToolArgumentDescription, ToolReturnDescription};
use ready::tools::shell::{
    parse_command_output, parse_output, render_command, OutputParsing, OutputValue, ShellCommandOutput, ShellToolEntry,
};

fn argument(name: &str) -> ToolArgumentDescription {
    ToolArgumentDescription { name: name.to_string(), value_type: "str".to_string(), description: String::new(), default: None }
}

fn entry(template: &[&str], arguments: &[&str], output_parsing: OutputParsing) -> ShellToolEntry {
    ShellToolEntry {
        description: String::new(),
        template: template.iter().map(|s| s.to_string()).collect(),
        arguments: arguments.iter().map(|a| argument(a)).collect(),
        returns: ToolReturnDescription { name: None, description: String::new(), value_type: Some("str".to_string()), fields: Vec::new() },
        active: true,
        output_parsing,
        output_schema: None,
    }
}

fn tool_message(result: Result<impl std::fmt::Debug, ReadyError>, expected_tool: &str) -> String {
    match result {
        Err(ReadyError::Tool { tool_id, message }) => {
            assert_eq!(tool_id, expected_tool);
            message
        }
        other => panic!("expected a tool error, got {other:?}"),
    }
}

#[test]
fn execute_tool_binds_arguments_into_the_command_line() {
    let e = entry(&["echo", "{message}", "--count={n}"], &["message", "n"], OutputParsing::Raw);
    let line = render_command(&e, &[JsonValue::String("hello".to_string()), JsonValue::Number(JsonNumber::PosInt(3))], "echo_message")
        .expect("command should render");
    assert_eq!(line, vec!["echo".to_string(), "hello".to_string(), "--count=3".to_string()]);
}

#[test]
fn execute_tool_reports_missing_placeholder_contextually() {
    let e = entry(&["grep", "{pattern}", "{path}"], &["pattern"], OutputParsing::Raw);
    let message = tool_message(render_command(&e, &[JsonValue::String("foo".to_string())], "grep_search"), "grep_search");
    assert!(message.contains("Template placeholder 'path' not satisfied"));
}

#[test]
fn int_float_and_bool_outputs_are_parsed() {
    match parse_output(OutputParsing::Int, " 42\n", "", "int_tool") {
        Ok(OutputValue::Ready(v)) => assert_eq!(v, JsonValue::Number(JsonNumber::PosInt(42))),
        _ => panic!("expected an integer"),
    }
    match parse_output(OutputParsing::Float, "3.14\n", "", "float_tool") {
        Ok(OutputValue::FloatText(t)) => assert_eq!(t, "3.14"),
        _ => panic!("expected float text"),
    }
    match parse_output(OutputParsing::Bool, "Yes\n", "", "bool_tool") {
        Ok(OutputValue::Ready(v)) => assert_eq!(v, JsonValue::Bool(true)),
        _ => panic!("expected a boolean"),
    }
    match parse_output(OutputParsing::Bool, "nope", "", "bool_tool") {
        Ok(OutputValue::Ready(v)) => assert_eq!(v, JsonValue::Bool(false)),
        _ => panic!("expected a boolean"),
    }
}

#[test]
fn raw_output_is_stdout_then_stderr() {
    match parse_output(OutputParsing::Raw, "out", "err", "raw_tool") {
        Ok(OutputValue::Ready(v)) => assert_eq!(v, JsonValue::String("outerr".to_string())),
        _ => panic!("expected raw text"),
    }
}

#[test]
fn unparsable_integer_output_is_a_tool_error() {
    let message = tool_message(parse_output(OutputParsing::Int, "forty", "", "int_tool").map(|_| ()), "int_tool");
    assert_eq!(message, "Failed to parse integer output: invalid digit found in string");
}

#[test]
fn failed_command_is_reported_unless_output_is_raw() {
    let e = entry(&["false"], &[], OutputParsing::Int);
    let output = ShellCommandOutput { success: false, exit_code: Some(2), stdout: String::new(), stderr: "boom".to_string() };
    let message = tool_message(parse_command_output(&e, output, "t").map(|_| ()), "t");
    assert_eq!(message, "Command failed (exit Some(2)): boom");

    let raw = entry(&["false"], &[], OutputParsing::Raw);
    let output = ShellCommandOutput { success: false, exit_code: None, stdout: "a".to_string(), stderr: "b".to_string() };
    match parse_command_output(&raw, output, "t") {
        Ok(OutputValue::Ready(v)) => assert_eq!(v, JsonValue::String("ab".to_string())),
        _ => panic!("raw output of a failed command is still returned"),
    }
}
