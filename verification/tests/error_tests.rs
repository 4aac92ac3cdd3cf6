use ready::error::ReadyError;

#[test]
fn test_execution_error_is_recoverable() {
    let error = ReadyError::Execution {
        step_index: Some(5),
        step_type: Some("tool_call".to_string()),
        message: "Tool returned unexpected result".to_string(),
    };
    assert!(error.is_recoverable());
}

#[test]
fn test_tool_error_is_recoverable() {
    let error = ReadyError::Tool {
        tool_id: "send_email".to_string(),
        message: "Connection timeout".to_string(),
    };
    assert!(error.is_recoverable());
}

#[test]
fn test_plan_parsing_error_is_unrecoverable() {
    let error = ReadyError::PlanParsing("Invalid syntax at line 5".to_string());
    assert!(!error.is_recoverable());
}

#[test]
fn test_plan_validation_error_is_unrecoverable() {
    let error = ReadyError::PlanValidation("Unknown tool reference".to_string());
    assert!(!error.is_recoverable());
}

#[test]
fn test_tool_not_found_is_unrecoverable() {
    let error = ReadyError::ToolNotFound("nonexistent_tool".to_string());
    assert!(!error.is_recoverable());
}

#[test]
fn test_evaluation_error_is_unrecoverable() {
    let error = ReadyError::Evaluation("Cannot evaluate expression".to_string());
    assert!(!error.is_recoverable());
}

#[test]
fn test_duplicate_tool_is_unrecoverable() {
    let error = ReadyError::DuplicateTool("duplicate_tool".to_string());
    assert!(!error.is_recoverable());
}

#[test]
fn test_llm_error_is_unrecoverable() {
    let error = ReadyError::Llm("LLM API failed".to_string());
    assert!(!error.is_recoverable());
}

#[test]
fn test_io_error_is_unrecoverable() {
    let error = ReadyError::Io("test".to_string());
    assert!(!error.is_recoverable());
}

#[test]
fn error_display_texts_name_the_kind() {
    assert_eq!(ReadyError::PlanParsing("bad".to_string()).to_display_string(), "Plan parsing error: bad");
    assert_eq!(
        ReadyError::Tool { tool_id: "t".to_string(), message: "m".to_string() }.to_display_string(),
        "Tool error: t: m"
    );
    assert_eq!(
        ReadyError::Execution { step_index: Some(2), step_type: None, message: "boom".to_string() }.to_display_string(),
        "Execution error at step Some(2): boom"
    );
    assert_eq!(
        ReadyError::Execution { step_index: None, step_type: None, message: "boom".to_string() }.to_display_string(),
        "Execution error at step None: boom"
    );
}
