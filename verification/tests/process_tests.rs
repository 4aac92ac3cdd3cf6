use ready::error::ReadyError;
use ready::execution::state::{ExecutionState, ExecutionStatus};
use ready::json::JsonValue;
use ready::plan::{AbstractPlan, Step};
use ready::tools::models::{ToolArgumentDescription, ToolDescription, ToolResult, ToolReturnDescription};
use ready::tools::process::{map_execution_state_to_tool_result, process_description, seed_execution_state, validate_process_plans};
use ready::tools::registry::ToolIndex;

fn tool_description(tool_id: &str, arguments: &[&str]) -> ToolDescription {
    ToolDescription {
        id: tool_id.to_string(),
        description: String::new(),
        arguments: arguments
            .iter()
            .map(|name| ToolArgumentDescription {
                name: (*name).to_string(),
                description: String::new(),
                value_type: "str".to_string(),
                default: None,
            })
            .collect(),
        returns: ToolReturnDescription { name: None, description: String::new(), value_type: None, fields: Vec::new() },
    }
}

fn plan(name: &str, steps: Vec<Step>) -> AbstractPlan {
    AbstractPlan { name: name.to_string(), description: String::new(), steps, code: String::new() }
}

fn user_step(prompt: &str, output_variable: &str) -> Step {
    Step::UserInteractionStep { prompt: prompt.to_string(), output_variable: Some(output_variable.to_string()) }
}

fn tool_step(tool_id: &str, output_variable: Option<&str>) -> Step {
    Step::ToolStep { tool_id: tool_id.to_string(), arguments: vec![], output_variable: output_variable.map(str::to_string) }
}

fn text(s: &str) -> JsonValue {
    JsonValue::String(s.to_string())
}

#[test]
fn list_tools_returns_one_entry_per_plan_and_prefillable_inputs() {
    let listed = vec![process_description(&plan(
        "echo_plan",
        vec![user_step("Enter a value:", "user_value"), tool_step("noop", None)],
    ))];
    assert_eq!(listed.len(), 1);
    assert_eq!(listed[0].id, "echo_plan");
    assert_eq!(listed[0].arguments.len(), 1);
    assert_eq!(listed[0].arguments[0].name, "user_value");
    assert_eq!(listed[0].arguments[0].description, "Enter a value:");
}

#[test]
fn seed_execution_state_maps_positional_arguments_by_prefillable_name() {
    let descriptions = vec![tool_description("interactive", &["name", "unused"])];
    let state = seed_execution_state(&descriptions, "interactive", &[text("Alice")]).expect("state should seed");

    assert_eq!(state.interpreter_state.variables.get("name"), Some(&text("Alice")));
    assert!(!state.interpreter_state.variables.contains_key("unused"));
}

#[test]
fn seeding_an_unknown_process_is_not_found() {
    let error = seed_execution_state(&[], "ghost", &[]).unwrap_err();
    assert!(matches!(error, ReadyError::ToolNotFound(id) if id == "ghost"));
}

#[test]
fn map_execution_state_to_tool_result_serializes_suspensions() {
    let state = ExecutionState {
        status: ExecutionStatus::Suspended,
        suspension_reason: Some("Need input".to_string()),
        ..Default::default()
    };

    let ToolResult::Suspended(suspension) =
        map_execution_state_to_tool_result("interactive", &state, JsonValue::Null).expect("suspended state should map")
    else {
        panic!("expected suspended result");
    };

    assert_eq!(suspension.reason, "Need input");
}

#[test]
fn completed_process_maps_to_null_success() {
    let state = ExecutionState { status: ExecutionStatus::Completed, ..Default::default() };
    assert_eq!(
        map_execution_state_to_tool_result("interactive", &state, JsonValue::Null).unwrap(),
        ToolResult::Success(JsonValue::Null)
    );
}

#[test]
fn construction_rejects_unknown_tool_references_but_allows_sibling_plans() {
    let mut registry = ToolIndex::new();
    registry.register_module(&vec!["noop".to_string()]).unwrap();

    let error = validate_process_plans(&[plan("broken", vec![tool_step("missing_tool", None)])], &registry)
        .err()
        .expect("unknown tool should fail validation");
    assert!(matches!(error, ReadyError::PlanValidation(message) if message.contains("missing_tool")));

    let siblings = vec![plan("plan_a", vec![tool_step("plan_b", None)]), plan("plan_b", vec![tool_step("noop", None)])];
    validate_process_plans(&siblings, &registry).expect("sibling plan references should be allowed");
    let ids: Vec<String> = siblings.iter().map(|p| process_description(p).id).collect();
    assert!(ids.contains(&"plan_a".to_string()));
    assert!(ids.contains(&"plan_b".to_string()));
}
