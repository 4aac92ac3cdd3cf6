use std::cell::RefCell;

use ready::error::ReadyError;
use ready::execution::interpreter::{PlanInterpreter, Progress};
use ready::execution::observer::NoOpObserver;
use ready::execution::scope::Variables;
use ready::execution::state::{ExecutionState, ExecutionStatus, InstructionPointer};
use ready::plan::{AbstractPlan, ComparisonOperator, Step};
use ready::tools::models::{ToolCall, ToolResult, ToolSuspension};
use ready::json::{json_equal, JsonMember, JsonNumber, JsonValue};
use ready::llm::client::strip_markdown_fences;
use ready::text::{i64_text, trim};
use ready::tools::shell::{parse_i64, render_template_part, TemplateBindings};

fn sample() -> JsonValue {
    JsonValue::Object(vec![
        JsonMember { key: "a".to_string(), value: JsonValue::Array(vec![JsonValue::Null, JsonValue::Bool(true)]) },
        JsonMember { key: "b".to_string(), value: JsonValue::Number(JsonNumber::Float("0.0".to_string())) },
    ])
}

#[test]
fn json_equality_is_reflexive_and_symmetric() {
    assert!(json_equal(&sample(), &sample()));
    let zero = JsonValue::Number(JsonNumber::Float("-0.0".to_string()));
    let other = JsonValue::Object(vec![
        JsonMember { key: "a".to_string(), value: JsonValue::Array(vec![JsonValue::Null, JsonValue::Bool(true)]) },
        JsonMember { key: "b".to_string(), value: zero },
    ]);
    assert_eq!(json_equal(&sample(), &other), json_equal(&other, &sample()));
    assert!(json_equal(&sample(), &other));
}

#[test]
fn a_variable_reads_back_what_was_written_and_others_stay() {
    let mut vars = Variables::new();
    vars.insert("x".to_string(), JsonValue::Bool(false));
    vars.insert("y".to_string(), JsonValue::Null);
    vars.insert("x".to_string(), JsonValue::Bool(true));
    assert_eq!(vars.get("x"), Some(&JsonValue::Bool(true)));
    assert_eq!(vars.get("y"), Some(&JsonValue::Null));
    assert_eq!(vars.get("z"), None);
    assert_eq!(vars.len(), 2);
}

#[test]
fn descending_then_ascending_advances_past_the_container() {
    let mut ip = InstructionPointer { path: vec![3, 1] };
    ip.descend();
    ip.ascend();
    let mut advanced = InstructionPointer { path: vec![3, 1] };
    advanced.advance();
    assert_eq!(ip, advanced);
    assert_eq!(ip.path, vec![3, 2]);
}

#[test]
fn a_stripped_reply_is_already_trimmed() {
    for raw in ["```python\n  x = 1  \n```\n", "  plain text  ", "```\ncode\n", "\n\n"] {
        let stripped = strip_markdown_fences(raw);
        assert_eq!(trim(&stripped), stripped);
    }
    assert_eq!(strip_markdown_fences("```python\n  x = 1  \n```\n"), "x = 1");
}

#[test]
fn a_template_part_without_placeholders_renders_as_itself() {
    let mut bound = TemplateBindings::new();
    bound.insert("name".to_string(), "value".to_string());
    assert_eq!(render_template_part("--flag=plain}", &bound, "t").unwrap(), "--flag=plain}");
    assert_eq!(render_template_part("{name}!", &bound, "t").unwrap(), "value!");
}

#[test]
fn integer_text_parses_back() {
    for n in [0i64, 7, -7, 1234567890, i64::MAX, i64::MIN] {
        assert_eq!(parse_i64(&i64_text(n)), Ok(n));
    }
}

/// Runs the step machine as the application's run loop does, with `tools` making the calls.
fn drive(
    interpreter: &PlanInterpreter,
    state: &mut ExecutionState,
    tools: &dyn Fn(&ToolCall) -> Result<ToolResult, ReadyError>,
) -> Result<(), ReadyError> {
    let mut internal = interpreter.begin(state, &NoOpObserver);
    let mut counter: usize = 0;
    let outcome = loop {
        match interpreter.run_step(state, &mut internal, &mut counter, &NoOpObserver) {
            Progress::Finished | Progress::Suspended => break Ok(()),
            Progress::Continue => {}
            Progress::Failed(error) => break Err(error),
            Progress::CallTool { step, call } => {
                let result = tools(&call);
                match interpreter.finish_tool_step(step, result, state, &internal, &NoOpObserver) {
                    Progress::Suspended => break Ok(()),
                    Progress::Failed(error) => break Err(error),
                    _ => {}
                }
            }
        }
    };
    interpreter.finish(state, outcome, &NoOpObserver)
}

fn one_step_plan(step: Step) -> AbstractPlan {
    AbstractPlan { name: "law".to_string(), description: String::new(), steps: vec![step], code: String::new() }
}

#[test]
fn input_to_an_interaction_is_bound_to_its_variable() {
    let interpreter = PlanInterpreter::new(one_step_plan(Step::UserInteractionStep {
        prompt: "Name?".to_string(),
        output_variable: Some("name".to_string()),
    }));
    let mut state = ExecutionState::default();
    drive(&interpreter, &mut state, &|call: &ToolCall| Err(ReadyError::ToolNotFound(call.tool_id.clone()))).unwrap();
    assert_eq!(state.status, ExecutionStatus::Suspended);
    assert_eq!(state.suspension_reason.as_deref(), Some("Name?"));
    interpreter.accept_input(&mut state, JsonValue::String("Ada".to_string())).unwrap();
    assert_eq!(state.interpreter_state.variables.get("name"), Some(&JsonValue::String("Ada".to_string())));
    assert_eq!(state.interpreter_state.ip_path, vec![1]);
    assert_eq!(state.interpreter_state.pending_input_variable, None);
}

#[test]
fn a_suspended_tool_is_resumed_with_its_state_and_the_input() {
    let interpreter = PlanInterpreter::new(one_step_plan(Step::ToolStep {
        tool_id: "approve".to_string(),
        arguments: Vec::new(),
        output_variable: Some("answer".to_string()),
    }));
    let calls: RefCell<Vec<(usize, Option<(JsonValue, Option<JsonValue>)>)>> = RefCell::new(Vec::new());
    let tool = |call: &ToolCall| -> Result<ToolResult, ReadyError> {
        let continuation = call.continuation.as_ref().map(|c| (copy(&c.state), c.resume_value.as_ref().map(copy)));
        calls.borrow_mut().push((call.args.len(), continuation));
        match &call.continuation {
            None => Ok(ToolResult::Suspended(ToolSuspension {
                reason: "Approve?".to_string(),
                continuation_state: JsonValue::String("saved".to_string()),
            })),
            Some(c) => Ok(ToolResult::Success(c.resume_value.as_ref().map(copy).unwrap_or(JsonValue::Null))),
        }
    };
    let mut state = ExecutionState::default();
    drive(&interpreter, &mut state, &tool).unwrap();
    assert_eq!(state.status, ExecutionStatus::Suspended);
    assert_eq!(state.interpreter_state.ip_path, vec![0]);
    interpreter.accept_input(&mut state, JsonValue::Bool(true)).unwrap();
    drive(&interpreter, &mut state, &tool).unwrap();
    assert_eq!(state.status, ExecutionStatus::Completed);
    assert_eq!(state.interpreter_state.variables.get("answer"), Some(&JsonValue::Bool(true)));
    assert_eq!(state.interpreter_state.pending_tool_id, None);
    let calls = calls.into_inner();
    assert_eq!(calls.len(), 2);
    assert_eq!(calls[0], (0, None));
    assert_eq!(calls[1], (0, Some((JsonValue::String("saved".to_string()), Some(JsonValue::Bool(true))))));
}

fn copy(value: &JsonValue) -> JsonValue {
    ready::json::copy_json(value)
}

#[test]
fn pointer_depth_stays_positive_through_accepted_moves() {
    let mut ip = InstructionPointer::new();
    ip.descend();
    ip.advance();
    ip.descend();
    ip.ascend();
    ip.ascend();
    ip.advance();
    assert!(ip.depth() >= 1);
    assert_eq!(ip.depth(), ip.path.len());
    assert_eq!(ip.path, vec![2]);
}

#[test]
fn a_finished_run_is_completed_with_no_error_and_no_reason() {
    let interpreter = PlanInterpreter::new(one_step_plan(Step::AssignStep {
        target: "x".to_string(),
        value: ready::plan::Expression::Literal { value: ready::plan::LiteralValue::Integer(1) },
    }));
    let mut state = ExecutionState::default();
    drive(&interpreter, &mut state, &|call: &ToolCall| Err(ReadyError::ToolNotFound(call.tool_id.clone()))).unwrap();
    assert_eq!(state.status, ExecutionStatus::Completed);
    assert!(state.error.is_none());
    assert!(state.suspension_reason.is_none());
}

#[test]
fn comparison_operator_names_are_distinct() {
    let ops = [
        ComparisonOperator::Equal,
        ComparisonOperator::NotEqual,
        ComparisonOperator::LessThan,
        ComparisonOperator::GreaterThan,
        ComparisonOperator::LessThanOrEqual,
        ComparisonOperator::GreaterThanOrEqual,
        ComparisonOperator::In,
        ComparisonOperator::NotIn,
        ComparisonOperator::Is,
        ComparisonOperator::IsNot,
    ];
    let names: Vec<&str> = ops.iter().map(|op| op.as_str()).collect();
    assert_eq!(names, vec!["==", "!=", "<", ">", "<=", ">=", "in", "not in", "is", "is not"]);
    for (i, a) in ops.iter().enumerate() {
        for (j, b) in ops.iter().enumerate() {
            assert_eq!(a.as_str() == b.as_str(), i == j);
        }
    }
}
