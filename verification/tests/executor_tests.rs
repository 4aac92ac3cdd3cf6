use std::cell::RefCell;

use ready::error::ReadyError;
use ready::execution::interpreter::{PlanInterpreter, Progress};
use ready::execution::observer::NoOpObserver;
use ready::execution::state::{ExecutionState, ExecutionStatus};
use ready::json::JsonValue;
use ready::plan::{AbstractPlan, Expression, LiteralValue, Step};
use ready::tools::models::{ToolCall, ToolResult};
use ready::execution::state::ExecutionError;
use ready::workflow::executor::{recovery_due, restart_from_checkpoint, seeded_state, suspension_question};

/// Runs the step machine as the application's run loop does, with `tools` making the calls.
fn run(interpreter: &PlanInterpreter, state: &mut ExecutionState, tools: &dyn Fn(&ToolCall) -> Result<ToolResult, ReadyError>) -> Result<(), ReadyError> {
    assert!(interpreter.can_start(state));
    let mut internal = interpreter.begin(state, &NoOpObserver);
    let mut counter: usize = 0;
    let outcome = loop {
        match interpreter.run_step(state, &mut internal, &mut counter, &NoOpObserver) {
            Progress::Finished | Progress::Suspended => break Ok(()),
            Progress::Continue => {}
            Progress::Failed(error) => break Err(error),
            Progress::CallTool { step, call } => {
                let result = tools(&call);
                match interpreter.finish_tool_step(step, result, state, &internal, &NoOpObserver) {
                    Progress::Suspended => break Ok(()),
                    Progress::Failed(error) => break Err(error),
                    _ => {}
                }
            }
        }
    };
    interpreter.finish(state, outcome, &NoOpObserver)
}

/// Executes a plan from seeded inputs and answers each suspension from `answers`, as the
/// application's executor does with its callback.
fn execute_with_answers(
    plan: AbstractPlan,
    inputs: Vec<(String, JsonValue)>,
    answers: &mut Vec<String>,
    tools: &dyn Fn(&ToolCall) -> Result<ToolResult, ReadyError>,
) -> Result<ExecutionState, ReadyError> {
    let interpreter = PlanInterpreter::new(plan);
    let mut state = seeded_state(inputs);
    run(&interpreter, &mut state, tools)?;
    while let Some(_question) = suspension_question(&state, !answers.is_empty()) {
        let answer = answers.remove(0);
        interpreter.accept_input(&mut state, JsonValue::String(answer))?;
        run(&interpreter, &mut state, tools)?;
    }
    Ok(state)
}

fn text(s: &str) -> JsonValue {
    JsonValue::String(s.to_string())
}

fn literal_text(s: &str) -> Expression {
    Expression::Literal { value: LiteralValue::String(s.to_string()) }
}

fn access(name: &str) -> Expression {
    Expression::AccessPath { variable_name: name.to_string(), accessors: Vec::new() }
}

fn send(argument: Expression) -> Step {
    Step::ToolStep { tool_id: "send".to_string(), arguments: vec![argument], output_variable: None }
}

fn recording_send<'s>(sent: &'s RefCell<Vec<String>>) -> impl Fn(&ToolCall) -> Result<ToolResult, ReadyError> + 's {
    move |call: &ToolCall| {
        assert_eq!(call.tool_id, "send");
        match &call.args[0] {
            JsonValue::String(message) => sent.borrow_mut().push(message.clone()),
            other => panic!("message should be a string: {other:?}"),
        }
        Ok(ToolResult::Success(JsonValue::Null))
    }
}

#[test]
fn execute_runs_simple_plan_to_completion() {
    let sent = RefCell::new(Vec::new());
    let plan = AbstractPlan {
        name: "simple".to_string(),
        description: String::new(),
        steps: vec![send(literal_text("hello"))],
        code: String::new(),
    };
    let state = execute_with_answers(plan, Vec::new(), &mut Vec::new(), &recording_send(&sent)).expect("plan should execute");
    assert_eq!(state.status, ExecutionStatus::Completed);
    assert_eq!(*sent.borrow(), vec!["hello".to_string()]);
}

fn interactive_plan() -> AbstractPlan {
    AbstractPlan {
        name: "interactive".to_string(),
        description: String::new(),
        steps: vec![
            send(literal_text("start")),
            Step::UserInteractionStep { prompt: "Enter your input:".to_string(), output_variable: Some("user_input".to_string()) },
            send(access("user_input")),
        ],
        code: String::new(),
    }
}

#[test]
fn a_run_without_answers_stays_suspended_at_the_prompt() {
    let sent = RefCell::new(Vec::new());
    let state = execute_with_answers(interactive_plan(), Vec::new(), &mut Vec::new(), &recording_send(&sent)).expect("run should suspend");
    assert_eq!(state.status, ExecutionStatus::Suspended);
    assert_eq!(state.suspension_reason.as_deref(), Some("Enter your input:"));
    assert_eq!(*sent.borrow(), vec!["start".to_string()]);
}

#[test]
fn an_answered_suspension_resumes_to_completion() {
    let sent = RefCell::new(Vec::new());
    let mut answers = vec!["user_answer".to_string()];
    let state = execute_with_answers(interactive_plan(), Vec::new(), &mut answers, &recording_send(&sent)).expect("run should complete");
    assert_eq!(state.status, ExecutionStatus::Completed);
    assert_eq!(state.interpreter_state.variables.get("user_input"), Some(&text("user_answer")));
    assert_eq!(*sent.borrow(), vec!["start".to_string(), "user_answer".to_string()]);
}

#[test]
fn seeded_inputs_skip_the_interaction_step() {
    let sent = RefCell::new(Vec::new());
    let inputs = vec![("user_input".to_string(), text("pre-filled"))];
    let state = execute_with_answers(interactive_plan(), inputs, &mut Vec::new(), &recording_send(&sent)).expect("seeded plan should execute");
    assert_eq!(state.status, ExecutionStatus::Completed);
    assert_eq!(*sent.borrow(), vec!["start".to_string(), "pre-filled".to_string()]);
}

#[test]
fn seeded_state_runs_with_the_initial_inputs() {
    let state = seeded_state(vec![
        ("user_input".to_string(), JsonValue::String("pre-filled".to_string())),
        ("flag".to_string(), JsonValue::Bool(false)),
        ("flag".to_string(), JsonValue::Bool(true)),
    ]);
    assert_eq!(state.status, ExecutionStatus::Running);
    assert_eq!(state.interpreter_state.ip_path, vec![0]);
    assert_eq!(state.interpreter_state.variables.get("user_input"), Some(&JsonValue::String("pre-filled".to_string())));
    assert_eq!(state.interpreter_state.variables.get("flag"), Some(&JsonValue::Bool(true)));
    assert_eq!(state.interpreter_state.variables.len(), 2);
}

#[test]
fn a_suspended_run_asks_its_reason_or_a_default() {
    let mut state = ExecutionState { status: ExecutionStatus::Suspended, ..Default::default() };
    assert_eq!(suspension_question(&state, true), Some("User input required".to_string()));
    state.suspension_reason = Some("Name?".to_string());
    assert_eq!(suspension_question(&state, true), Some("Name?".to_string()));
    assert_eq!(suspension_question(&state, false), None);
    state.status = ExecutionStatus::Completed;
    assert_eq!(suspension_question(&state, true), None);
}

#[test]
fn a_failed_run_is_recovered_while_attempts_remain() {
    let mut state = ExecutionState { status: ExecutionStatus::Failed, ..Default::default() };
    assert!(!recovery_due(&state, 0, 2));
    state.error = Some(ExecutionError {
        step_index: Some(1),
        step_type: None,
        exception_type: "boom".to_string(),
        message: "boom".to_string(),
    });
    assert!(recovery_due(&state, 1, 2));
    assert!(!recovery_due(&state, 2, 2));
    state.interpreter_state.ip_path = vec![1];
    restart_from_checkpoint(&mut state);
    assert_eq!(state.status, ExecutionStatus::Running);
    assert!(state.error.is_none());
    assert_eq!(state.interpreter_state.ip_path, vec![1]);
    assert!(!recovery_due(&state, 0, 2));
}
