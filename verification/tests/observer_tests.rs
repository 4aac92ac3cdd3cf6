use std::sync::{Arc, Mutex};

use ready::error::ReadyError;
use ready::execution::interpreter::{PlanInterpreter, Progress};
use ready::execution::observer::{ExecutionObserver, NoOpObserver};
use ready::execution::state::{ExecutionState, ExecutionStatus, StepResult};
use ready::json::{JsonNumber, JsonValue};
use ready::plan::{AbstractPlan, Expression, LiteralValue, Step};
use ready::tools::models::{ToolCall, ToolResult};

#[derive(Default, Clone)]
struct SpyObserver {
    events: Arc<Mutex<Vec<(String, String)>>>,
}

impl SpyObserver {
    fn event_names(&self) -> Vec<String> {
        self.events.lock().expect("events mutex poisoned").iter().map(|(name, _)| name.clone()).collect()
    }

    fn snapshot(&self) -> Vec<(String, String)> {
        self.events.lock().expect("events mutex poisoned").clone()
    }

    fn push(&self, name: &str, detail: String) {
        self.events.lock().expect("events mutex poisoned").push((name.to_string(), detail));
    }
}

impl ExecutionObserver for SpyObserver {
    fn on_plan_start(&self, plan_name: &str, _state: &ExecutionState) {
        self.push("plan_start", plan_name.to_string());
    }

    fn on_step_start(&self, step_index: usize, _step: &Step, _ip: &[usize], _state: &ExecutionState) {
        self.push("step_start", step_index.to_string());
    }

    fn on_step_complete(&self, step_index: usize, _step: &Step, _result: &StepResult) {
        self.push("step_complete", step_index.to_string());
    }

    fn on_suspension(&self, reason: &str, _state: &ExecutionState) {
        self.push("suspension", reason.to_string());
    }

    fn on_error(&self, _step: &Step, error: &ReadyError, _state: &ExecutionState) {
        self.push("error", error.to_display_string());
    }

    fn on_plan_complete(&self, state: &ExecutionState) {
        self.push("plan_complete", format!("{:?}", state.status));
    }
}

/// Runs the step machine as the application's run loop does, with `tools` making the calls.
fn execute<O: ExecutionObserver>(
    interpreter: &PlanInterpreter,
    state: &mut ExecutionState,
    tools: &dyn Fn(&ToolCall) -> Result<ToolResult, ReadyError>,
    observer: &O,
) -> Result<(), ReadyError> {
    assert!(interpreter.can_start(state));
    let mut internal = interpreter.begin(state, observer);
    let mut counter: usize = 0;
    let outcome = loop {
        match interpreter.run_step(state, &mut internal, &mut counter, observer) {
            Progress::Finished | Progress::Suspended => break Ok(()),
            Progress::Continue => {}
            Progress::Failed(error) => break Err(error),
            Progress::CallTool { step, call } => {
                let result = tools(&call);
                match interpreter.finish_tool_step(step, result, state, &internal, observer) {
                    Progress::Suspended => break Ok(()),
                    Progress::Failed(error) => break Err(error),
                    _ => {}
                }
            }
        }
    };
    interpreter.finish(state, outcome, observer)
}

fn no_tools(call: &ToolCall) -> Result<ToolResult, ReadyError> {
    Err(ReadyError::ToolNotFound(call.tool_id.clone()))
}

fn assign(var: &str, value: i64) -> Step {
    Step::AssignStep { target: var.to_string(), value: Expression::Literal { value: LiteralValue::Integer(value) } }
}

fn make_plan(steps: Vec<Step>, name: &str) -> AbstractPlan {
    AbstractPlan { name: name.to_string(), description: String::new(), steps, code: String::new() }
}

fn assert_execution_observer<T: ExecutionObserver>(_observer: &T) {}

#[test]
fn noop_observer_satisfies_protocol() {
    let observer = NoOpObserver;
    assert_execution_observer(&observer);
}

#[test]
fn observer_fires_lifecycle_events() {
    let spy = SpyObserver::default();
    let interpreter = PlanInterpreter::new(make_plan(vec![assign("x", 1), assign("y", 2)], "main"));
    let mut state = ExecutionState::default();

    execute(&interpreter, &mut state, &no_tools, &spy).expect("plan should execute");

    let events = spy.snapshot();
    assert_eq!(state.status, ExecutionStatus::Completed);
    assert_eq!(events.first(), Some(&("plan_start".to_string(), "main".to_string())));
    assert!(events.contains(&("step_start".to_string(), "0".to_string())));
    assert!(events.contains(&("step_complete".to_string(), "0".to_string())));
    assert!(events.contains(&("step_start".to_string(), "1".to_string())));
    assert!(events.contains(&("step_complete".to_string(), "1".to_string())));
    assert_eq!(events.last(), Some(&("plan_complete".to_string(), "Completed".to_string())));
}

#[test]
fn observer_fires_lifecycle_events_in_correct_order() {
    let spy = SpyObserver::default();
    let interpreter = PlanInterpreter::new(make_plan(vec![assign("x", 42)], "main"));
    let mut state = ExecutionState::default();

    execute(&interpreter, &mut state, &no_tools, &spy).expect("plan should execute");

    let event_names = spy.event_names();
    assert_eq!(event_names[0], "plan_start");
    assert_eq!(event_names[1], "step_start");
    assert_eq!(event_names[2], "step_complete");
    assert_eq!(event_names.last(), Some(&"plan_complete".to_string()));
}

#[test]
fn observer_fires_on_error() {
    let spy = SpyObserver::default();
    let boom = |_call: &ToolCall| -> Result<ToolResult, ReadyError> {
        Err(ReadyError::Execution {
            step_index: None,
            step_type: Some("ToolStep".to_string()),
            message: "intentional failure".to_string(),
        })
    };
    let plan = make_plan(
        vec![Step::ToolStep { tool_id: "boom_tool".to_string(), arguments: Vec::new(), output_variable: None }],
        "main",
    );
    let interpreter = PlanInterpreter::new(plan);
    let mut state = ExecutionState::default();

    let _ = execute(&interpreter, &mut state, &boom, &spy);

    let events = spy.snapshot();
    assert_eq!(state.status, ExecutionStatus::Failed);
    assert_eq!(events.iter().filter(|(name, _)| name == "error").count(), 1);
    assert_eq!(events.last(), Some(&("plan_complete".to_string(), "Failed".to_string())));
}

#[test]
fn no_observer_uses_noop_by_default() {
    let interpreter = PlanInterpreter::new(make_plan(vec![assign("x", 99)], "main"));
    let mut state = ExecutionState::default();

    execute(&interpreter, &mut state, &no_tools, &NoOpObserver).expect("plan should execute");

    assert_eq!(state.status, ExecutionStatus::Completed);
    assert_eq!(state.interpreter_state.variables.get("x"), Some(&JsonValue::Number(JsonNumber::PosInt(99))));
}
