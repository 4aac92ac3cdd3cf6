use ready::error::ReadyError;
use ready::execution::interpreter::{
    handle_assign_step, handle_loop_step, handle_switch_step, handle_user_interaction_step, handle_while_step,
    PlanInterpreter, Progress,
};
use ready::execution::observer::NoOpObserver;
use ready::execution::scope::Variables;
use ready::execution::state::{ExecutionState, ExecutionStatus, InstructionPointer, InterpreterState, InternalState, WhileState};
use ready::json::{copy_json, JsonMember, JsonNumber, JsonValue};
use ready::plan::{
    AbstractPlan, BinaryOperator, BranchKind, ComparisonOperator, ConditionalBranch, Expression, LiteralValue, Step,
};
use ready::tools::models::{ToolCall, ToolResult, ToolSuspension};

fn to_json(v: serde_json::Value) -> JsonValue {
    match v {
        serde_json::Value::Null => JsonValue::Null,
        serde_json::Value::Bool(b) => JsonValue::Bool(b),
        serde_json::Value::Number(n) => {
            if let Some(u) = n.as_u64() {
                JsonValue::Number(JsonNumber::PosInt(u))
            } else if let Some(i) = n.as_i64() {
                JsonValue::Number(JsonNumber::NegInt(i))
            } else {
                JsonValue::Number(JsonNumber::Float(n.to_string()))
            }
        }
        serde_json::Value::String(s) => JsonValue::String(s),
        serde_json::Value::Array(items) => JsonValue::Array(items.into_iter().map(to_json).collect()),
        serde_json::Value::Object(map) => JsonValue::Object(
            map.into_iter().map(|(key, value)| JsonMember { key, value: to_json(value) }).collect(),
        ),
    }
}

fn to_literal(v: serde_json::Value) -> LiteralValue {
    match v {
        serde_json::Value::Null => LiteralValue::Null,
        serde_json::Value::Bool(b) => LiteralValue::Bool(b),
        serde_json::Value::Number(n) => match n.as_i64() {
            Some(i) => LiteralValue::Integer(i),
            None => LiteralValue::Float(n.to_string()),
        },
        serde_json::Value::String(s) => LiteralValue::String(s),
        serde_json::Value::Array(items) => LiteralValue::Array(items.into_iter().map(to_literal).collect()),
        serde_json::Value::Object(map) => {
            LiteralValue::Object(map.into_iter().map(|(k, v)| (k, to_literal(v))).collect())
        }
    }
}

fn j(text: &str) -> serde_json::Value {
    serde_json::from_str(text).expect("valid JSON")
}

fn jv(text: &str) -> JsonValue {
    to_json(j(text))
}

fn int_of(v: &JsonValue) -> i64 {
    match v {
        JsonValue::Number(JsonNumber::PosInt(u)) => *u as i64,
        JsonValue::Number(JsonNumber::NegInt(i)) => *i,
        other => panic!("not an integer: {other:?}"),
    }
}

fn int_value(i: i64) -> JsonValue {
    if i >= 0 {
        JsonValue::Number(JsonNumber::PosInt(i as u64))
    } else {
        JsonValue::Number(JsonNumber::NegInt(i))
    }
}

fn plan(steps: Vec<Step>) -> AbstractPlan {
    AbstractPlan { name: "test_plan".to_string(), description: String::new(), steps, code: String::new() }
}

fn expr(text: &str) -> Expression {
    Expression::Literal { value: to_literal(j(text)) }
}

fn access(name: &str) -> Expression {
    Expression::AccessPath { variable_name: name.to_string(), accessors: Vec::new() }
}

fn assign(var: &str, text: &str) -> Step {
    Step::AssignStep { target: var.to_string(), value: expr(text) }
}

fn assign_expr(var: &str, value: Expression) -> Step {
    Step::AssignStep { target: var.to_string(), value }
}

fn join_str(var: &str, parts: Vec<Expression>) -> Step {
    assign_expr(var, Expression::ConcatExpression { parts })
}

fn binary_assign(var: &str, operator: BinaryOperator, left: &str, right: &str) -> Step {
    assign_expr(var, Expression::BinaryExpression { operator, left: Box::new(expr(left)), right: Box::new(expr(right)) })
}

fn tool_call(tool_id: &str, args: Vec<Expression>, output_variable: Option<&str>) -> Step {
    Step::ToolStep { tool_id: tool_id.to_string(), arguments: args, output_variable: output_variable.map(str::to_string) }
}

fn user_interaction(prompt: &str, output_variable: &str) -> Step {
    Step::UserInteractionStep { prompt: prompt.to_string(), output_variable: Some(output_variable.to_string()) }
}

fn greater_than(name: &str, bound: &str) -> Expression {
    Expression::Comparison {
        operator: ComparisonOperator::GreaterThan,
        left: Box::new(access(name)),
        right: Box::new(expr(bound)),
    }
}

type Handler<'h> = &'h mut dyn FnMut(&ToolCall) -> Result<ToolResult, ReadyError>;

fn no_tools(call: &ToolCall) -> Result<ToolResult, ReadyError> {
    Err(ReadyError::ToolNotFound(call.tool_id.clone()))
}

fn add_numbers(call: &ToolCall) -> Result<ToolResult, ReadyError> {
    assert_eq!(call.tool_id, "add_numbers");
    Ok(ToolResult::Success(int_value(int_of(&call.args[0]) + int_of(&call.args[1]))))
}

/// Runs the step machine the way the application's run loop does, with `tools` making the calls.
fn execute(interpreter: &PlanInterpreter, state: &mut ExecutionState, tools: Handler) -> Result<(), ReadyError> {
    assert!(interpreter.can_start(state));
    let mut internal = interpreter.begin(state, &NoOpObserver);
    let mut counter: usize = 0;
    let outcome = loop {
        match interpreter.run_step(state, &mut internal, &mut counter, &NoOpObserver) {
            Progress::Finished | Progress::Suspended => break Ok(()),
            Progress::Continue => {}
            Progress::Failed(error) => break Err(error),
            Progress::CallTool { step, call } => {
                let result = tools(&call);
                match interpreter.finish_tool_step(step, result, state, &internal, &NoOpObserver) {
                    Progress::Suspended => break Ok(()),
                    Progress::Failed(error) => break Err(error),
                    _ => {}
                }
            }
        }
    };
    interpreter.finish(state, outcome, &NoOpObserver)
}

fn provide_input(
    interpreter: &PlanInterpreter,
    state: &mut ExecutionState,
    value: JsonValue,
    tools: Handler,
) -> Result<(), ReadyError> {
    interpreter.accept_input(state, value)?;
    execute(interpreter, state, tools)
}

fn execute_plan(steps: Vec<Step>, tools: Handler) -> Result<ExecutionState, ReadyError> {
    let interpreter = PlanInterpreter::new(plan(steps));
    let mut state = ExecutionState::default();
    execute(&interpreter, &mut state, tools).map(|()| state)
}

fn var<'s>(state: &'s ExecutionState, name: &str) -> Option<&'s JsonValue> {
    state.interpreter_state.variables.get(name)
}

#[test]
fn handle_assign_step_sets_value_without_full_interpreter() {
    let mut state = ExecutionState::default();
    let mut ip = InstructionPointer { path: vec![0] };

    handle_assign_step("x", &expr("5"), &mut ip, &mut state.interpreter_state.variables).expect("assign should work");

    assert_eq!(state.interpreter_state.variables.get("x"), Some(&jv("5")));
    assert_eq!(ip.path, vec![1]);
}

#[test]
fn handle_switch_step_descends_into_selected_branch_without_run_loop() {
    let mut ip = InstructionPointer { path: vec![0] };
    let mut internal_state = InternalState::default();
    let step = Step::SwitchStep {
        branches: vec![ConditionalBranch {
            kind: BranchKind::If,
            condition: Some(expr("true")),
            steps: vec![assign("x", "1")],
        }],
    };

    let Step::SwitchStep { branches } = &step else {
        panic!("expected switch");
    };
    handle_switch_step(&step, branches, &mut ip, &Variables::new(), &mut internal_state).expect("switch should work");

    assert_eq!(ip.path, vec![0, 0]);
    assert_eq!(internal_state.branches.get(&[0]), Some(&0));
}

#[test]
fn handle_loop_step_initializes_iteration_state_without_execute() {
    let mut ip = InstructionPointer { path: vec![2] };
    let mut internal_state = InternalState::default();
    let mut variables = Variables::new();
    variables.insert("items".to_string(), jv(r#"["a", "b"]"#));

    handle_loop_step("items", "item", &mut ip, Some(0), &mut variables, &mut internal_state).expect("loop should work");

    assert_eq!(variables.get("item"), Some(&jv(r#""a""#)));
    assert_eq!(ip.path, vec![2, 0]);
    assert_eq!(internal_state.loops.get(&[2]).map(|s| s.index), Some(0));
}

#[test]
fn handle_while_step_stops_after_iteration_limit_without_run_loop() {
    let mut ip = InstructionPointer { path: vec![1] };
    let mut internal_state = InternalState::default();
    internal_state.whiles.insert(vec![1], WhileState { iterations: 1 });

    let error = handle_while_step(&expr("true"), &mut ip, Some(3), &Variables::new(), &mut internal_state, 1)
        .expect_err("while should hit limit");

    assert!(matches!(error, ReadyError::Execution { message, .. } if message.contains("exceeded maximum iterations")));
}

#[test]
fn handle_user_interaction_step_suspends_without_full_plan_execution() {
    let mut ip = InstructionPointer { path: vec![4] };
    let mut interpreter_state = InterpreterState::default();

    let result = handle_user_interaction_step("Enter your input:", &Some("answer".to_string()), &mut ip, &mut interpreter_state)
        .expect("interaction should suspend");

    assert!(result.suspend);
    assert_eq!(result.suspend_reason.as_deref(), Some("Enter your input:"));
    assert_eq!(interpreter_state.pending_input_variable.as_deref(), Some("answer"));
    assert_eq!(ip.path, vec![4]);
}

#[test]
fn empty_plan_completes_with_empty_state() {
    let state = execute_plan(vec![], &mut no_tools).expect("plan should execute");
    assert_eq!(state.status, ExecutionStatus::Completed);
    assert!(state.error.is_none());
    assert_eq!(state.interpreter_state.variables.len(), 0);
}

#[test]
fn single_assignment_sets_variable_and_completes() {
    let state = execute_plan(vec![assign("x", r#""hello""#)], &mut no_tools).expect("plan should execute");
    assert_eq!(state.status, ExecutionStatus::Completed);
    assert_eq!(var(&state, "x"), Some(&jv(r#""hello""#)));
}

#[test]
fn multiple_assignments_set_all_variables() {
    let state = execute_plan(vec![assign("a", r#""alpha""#), assign("b", "42"), assign("c", "true")], &mut no_tools)
        .expect("plan should execute");
    assert_eq!(var(&state, "a"), Some(&jv(r#""alpha""#)));
    assert_eq!(var(&state, "b"), Some(&jv("42")));
    assert_eq!(var(&state, "c"), Some(&jv("true")));
}

#[test]
fn string_join_concatenates_literals_and_variables() {
    let state = execute_plan(
        vec![
            assign("name", r#""World""#),
            join_str("greeting", vec![expr(r#""Hello, ""#), access("name"), expr(r#""!""#)]),
        ],
        &mut no_tools,
    )
    .expect("plan should execute");
    assert_eq!(var(&state, "greeting"), Some(&jv(r#""Hello, World!""#)));
}

#[test]
fn string_join_converts_non_strings_to_string() {
    let state = execute_plan(
        vec![assign("count", "5"), join_str("msg", vec![expr(r#""Items: ""#), access("count")])],
        &mut no_tools,
    )
    .expect("plan should execute");
    assert_eq!(var(&state, "msg"), Some(&jv(r#""Items: 5""#)));
}

#[test]
fn builtin_arithmetic_assignments_execute_through_expression_engine() {
    let state = execute_plan(
        vec![
            binary_assign("mod", BinaryOperator::Modulo, "10", "3"),
            binary_assign("sub", BinaryOperator::Subtract, "10", "3"),
            binary_assign("mul", BinaryOperator::Multiply, "6", "7"),
            binary_assign("floordiv", BinaryOperator::FloorDivide, "10", "3"),
        ],
        &mut no_tools,
    )
    .expect("plan should execute");
    assert_eq!(var(&state, "mod"), Some(&jv("1")));
    assert_eq!(var(&state, "sub"), Some(&jv("7")));
    assert_eq!(var(&state, "mul"), Some(&jv("42")));
    assert_eq!(var(&state, "floordiv"), Some(&jv("3")));
}

#[test]
fn tool_call_result_stored_in_output_variable() {
    let state = execute_plan(vec![tool_call("add_numbers", vec![expr("3"), expr("7")], Some("sum"))], &mut add_numbers)
        .expect("plan should execute");
    assert_eq!(var(&state, "sum"), Some(&jv("10")));
}

#[test]
fn tool_call_with_variable_arguments() {
    let state = execute_plan(
        vec![assign("a", "10"), assign("b", "20"), tool_call("add_numbers", vec![access("a"), access("b")], Some("sum"))],
        &mut add_numbers,
    )
    .expect("plan should execute");
    assert_eq!(var(&state, "sum"), Some(&jv("30")));
}

#[test]
fn tool_call_without_output_variable_completes() {
    let mut three = |_call: &ToolCall| Ok(ToolResult::Success(jv("3")));
    let state = execute_plan(vec![tool_call("add_numbers", vec![expr("1"), expr("2")], None)], &mut three)
        .expect("plan should execute");
    assert_eq!(state.status, ExecutionStatus::Completed);
}

fn if_else(condition: Expression, then_steps: Vec<Step>, else_steps: Vec<Step>) -> Step {
    Step::SwitchStep {
        branches: vec![
            ConditionalBranch { kind: BranchKind::If, condition: Some(condition), steps: then_steps },
            ConditionalBranch { kind: BranchKind::Else, condition: None, steps: else_steps },
        ],
    }
}

#[test]
fn switch_if_true_executes_if_branch() {
    let state = execute_plan(
        vec![
            assign("x", "10"),
            if_else(greater_than("x", "5"), vec![assign("result", r#""big""#)], vec![assign("result", r#""small""#)]),
        ],
        &mut no_tools,
    )
    .expect("plan should execute");
    assert_eq!(var(&state, "result"), Some(&jv(r#""big""#)));
}

#[test]
fn switch_if_false_executes_else_branch() {
    let state = execute_plan(
        vec![
            assign("x", "2"),
            if_else(greater_than("x", "5"), vec![assign("result", r#""big""#)], vec![assign("result", r#""small""#)]),
        ],
        &mut no_tools,
    )
    .expect("plan should execute");
    assert_eq!(var(&state, "result"), Some(&jv(r#""small""#)));
}

#[test]
fn switch_without_else_skips_when_condition_false() {
    let state = execute_plan(
        vec![
            assign("x", "2"),
            assign("result", r#""unchanged""#),
            Step::SwitchStep {
                branches: vec![ConditionalBranch {
                    kind: BranchKind::If,
                    condition: Some(greater_than("x", "5")),
                    steps: vec![assign("result", r#""changed""#)],
                }],
            },
        ],
        &mut no_tools,
    )
    .expect("plan should execute");
    assert_eq!(var(&state, "result"), Some(&jv(r#""unchanged""#)));
}

fn three_way(x: &str) -> Vec<Step> {
    vec![
        assign("x", x),
        Step::SwitchStep {
            branches: vec![
                ConditionalBranch {
                    kind: BranchKind::If,
                    condition: Some(greater_than("x", "10")),
                    steps: vec![assign("result", r#""very big""#)],
                },
                ConditionalBranch {
                    kind: BranchKind::ElseIf,
                    condition: Some(greater_than("x", "3")),
                    steps: vec![assign("result", r#""medium""#)],
                },
                ConditionalBranch { kind: BranchKind::Else, condition: None, steps: vec![assign("result", r#""small""#)] },
            ],
        },
    ]
}

#[test]
fn switch_with_elif_executes_elif_branch() {
    let state = execute_plan(three_way("4"), &mut no_tools).expect("plan should execute");
    assert_eq!(var(&state, "result"), Some(&jv(r#""medium""#)));
}

#[test]
fn switch_with_elif_falls_through_to_else() {
    let state = execute_plan(three_way("1"), &mut no_tools).expect("plan should execute");
    assert_eq!(var(&state, "result"), Some(&jv(r#""small""#)));
}

#[test]
fn for_loop_iterates_over_list() {
    let state = execute_plan(
        vec![
            assign("items", "[1, 2, 3]"),
            assign("last", "null"),
            Step::LoopStep {
                iterable_variable: "items".to_string(),
                item_variable: "item".to_string(),
                body: vec![assign_expr("last", access("item"))],
            },
        ],
        &mut no_tools,
    )
    .expect("plan should execute");
    assert_eq!(var(&state, "last"), Some(&jv("3")));
}

#[test]
fn for_loop_accumulates_with_tool() {
    let state = execute_plan(
        vec![
            assign("numbers", "[10, 20, 30]"),
            assign("total", "0"),
            Step::LoopStep {
                iterable_variable: "numbers".to_string(),
                item_variable: "n".to_string(),
                body: vec![tool_call("add_numbers", vec![access("total"), access("n")], Some("total"))],
            },
        ],
        &mut add_numbers,
    )
    .expect("plan should execute");
    assert_eq!(var(&state, "total"), Some(&jv("60")));
}

#[test]
fn for_loop_with_empty_iterable_executes_no_body() {
    let state = execute_plan(
        vec![
            assign("items", "[]"),
            assign("touched", "false"),
            Step::LoopStep {
                iterable_variable: "items".to_string(),
                item_variable: "item".to_string(),
                body: vec![assign("touched", "true")],
            },
        ],
        &mut no_tools,
    )
    .expect("plan should execute");
    assert_eq!(var(&state, "touched"), Some(&jv("false")));
}

#[test]
fn nested_loop_inside_switch_branch() {
    let state = execute_plan(
        vec![
            assign("has_items", "true"),
            assign("items", "[10, 20]"),
            assign("total", "0"),
            if_else(
                access("has_items"),
                vec![Step::LoopStep {
                    iterable_variable: "items".to_string(),
                    item_variable: "item".to_string(),
                    body: vec![tool_call("add_numbers", vec![access("total"), access("item")], Some("total"))],
                }],
                vec![assign("total", "-1")],
            ),
        ],
        &mut add_numbers,
    )
    .expect("plan should execute");
    assert_eq!(var(&state, "total"), Some(&jv("30")));
}

#[test]
fn user_interaction_suspends() {
    let interpreter = PlanInterpreter::new(plan(vec![user_interaction("What is your name?", "name")]));
    let mut state = ExecutionState::default();
    execute(&interpreter, &mut state, &mut no_tools).expect("execution should suspend");
    assert_eq!(state.status, ExecutionStatus::Suspended);
    assert_eq!(state.suspension_reason, Some("What is your name?".to_string()));
}

#[test]
fn provide_input_resumes_and_completes() {
    let interpreter = PlanInterpreter::new(plan(vec![user_interaction("Name?", "name")]));
    let mut state = ExecutionState::default();
    execute(&interpreter, &mut state, &mut no_tools).expect("execution should suspend");
    provide_input(&interpreter, &mut state, jv(r#""Alice""#), &mut no_tools).expect("resume should succeed");
    assert_eq!(state.status, ExecutionStatus::Completed);
    assert_eq!(var(&state, "name"), Some(&jv(r#""Alice""#)));
}

#[test]
fn user_interaction_mid_plan_preserves_previous_steps() {
    let interpreter = PlanInterpreter::new(plan(vec![
        assign("greeting", r#""Hello""#),
        user_interaction("Name?", "name"),
        join_str("msg", vec![access("greeting"), expr(r#"", ""#), access("name"), expr(r#""!""#)]),
    ]));
    let mut state = ExecutionState::default();
    execute(&interpreter, &mut state, &mut no_tools).expect("execution should suspend");
    assert_eq!(state.status, ExecutionStatus::Suspended);
    assert_eq!(var(&state, "greeting"), Some(&jv(r#""Hello""#)));
    provide_input(&interpreter, &mut state, jv(r#""Bob""#), &mut no_tools).expect("resume should succeed");
    assert_eq!(state.status, ExecutionStatus::Completed);
    assert_eq!(var(&state, "msg"), Some(&jv(r#""Hello, Bob!""#)));
}

#[test]
fn multiple_user_interactions_suspend_twice_and_complete() {
    let interpreter = PlanInterpreter::new(plan(vec![
        user_interaction("First name?", "first"),
        user_interaction("Last name?", "last"),
        join_str("full", vec![access("first"), expr(r#"" ""#), access("last")]),
    ]));
    let mut state = ExecutionState::default();
    execute(&interpreter, &mut state, &mut no_tools).expect("first suspension expected");
    assert_eq!(state.status, ExecutionStatus::Suspended);
    assert_eq!(state.suspension_reason, Some("First name?".to_string()));
    provide_input(&interpreter, &mut state, jv(r#""Alice""#), &mut no_tools).expect("second suspension expected");
    assert_eq!(state.status, ExecutionStatus::Suspended);
    assert_eq!(state.suspension_reason, Some("Last name?".to_string()));
    provide_input(&interpreter, &mut state, jv(r#""Smith""#), &mut no_tools).expect("plan should complete");
    assert_eq!(state.status, ExecutionStatus::Completed);
    assert_eq!(var(&state, "full"), Some(&jv(r#""Alice Smith""#)));
}

#[test]
fn undefined_variable_in_tool_arguments_fails() {
    let interpreter = PlanInterpreter::new(plan(vec![tool_call(
        "add_numbers",
        vec![access("undefined_var"), expr("1")],
        Some("r"),
    )]));
    let mut state = ExecutionState::default();
    let _ = execute(&interpreter, &mut state, &mut add_numbers);
    assert_eq!(state.status, ExecutionStatus::Failed);
}

#[test]
fn failed_run_records_the_error_text() {
    let interpreter = PlanInterpreter::new(plan(vec![tool_call("nonexistent_tool", vec![expr("1")], Some("r"))]));
    let mut state = ExecutionState::default();
    let error = execute(&interpreter, &mut state, &mut no_tools).expect_err("execution should fail");
    assert_eq!(state.status, ExecutionStatus::Failed);
    assert_eq!(error.to_display_string(), "Tool not found: nonexistent_tool");
    assert_eq!(state.error.as_ref().map(|e| e.exception_type.clone()), Some(error.to_display_string()));
}

#[test]
fn while_step_counts_down_to_zero() {
    let state = execute_plan(
        vec![
            assign("counter", "3"),
            Step::WhileStep {
                condition: greater_than("counter", "0"),
                body: vec![tool_call("add_numbers", vec![access("counter"), expr("-1")], Some("counter"))],
            },
        ],
        &mut add_numbers,
    )
    .expect("plan should execute");
    assert_eq!(state.status, ExecutionStatus::Completed);
    assert_eq!(var(&state, "counter"), Some(&jv("0")));
}

#[test]
fn while_step_accumulates_total() {
    let state = execute_plan(
        vec![
            assign("counter", "5"),
            assign("total", "0"),
            Step::WhileStep {
                condition: greater_than("counter", "0"),
                body: vec![
                    tool_call("add_numbers", vec![access("total"), access("counter")], Some("total")),
                    tool_call("add_numbers", vec![access("counter"), expr("-1")], Some("counter")),
                ],
            },
        ],
        &mut add_numbers,
    )
    .expect("plan should execute");
    assert_eq!(state.status, ExecutionStatus::Completed);
    assert_eq!(var(&state, "total"), Some(&jv("15")));
    assert_eq!(var(&state, "counter"), Some(&jv("0")));
}

#[test]
fn while_step_false_initially_never_executes_body() {
    let state = execute_plan(
        vec![
            assign("x", "0"),
            assign("touched", "false"),
            Step::WhileStep { condition: greater_than("x", "0"), body: vec![assign("touched", "true")] },
        ],
        &mut no_tools,
    )
    .expect("plan should execute");
    assert_eq!(state.status, ExecutionStatus::Completed);
    assert_eq!(var(&state, "touched"), Some(&jv("false")));
}

#[test]
fn while_step_exceeds_max_iterations_fails() {
    let interpreter = PlanInterpreter::new(plan(vec![
        assign("flag", "true"),
        Step::WhileStep { condition: access("flag"), body: vec![assign("x", r#""still going""#)] },
    ]))
    .with_max_while_iterations(5);
    let mut state = ExecutionState::default();
    let error = execute(&interpreter, &mut state, &mut no_tools).expect_err("execution should fail");
    assert_eq!(state.status, ExecutionStatus::Failed);
    assert!(error.to_display_string().to_lowercase().contains("maximum iterations"));
}

#[test]
fn while_step_with_not_condition() {
    let state = execute_plan(
        vec![
            assign("done", "false"),
            assign("count", "0"),
            Step::WhileStep {
                condition: Expression::Not { operand: Box::new(access("done")) },
                body: vec![assign("count", "1"), assign("done", "true")],
            },
        ],
        &mut no_tools,
    )
    .expect("plan should execute");
    assert_eq!(state.status, ExecutionStatus::Completed);
    assert_eq!(var(&state, "count"), Some(&jv("1")));
    assert_eq!(var(&state, "done"), Some(&jv("true")));
}

#[test]
fn break_leaves_the_innermost_loop() {
    let state = execute_plan(
        vec![
            assign("items", "[1, 2, 3]"),
            assign("seen", "0"),
            Step::LoopStep {
                iterable_variable: "items".to_string(),
                item_variable: "item".to_string(),
                body: vec![assign_expr("seen", access("item")), Step::BreakStep],
            },
            assign("after", "true"),
        ],
        &mut no_tools,
    )
    .expect("plan should execute");
    assert_eq!(var(&state, "seen"), Some(&jv("1")));
    assert_eq!(var(&state, "after"), Some(&jv("true")));
}

#[test]
fn tool_suspension_round_trip_and_resume_path_work() {
    let mut calls: Vec<(Option<JsonValue>, Option<JsonValue>)> = Vec::new();
    let mut suspending = |call: &ToolCall| {
        let continuation_state = call.continuation.as_ref().map(|c| to_json(j(&ready_text(&c.state))));
        let resume_value = call.continuation.as_ref().and_then(|c| c.resume_value.as_ref().map(|v| to_json(j(&ready_text(v)))));
        calls.push((continuation_state.as_ref().map(copy_json), resume_value.as_ref().map(copy_json)));
        if continuation_state.is_some() {
            return Ok(ToolResult::Success(resume_value.unwrap_or(JsonValue::Null)));
        }
        Ok(ToolResult::Suspended(ToolSuspension {
            reason: "need input".to_string(),
            continuation_state: jv(r#"{"step":"waiting"}"#),
        }))
    };
    let interpreter = PlanInterpreter::new(plan(vec![tool_call("suspending_tool", vec![], Some("result"))]));
    let mut state = ExecutionState::default();
    execute(&interpreter, &mut state, &mut suspending).expect("initial execution should suspend");
    assert_eq!(state.status, ExecutionStatus::Suspended);
    assert_eq!(state.interpreter_state.pending_tool_id.as_deref(), Some("suspending_tool"));
    assert_eq!(state.interpreter_state.pending_tool_state, Some(jv(r#"{"step":"waiting"}"#)));
    assert_eq!(state.suspension_reason.as_deref(), Some("need input"));

    provide_input(&interpreter, &mut state, jv(r#""the answer""#), &mut suspending).expect("resume should complete");
    assert_eq!(state.status, ExecutionStatus::Completed);
    assert_eq!(var(&state, "result"), Some(&jv(r#""the answer""#)));
    assert_eq!(calls, vec![(None, None), (Some(jv(r#"{"step":"waiting"}"#)), Some(jv(r#""the answer""#)))]);
}

fn ready_text(v: &JsonValue) -> String {
    ready::json::to_json_text(v)
}

#[test]
fn multiple_suspend_resume_cycles_collect_values() {
    let mut resume_values: Vec<JsonValue> = Vec::new();
    let suspend_count: i64 = 3;
    let mut multi = |call: &ToolCall| {
        let call_number = call
            .continuation
            .as_ref()
            .and_then(|c| match &c.state {
                JsonValue::Object(members) => members.iter().find(|m| m.key == "call").map(|m| int_of(&m.value)),
                _ => None,
            })
            .unwrap_or(1);
        if let Some(value) = call.continuation.as_ref().and_then(|c| c.resume_value.as_ref()) {
            resume_values.push(to_json(j(&ready_text(value))));
        }
        if call_number < suspend_count {
            let next = call_number + 1;
            return Ok(ToolResult::Suspended(ToolSuspension {
                reason: format!("round {next}"),
                continuation_state: jv(&format!(r#"{{"call": {next}}}"#)),
            }));
        }
        Ok(ToolResult::Success(JsonValue::Array(resume_values.iter().map(|v| to_json(j(&ready_text(v)))).collect())))
    };
    let interpreter = PlanInterpreter::new(plan(vec![tool_call("multi_tool", vec![], Some("result"))]));
    let mut state = ExecutionState::default();
    execute(&interpreter, &mut state, &mut multi).expect("first suspension expected");
    assert_eq!(state.suspension_reason.as_deref(), Some("round 2"));
    provide_input(&interpreter, &mut state, jv(r#""value_1""#), &mut multi).expect("second suspension expected");
    assert_eq!(state.status, ExecutionStatus::Suspended);
    assert_eq!(state.suspension_reason.as_deref(), Some("round 3"));
    provide_input(&interpreter, &mut state, jv(r#""value_2""#), &mut multi).expect("completion expected");
    assert_eq!(state.status, ExecutionStatus::Completed);
    assert_eq!(var(&state, "result"), Some(&jv(r#"["value_1", "value_2"]"#)));
}

#[test]
fn unknown_tool_fails_with_runtime_shape_error() {
    let interpreter = PlanInterpreter::new(plan(vec![tool_call("nonexistent_tool", vec![expr("1"), expr("2")], Some("r"))]));
    let mut state = ExecutionState::default();
    let error = execute(&interpreter, &mut state, &mut no_tools).expect_err("execution should fail");
    assert_eq!(state.status, ExecutionStatus::Failed);
    assert!(state.error.is_some());
    assert_eq!(state.error.as_ref().map(|e| e.exception_type.clone()), Some(error.to_display_string()));
}
