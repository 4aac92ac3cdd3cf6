use ready::error::ReadyError;
use ready::llm::client::strip_markdown_fences;
use ready::plan::PrefillableInput;
use ready::plan::Step;
use ready::tools::models::{ToolArgumentDescription, ToolDescription, ToolReturnDescription};
use ready::workflow::planner::{
    assess_reply, build_description_prompt, build_retry_prompt, build_system_prompt, collect_user_input_description,
    error_prompt, infer_plan_name, parse_and_validate_plan, with_description, PlanningStep,
};

#[test]
fn strip_markdown_fences_handles_python_generic_and_plain_text() {
    let code = "def main():\n    pass";
    assert_eq!(strip_markdown_fences(&format!("```python\n{code}\n```")), code);
    assert_eq!(strip_markdown_fences(&format!("```\n{code}\n```")), code);
    assert_eq!(strip_markdown_fences(&format!("  {code}  ")), code);
}

#[test]
fn build_description_prompt_lists_prefillable_inputs() {
    let prompt = build_description_prompt(
        "Collect and send a message",
        &[PrefillableInput { variable_name: "channel".to_string(), prompt: "Which Slack channel?".to_string() }],
    );

    assert!(prompt.contains("Collect and send a message"));
    assert!(prompt.contains("channel"));
    assert!(prompt.contains("Which Slack channel?"));
}

#[test]
fn description_prompt_without_inputs_says_so() {
    assert_eq!(
        build_description_prompt("Do it", &[]),
        "SOP:\nDo it\n\nThere are no prefillable input variables."
    );
    assert_eq!(
        build_description_prompt("Do it", &[PrefillableInput { variable_name: "a".to_string(), prompt: "A?".to_string() }]),
        "SOP:\nDo it\n\nPrefillable input variables:\n  - a: \"A?\""
    );
}

#[test]
fn fences_without_closing_line_keep_the_rest() {
    assert_eq!(strip_markdown_fences("```python\nx = 1\ny = 2"), "x = 1\ny = 2");
    assert_eq!(strip_markdown_fences("```python"), "");
    assert_eq!(strip_markdown_fences("\r\n```\r\nx = 1\r\n```\r\n"), "x = 1");
}

#[test]
fn plan_name_is_first_non_blank_line() {
    assert_eq!(infer_plan_name("\n   \n  Weekly report  \nmore"), "Weekly report");
    assert_eq!(infer_plan_name("   \n\n"), "generated_plan");
    assert_eq!(infer_plan_name(""), "generated_plan");
}

#[test]
fn error_prompt_appends_the_error_text() {
    let prompt = error_prompt("SOP text", &ReadyError::PlanParsing("bad".to_string()));
    assert_eq!(
        prompt,
        "SOP text\n\n[Previous attempt failed — error: Plan parsing error: bad]\nPlease fix the code and try again."
    );
}

#[test]
fn system_prompt_ends_with_stubs_including_user_input() {
    let prompt = build_system_prompt(&[]);
    assert!(prompt.contains("Allowed statements inside `main` are only:"));
    assert!(prompt.ends_with(
        "def collect_user_input(prompt: str) -> str:\n    \"\"\"Collect a value from the user when the workflow requires human input.\"\"\"\n    ..."
    ));
    assert_eq!(collect_user_input_description().id, "collect_user_input");
}

fn tool(id: &str, argument: &str, returns: &str) -> ToolDescription {
    ToolDescription {
        id: id.to_string(),
        description: String::new(),
        arguments: vec![ToolArgumentDescription {
            name: argument.to_string(),
            description: String::new(),
            value_type: "str".to_string(),
            default: None,
        }],
        returns: ToolReturnDescription {
            name: Some("output".to_string()),
            description: String::new(),
            value_type: Some(returns.to_string()),
            fields: Vec::new(),
        },
    }
}

fn sample_tools() -> Vec<ToolDescription> {
    vec![tool("read_file", "file_path", "str"), tool("post_to_slack", "message", "bool")]
}

#[test]
fn build_retry_prompt_appends_error_context_and_broken_code() {
    let prompt = build_retry_prompt(
        "Read report",
        "def main():\n    post_to_slack(undefined_var)",
        &ReadyError::Llm("bad output".to_string()),
    );

    assert!(prompt.contains("Read report"));
    assert!(prompt.contains("bad output"));
    assert!(prompt.contains("Previous attempt failed"));
    assert!(prompt.contains("Broken code from the previous attempt"));
    assert!(prompt.contains("post_to_slack(undefined_var)"));
}

#[test]
fn parse_and_validate_plan_reports_validation_errors_without_llm_flow() {
    let error = parse_and_validate_plan("def main():\n    post_to_slack(undefined_var)", "test_plan", &sample_tools())
        .expect_err("invalid plan should fail validation");

    assert!(matches!(error, ReadyError::PlanValidation(message) if message.contains("undefined_var")));
}

/// Runs the planning decisions over scripted model replies, the way the application's loop does.
fn plan_with_replies(sop: &str, replies: &[&str], max_retries: usize) -> (Result<ready::plan::AbstractPlan, ReadyError>, Vec<String>) {
    let tools = sample_tools();
    let name = infer_plan_name(sop);
    let mut user_prompt = sop.to_string();
    let mut prompts = Vec::new();
    let mut replies = replies.iter();
    for attempt in 0..=max_retries {
        prompts.push(user_prompt.clone());
        let raw = replies.next().expect("a scripted reply");
        match assess_reply(sop, &tools, &name, attempt, max_retries, raw) {
            PlanningStep::Describe { plan, prompt } => {
                prompts.push(prompt);
                let description = replies.next().expect("a scripted description");
                return (Ok(with_description(plan, description)), prompts);
            }
            PlanningStep::Retry { user_prompt: next } => user_prompt = next,
            PlanningStep::Fail(error) => return (Err(error), prompts),
        }
    }
    unreachable!("the last attempt either succeeds or fails")
}

#[test]
fn plan_calls_llm_and_parses_result() {
    let code = "def main():\n    data = read_file(\"report.txt\")\n    post_to_slack(data)";
    let (plan, prompts) = plan_with_replies("Read a report and post it to Slack", &[code, " Reads a report and posts it. "], 3);
    let plan = plan.expect("planning should succeed");
    assert_eq!(plan.code, code);
    assert_eq!(plan.name, "Read a report and post it to Slack");
    assert_eq!(plan.description, "Reads a report and posts it.");
    assert_eq!(plan.steps.len(), 2);
    assert!(matches!(&plan.steps[0], Step::ToolStep { tool_id, .. } if tool_id == "read_file"));
    assert!(prompts[1].contains("Read a report and post it to Slack"));
}

#[test]
fn plan_retries_after_parse_error_and_appends_error_to_prompt() {
    let valid_code = "def main():\n    data = read_file(\"report.txt\")\n    post_to_slack(data)";
    let (plan, prompts) = plan_with_replies("Read report", &["def main(\n    broken", valid_code, "Description."], 3);
    assert_eq!(plan.expect("retry should recover").description, "Description.");
    assert_eq!(prompts[0], "Read report");
    assert!(prompts[1].contains("Read report"));
    assert!(prompts[1].to_lowercase().contains("error"));
}

#[test]
fn plan_retries_after_validation_error() {
    let valid_code = "def main():\n    data = read_file(\"report.txt\")\n    post_to_slack(data)";
    let (plan, prompts) =
        plan_with_replies("Read report", &["def main():\n    post_to_slack(undefined_var)", valid_code, "Description."], 3);
    assert_eq!(plan.expect("retry should recover").steps.len(), 2);
    assert!(prompts[1].contains("Plan validation error: Plan validation failed:"));
}

#[test]
fn planning_fails_with_the_last_error_when_attempts_run_out() {
    let (plan, prompts) = plan_with_replies("Read report", &["def main(\n    broken", "def main():\n    x += 1"], 1);
    assert_eq!(prompts.len(), 2);
    assert!(matches!(plan, Err(ReadyError::PlanParsing(message)) if message.contains("augmented assignment")));
}
