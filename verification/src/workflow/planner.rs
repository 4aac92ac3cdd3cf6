//! Prompts and plan names for generating plans with a language model.

use vstd::prelude::*;
use vstd::string::*;

use crate::error::{error_text, ReadyError};
use crate::llm::client::{strip_fences_spec, strip_markdown_fences};
use crate::plan::queries::{prefillable_spec, prefillable_view};
use crate::plan::{AbstractPlan, DiagnosticSeverity};
use crate::planning::parser::{parse_python_to_plan, plan_result, plan_steps_spec};
use crate::planning::syntax::python_syntax;
use crate::planning::validator::{diagnostics_view, validate_plan, validate_spec, DiagnosticView};
use crate::plan::PrefillableInput;
use crate::text::{join_spec, join_strings, lemma_strings_view_push, string_of, strings_view, trim, trim_spec};
use crate::llm::client::text_lines;
use crate::tools::models::{
    deref_all, prompt_stubs_of, prompt_stubs_spec, ToolArgumentDescription, ToolDescription, ToolReturnDescription,
};

verus! {

broadcast use vstd::std_specs::vec::group_vec_axioms;

/// The instructions for turning an SOP into plan code; the tool stubs follow them.
pub const SYSTEM_PROMPT_PREFIX: &'static str = "You are an expert python developer. You are known for your ability to create code that is as simple as it gets.\nYour task is to translate a Standard Operating Procedure (SOP) into a valid Python function named `main` that calls the provided tool functions.\n\nBut there is a twist: You only have a limited set of functionality available, as your code will be run on a newexperimental interpreter. For this reason you may not use any built-in methods, or list comprehension. Not even theprint method is available. Exceptions are also not available.\n\nRules:\n- Your output MUST be a single Python function named `main` with no arguments.\n- Output Python code only. Do not wrap it in markdown fences.\n- Do NOT add any import statements.\n- Do NOT call any function that is not listed below.\n- Do NOT define helper functions, classes, lambdas, or nested functions.\n- Do NOT use try/except, with-statements, comprehensions, generator expressions, match/case, decorators, async/await, yield, break, continue, raise, assert, del, global, nonlocal, walrus operator, or chained method calls.\n- A tool call must be either used directly as a statement like `post_to_slack(message)` or assigned to a variable like `messages = get_slack_messages(channel)`.\n- Assignments may only target a single variable name on the left side.\n- Allowed statements inside `main` are only:\n  1. single-variable assignments such as `x = ...`\n  2. bare tool-call statements such as `post_to_slack(message)`\n  3. `if` / `elif` / `else` blocks\n  4. `for item in items:` loops where both `item` and `items` are simple variable names\n  5. `while condition:` loops\n  6. `pass` and `return`\n- Allowed expressions are only:\n  1. literals such as strings, integers, floats, booleans, and None\n  2. variable references such as `message`\n  3. attribute access such as `file.name`\n  4. constant index access such as `msg[\"content\"]` or `items[0]`\n  5. string concatenation with `+` or f-strings\n  6. arithmetic with `+`, `-`, `*`, `/`, `//`, `%`, `**`\n  7. unary `+` and unary `-`\n  8. boolean conditions using variables/literals/access paths with comparisons, `and`, `or`, and `not`\n- Conditions must never contain function calls such as `if is_ready()`; call the tool first, store the result in a variable, and then test that variable.\n- When checking structured tool results, use attribute access or constant-key indexing only.\n  Example: `content = msg[\"content\"]` is allowed.\n- Never use `.get(...)`, `.lower()`, `.append()`, `.sort()`, or any other method call on values.\n- If a transformation would require an unsupported feature, split it into simpler supported tool calls and assignments, or leave the value as-is.\n- Only use provided tool functions as function calls.\n- No imports, no class definitions, no decorators, no comprehensions.\n- Only assignments, tool calls, if/elif/else, for loops, while loops.\n- Use collect_user_input(\"prompt\") for user interaction.\n- All code must be inside `def main():`.\n- Use string concatenation with + for building strings.\n- F-strings are allowed.\n- Use only the following provided functions:\n\n";

/// The instructions for describing a generated plan.
pub const DESCRIPTION_SYSTEM: &'static str = "You are a workflow documentation assistant.\nGiven a Standard Operating Procedure (SOP) and the list of input variables that a user must supply before the plan can run, write a concise one-paragraph description of what the plan does.\n\nRules:\n- Be concise — aim for 2-4 sentences.\n- Mention the purpose of the plan.\n- If there are prefillable input variables, list them by name and their prompt so the caller knows what to prepare.\n- Do NOT include any code or markdown formatting — plain prose only.";

/// The description of the built-in `collect_user_input` tool.
pub fn collect_user_input_description() -> (r: ToolDescription)
    ensures
        r.id@ == "collect_user_input"@,
        r.description@ == "Collect a value from the user when the workflow requires human input."@,
        r.arguments@.len() == 1,
        r.arguments@[0].name@ == "prompt"@,
        r.arguments@[0].description@ == "Prompt shown to the user."@,
        r.arguments@[0].value_type@ == "str"@,
        r.arguments@[0].default is None,
        r.returns.name matches Some(n) && n@ == "output"@,
        r.returns.description@ == "User-provided input value."@,
        r.returns.value_type matches Some(t) && t@ == "str"@,
        r.returns.fields@.len() == 0,
{
    let mut arguments: Vec<ToolArgumentDescription> = Vec::new();
    arguments.push(ToolArgumentDescription {
        name: String::from_str("prompt"),
        description: String::from_str("Prompt shown to the user."),
        value_type: String::from_str("str"),
        default: None,
    });
    ToolDescription {
        id: String::from_str("collect_user_input"),
        description: String::from_str("Collect a value from the user when the workflow requires human input."),
        arguments,
        returns: ToolReturnDescription {
            name: Some(String::from_str("output")),
            description: String::from_str("User-provided input value."),
            value_type: Some(String::from_str("str")),
            fields: Vec::new(),
        },
    }
}

/// The system prompt for plan generation: the instructions followed by the stubs of the
/// given tools and of `collect_user_input`.
pub fn build_system_prompt(tool_descriptions: &[ToolDescription]) -> (r: String)
    ensures
        exists|cui: ToolDescription|
            cui.id@ == "collect_user_input"@ && #[trigger] r@ == SYSTEM_PROMPT_PREFIX@ + prompt_stubs_spec(
                tool_descriptions@.push(cui),
            ),
{
    let cui = collect_user_input_description();
    let mut refs: Vec<&ToolDescription> = Vec::new();
    let mut i: usize = 0;
    while i < tool_descriptions.len()
        invariant
            i <= tool_descriptions@.len(),
            refs@.len() == i,
            forall|j: int| 0 <= j < i ==> *refs@[j] == tool_descriptions@[j],
        decreases tool_descriptions@.len() - i,
    {
        refs.push(&tool_descriptions[i]);
        i += 1;
    }
    refs.push(&cui);
    assert(deref_all(refs@) =~= tool_descriptions@.push(cui));
    let stubs = prompt_stubs_of(&refs);
    let mut s = String::from_str(SYSTEM_PROMPT_PREFIX);
    s.append(stubs.as_str());
    s
}

/// The prompt that asks again after a failed attempt.
pub open spec fn error_prompt_spec(sop_text: Seq<char>, error: ReadyError) -> Seq<char> {
    sop_text + "\n\n"@ + "[Previous attempt failed — error: "@ + error_text(error)
        + "]\nPlease fix the code and try again."@
}

/// The prompt that asks again after a failed attempt.
pub fn error_prompt(sop_text: &str, error: &ReadyError) -> (r: String)
    ensures
        r@ == error_prompt_spec(sop_text@, *error),
{
    let mut s = String::from_str(sop_text);
    s.append("\n\n");
    s.append("[Previous attempt failed — error: ");
    let e = error.to_display_string();
    s.append(e.as_str());
    s.append("]\nPlease fix the code and try again.");
    s
}

/// The line listing one prefillable input, given as `(variable, prompt)`.
pub open spec fn prefillable_line(p: (Seq<char>, Seq<char>)) -> Seq<char> {
    "  - "@ + p.0 + ": \""@ + p.1 + "\""@
}

/// The prompt asking for a plan description: the SOP, then the prefillable inputs, given as
/// `(variable, prompt)` pairs, or a note that there are none.
pub open spec fn description_prompt_spec(sop_text: Seq<char>, prefillable: Seq<(Seq<char>, Seq<char>)>) -> Seq<char> {
    let head = seq!["SOP:\n"@ + sop_text];
    let rest = if prefillable.len() == 0 {
        seq!["\nThere are no prefillable input variables."@]
    } else {
        seq!["\nPrefillable input variables:"@] + Seq::new(prefillable.len(), |i: int| prefillable_line(prefillable[i]))
    };
    join_spec(head + rest, "\n"@)
}

/// The prompt asking for a plan description.
pub fn build_description_prompt(sop_text: &str, prefillable: &[PrefillableInput]) -> (r: String)
    ensures
        r@ == description_prompt_spec(sop_text@, prefillable_view(prefillable@)),
{
    let mut lines: Vec<String> = Vec::new();
    let mut head = String::from_str("SOP:\n");
    head.append(sop_text);
    lines.push(head);
    if prefillable.len() == 0 {
        lines.push(String::from_str("\nThere are no prefillable input variables."));
        let ghost want = seq!["SOP:\n"@ + sop_text@] + seq!["\nThere are no prefillable input variables."@];
        assert(strings_view(lines@) =~= want);
    } else {
        lines.push(String::from_str("\nPrefillable input variables:"));
        let ghost want = seq!["SOP:\n"@ + sop_text@] + (seq!["\nPrefillable input variables:"@] + Seq::new(
            prefillable@.len(),
            |i: int| prefillable_line(prefillable_view(prefillable@)[i]),
        ));
        let mut i: usize = 0;
        while i < prefillable.len()
            invariant
                i <= prefillable@.len(),
                want == seq!["SOP:\n"@ + sop_text@] + (seq!["\nPrefillable input variables:"@] + Seq::new(
                    prefillable@.len(),
                    |i: int| prefillable_line(prefillable_view(prefillable@)[i]),
                )),
                lines@.len() == i + 2,
                forall|j: int| 0 <= j < i + 2 ==> (#[trigger] lines@[j])@ == want[j],
            decreases prefillable@.len() - i,
        {
            let item = &prefillable[i];
            let mut line = String::from_str("  - ");
            line.append(item.variable_name.as_str());
            line.append(": \"");
            line.append(item.prompt.as_str());
            line.append("\"");
            lines.push(line);
            i += 1;
        }
        assert(strings_view(lines@) =~= want);
    }
    join_strings(&lines, "\n")
}

/// The first line of `lines` that is not blank, trimmed.
pub open spec fn first_nonblank(lines: Seq<Seq<char>>) -> Option<Seq<char>>
    decreases lines.len(),
{
    if lines.len() == 0 {
        None
    } else if trim_spec(lines[0]).len() > 0 {
        Some(trim_spec(lines[0]))
    } else {
        first_nonblank(lines.drop_first())
    }
}

/// A plan name taken from the SOP: its first non-blank line, trimmed, or `generated_plan`.
pub open spec fn plan_name_spec(sop_text: Seq<char>) -> Seq<char> {
    match first_nonblank(text_lines(sop_text)) {
        Some(l) => l,
        None => "generated_plan"@,
    }
}

/// A plan name taken from the SOP text.
pub fn infer_plan_name(sop_text: &str) -> (r: String)
    ensures
        r@ == plan_name_spec(sop_text@),
{
    let lines = crate::llm::client::split_text_lines(sop_text);
    let ghost ls = strings_view(lines@);
    assert(ls.skip(0) =~= ls);
    let mut i: usize = 0;
    while i < lines.len()
        invariant
            i <= lines@.len(),
            ls == strings_view(lines@),
            ls == text_lines(sop_text@),
            first_nonblank(ls) == first_nonblank(ls.skip(i as int)),
        decreases lines@.len() - i,
    {
        let t = trim(lines[i].as_str());
        proof {
            assert(ls.skip(i as int)[0] == ls[i as int]);
            assert(ls.skip(i as int).drop_first() =~= ls.skip(i + 1));
        }
        if t.unicode_len() > 0 {
            return t;
        }
        i += 1;
    }
    assert(ls.skip(i as int).len() == 0);
    String::from_str("generated_plan")
}

/// What the planner does after the model replied with plan code.
pub enum PlanningStep {
    /// The plan parsed and validated: ask for its description with this prompt.
    Describe { plan: AbstractPlan, prompt: String },
    /// Ask the model again with this user prompt.
    Retry { user_prompt: String },
    /// Give up with this error.
    Fail(ReadyError),
}

/// The messages of the error diagnostics, in order.
pub open spec fn hard_error_messages(ds: Seq<DiagnosticView>) -> Seq<Seq<char>>
    decreases ds.len(),
{
    if ds.len() == 0 {
        Seq::empty()
    } else {
        let rest = hard_error_messages(ds.drop_last());
        if ds.last().0 == DiagnosticSeverity::Error {
            rest.push(ds.last().1)
        } else {
            rest
        }
    }
}

/// The validation error of a plan with error diagnostics.
pub open spec fn validation_failure_msg(messages: Seq<Seq<char>>) -> Seq<char> {
    "Plan validation failed: "@ + join_spec(messages, "; "@)
}

/// The prompt that asks again after an attempt failed with an error of this text.
pub open spec fn retry_prompt_spec(sop_text: Seq<char>, error: Seq<char>) -> Seq<char> {
    sop_text + "\n\n"@ + "[Previous attempt failed — error: "@ + error + "]\nPlease fix the code and try again."@
}

/// The step after an attempt failed with an error of this text: another attempt while
/// attempts remain, otherwise the error.
pub open spec fn failed_attempt(r: PlanningStep, sop_text: Seq<char>, attempt: usize, max_retries: usize, error: Seq<char>) -> bool {
    if attempt < max_retries {
        r matches PlanningStep::Retry { user_prompt } && user_prompt@ == retry_prompt_spec(sop_text, error)
    } else {
        r is Fail && error_text(r->Fail_0) == error
    }
}

/// The step after an attempt whose code parsed (or failed to parse) as `parsed`: a parse error
/// or error diagnostics fail the attempt; a valid plan is kept and its description asked for.
pub open spec fn assessed(
    r: PlanningStep,
    sop_text: Seq<char>,
    tools: Seq<ToolDescription>,
    attempt: usize,
    max_retries: usize,
    parsed: Result<AbstractPlan, ReadyError>,
) -> bool {
    match parsed {
        Err(e) => failed_attempt(r, sop_text, attempt, max_retries, error_text(e)) && (r is Fail ==> r->Fail_0 == e),
        Ok(plan) => {
            let messages = hard_error_messages(validate_spec(plan, tools));
            if messages.len() > 0 {
                &&& failed_attempt(
                    r,
                    sop_text,
                    attempt,
                    max_retries,
                    "Plan validation error: "@ + validation_failure_msg(messages),
                )
                &&& r is Fail ==> (r->Fail_0 matches ReadyError::PlanValidation(m) && m@ == validation_failure_msg(messages))
            } else {
                r matches PlanningStep::Describe { plan: p, prompt } && p == plan && prompt@ == description_prompt_spec(
                    sop_text,
                    prefillable_spec(plan.steps@),
                )
            }
        },
    }
}

/// Whether `r` is the outcome of checking `plan`: the plan when it has no error diagnostics,
/// otherwise a validation error listing their messages.
pub open spec fn checked(r: Result<AbstractPlan, ReadyError>, plan: AbstractPlan, tools: Seq<ToolDescription>) -> bool {
    let messages = hard_error_messages(validate_spec(plan, tools));
    if messages.len() > 0 {
        r matches Err(ReadyError::PlanValidation(m)) && m@ == validation_failure_msg(messages)
    } else {
        r == Ok::<AbstractPlan, ReadyError>(plan)
    }
}

/// Keeps a plan without error diagnostics; otherwise fails with their messages.
pub fn check_plan(plan: AbstractPlan, tool_descriptions: &[ToolDescription]) -> (r: Result<AbstractPlan, ReadyError>)
    ensures
        checked(r, plan, tool_descriptions@),
{
    let issues = validate_plan(&plan, tool_descriptions);
    let ghost dv = diagnostics_view(issues@);
    let mut hard: Vec<String> = Vec::new();
    let mut i: usize = 0;
    assert(dv.take(0) =~= Seq::<DiagnosticView>::empty());
    while i < issues.len()
        invariant
            i <= issues@.len(),
            dv == diagnostics_view(issues@),
            strings_view(hard@) == hard_error_messages(dv.take(i as int)),
        decreases issues@.len() - i,
    {
        assert(dv.take(i + 1).drop_last() =~= dv.take(i as int));
        assert(dv.take(i + 1).last() == dv[i as int]);
        match issues[i].severity {
            DiagnosticSeverity::Error => {
                let m = string_of(issues[i].message.as_str());
                proof {
                    lemma_strings_view_push(hard@, m);
                }
                hard.push(m);
            },
            DiagnosticSeverity::Warning => {},
        }
        i += 1;
    }
    assert(dv.take(i as int) =~= dv);
    if hard.len() > 0 {
        let mut message = String::from_str("Plan validation failed: ");
        let joined = join_strings(&hard, "; ");
        message.append(joined.as_str());
        return Err(ReadyError::PlanValidation(message));
    }
    Ok(plan)
}

/// Parses plan code and keeps the plan only when it has no error diagnostics.
pub fn parse_and_validate_plan(code: &str, plan_name: &str, tool_descriptions: &[ToolDescription]) -> (r: Result<AbstractPlan, ReadyError>)
    ensures
        exists|parsed: Result<AbstractPlan, ReadyError>|
            plan_result(parsed, code@, plan_name@, plan_steps_spec(python_syntax(code@))) && match parsed {
                Err(e) => r == Err::<AbstractPlan, ReadyError>(e),
                Ok(plan) => checked(r, plan, tool_descriptions@),
            },
{
    let parsed = parse_python_to_plan(code, plan_name);
    let ghost p = parsed;
    match parsed {
        Err(e) => Err(e),
        Ok(plan) => check_plan(plan, tool_descriptions),
    }
}

/// The prompt that asks again after a failed attempt, with the code that failed.
pub fn build_retry_prompt(sop_text: &str, broken_code: &str, error: &ReadyError) -> (r: String)
    ensures
        r@ == error_prompt_spec(sop_text@, *error) + "\n\nBroken code from the previous attempt:\n"@ + broken_code@,
{
    let mut s = error_prompt(sop_text, error);
    s.append("\n\nBroken code from the previous attempt:\n");
    s.append(broken_code);
    s
}

/// Decides what follows an attempt whose code parsed (or failed to parse) as `parsed`.
pub fn assess_plan(
    sop_text: &str,
    tool_descriptions: &[ToolDescription],
    attempt: usize,
    max_retries: usize,
    parsed: Result<AbstractPlan, ReadyError>,
) -> (r: PlanningStep)
    ensures
        assessed(r, sop_text@, tool_descriptions@, attempt, max_retries, parsed),
{
    let plan = match parsed {
        Err(error) => {
            if attempt < max_retries {
                let user_prompt = error_prompt(sop_text, &error);
                return PlanningStep::Retry { user_prompt };
            }
            return PlanningStep::Fail(error);
        },
        Ok(plan) => plan,
    };
    let plan = match check_plan(plan, tool_descriptions) {
        Err(error) => {
            if attempt < max_retries {
                let user_prompt = error_prompt(sop_text, &error);
                return PlanningStep::Retry { user_prompt };
            }
            return PlanningStep::Fail(error);
        },
        Ok(plan) => plan,
    };
    let prefillable = plan.prefillable_inputs();
    let prompt = build_description_prompt(sop_text, prefillable.as_slice());
    PlanningStep::Describe { plan, prompt }
}

/// Decides what follows the model's reply to attempt `attempt`: the reply, stripped of code
/// fences, is parsed as the plan named `plan_name` and assessed.
pub fn assess_reply(
    sop_text: &str,
    tool_descriptions: &[ToolDescription],
    plan_name: &str,
    attempt: usize,
    max_retries: usize,
    raw: &str,
) -> (r: PlanningStep)
    requires
        trim_spec(raw@) != "```"@,
    ensures
        ({
            let code = strip_fences_spec(raw@);
            exists|parsed: Result<AbstractPlan, ReadyError>|
                plan_result(parsed, code, plan_name@, plan_steps_spec(python_syntax(code)))
                    && assessed(r, sop_text@, tool_descriptions@, attempt, max_retries, parsed)
        }),
{
    let code = strip_markdown_fences(raw);
    let parsed = parse_python_to_plan(code.as_str(), plan_name);
    let ghost p = parsed;
    let r = assess_plan(sop_text, tool_descriptions, attempt, max_retries, parsed);
    assert(plan_result(p, code@, plan_name@, plan_steps_spec(python_syntax(code@))));
    r
}

/// The plan with the model's description, trimmed.
pub fn with_description(plan: AbstractPlan, reply: &str) -> (r: AbstractPlan)
    ensures
        r.name == plan.name,
        r.steps == plan.steps,
        r.code == plan.code,
        r.description@ == trim_spec(reply@),
{
    let mut plan = plan;
    plan.description = trim(reply);
    plan
}

} // verus!
