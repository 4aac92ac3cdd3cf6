//! Reads plan code, a Python function `def main(): ...`, into a plan.
//!
//! The source is parsed by `rustpython_parser` (see `syntax`); everything after that, the
//! choice of `main`, the mapping of statements to steps and of expressions to plan
//! expressions, and every error message, is defined here and proved against the models.

pub mod debug;
pub mod expressions;
pub mod literals;
pub mod lower;
pub mod names;
pub mod statements;

use vstd::prelude::*;
use vstd::string::*;

use crate::error::ReadyError;
use crate::plan::model::{steps_view, StepV};
use crate::plan::AbstractPlan;
use crate::planning::parser::literals::parse_failure;
use crate::planning::parser::names::parsing_error;
use crate::planning::parser::statements::{convert_body, lower_body};
use crate::planning::syntax::{parse_module, parsed_view, python_syntax, ParsedModule, PyStmt};
use crate::text::{str_eq, string_of};

verus! {

/// Whether a statement defines a function named `main`.
pub open spec fn defines_main(s: PyStmt) -> bool {
    s matches PyStmt::FunctionDef { name, .. } && name@ == "main"@
}

/// The body of the first top-level `def main()`.
pub open spec fn main_body(ss: Seq<PyStmt>) -> Option<Seq<PyStmt>>
    decreases ss.len(),
{
    if ss.len() == 0 {
        None
    } else if defines_main(ss[0]) {
        Some(ss[0]->FunctionDef_body@)
    } else {
        main_body(ss.drop_first())
    }
}

pub open spec fn no_main_msg() -> Seq<char> {
    "No main() function found in the provided code. The code must define a top-level 'def main(): ...' function."@
}

/// The steps a parsed module gives: those of the body of its first `def main()`.
pub open spec fn plan_steps_spec(parsed: Result<Option<Seq<PyStmt>>, Seq<char>>) -> Result<Seq<StepV>, Seq<char>> {
    match parsed {
        Err(m) => Err(m),
        Ok(None) => Err("Expected module AST when parsing plan code"@),
        Ok(Some(ss)) => match main_body(ss) {
            None => Err(no_main_msg()),
            Some(body) => lower_body(body),
        },
    }
}

/// Whether a plan-building result is the plan named `name` for `code` with the given steps, or
/// the parsing error the steps' lowering reports.
pub open spec fn plan_result(
    r: Result<AbstractPlan, ReadyError>,
    code: Seq<char>,
    name: Seq<char>,
    steps: Result<Seq<StepV>, Seq<char>>,
) -> bool {
    match (r, steps) {
        (Ok(p), Ok(sv)) => p.name@ == name && p.description@ == Seq::<char>::empty() && p.code@ == code
            && steps_view(p.steps@) == sv,
        (Err(e), Err(m)) => parse_failure(e, m),
        _ => false,
    }
}

/// The index of the first top-level `def main()`.
fn find_main(suite: &Vec<PyStmt>) -> (r: Option<usize>)
    ensures
        match (r, main_body(suite@)) {
            (Some(i), Some(body)) => i < suite@.len() && suite@[i as int] is FunctionDef
                && suite@[i as int]->FunctionDef_body@ == body,
            (None, None) => true,
            _ => false,
        },
{
    let mut i: usize = 0;
    assert(suite@.skip(0) =~= suite@);
    while i < suite.len()
        invariant
            i <= suite@.len(),
            main_body(suite@) == main_body(suite@.skip(i as int)),
        decreases suite@.len() - i,
    {
        assert(suite@.skip(i as int).drop_first() =~= suite@.skip(i + 1));
        assert(suite@.skip(i as int)[0] == suite@[i as int]);
        match &suite[i] {
            PyStmt::FunctionDef { name, .. } => {
                if str_eq(name.as_str(), "main") {
                    return Some(i);
                }
            },
            _ => {},
        }
        i += 1;
    }
    assert(suite@.skip(i as int).len() == 0);
    None
}

/// Builds the plan named `name` for `code` from the parsed module of `code`.
pub fn plan_from_syntax(code: &str, name: &str, parsed: ParsedModule) -> (r: Result<AbstractPlan, ReadyError>)
    ensures
        plan_result(r, code@, name@, plan_steps_spec(parsed_view(parsed))),
{
    let suite = match parsed {
        Err(m) => return Err(parsing_error(m)),
        Ok(None) => return Err(parsing_error(String::from_str("Expected module AST when parsing plan code"))),
        Ok(Some(suite)) => suite,
    };
    let i = match find_main(&suite) {
        None => return Err(
            parsing_error(
                String::from_str(
                    "No main() function found in the provided code. The code must define a top-level 'def main(): ...' function.",
                ),
            ),
        ),
        Some(i) => i,
    };
    let steps = match &suite[i] {
        PyStmt::FunctionDef { body, .. } => convert_body(body),
        _ => Ok(Vec::new()),
    };
    match steps {
        Err(err) => Err(err),
        Ok(steps) => Ok(AbstractPlan {
            name: string_of(name),
            description: String::new(),
            steps,
            code: string_of(code),
        }),
    }
}

/// Parses Python-like plan code into a plan named `name`, whose steps are those of the body of
/// the first top-level `def main()`.
pub fn parse_python_to_plan(code: &str, name: &str) -> (r: Result<AbstractPlan, ReadyError>)
    ensures
        plan_result(r, code@, name@, plan_steps_spec(python_syntax(code@))),
{
    let parsed = parse_module(code);
    plan_from_syntax(code, name, parsed)
}

} // verus!
