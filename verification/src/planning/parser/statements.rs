//! Lowering Python statements into plan steps.

use vstd::prelude::*;
use vstd::string::*;

use crate::error::ReadyError;
use crate::plan::model::{branch_view, branches_view, opt_text, step_view, steps_view, BranchV, ExprV, StepV};
use crate::plan::{BranchKind, ConditionalBranch, Expression, Step};
use crate::planning::parser::expressions::{lower_cond, lower_expr, lower_exprs};
use crate::planning::parser::literals::{extract_string_literal, parse_failure, string_literal_spec};
use crate::planning::parser::lower::{convert_condition, convert_expression, convert_expressions, lowered, lowered_all};
use crate::planning::parser::names::{
    expression_kind, expression_kind_spec, expression_name, expression_name_spec, extract_name_target, name_target_spec, parsing_error, statement_name,
    statement_name_spec,
};
use crate::planning::syntax::{PyExpr, PyStmt};
use crate::text::str_eq;

verus! {

broadcast use vstd::std_specs::vec::group_vec_axioms;

/// A value that is not a call of a named function: an assignment when there is a target.
pub open spec fn plain_assignment(out: Option<Seq<char>>, v: PyExpr) -> Result<StepV, Seq<char>> {
    match out {
        Some(n) => match lower_expr(v) {
            Ok(x) => Ok(StepV::Assign(n, x)),
            Err(m) => Err(m),
        },
        None => Err("Unsupported expression statement type: "@ + expression_kind_spec(v)),
    }
}

/// The step an assigned (or bare) value gives: `collect_user_input("...")` asks the user, a call
/// of any other named function calls that tool with the positional and then the keyword
/// arguments, and anything else is an assignment.
pub open spec fn lower_assignment(out: Option<Seq<char>>, v: PyExpr) -> Result<StepV, Seq<char>> {
    match v {
        PyExpr::Call { func, args, keywords } => match *func {
            PyExpr::Name { id } => if id@ == "collect_user_input"@ {
                if args@.len() == 0 {
                    Err("collect_user_input() requires a prompt argument"@)
                } else {
                    match string_literal_spec(args@[0]) {
                        Ok(p) => Ok(StepV::UserInteraction(p, out)),
                        Err(m) => Err(m),
                    }
                }
            } else {
                match lower_exprs(args@) {
                    Err(m) => Err(m),
                    Ok(va) => match lower_exprs(keywords@) {
                        Err(m) => Err(m),
                        Ok(vk) => Ok(StepV::Tool(id@, va + vk, out)),
                    },
                }
            },
            _ => plain_assignment(out, v),
        },
        _ => plain_assignment(out, v),
    }
}

pub open spec fn some_step(r: Result<StepV, Seq<char>>) -> Result<Option<StepV>, Seq<char>> {
    match r {
        Ok(s) => Ok(Some(s)),
        Err(m) => Err(m),
    }
}

/// The step a statement gives; `return`, imports and `pass` give none.
pub open spec fn lower_stmt(s: PyStmt) -> Result<Option<StepV>, Seq<char>>
    decreases s, 1int,
{
    match s {
        PyStmt::Assign { targets, value } => if targets@.len() != 1 {
            Err("Only single-target assignments are supported"@)
        } else {
            match name_target_spec(targets@[0]) {
                Err(m) => Err(m),
                Ok(n) => some_step(lower_assignment(Some(n), value)),
            }
        },
        PyStmt::AnnAssign { target, value } => match value {
            None => Err("Annotated assignments must have a value"@),
            Some(v) => match name_target_spec(target) {
                Err(m) => Err(m),
                Ok(n) => some_step(lower_assignment(Some(n), v)),
            },
        },
        PyStmt::Expr { value } => some_step(lower_assignment(None, value)),
        PyStmt::If { .. } => match if_branches(s, false) {
            Ok(bs) => Ok(Some(StepV::Switch(bs))),
            Err(m) => Err(m),
        },
        PyStmt::For { target, iter, body } => match name_target_spec(target) {
            Err(m) => Err(m),
            Ok(item) => match iter {
                PyExpr::Name { id } => match lower_body(body@) {
                    Ok(steps) => Ok(Some(StepV::Loop(id@, item, steps))),
                    Err(m) => Err(m),
                },
                other => Err(
                    "for-loop iterable must be a simple variable name, not a '"@ + expression_name_spec(other)
                        + "' — assign it to a variable first"@,
                ),
            },
        },
        PyStmt::While { test, body } => match lower_cond(test) {
            Err(m) => Err(m),
            Ok(c) => match lower_body(body@) {
                Ok(steps) => Ok(Some(StepV::While(c, steps))),
                Err(m) => Err(m),
            },
        },
        PyStmt::Return => Ok(None),
        PyStmt::Import => Ok(None),
        PyStmt::ImportFrom => Ok(None),
        PyStmt::Pass => Ok(None),
        _ => Err(
            "'"@ + statement_name_spec(s)
                + "' is not supported — only assignments, tool calls, if/elif/else, for/while loops, pass, and return are allowed"@,
        ),
    }
}

/// The branches of an `if` statement: `if` (or `elif`), then the `elif` chain of a lone nested
/// `if` in the `else` part, or an `else` branch.
pub open spec fn if_branches(s: PyStmt, is_elif: bool) -> Result<Seq<BranchV>, Seq<char>>
    decreases s, 0int,
{
    match s {
        PyStmt::If { test, body, orelse } => match lower_cond(test) {
            Err(m) => Err(m),
            Ok(c) => match lower_body(body@) {
                Err(m) => Err(m),
                Ok(steps) => {
                    let first = BranchV {
                        kind: if is_elif { BranchKind::ElseIf } else { BranchKind::If },
                        condition: Some(c),
                        steps,
                    };
                    if orelse@.len() == 0 {
                        Ok(seq![first])
                    } else if orelse@.len() == 1 && orelse@[0] is If {
                        match if_branches(orelse@[0], true) {
                            Ok(rest) => Ok(seq![first] + rest),
                            Err(m) => Err(m),
                        }
                    } else {
                        match lower_body(orelse@) {
                            Ok(else_steps) => Ok(
                                seq![first, BranchV { kind: BranchKind::Else, condition: None, steps: else_steps }],
                            ),
                            Err(m) => Err(m),
                        }
                    }
                },
            },
        },
        _ => Ok(Seq::empty()),
    }
}

/// The steps of a block, left to right; the first failure is the result.
pub open spec fn lower_body(ss: Seq<PyStmt>) -> Result<Seq<StepV>, Seq<char>>
    decreases ss, 0int,
{
    if ss.len() == 0 {
        Ok(Seq::empty())
    } else {
        match lower_body(ss.drop_last()) {
            Err(m) => Err(m),
            Ok(steps) => match lower_stmt(ss[ss.len() - 1]) {
                Err(m) => Err(m),
                Ok(None) => Ok(steps),
                Ok(Some(st)) => Ok(steps.push(st)),
            },
        }
    }
}

proof fn lemma_body_error_persists(ss: Seq<PyStmt>, n: int)
    requires
        0 <= n <= ss.len(),
        lower_body(ss.take(n)) is Err,
    ensures
        lower_body(ss) == lower_body(ss.take(n)),
    decreases ss.len() - n,
{
    if n < ss.len() {
        assert(ss.take(n + 1).drop_last() =~= ss.take(n));
        lemma_body_error_persists(ss, n + 1);
    } else {
        assert(ss.take(n) =~= ss);
    }
}

proof fn lemma_steps_view_push(v: Seq<Step>, x: Step)
    ensures
        steps_view(v.push(x)) == steps_view(v).push(step_view(x)),
{
    assert(steps_view(v.push(x)) =~= steps_view(v).push(step_view(x)));
}

/// Whether an executable step agrees with the model's.
pub open spec fn step_lowered(r: Result<Step, ReadyError>, s: Result<StepV, Seq<char>>) -> bool {
    match (r, s) {
        (Ok(x), Ok(v)) => step_view(x) == v,
        (Err(e), Err(m)) => parse_failure(e, m),
        _ => false,
    }
}

/// The step an assigned (or bare) value gives.
fn convert_assignment_value(out: Option<String>, v: &PyExpr) -> (r: Result<Step, ReadyError>)
    ensures
        step_lowered(r, lower_assignment(opt_text(out), *v)),
{
    match v {
        PyExpr::Call { func, args, keywords } => {
            match &**func {
                PyExpr::Name { id } => {
                    if str_eq(id.as_str(), "collect_user_input") {
                        if args.len() == 0 {
                            return Err(parsing_error(String::from_str("collect_user_input() requires a prompt argument")));
                        }
                        return match extract_string_literal(&args[0]) {
                            Ok(prompt) => Ok(Step::UserInteractionStep { prompt, output_variable: out }),
                            Err(err) => Err(err),
                        };
                    }
                    let mut arguments = match convert_expressions(args) {
                        Err(err) => return Err(err),
                        Ok(a) => a,
                    };
                    let more = match convert_expressions(keywords) {
                        Err(err) => return Err(err),
                        Ok(k) => k,
                    };
                    let ghost va = crate::plan::model::exprs_view(arguments@);
                    let ghost vk = crate::plan::model::exprs_view(more@);
                    let mut more = more;
                    arguments.append(&mut more);
                    assert(crate::plan::model::exprs_view(arguments@) =~= va + vk);
                    return Ok(Step::ToolStep { tool_id: id.clone(), arguments, output_variable: out });
                },
                _ => {},
            }
        },
        _ => {},
    }
    match out {
        Some(n) => match convert_expression(v) {
            Ok(x) => Ok(Step::AssignStep { target: n, value: x }),
            Err(err) => Err(err),
        },
        None => {
            let mut m = String::from_str("Unsupported expression statement type: ");
            let kind = expression_kind(v);
            m.append(kind.as_str());
            Err(parsing_error(m))
        },
    }
}

/// The step a statement gives, if any.
fn convert_statement(s: &PyStmt) -> (r: Result<Option<Step>, ReadyError>)
    ensures
        match (r, lower_stmt(*s)) {
            (Ok(Some(x)), Ok(Some(v))) => step_view(x) == v,
            (Ok(None), Ok(None)) => true,
            (Err(e), Err(m)) => parse_failure(e, m),
            _ => false,
        },
    decreases s, 1int,
{
    match s {
        PyStmt::Assign { targets, value } => {
            if targets.len() != 1 {
                return Err(parsing_error(String::from_str("Only single-target assignments are supported")));
            }
            match extract_name_target(&targets[0]) {
                Err(err) => Err(err),
                Ok(n) => match convert_assignment_value(Some(n), value) {
                    Ok(x) => Ok(Some(x)),
                    Err(err) => Err(err),
                },
            }
        },
        PyStmt::AnnAssign { target, value } => match value {
            None => Err(parsing_error(String::from_str("Annotated assignments must have a value"))),
            Some(v) => match extract_name_target(target) {
                Err(err) => Err(err),
                Ok(n) => match convert_assignment_value(Some(n), v) {
                    Ok(x) => Ok(Some(x)),
                    Err(err) => Err(err),
                },
            },
        },
        PyStmt::Expr { value } => match convert_assignment_value(None, value) {
            Ok(x) => Ok(Some(x)),
            Err(err) => Err(err),
        },
        PyStmt::If { .. } => match collect_if_branches(s, false) {
            Ok(branches) => Ok(Some(Step::SwitchStep { branches })),
            Err(err) => Err(err),
        },
        PyStmt::For { target, iter, body } => {
            let item = match extract_name_target(target) {
                Err(err) => return Err(err),
                Ok(n) => n,
            };
            match iter {
                PyExpr::Name { id } => match convert_body(body) {
                    Ok(steps) => Ok(Some(Step::LoopStep { iterable_variable: id.clone(), item_variable: item, body: steps })),
                    Err(err) => Err(err),
                },
                other => {
                    let mut m = String::from_str("for-loop iterable must be a simple variable name, not a '");
                    m.append(expression_name(other));
                    m.append("' — assign it to a variable first");
                    Err(parsing_error(m))
                },
            }
        },
        PyStmt::While { test, body } => {
            let c = match convert_condition(test) {
                Err(err) => return Err(err),
                Ok(x) => x,
            };
            match convert_body(body) {
                Ok(steps) => Ok(Some(Step::WhileStep { condition: c, body: steps })),
                Err(err) => Err(err),
            }
        },
        PyStmt::Return | PyStmt::Import | PyStmt::ImportFrom | PyStmt::Pass => Ok(None),
        _ => {
            let mut m = String::from_str("'");
            m.append(statement_name(s));
            m.append(
                "' is not supported — only assignments, tool calls, if/elif/else, for/while loops, pass, and return are allowed",
            );
            Err(parsing_error(m))
        },
    }
}

/// The branches of an `if` statement.
fn collect_if_branches(s: &PyStmt, is_elif: bool) -> (r: Result<Vec<ConditionalBranch>, ReadyError>)
    ensures
        match (r, if_branches(*s, is_elif)) {
            (Ok(x), Ok(v)) => branches_view(x@) == v,
            (Err(e), Err(m)) => parse_failure(e, m),
            _ => false,
        },
    decreases s, 0int,
{
    match s {
        PyStmt::If { test, body, orelse } => {
            let c = match convert_condition(test) {
                Err(err) => return Err(err),
                Ok(x) => x,
            };
            let steps = match convert_body(body) {
                Err(err) => return Err(err),
                Ok(x) => x,
            };
            let kind = if is_elif { BranchKind::ElseIf } else { BranchKind::If };
            let first = ConditionalBranch { kind, condition: Some(c), steps };
            let ghost fv = branch_view(first);
            let mut branches: Vec<ConditionalBranch> = Vec::new();
            branches.push(first);
            if orelse.len() == 0 {
                assert(branches_view(branches@) =~= seq![fv]);
                return Ok(branches);
            }
            let nested = orelse.len() == 1 && match &orelse[0] {
                PyStmt::If { .. } => true,
                _ => false,
            };
            if nested {
                assert(decreases_to!(*s => orelse@[0]));
                match collect_if_branches(&orelse[0], true) {
                    Err(err) => Err(err),
                    Ok(rest) => {
                        let ghost rv = branches_view(rest@);
                        let mut rest = rest;
                        branches.append(&mut rest);
                        assert(branches_view(branches@) =~= seq![fv] + rv);
                        Ok(branches)
                    },
                }
            } else {
                match convert_body(orelse) {
                    Err(err) => Err(err),
                    Ok(else_steps) => {
                        let b = ConditionalBranch { kind: BranchKind::Else, condition: None, steps: else_steps };
                        let ghost bv = branch_view(b);
                        branches.push(b);
                        assert(branches_view(branches@) =~= seq![fv, bv]);
                        Ok(branches)
                    },
                }
            }
        },
        _ => {
            let branches: Vec<ConditionalBranch> = Vec::new();
            assert(branches_view(branches@) =~= Seq::<BranchV>::empty());
            Ok(branches)
        },
    }
}

/// The steps of a block, stopping at the first failure.
pub fn convert_body(body: &Vec<PyStmt>) -> (r: Result<Vec<Step>, ReadyError>)
    ensures
        match (r, lower_body(body@)) {
            (Ok(x), Ok(v)) => steps_view(x@) == v,
            (Err(e), Err(m)) => parse_failure(e, m),
            _ => false,
        },
    decreases body@, 0int,
{
    let mut out: Vec<Step> = Vec::new();
    let mut i: usize = 0;
    assert(body@.take(0) =~= Seq::<PyStmt>::empty());
    assert(steps_view(out@) =~= Seq::<StepV>::empty());
    while i < body.len()
        invariant
            i <= body@.len(),
            lower_body(body@.take(i as int)) == Ok::<Seq<StepV>, Seq<char>>(steps_view(out@)),
        decreases body@.len() - i,
    {
        assert(decreases_to!(body@ => body@[i as int]));
        assert(body@.take(i + 1).drop_last() =~= body@.take(i as int));
        assert(body@.take(i + 1)[i as int] == body@[i as int]);
        match convert_statement(&body[i]) {
            Err(err) => {
                proof {
                    lemma_body_error_persists(body@, i + 1);
                }
                return Err(err);
            },
            Ok(None) => {},
            Ok(Some(x)) => {
                proof {
                    lemma_steps_view_push(out@, x);
                }
                out.push(x);
            },
        }
        i += 1;
    }
    assert(body@.take(i as int) =~= body@);
    Ok(out)
}

} // verus!
