//! Checks that a plan only reads variables it has defined, only calls known tools, and uses
//! what it assigns.

use vstd::prelude::*;
use vstd::string::*;

use crate::execution::evaluator::message3;
use crate::plan::{AbstractPlan, ConditionalBranch, DiagnosticSeverity, Expression, PlanDiagnostic, Step};
use crate::text::{
    copy_strings, insert_sorted_unique, lemma_sorted_names, sorted_names, string_of, strictly_sorted, strings_contain,
    strings_view,
};
use crate::tools::ToolDescription;

verus! {

broadcast use vstd::std_specs::vec::group_vec_axioms;

/// The variables an expression reads.
pub open spec fn expr_vars(e: Expression) -> Set<Seq<char>>
    decreases e,
{
    match e {
        Expression::AccessPath { variable_name, .. } => set![variable_name@],
        Expression::Literal { .. } => Set::empty(),
        Expression::BinaryExpression { left, right, .. } => expr_vars(*left).union(expr_vars(*right)),
        Expression::Comparison { left, right, .. } => expr_vars(*left).union(expr_vars(*right)),
        Expression::UnaryExpression { operand, .. } => expr_vars(*operand),
        Expression::Not { operand } => expr_vars(*operand),
        Expression::ConcatExpression { parts } => exprs_vars(parts@),
        Expression::Boolean { operands, .. } => exprs_vars(operands@),
        Expression::DictExpression { entries } => entries_vars(entries@),
        Expression::ArrayExpression { elements } => exprs_vars(elements@),
    }
}

/// The variables several expressions read.
pub open spec fn exprs_vars(es: Seq<Expression>) -> Set<Seq<char>>
    decreases es,
{
    if es.len() == 0 {
        Set::empty()
    } else {
        exprs_vars(es.drop_last()).union(expr_vars(es.last()))
    }
}

/// The variables the values of dictionary entries read.
pub open spec fn entries_vars(es: Seq<(String, Expression)>) -> Set<Seq<char>>
    decreases es,
{
    if es.len() == 0 {
        Set::empty()
    } else {
        entries_vars(es.drop_last()).union(expr_vars(es.last().1))
    }
}

fn collect_all_into(es: &Vec<Expression>, found: &mut Vec<String>)
    requires
        strictly_sorted(strings_view(old(found)@)),
    ensures
        strictly_sorted(strings_view(final(found)@)),
        strings_view(final(found)@).to_set() == strings_view(old(found)@).to_set().union(exprs_vars(es@)),
    decreases es@,
{
    let mut i: usize = 0;
    while i < es.len()
        invariant
            i <= es@.len(),
            strictly_sorted(strings_view(found@)),
            strings_view(found@).to_set() == strings_view(old(found)@).to_set().union(exprs_vars(es@.take(i as int))),
        decreases es@.len() - i,
    {
        proof {
            assert(es@.take(i + 1).drop_last() =~= es@.take(i as int));
            assert(es@.take(i + 1).last() == es@[i as int]);
            assert(decreases_to!(es@ => es@[i as int]));
        }
        collect_expression_variables_into(&es[i], found);
        proof {
            assert(strings_view(found@).to_set() =~= strings_view(old(found)@).to_set().union(exprs_vars(es@.take(i + 1))));
        }
        i += 1;
    }
    assert(es@.take(i as int) =~= es@);
}

/// Adds the variables an expression reads to an ascending list of names.
#[verifier::loop_isolation(false)]
pub fn collect_expression_variables_into(expr: &Expression, found: &mut Vec<String>)
    requires
        strictly_sorted(strings_view(old(found)@)),
    ensures
        strictly_sorted(strings_view(final(found)@)),
        strings_view(final(found)@).to_set() == strings_view(old(found)@).to_set().union(expr_vars(*expr)),
    decreases expr,
{
    let ghost start = strings_view(found@).to_set();
    match expr {
        Expression::AccessPath { variable_name, .. } => {
            insert_sorted_unique(found, string_of(variable_name.as_str()));
            assert(strings_view(found@).to_set() =~= start.union(expr_vars(*expr)));
        }
        Expression::Literal { .. } => {
            assert(strings_view(found@).to_set() =~= start.union(expr_vars(*expr)));
        }
        Expression::BinaryExpression { left, right, .. } => {
            collect_expression_variables_into(&**left, found);
            collect_expression_variables_into(&**right, found);
            assert(strings_view(found@).to_set() =~= start.union(expr_vars(*expr)));
        }
        Expression::Comparison { left, right, .. } => {
            collect_expression_variables_into(&**left, found);
            collect_expression_variables_into(&**right, found);
            assert(strings_view(found@).to_set() =~= start.union(expr_vars(*expr)));
        }
        Expression::UnaryExpression { operand, .. } => {
            collect_expression_variables_into(&**operand, found);
        }
        Expression::Not { operand } => {
            collect_expression_variables_into(&**operand, found);
        }
        Expression::ConcatExpression { parts } => {
            assert(decreases_to!(*expr => parts@));
            collect_all_into(parts, found);
        }
        Expression::Boolean { operands, .. } => {
            assert(decreases_to!(*expr => operands@));
            collect_all_into(operands, found);
        }
        Expression::ArrayExpression { elements } => {
            assert(decreases_to!(*expr => elements@));
            collect_all_into(elements, found);
        }
        Expression::DictExpression { entries } => {
            let mut i: usize = 0;
            while i < entries.len()
                invariant
                    i <= entries@.len(),
                    strictly_sorted(strings_view(found@)),
                    strings_view(found@).to_set() == start.union(entries_vars(entries@.take(i as int))),
                decreases entries@.len() - i,
            {
                proof {
                    assert(entries@.take(i + 1).drop_last() =~= entries@.take(i as int));
                    assert(entries@.take(i + 1).last() == entries@[i as int]);
                    assert(decreases_to!(*expr => entries@[i as int].1));
                }
                collect_expression_variables_into(&entries[i].1, found);
                proof {
                    assert(strings_view(found@).to_set() =~= start.union(entries_vars(entries@.take(i + 1))));
                }
                i += 1;
            }
            assert(entries@.take(i as int) =~= entries@);
        }
    }
}

/// The variables an expression reads, in ascending order.
pub fn collect_expression_variables(expr: &Expression) -> (r: Vec<String>)
    ensures
        strings_view(r@) == sorted_names(expr_vars(*expr)),
{
    let mut found: Vec<String> = Vec::new();
    assert(strings_view(found@).to_set() =~= Set::<Seq<char>>::empty());
    collect_expression_variables_into(expr, &mut found);
    proof {
        assert(strings_view(found@).to_set() =~= expr_vars(*expr));
        lemma_sorted_names(strings_view(found@));
    }
    found
}

/// A diagnostic as plain values: severity, message, variable.
pub type DiagnosticView = (DiagnosticSeverity, Seq<char>, Option<Seq<char>>);

pub open spec fn opt_text(o: Option<String>) -> Option<Seq<char>> {
    match o {
        Some(s) => Some(s@),
        None => None,
    }
}

pub open spec fn diagnostic_view(d: PlanDiagnostic) -> DiagnosticView {
    (d.severity, d.message@, opt_text(d.variable_name))
}

pub open spec fn diagnostics_view(ds: Seq<PlanDiagnostic>) -> Seq<DiagnosticView> {
    Seq::new(ds.len(), |i: int| diagnostic_view(ds[i]))
}

/// The variable a step assigns at its own level.
pub open spec fn output_spec(s: Step) -> Option<Seq<char>> {
    match s {
        Step::AssignStep { target, .. } => Some(target@),
        Step::ToolStep { output_variable, .. } => opt_text(output_variable),
        Step::UserInteractionStep { output_variable, .. } => opt_text(output_variable),
        _ => None,
    }
}

/// The variables the conditions of switch branches read.
pub open spec fn conditions_vars(bs: Seq<ConditionalBranch>) -> Set<Seq<char>>
    decreases bs.len(),
{
    if bs.len() == 0 {
        Set::empty()
    } else {
        conditions_vars(bs.drop_last()).union(
            match bs.last().condition {
                Some(c) => expr_vars(c),
                None => Set::empty(),
            },
        )
    }
}

/// The variables a step reads through its expressions.
pub open spec fn step_refs(s: Step) -> Set<Seq<char>> {
    match s {
        Step::ToolStep { arguments, .. } => exprs_vars(arguments@),
        Step::AssignStep { value, .. } => expr_vars(value),
        Step::SwitchStep { branches } => conditions_vars(branches@),
        Step::WhileStep { condition, .. } => expr_vars(condition),
        _ => Set::empty(),
    }
}

pub open spec fn undefined_msg(v: Seq<char>) -> Seq<char> {
    "Variable '"@ + v + "' is not defined before it is used"@
}

pub open spec fn unknown_tool_msg(id: Seq<char>) -> Seq<char> {
    "Unknown tool_id '"@ + id + "'"@
}

pub open spec fn unused_msg(v: Seq<char>) -> Seq<char> {
    "Warning: local variable '"@ + v + "' is assigned to but never used"@
}

/// Errors for the names, in order, that are not defined.
pub open spec fn undefined_diags(names: Seq<Seq<char>>, defined: Set<Seq<char>>) -> Seq<DiagnosticView>
    decreases names.len(),
{
    if names.len() == 0 {
        Seq::empty()
    } else {
        undefined_diags(names.drop_last(), defined) + if defined.contains(names.last()) {
            Seq::empty()
        } else {
            seq![(DiagnosticSeverity::Error, undefined_msg(names.last()), Some(names.last()))]
        }
    }
}

/// The findings about one step's own references: an unknown tool, an undefined loop
/// iterable, and each undefined variable it reads, in ascending order of names.
pub open spec fn check_diags(s: Step, defined: Set<Seq<char>>, tools: Set<Seq<char>>) -> Seq<DiagnosticView> {
    let tool = match s {
        Step::ToolStep { tool_id, .. } => if tools.contains(tool_id@) {
            Seq::empty()
        } else {
            seq![(DiagnosticSeverity::Error, unknown_tool_msg(tool_id@), None)]
        },
        _ => Seq::empty(),
    };
    let iterable = match s {
        Step::LoopStep { iterable_variable, .. } => if defined.contains(iterable_variable@) {
            Seq::empty()
        } else {
            seq![(DiagnosticSeverity::Error, undefined_msg(iterable_variable@), Some(iterable_variable@))]
        },
        _ => Seq::empty(),
    };
    tool + iterable + undefined_diags(sorted_names(step_refs(s)), defined)
}

/// The variables a step's own references use.
pub open spec fn check_used(s: Step) -> Set<Seq<char>> {
    match s {
        Step::LoopStep { iterable_variable, .. } => set![iterable_variable@],
        _ => step_refs(s),
    }
}

/// The defined names after a step adds its output.
pub open spec fn with_output(defined: Set<Seq<char>>, s: Step) -> Set<Seq<char>> {
    match output_spec(s) {
        Some(o) => defined.insert(o),
        None => defined,
    }
}

/// The defined names after a sequence of steps at one level.
pub open spec fn defined_after(ss: Seq<Step>, defined: Set<Seq<char>>) -> Set<Seq<char>>
    decreases ss.len(),
{
    if ss.len() == 0 {
        defined
    } else {
        with_output(defined_after(ss.drop_last(), defined), ss.last())
    }
}

/// The findings about a step and its nested steps; a nested scope sees the names defined
/// before it (and a loop's item) but its own definitions do not leak out.
pub open spec fn step_diags(s: Step, defined: Set<Seq<char>>, tools: Set<Seq<char>>) -> Seq<DiagnosticView>
    decreases s,
{
    let d2 = with_output(defined, s);
    check_diags(s, defined, tools) + match s {
        Step::SwitchStep { branches } => branches_diags(branches@, d2, tools),
        Step::LoopStep { item_variable, body, .. } => walk_diags(body@, d2.insert(item_variable@), tools),
        Step::WhileStep { body, .. } => walk_diags(body@, d2, tools),
        _ => Seq::empty(),
    }
}

/// The findings about a sequence of steps.
pub open spec fn walk_diags(ss: Seq<Step>, defined: Set<Seq<char>>, tools: Set<Seq<char>>) -> Seq<DiagnosticView>
    decreases ss,
{
    if ss.len() == 0 {
        Seq::empty()
    } else {
        walk_diags(ss.drop_last(), defined, tools) + step_diags(
            ss.last(),
            defined_after(ss.drop_last(), defined),
            tools,
        )
    }
}

/// The findings about the branches of a switch, each branch in its own scope.
pub open spec fn branches_diags(bs: Seq<ConditionalBranch>, defined: Set<Seq<char>>, tools: Set<Seq<char>>) -> Seq<DiagnosticView>
    decreases bs,
{
    if bs.len() == 0 {
        Seq::empty()
    } else {
        branches_diags(bs.drop_last(), defined, tools) + walk_diags(bs.last().steps@, defined, tools)
    }
}

/// The variables a step and its nested steps use.
pub open spec fn step_used(s: Step) -> Set<Seq<char>>
    decreases s,
{
    check_used(s).union(
        match s {
            Step::SwitchStep { branches } => branches_used(branches@),
            Step::LoopStep { body, .. } => steps_used(body@),
            Step::WhileStep { body, .. } => steps_used(body@),
            _ => Set::empty(),
        },
    )
}

/// The variables a sequence of steps uses.
pub open spec fn steps_used(ss: Seq<Step>) -> Set<Seq<char>>
    decreases ss,
{
    if ss.len() == 0 {
        Set::empty()
    } else {
        steps_used(ss.drop_last()).union(step_used(ss.last()))
    }
}

/// The variables the branches of a switch use.
pub open spec fn branches_used(bs: Seq<ConditionalBranch>) -> Set<Seq<char>>
    decreases bs,
{
    if bs.len() == 0 {
        Set::empty()
    } else {
        branches_used(bs.drop_last()).union(steps_used(bs.last().steps@))
    }
}

fn push_diagnostic(diagnostics: &mut Vec<PlanDiagnostic>, d: PlanDiagnostic)
    ensures
        diagnostics_view(final(diagnostics)@) == diagnostics_view(old(diagnostics)@).push(diagnostic_view(d)),
{
    diagnostics.push(d);
    assert(diagnostics_view(diagnostics@) =~= diagnostics_view(old(diagnostics)@).push(diagnostic_view(d)));
}

fn undefined_diagnostic(v: &str) -> (r: PlanDiagnostic)
    ensures
        diagnostic_view(r) == (DiagnosticSeverity::Error, undefined_msg(v@), Some(v@)),
{
    PlanDiagnostic {
        severity: DiagnosticSeverity::Error,
        message: message3("Variable '", v, "' is not defined before it is used"),
        variable_name: Some(string_of(v)),
    }
}

/// The variables a step reads through its expressions, in ascending order.
fn referenced_variables(step: &Step) -> (r: Vec<String>)
    ensures
        strictly_sorted(strings_view(r@)),
        strings_view(r@).to_set() == step_refs(*step),
{
    let mut found: Vec<String> = Vec::new();
    assert(strings_view(found@).to_set() =~= Set::<Seq<char>>::empty());
    match step {
        Step::ToolStep { arguments, .. } => {
            collect_all_into(arguments, &mut found);
        }
        Step::AssignStep { value, .. } => {
            collect_expression_variables_into(value, &mut found);
        }
        Step::SwitchStep { branches } => {
            let mut i: usize = 0;
            while i < branches.len()
                invariant
                    i <= branches@.len(),
                    strictly_sorted(strings_view(found@)),
                    strings_view(found@).to_set() == conditions_vars(branches@.take(i as int)),
                decreases branches@.len() - i,
            {
                proof {
                    assert(branches@.take(i + 1).drop_last() =~= branches@.take(i as int));
                    assert(branches@.take(i + 1).last() == branches@[i as int]);
                }
                match &branches[i].condition {
                    Some(c) => {
                        collect_expression_variables_into(c, &mut found);
                    }
                    None => {}
                }
                proof {
                    assert(strings_view(found@).to_set() =~= conditions_vars(branches@.take(i + 1)));
                }
                i += 1;
            }
            assert(branches@.take(i as int) =~= branches@);
        }
        Step::WhileStep { condition, .. } => {
            collect_expression_variables_into(condition, &mut found);
        }
        _ => {}
    }
    assert(strings_view(found@).to_set() =~= step_refs(*step));
    found
}

/// Records a step's own references: an unknown tool, an undefined loop iterable, and each
/// undefined variable it reads.
fn check_step_references(
    step: &Step,
    defined: &Vec<String>,
    used: &mut Vec<String>,
    diagnostics: &mut Vec<PlanDiagnostic>,
    tool_ids: &Vec<String>,
)
    requires
        strictly_sorted(strings_view(old(used)@)),
    ensures
        strictly_sorted(strings_view(final(used)@)),
        strings_view(final(used)@).to_set() == strings_view(old(used)@).to_set().union(check_used(*step)),
        diagnostics_view(final(diagnostics)@) == diagnostics_view(old(diagnostics)@) + check_diags(
            *step,
            strings_view(defined@).to_set(),
            strings_view(tool_ids@).to_set(),
        ),
{
    let ghost start = diagnostics_view(diagnostics@);
    let ghost dset = strings_view(defined@).to_set();
    let ghost tset = strings_view(tool_ids@).to_set();
    match step {
        Step::ToolStep { tool_id, .. } => {
            if !strings_contain(tool_ids, tool_id.as_str()) {
                push_diagnostic(
                    diagnostics,
                    PlanDiagnostic {
                        severity: DiagnosticSeverity::Error,
                        message: message3("Unknown tool_id '", tool_id.as_str(), "'"),
                        variable_name: None,
                    },
                );
            }
        }
        Step::LoopStep { iterable_variable, .. } => {
            insert_sorted_unique(used, string_of(iterable_variable.as_str()));
            if !strings_contain(defined, iterable_variable.as_str()) {
                push_diagnostic(diagnostics, undefined_diagnostic(iterable_variable.as_str()));
            }
        }
        _ => {}
    }
    let ghost mid = diagnostics_view(diagnostics@);
    let names = referenced_variables(step);
    proof {
        lemma_sorted_names(strings_view(names@));
    }
    let mut i: usize = 0;
    while i < names.len()
        invariant
            i <= names@.len(),
            strictly_sorted(strings_view(used@)),
            strings_view(used@).to_set() == strings_view(old(used)@).to_set().union(
                match *step {
                    Step::LoopStep { iterable_variable, .. } => set![iterable_variable@],
                    _ => Set::empty(),
                },
            ).union(strings_view(names@).take(i as int).to_set()),
            diagnostics_view(diagnostics@) == mid + undefined_diags(strings_view(names@).take(i as int), dset),
            dset == strings_view(defined@).to_set(),
        decreases names@.len() - i,
    {
        let ghost before_used = strings_view(used@).to_set();
        insert_sorted_unique(used, string_of(names[i].as_str()));
        if !strings_contain(defined, names[i].as_str()) {
            push_diagnostic(diagnostics, undefined_diagnostic(names[i].as_str()));
        }
        proof {
            let nv = strings_view(names@);
            assert(nv.take(i + 1).drop_last() =~= nv.take(i as int));
            assert(nv.take(i + 1).last() == nv[i as int]);
            assert(nv.take(i + 1).to_set() =~= nv.take(i as int).to_set().insert(nv[i as int]));
            assert(strings_view(used@).to_set() =~= strings_view(old(used)@).to_set().union(
                match *step {
                    Step::LoopStep { iterable_variable, .. } => set![iterable_variable@],
                    _ => Set::empty(),
                },
            ).union(nv.take(i + 1).to_set()));
        }
        i += 1;
    }
    proof {
        assert(strings_view(names@).take(i as int) =~= strings_view(names@));
        assert(strings_view(used@).to_set() =~= strings_view(old(used)@).to_set().union(check_used(*step)));
        assert(diagnostics_view(diagnostics@) =~= start + check_diags(*step, dset, tset));
    }
}

/// The variable a step assigns at its own level.
pub fn output_variable(step: &Step) -> (r: Option<&str>)
    ensures
        match r {
            Some(o) => output_spec(*step) == Some(o@),
            None => output_spec(*step) is None,
        },
{
    match step {
        Step::AssignStep { target, .. } => Some(target.as_str()),
        Step::ToolStep { output_variable, .. } => match output_variable {
            Some(o) => Some(o.as_str()),
            None => None,
        },
        Step::UserInteractionStep { output_variable, .. } => match output_variable {
            Some(o) => Some(o.as_str()),
            None => None,
        },
        _ => None,
    }
}

/// The variable the last step of a sequence produces as the plan's result: an assignment's
/// target or a tool call's output variable.
pub open spec fn last_output_spec(ss: Seq<Step>) -> Option<Seq<char>> {
    if ss.len() == 0 {
        None
    } else {
        match ss.last() {
            Step::AssignStep { target, .. } => Some(target@),
            Step::ToolStep { output_variable, .. } => opt_text(output_variable),
            _ => None,
        }
    }
}

/// The variable the last step produces as the plan's result.
pub fn last_output_variable(steps: &Vec<Step>) -> (r: Option<String>)
    ensures
        opt_text(r) == last_output_spec(steps@),
{
    let n = steps.len();
    if n == 0 {
        return None;
    }
    match &steps[n - 1] {
        Step::AssignStep { target, .. } => Some(string_of(target.as_str())),
        Step::ToolStep { output_variable, .. } => match output_variable {
            Some(o) => Some(string_of(o.as_str())),
            None => None,
        },
        _ => None,
    }
}

fn walk_steps(
    steps: &Vec<Step>,
    defined: &mut Vec<String>,
    used: &mut Vec<String>,
    diagnostics: &mut Vec<PlanDiagnostic>,
    tool_ids: &Vec<String>,
)
    requires
        strictly_sorted(strings_view(old(defined)@)),
        strictly_sorted(strings_view(old(used)@)),
    ensures
        strictly_sorted(strings_view(final(defined)@)),
        strictly_sorted(strings_view(final(used)@)),
        strings_view(final(defined)@).to_set() == defined_after(steps@, strings_view(old(defined)@).to_set()),
        strings_view(final(used)@).to_set() == strings_view(old(used)@).to_set().union(steps_used(steps@)),
        diagnostics_view(final(diagnostics)@) == diagnostics_view(old(diagnostics)@) + walk_diags(
            steps@,
            strings_view(old(defined)@).to_set(),
            strings_view(tool_ids@).to_set(),
        ),
    decreases steps@,
{
    let ghost d0 = strings_view(defined@).to_set();
    let ghost t = strings_view(tool_ids@).to_set();
    let ghost diag0 = diagnostics_view(diagnostics@);
    let mut i: usize = 0;
    while i < steps.len()
        invariant
            i <= steps@.len(),
            strictly_sorted(strings_view(defined@)),
            strictly_sorted(strings_view(used@)),
            t == strings_view(tool_ids@).to_set(),
            d0 == strings_view(old(defined)@).to_set(),
            diag0 == diagnostics_view(old(diagnostics)@),
            strings_view(defined@).to_set() == defined_after(steps@.take(i as int), d0),
            strings_view(used@).to_set() == strings_view(old(used)@).to_set().union(steps_used(steps@.take(i as int))),
            diagnostics_view(diagnostics@) == diag0 + walk_diags(steps@.take(i as int), d0, t),
        decreases steps@.len() - i,
    {
        proof {
            assert(steps@.take(i + 1).drop_last() =~= steps@.take(i as int));
            assert(steps@.take(i + 1).last() == steps@[i as int]);
            assert(decreases_to!(steps@ => steps@[i as int]));
        }
        walk_step(&steps[i], defined, used, diagnostics, tool_ids);
        proof {
            assert(strings_view(used@).to_set() =~= strings_view(old(used)@).to_set().union(steps_used(steps@.take(i + 1))));
            assert(diagnostics_view(diagnostics@) =~= diag0 + walk_diags(steps@.take(i + 1), d0, t));
        }
        i += 1;
    }
    assert(steps@.take(i as int) =~= steps@);
}

#[verifier::loop_isolation(false)]
fn walk_step(
    step: &Step,
    defined: &mut Vec<String>,
    used: &mut Vec<String>,
    diagnostics: &mut Vec<PlanDiagnostic>,
    tool_ids: &Vec<String>,
)
    requires
        strictly_sorted(strings_view(old(defined)@)),
        strictly_sorted(strings_view(old(used)@)),
    ensures
        strictly_sorted(strings_view(final(defined)@)),
        strictly_sorted(strings_view(final(used)@)),
        strings_view(final(defined)@).to_set() == with_output(strings_view(old(defined)@).to_set(), *step),
        strings_view(final(used)@).to_set() == strings_view(old(used)@).to_set().union(step_used(*step)),
        diagnostics_view(final(diagnostics)@) == diagnostics_view(old(diagnostics)@) + step_diags(
            *step,
            strings_view(old(defined)@).to_set(),
            strings_view(tool_ids@).to_set(),
        ),
    decreases step,
{
    let ghost d0 = strings_view(defined@).to_set();
    let ghost u0 = strings_view(used@).to_set();
    let ghost t = strings_view(tool_ids@).to_set();
    let ghost diag0 = diagnostics_view(diagnostics@);
    check_step_references(step, defined, used, diagnostics, tool_ids);
    match output_variable(step) {
        Some(o) => {
            insert_sorted_unique(defined, string_of(o));
        }
        None => {
            assert(strings_view(defined@).to_set() =~= with_output(d0, *step));
        }
    }
    let ghost d2 = strings_view(defined@).to_set();
    let ghost diag1 = diagnostics_view(diagnostics@);
    let ghost u1 = strings_view(used@).to_set();
    match step {
        Step::SwitchStep { branches } => {
            let mut i: usize = 0;
            while i < branches.len()
                invariant
                    i <= branches@.len(),
                    strictly_sorted(strings_view(defined@)),
                    strictly_sorted(strings_view(used@)),
                    strings_view(defined@).to_set() == d2,
                    strings_view(used@).to_set() == u1.union(branches_used(branches@.take(i as int))),
                    diagnostics_view(diagnostics@) == diag1 + branches_diags(branches@.take(i as int), d2, t),
                decreases branches@.len() - i,
            {
                proof {
                    assert(branches@.take(i + 1).drop_last() =~= branches@.take(i as int));
                    assert(branches@.take(i + 1).last() == branches@[i as int]);
                    assert(*branches == (*step)->branches);
                    assert(decreases_to!(*step => (*step)->branches));
                    assert(decreases_to!(*branches => branches@));
                    assert(decreases_to!(branches@ => branches@[i as int]));
                    assert(decreases_to!(branches@[i as int] => branches@[i as int].steps));
                    assert(decreases_to!(branches@[i as int].steps => branches@[i as int].steps@));
                }
                let mut scope = copy_strings(defined);
                walk_steps(&branches[i].steps, &mut scope, used, diagnostics, tool_ids);
                proof {
                    assert(strings_view(used@).to_set() =~= u1.union(branches_used(branches@.take(i + 1))));
                    assert(diagnostics_view(diagnostics@) =~= diag1 + branches_diags(branches@.take(i + 1), d2, t));
                }
                i += 1;
            }
            proof {
                assert(branches@.take(i as int) =~= branches@);
                assert(strings_view(used@).to_set() =~= u0.union(step_used(*step)));
                assert(diagnostics_view(diagnostics@) =~= diag0 + step_diags(*step, d0, t));
            }
        }
        Step::LoopStep { item_variable, body, .. } => {
            let mut scope = copy_strings(defined);
            insert_sorted_unique(&mut scope, string_of(item_variable.as_str()));
            walk_steps(body, &mut scope, used, diagnostics, tool_ids);
            proof {
                assert(strings_view(used@).to_set() =~= u0.union(step_used(*step)));
                assert(diagnostics_view(diagnostics@) =~= diag0 + step_diags(*step, d0, t));
            }
        }
        Step::WhileStep { body, .. } => {
            let mut scope = copy_strings(defined);
            walk_steps(body, &mut scope, used, diagnostics, tool_ids);
            proof {
                assert(strings_view(used@).to_set() =~= u0.union(step_used(*step)));
                assert(diagnostics_view(diagnostics@) =~= diag0 + step_diags(*step, d0, t));
            }
        }
        _ => {
            proof {
                assert(strings_view(used@).to_set() =~= u0.union(step_used(*step)));
                assert(diagnostics_view(diagnostics@) =~= diag0 + step_diags(*step, d0, t));
            }
        }
    }
}

/// The identifiers of tool descriptions.
pub open spec fn tool_ids_spec(tools: Seq<ToolDescription>) -> Set<Seq<char>> {
    Seq::new(tools.len(), |i: int| tools[i].id@).to_set()
}

/// Warnings for the top-level outputs that nothing uses, except the plan's result.
pub open spec fn unused_warnings(ss: Seq<Step>, used: Set<Seq<char>>, last: Option<Seq<char>>) -> Seq<DiagnosticView>
    decreases ss.len(),
{
    if ss.len() == 0 {
        Seq::empty()
    } else {
        unused_warnings(ss.drop_last(), used, last) + match output_spec(ss.last()) {
            Some(o) => if !used.contains(o) && Some(o) != last {
                seq![(DiagnosticSeverity::Warning, unused_msg(o), Some(o))]
            } else {
                Seq::empty()
            },
            None => Seq::empty(),
        }
    }
}

/// All findings about a plan: errors from walking its steps from an empty scope, then
/// warnings for unused top-level outputs.
pub open spec fn validate_spec(plan: AbstractPlan, tools: Seq<ToolDescription>) -> Seq<DiagnosticView> {
    walk_diags(plan.steps@, Set::empty(), tool_ids_spec(tools)) + unused_warnings(
        plan.steps@,
        steps_used(plan.steps@),
        last_output_spec(plan.steps@),
    )
}

/// Checks a plan's structure and references and reports errors and warnings.
pub fn validate_plan(plan: &AbstractPlan, available_tools: &[ToolDescription]) -> (r: Vec<PlanDiagnostic>)
    ensures
        diagnostics_view(r@) == validate_spec(*plan, available_tools@),
{
    let mut diagnostics: Vec<PlanDiagnostic> = Vec::new();
    let mut defined: Vec<String> = Vec::new();
    let mut used: Vec<String> = Vec::new();
    let mut tool_ids: Vec<String> = Vec::new();
    let mut k: usize = 0;
    while k < available_tools.len()
        invariant
            k <= available_tools@.len(),
            tool_ids@.len() == k,
            forall|j: int| 0 <= j < k ==> (#[trigger] tool_ids@[j])@ == available_tools@[j].id@,
        decreases available_tools@.len() - k,
    {
        tool_ids.push(string_of(available_tools[k].id.as_str()));
        k += 1;
    }
    assert(strings_view(tool_ids@) =~= Seq::new(available_tools@.len(), |i: int| available_tools@[i].id@));
    assert(strings_view(tool_ids@).to_set() == tool_ids_spec(available_tools@));
    assert(strings_view(defined@).to_set() =~= Set::<Seq<char>>::empty());
    assert(strings_view(used@).to_set() =~= Set::<Seq<char>>::empty());
    assert(diagnostics_view(diagnostics@) =~= Seq::<DiagnosticView>::empty());
    walk_steps(&plan.steps, &mut defined, &mut used, &mut diagnostics, &tool_ids);
    let ghost used_all = steps_used(plan.steps@);
    assert(strings_view(used@).to_set() =~= used_all);
    let last_output = last_output_variable(&plan.steps);
    let ghost walked = diagnostics_view(diagnostics@);
    let mut i: usize = 0;
    while i < plan.steps.len()
        invariant
            i <= plan.steps@.len(),
            strings_view(used@).to_set() == used_all,
            opt_text(last_output) == last_output_spec(plan.steps@),
            diagnostics_view(diagnostics@) == walked + unused_warnings(
                plan.steps@.take(i as int),
                used_all,
                last_output_spec(plan.steps@),
            ),
        decreases plan.steps@.len() - i,
    {
        proof {
            assert(plan.steps@.take(i + 1).drop_last() =~= plan.steps@.take(i as int));
            assert(plan.steps@.take(i + 1).last() == plan.steps@[i as int]);
        }
        match output_variable(&plan.steps[i]) {
            Some(o) => {
                let is_last = match &last_output {
                    Some(l) => crate::text::str_eq(l.as_str(), o),
                    None => false,
                };
                if !strings_contain(&used, o) && !is_last {
                    push_diagnostic(
                        &mut diagnostics,
                        PlanDiagnostic {
                            severity: DiagnosticSeverity::Warning,
                            message: message3("Warning: local variable '", o, "' is assigned to but never used"),
                            variable_name: Some(string_of(o)),
                        },
                    );
                }
            }
            None => {}
        }
        proof {
            assert(diagnostics_view(diagnostics@) =~= walked + unused_warnings(
                plan.steps@.take(i + 1),
                used_all,
                last_output_spec(plan.steps@),
            ));
        }
        i += 1;
    }
    assert(plan.steps@.take(i as int) =~= plan.steps@);
    diagnostics
}

} // verus!
