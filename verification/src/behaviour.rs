//! Properties that say what single operations mean, stated against plain definitions: the
//! order of strings, the text of a formatted switch, the scope the validator checks a nested
//! body in, the meaning of Python's comparison operators, and how shell output reads as a
//! boolean.

use vstd::prelude::*;

use crate::execution::evaluator::{comparison_spec, eval_spec};
use crate::json::Json;
use crate::plan::expression::comparison_operator_text;
use crate::plan::model::ExprV;
use crate::plan::{BranchKind, ComparisonOperator, ConditionalBranch, Expression, Step};
use crate::plan::DiagnosticSeverity;
use crate::plan_format::{branches_lines, format_spec, step_lines};
use crate::planning::validator::{
    branches_diags, check_diags, defined_after, step_diags, undefined_diags, undefined_msg, walk_diags, with_output,
    DiagnosticView,
};
use crate::planning::parser::expressions::{comparison_operator_spec, lower_compare};
use crate::planning::syntax::PyExpr;
use crate::text::{lex_lt, trim_spec};
use crate::tools::shell::{ascii_lower, parse_output_outcome, OutputParsing, OutputView};

verus! {

/// `a` sorts before `b`: at the first position where they differ `a` has the smaller
/// character, or `a` is a proper prefix of `b`.
pub open spec fn sorts_before(a: Seq<char>, b: Seq<char>) -> bool {
    ||| exists|i: int|
        0 <= i < a.len() && i < b.len() && #[trigger] a.take(i) == b.take(i) && (a[i] as int) < (b[i] as int)
    ||| (a.len() < b.len() && b.take(a.len() as int) == a)
}

proof fn lemma_lex_lt_is_sorts_before(a: Seq<char>, b: Seq<char>)
    ensures
        lex_lt(a, b) == sorts_before(a, b),
    decreases a.len(),
{
    if a.len() == 0 {
        assert(b.take(0) =~= a);
    } else if b.len() == 0 {
    } else if a[0] == b[0] {
        let a1 = a.drop_first();
        let b1 = b.drop_first();
        lemma_lex_lt_is_sorts_before(a1, b1);
        if sorts_before(a1, b1) {
            if exists|i: int| 0 <= i < a1.len() && i < b1.len() && #[trigger] a1.take(i) == b1.take(i) && (a1[i] as int) < (b1[i] as int) {
                let i = choose|i: int| 0 <= i < a1.len() && i < b1.len() && #[trigger] a1.take(i) == b1.take(i) && (a1[i] as int) < (b1[i] as int);
                assert(a.take(i + 1) =~= seq![a[0]] + a1.take(i));
                assert(b.take(i + 1) =~= seq![b[0]] + b1.take(i));
                assert(a.take(i + 1) == b.take(i + 1));
                assert(a[i + 1] == a1[i] && b[i + 1] == b1[i]);
            } else {
                assert(b.take(a.len() as int) =~= seq![b[0]] + b1.take(a1.len() as int));
                assert(a =~= seq![a[0]] + a1);
            }
        } else {
            if exists|i: int| 0 <= i < a.len() && i < b.len() && #[trigger] a.take(i) == b.take(i) && (a[i] as int) < (b[i] as int) {
                let i = choose|i: int| 0 <= i < a.len() && i < b.len() && #[trigger] a.take(i) == b.take(i) && (a[i] as int) < (b[i] as int);
                assert(i > 0);
                assert(a1.take(i - 1) =~= a.take(i).drop_first());
                assert(b1.take(i - 1) =~= b.take(i).drop_first());
                assert(a1.take(i - 1) == b1.take(i - 1));
                assert(a1[i - 1] == a[i] && b1[i - 1] == b[i]);
                assert(false);
            }
            if a.len() < b.len() && b.take(a.len() as int) == a {
                assert(b1.take(a1.len() as int) =~= b.take(a.len() as int).drop_first());
                assert(a1 =~= a.drop_first());
                assert(false);
            }
        }
    } else {
        if (a[0] as int) < (b[0] as int) {
            assert(a.take(0) =~= b.take(0));
        }
        if exists|i: int| 0 <= i < a.len() && i < b.len() && #[trigger] a.take(i) == b.take(i) && (a[i] as int) < (b[i] as int) {
            let i = choose|i: int| 0 <= i < a.len() && i < b.len() && #[trigger] a.take(i) == b.take(i) && (a[i] as int) < (b[i] as int);
            if i > 0 {
                assert(a.take(i)[0] == b.take(i)[0]);
            }
        }
        if a.len() < b.len() && b.take(a.len() as int) == a {
            assert(b.take(a.len() as int)[0] == b[0]);
        }
    }
}

/// Two strings compare lexicographically: `a < b` holds exactly when `a` sorts before `b`,
/// `a > b` when `b` sorts before `a`, and `<=`, `>=` are their negations the other way round.
pub proof fn law_strings_compare_lexicographically(a: Seq<char>, b: Seq<char>)
    ensures
        comparison_spec(ComparisonOperator::LessThan, Json::Str(a), Json::Str(b)) == Ok::<bool, Seq<char>>(
            sorts_before(a, b),
        ),
        comparison_spec(ComparisonOperator::GreaterThan, Json::Str(a), Json::Str(b)) == Ok::<bool, Seq<char>>(
            sorts_before(b, a),
        ),
        comparison_spec(ComparisonOperator::LessThanOrEqual, Json::Str(a), Json::Str(b)) == Ok::<bool, Seq<char>>(
            !sorts_before(b, a),
        ),
        comparison_spec(ComparisonOperator::GreaterThanOrEqual, Json::Str(a), Json::Str(b)) == Ok::<bool, Seq<char>>(
            !sorts_before(a, b),
        ),
{
    lemma_lex_lt_is_sorts_before(a, b);
    lemma_lex_lt_is_sorts_before(b, a);
}

/// Comparing two expressions that evaluate to strings orders them lexicographically: the
/// comparison `left < right` evaluates to whether the left string sorts before the right one.
pub proof fn law_string_comparison_evaluates_lexicographically(
    left: Expression,
    right: Expression,
    vars: Map<Seq<char>, Json>,
    a: Seq<char>,
    b: Seq<char>,
)
    requires
        eval_spec(left, vars) == Ok::<Json, Seq<char>>(Json::Str(a)),
        eval_spec(right, vars) == Ok::<Json, Seq<char>>(Json::Str(b)),
    ensures
        eval_spec(
            Expression::Comparison { operator: ComparisonOperator::LessThan, left: Box::new(left), right: Box::new(right) },
            vars,
        ) == Ok::<Json, Seq<char>>(Json::Bool(sorts_before(a, b))),
        eval_spec(
            Expression::Comparison { operator: ComparisonOperator::GreaterThan, left: Box::new(left), right: Box::new(right) },
            vars,
        ) == Ok::<Json, Seq<char>>(Json::Bool(sorts_before(b, a))),
{
    law_strings_compare_lexicographically(a, b);
}

/// Boolean shell output reads as true exactly when its trimmed, lower-cased standard output
/// is `true`, `1` or `yes`, and as false otherwise; standard error plays no part.
pub proof fn law_bool_output_reads_true_one_or_yes(stdout: Seq<char>, stderr: Seq<char>, tool_id: Seq<char>)
    ensures
        parse_output_outcome(OutputParsing::Bool, stdout, stderr, tool_id) == Ok::<OutputView, Seq<char>>(
            OutputView::Ready(
                Json::Bool({
                    let t = ascii_lower(trim_spec(stdout));
                    t == "true"@ || t == "1"@ || t == "yes"@
                }),
            ),
        ),
{
}

/// The Python source text of a comparison operator, given the name the syntax tree gives it.
pub open spec fn python_comparison_text(name: Seq<char>) -> Option<Seq<char>> {
    if name == "Eq"@ {
        Some("=="@)
    } else if name == "NotEq"@ {
        Some("!="@)
    } else if name == "Lt"@ {
        Some("<"@)
    } else if name == "LtE"@ {
        Some("<="@)
    } else if name == "Gt"@ {
        Some(">"@)
    } else if name == "GtE"@ {
        Some(">="@)
    } else if name == "In"@ {
        Some("in"@)
    } else if name == "NotIn"@ {
        Some("not in"@)
    } else if name == "Is"@ {
        Some("is"@)
    } else if name == "IsNot"@ {
        Some("is not"@)
    } else {
        None
    }
}

/// Every Python comparison operator lowers to the plan operator that is written the same way:
/// `<=` stays `<=`, `not in` stays `not in`, and so on.
pub proof fn law_comparison_operators_keep_their_meaning(name: Seq<char>)
    requires
        python_comparison_text(name) is Some,
    ensures
        Some(comparison_operator_text(comparison_operator_spec(name))) == python_comparison_text(name),
{
    reveal_strlit("Eq");
    reveal_strlit("NotEq");
    reveal_strlit("Lt");
    reveal_strlit("LtE");
    reveal_strlit("Gt");
    reveal_strlit("GtE");
    reveal_strlit("In");
    reveal_strlit("NotIn");
    reveal_strlit("Is");
    reveal_strlit("IsNot");
    assert(name.len() >= 2);
    assert(name[0] == name[0] && name[1] == name[1]);
    if name.len() > 2 {
        assert(name[2] == name[2]);
    }
    if name.len() > 3 {
        assert(name[3] == name[3]);
    }
}

/// A single Python comparison lowers to one plan comparison whose operator is written as the
/// Python operator is.
pub proof fn law_single_comparison_keeps_its_operator(e: PyExpr)
    requires
        e matches PyExpr::Compare { ops, comparators, .. } && ops@.len() == 1 && comparators@.len() == 1
            && python_comparison_text(ops@[0]@) is Some,
    ensures
        lower_compare(e) matches Ok(ExprV::Comparison(op, _, _)) ==> e matches PyExpr::Compare { ops, .. } && Some(
            comparison_operator_text(op),
        ) == python_comparison_text(ops@[0]@),
{
    match e {
        PyExpr::Compare { ops, .. } => {
            law_comparison_operators_keep_their_meaning(ops@[0]@);
        },
        _ => {},
    }
}

proof fn lemma_branches_lines_prefix(bs: Seq<ConditionalBranch>, prefix: Seq<char>, j: int)
    requires
        0 <= j <= bs.len(),
    ensures
        branches_lines(bs.take(j), prefix).len() <= branches_lines(bs, prefix).len(),
        branches_lines(bs, prefix).take(branches_lines(bs.take(j), prefix).len() as int) == branches_lines(
            bs.take(j),
            prefix,
        ),
    decreases bs.len(),
{
    if j == bs.len() {
        assert(bs.take(j) =~= bs);
        assert(branches_lines(bs, prefix).take(branches_lines(bs, prefix).len() as int) =~= branches_lines(bs, prefix));
    } else {
        lemma_branches_lines_prefix(bs.drop_last(), prefix, j);
        assert(bs.drop_last().take(j) =~= bs.take(j));
        let whole = branches_lines(bs, prefix);
        let front = branches_lines(bs.drop_last(), prefix);
        let part = branches_lines(bs.take(j), prefix);
        assert(whole.take(front.len() as int) =~= front);
        assert(whole.take(part.len() as int) =~= front.take(part.len() as int));
    }
}

/// A formatted switch writes each branch as a header followed by its steps: the header of an
/// `elif` branch is `elif <condition>:`, only a first `if` branch starts with `if`, and a
/// branch without a condition is `else:`. The header of branch `i` stands right after the
/// lines of the branches before it.
pub proof fn law_switch_branch_headers(s: Step, prefix: Seq<char>, i: int)
    requires
        s is SwitchStep,
        0 <= i < s->branches@.len(),
    ensures
        ({
            let bs = s->branches@;
            let lines = step_lines(s, prefix);
            let at = branches_lines(bs.take(i), prefix).len();
            &&& at < lines.len()
            &&& match bs[i].condition {
                None => lines[at as int] == prefix + "else:"@,
                Some(c) => if bs[i].kind is Else {
                    lines[at as int] == prefix + "else:"@
                } else if i == 0 && bs[i].kind is If {
                    lines[at as int] == prefix + "if "@ + format_spec(c) + ":"@
                } else {
                    lines[at as int] == prefix + "elif "@ + format_spec(c) + ":"@
                },
            }
        }),
{
    let bs = s->branches@;
    lemma_branches_lines_prefix(bs, prefix, i + 1);
    let upto = bs.take(i + 1);
    assert(upto.drop_last() =~= bs.take(i));
    assert(upto.last() == bs[i]);
    let part = branches_lines(upto, prefix);
    let before = branches_lines(bs.take(i), prefix);
    assert(step_lines(s, prefix).take(part.len() as int)[before.len() as int] == part[before.len() as int]);
}

/// The error that says `x` is read before it is defined.
pub open spec fn undefined_error(x: Seq<char>) -> DiagnosticView {
    (DiagnosticSeverity::Error, undefined_msg(x), Some(x))
}

proof fn lemma_undefined_diags_skip_defined(names: Seq<Seq<char>>, defined: Set<Seq<char>>, x: Seq<char>)
    requires
        defined.contains(x),
    ensures
        !undefined_diags(names, defined).contains(undefined_error(x)),
    decreases names.len(),
{
    if names.len() > 0 {
        lemma_undefined_diags_skip_defined(names.drop_last(), defined, x);
    }
}

proof fn lemma_defined_after_grows(ss: Seq<Step>, defined: Set<Seq<char>>, x: Seq<char>)
    requires
        defined.contains(x),
    ensures
        defined_after(ss, defined).contains(x),
    decreases ss.len(),
{
    if ss.len() > 0 {
        lemma_defined_after_grows(ss.drop_last(), defined, x);
    }
}

proof fn lemma_step_keeps_defined(s: Step, defined: Set<Seq<char>>, tools: Set<Seq<char>>, x: Seq<char>)
    requires
        defined.contains(x),
    ensures
        !step_diags(s, defined, tools).contains(undefined_error(x)),
    decreases s,
{
    let d2 = with_output(defined, s);
    assert(d2.contains(x));
    lemma_undefined_diags_skip_defined(crate::text::sorted_names(crate::planning::validator::step_refs(s)), defined, x);
    let own = check_diags(s, defined, tools);
    assert(!own.contains(undefined_error(x)));
    let nested = match s {
        Step::SwitchStep { branches } => {
            lemma_branches_keep_defined(branches@, d2, tools, x);
            branches_diags(branches@, d2, tools)
        },
        Step::LoopStep { item_variable, body, .. } => {
            lemma_walk_keeps_defined(body@, d2.insert(item_variable@), tools, x);
            walk_diags(body@, d2.insert(item_variable@), tools)
        },
        Step::WhileStep { body, .. } => {
            lemma_walk_keeps_defined(body@, d2, tools, x);
            walk_diags(body@, d2, tools)
        },
        _ => Seq::empty(),
    };
    assert(step_diags(s, defined, tools) == own + nested);
    assert(!nested.contains(undefined_error(x)));
}

proof fn lemma_walk_keeps_defined(ss: Seq<Step>, defined: Set<Seq<char>>, tools: Set<Seq<char>>, x: Seq<char>)
    requires
        defined.contains(x),
    ensures
        !walk_diags(ss, defined, tools).contains(undefined_error(x)),
    decreases ss,
{
    if ss.len() > 0 {
        lemma_walk_keeps_defined(ss.drop_last(), defined, tools, x);
        lemma_defined_after_grows(ss.drop_last(), defined, x);
        lemma_step_keeps_defined(ss.last(), defined_after(ss.drop_last(), defined), tools, x);
    }
}

proof fn lemma_branches_keep_defined(bs: Seq<ConditionalBranch>, defined: Set<Seq<char>>, tools: Set<Seq<char>>, x: Seq<char>)
    requires
        defined.contains(x),
    ensures
        !branches_diags(bs, defined, tools).contains(undefined_error(x)),
    decreases bs,
{
    if bs.len() > 0 {
        lemma_branches_keep_defined(bs.drop_last(), defined, tools, x);
        lemma_walk_keeps_defined(bs.last().steps@, defined, tools, x);
    }
}

/// A variable defined in the enclosing scope is defined in every nested scope too: walking
/// steps with `x` among the defined names never reports `x` as read before it is defined,
/// neither at their own level nor in the bodies of switches, `for` loops and `while` loops.
pub proof fn law_defined_variables_stay_defined_in_nested_scopes(
    ss: Seq<Step>,
    defined: Set<Seq<char>>,
    tools: Set<Seq<char>>,
    x: Seq<char>,
)
    requires
        defined.contains(x),
    ensures
        !walk_diags(ss, defined, tools).contains(undefined_error(x)),
{
    lemma_walk_keeps_defined(ss, defined, tools, x);
}

/// An assignment that reads a variable not yet defined is reported: the assignment
/// `target = x` with `x` not among the defined names gives the error naming `x`.
pub proof fn law_reading_an_undefined_variable_is_reported(
    s: Step,
    defined: Set<Seq<char>>,
    tools: Set<Seq<char>>,
)
    requires
        s matches Step::AssignStep { value: Expression::AccessPath { variable_name, .. }, .. } && !defined.contains(
            variable_name@,
        ),
    ensures
        s matches Step::AssignStep { value: Expression::AccessPath { variable_name, .. }, .. } && step_diags(
            s,
            defined,
            tools,
        ).contains(undefined_error(variable_name@)),
{
    match s {
        Step::AssignStep { value: Expression::AccessPath { variable_name, .. }, .. } => {
            let x = variable_name@;
            let q = seq![x];
            assert forall|y: Seq<char>| q.to_set().contains(y) <==> set![x].contains(y) by {
                if y == x {
                    assert(q[0] == y);
                }
            }
            assert(q.to_set() =~= set![x]);
            crate::text::lemma_sorted_names(q);
            let diags = step_diags(s, defined, tools);
            assert(q.drop_last() =~= Seq::<Seq<char>>::empty());
            assert(q.last() == x);
            assert(undefined_diags(q.drop_last(), defined) =~= Seq::<DiagnosticView>::empty());
            assert(undefined_diags(q, defined) == undefined_diags(q.drop_last(), defined) + seq![undefined_error(x)]);
            assert(undefined_diags(q, defined) =~= seq![undefined_error(x)]);
            assert(diags =~= seq![undefined_error(x)]);
            assert(diags[0] == undefined_error(x));
        },
        _ => {},
    }
}

} // verus!
