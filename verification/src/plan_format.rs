//! Rendering plans and expressions back into readable, Python-like text.

use vstd::prelude::*;
use vstd::string::*;

use crate::json::{json_quote, json_text, quote_spec, to_json_text};
use crate::plan::expression::{
    binary_operator_text, boolean_operator_text, comparison_operator_text, literal_json, unary_operator_text,
};
use crate::plan::{AbstractPlan, Accessor, BranchKind, ConditionalBranch, Expression, Step};
use crate::execution::evaluator::literal_to_json;
use crate::text::{int_text, join_spec, push_i64_text, strings_view, join_strings, repeat_spec, trim, trim_spec};

verus! {

broadcast use vstd::std_specs::vec::group_vec_axioms;

/// The text of one accessor of an access path.
pub open spec fn accessor_text(a: Accessor) -> Seq<char> {
    match a {
        Accessor::Attribute(k) => "."@ + k@,
        Accessor::Key(k) => "["@ + quote_spec(k@) + "]"@,
        Accessor::Index(i) => "["@ + int_text(i as int) + "]"@,
    }
}

/// The texts of accessors, in order.
pub open spec fn accessors_text(accs: Seq<Accessor>) -> Seq<char>
    decreases accs.len(),
{
    if accs.len() == 0 {
        Seq::empty()
    } else {
        accessors_text(accs.drop_last()) + accessor_text(accs.last())
    }
}

/// The surface text of an expression.
pub open spec fn format_spec(e: Expression) -> Seq<char>
    decreases e,
{
    match e {
        Expression::Literal { value } => json_text(literal_json(value)),
        Expression::AccessPath { variable_name, accessors } => variable_name@ + accessors_text(accessors@),
        Expression::BinaryExpression { operator, left, right } => format_spec(*left) + " "@ + binary_operator_text(
            operator,
        ) + " "@ + format_spec(*right),
        Expression::Comparison { operator, left, right } => format_spec(*left) + " "@ + comparison_operator_text(operator)
            + " "@ + format_spec(*right),
        Expression::UnaryExpression { operator, operand } => unary_operator_text(operator) + format_spec(*operand),
        Expression::ConcatExpression { parts } => join_spec(formats_spec(parts@), " + "@),
        Expression::Boolean { operator, operands } => join_spec(
            formats_spec(operands@),
            " "@ + boolean_operator_text(operator) + " "@,
        ),
        Expression::Not { operand } => "not "@ + format_spec(*operand),
        Expression::DictExpression { entries } => "{"@ + join_spec(pairs_spec(entries@), ", "@) + "}"@,
        Expression::ArrayExpression { elements } => "["@ + join_spec(formats_spec(elements@), ", "@) + "]"@,
    }
}

/// The `"key": value` texts of dictionary entries, in order.
pub open spec fn pairs_spec(entries: Seq<(String, Expression)>) -> Seq<Seq<char>>
    decreases entries,
{
    Seq::new(
        entries.len(),
        |i: int| if 0 <= i < entries.len() {
            quote_spec(entries[i].0@) + ": "@ + format_spec(entries[i].1)
        } else {
            Seq::empty()
        },
    )
}

/// The texts of several expressions, in order.
pub open spec fn formats_spec(es: Seq<Expression>) -> Seq<Seq<char>>
    decreases es,
{
    Seq::new(es.len(), |i: int| if 0 <= i < es.len() { format_spec(es[i]) } else { Seq::empty() })
}

/// Texts of the expressions, in a vector.
#[verifier::loop_isolation(false)]
fn format_all(es: &Vec<Expression>) -> (r: Vec<String>)
    ensures
        strings_view(r@) == formats_spec(es@),
    decreases es@,
{
    let mut out: Vec<String> = Vec::new();
    let mut i: usize = 0;
    while i < es.len()
        invariant
            i <= es@.len(),
            strings_view(out@) == formats_spec(es@).take(i as int),
        decreases es@.len() - i,
    {
        assert(decreases_to!(es@ => es@[i as int]));
        let t = format_expression(&es[i]);
        out.push(t);
        i += 1;
        assert(strings_view(out@) =~= formats_spec(es@).take(i as int));
    }
    assert(formats_spec(es@).take(i as int) =~= formats_spec(es@));
    out
}

/// The surface text of an expression.
#[verifier::loop_isolation(false)]
pub fn format_expression(expr: &Expression) -> (r: String)
    ensures
        r@ == format_spec(*expr),
    decreases expr,
{
    match expr {
        Expression::Literal { value } => {
            let r = to_json_text(&literal_to_json(value));
            assert(r@ == format_spec(*expr));
            r
        }
        Expression::AccessPath { variable_name, accessors } => {
            let mut result = variable_name.clone();
            let mut i: usize = 0;
            while i < accessors.len()
                invariant
                    i <= accessors@.len(),
                    result@ == variable_name@ + accessors_text(accessors@.take(i as int)),
                decreases accessors@.len() - i,
            {
                let ghost before = result@;
                match &accessors[i] {
                    Accessor::Attribute(key) => {
                        result.append(".");
                        result.append(key.as_str());
                    }
                    Accessor::Key(key) => {
                        result.append("[");
                        let q = json_quote(key.as_str());
                        result.append(q.as_str());
                        result.append("]");
                    }
                    Accessor::Index(index) => {
                        result.append("[");
                        push_i64_text(&mut result, *index);
                        result.append("]");
                    }
                }
                proof {
                    assert(accessors@.take(i + 1).drop_last() =~= accessors@.take(i as int));
                    assert(result@ =~= before + accessor_text(accessors@[i as int]));
                }
                i += 1;
            }
            assert(accessors@.take(i as int) =~= accessors@);
            assert(result@ == format_spec(*expr));
            result
        }
        Expression::BinaryExpression { operator, left, right } => {
            let mut s = format_expression(&**left);
            s.append(" ");
            s.append(operator.as_str());
            s.append(" ");
            let r = format_expression(&**right);
            s.append(r.as_str());
            assert(s@ == format_spec(*expr));
            s
        }
        Expression::Comparison { operator, left, right } => {
            let mut s = format_expression(&**left);
            s.append(" ");
            s.append(operator.as_str());
            s.append(" ");
            let r = format_expression(&**right);
            s.append(r.as_str());
            assert(s@ == format_spec(*expr));
            s
        }
        Expression::UnaryExpression { operator, operand } => {
            let mut s = String::from_str(operator.as_str());
            let o = format_expression(&**operand);
            s.append(o.as_str());
            assert(s@ == format_spec(*expr));
            s
        }
        Expression::ConcatExpression { parts } => {
            proof {
                assert(decreases_to!(*expr => parts@));
            }
            let texts = format_all(parts);
            let r = join_strings(&texts, " + ");
            assert(r@ == format_spec(*expr));
            r
        }
        Expression::Boolean { operator, operands } => {
            proof {
                assert(decreases_to!(*expr => operands@));
            }
            let texts = format_all(operands);
            let mut sep = String::from_str(" ");
            sep.append(operator.as_str());
            sep.append(" ");
            let r = join_strings(&texts, sep.as_str());
            assert(r@ == format_spec(*expr));
            r
        }
        Expression::Not { operand } => {
            let mut s = String::from_str("not ");
            let o = format_expression(&**operand);
            s.append(o.as_str());
            assert(s@ == format_spec(*expr));
            s
        }
        Expression::DictExpression { entries } => {
            let ghost want = pairs_spec(entries@);
            let mut pairs: Vec<String> = Vec::new();
            let mut i: usize = 0;
            while i < entries.len()
                invariant
                    i <= entries@.len(),
                    strings_view(pairs@) == want.take(i as int),
                decreases entries@.len() - i,
            {
                proof {
                    assert(decreases_to!(*expr => entries@[i as int].1));
                }
                let mut pair = json_quote(entries[i].0.as_str());
                pair.append(": ");
                let v = format_expression(&entries[i].1);
                pair.append(v.as_str());
                pairs.push(pair);
                i += 1;
                assert(strings_view(pairs@) =~= want.take(i as int));
            }
            assert(want.take(i as int) =~= want);
            let mut s = String::from_str("{");
            let body = join_strings(&pairs, ", ");
            s.append(body.as_str());
            s.append("}");
            assert(s@ == format_spec(*expr));
            s
        }
        Expression::ArrayExpression { elements } => {
            proof {
                assert(decreases_to!(*expr => elements@));
            }
            let texts = format_all(elements);
            let mut s = String::from_str("[");
            let body = join_strings(&texts, ", ");
            s.append(body.as_str());
            s.append("]");
            assert(s@ == format_spec(*expr));
            s
        }
    }
}

/// `tool(arg, ...)`.
pub open spec fn call_text(name: Seq<char>, args: Seq<Expression>) -> Seq<char> {
    name + "("@ + join_spec(formats_spec(args), ", "@) + ")"@
}

/// A call line, with `name = ` in front when the result is bound.
pub open spec fn bound_line(prefix: Seq<char>, output: Option<String>, call: Seq<char>) -> Seq<char> {
    match output {
        Some(n) => prefix + n@ + " = "@ + call,
        None => prefix + call,
    }
}

/// The header of the branch at `index` of a switch: `else:` for an else branch or a branch
/// without condition, `if c:` for the first `if` branch, `elif c:` otherwise.
pub open spec fn branch_header(b: ConditionalBranch, index: int, prefix: Seq<char>) -> Seq<char> {
    match b.condition {
        None => prefix + "else:"@,
        Some(c) => match b.kind {
            BranchKind::Else => prefix + "else:"@,
            BranchKind::If => if index == 0 {
                prefix + "if "@ + format_spec(c) + ":"@
            } else {
                prefix + "elif "@ + format_spec(c) + ":"@
            },
            BranchKind::ElseIf => prefix + "elif "@ + format_spec(c) + ":"@,
        },
    }
}

/// The lines of one step, each starting with `prefix`; nested bodies are indented by two
/// more spaces.
pub open spec fn step_lines(s: Step, prefix: Seq<char>) -> Seq<Seq<char>>
    decreases s,
{
    match s {
        Step::AssignStep { target, value } => seq![prefix + target@ + " = "@ + format_spec(value)],
        Step::ToolStep { tool_id, arguments, output_variable } => seq![
            bound_line(prefix, output_variable, call_text(tool_id@, arguments@)),
        ],
        Step::SwitchStep { branches } => branches_lines(branches@, prefix),
        Step::LoopStep { iterable_variable, item_variable, body } => seq![
            prefix + "for "@ + item_variable@ + " in "@ + iterable_variable@ + ":"@,
        ] + steps_lines(body@, prefix + "  "@),
        Step::WhileStep { condition, body } => seq![prefix + "while "@ + format_spec(condition) + ":"@] + steps_lines(
            body@,
            prefix + "  "@,
        ),
        Step::UserInteractionStep { prompt, output_variable } => seq![
            bound_line(prefix, output_variable, "collect_user_input("@ + quote_spec(prompt@) + ")"@),
        ],
        Step::BreakStep => seq![prefix + "break"@],
    }
}

/// The lines of several steps, in order.
pub open spec fn steps_lines(ss: Seq<Step>, prefix: Seq<char>) -> Seq<Seq<char>>
    decreases ss,
{
    if ss.len() == 0 {
        Seq::empty()
    } else {
        steps_lines(ss.drop_last(), prefix) + step_lines(ss.last(), prefix)
    }
}

/// The lines of a switch's branches: each header followed by the branch's steps.
pub open spec fn branches_lines(bs: Seq<ConditionalBranch>, prefix: Seq<char>) -> Seq<Seq<char>>
    decreases bs,
{
    if bs.len() == 0 {
        Seq::empty()
    } else {
        branches_lines(bs.drop_last(), prefix) + seq![branch_header(bs.last(), bs.len() - 1, prefix)] + steps_lines(
            bs.last().steps@,
            prefix + "  "@,
        )
    }
}

fn push_line(lines: &mut Vec<String>, line: String)
    ensures
        strings_view(final(lines)@) == strings_view(old(lines)@).push(line@),
{
    lines.push(line);
    assert(strings_view(lines@) =~= strings_view(old(lines)@).push(line@));
}

fn bound_line_text(prefix: &str, output: &Option<String>, call: String) -> (r: String)
    ensures
        r@ == bound_line(prefix@, *output, call@),
{
    let mut s = String::from_str(prefix);
    match output {
        Some(n) => {
            s.append(n.as_str());
            s.append(" = ");
        }
        None => {}
    }
    s.append(call.as_str());
    s
}

fn format_steps_into(steps: &Vec<Step>, prefix: &str, lines: &mut Vec<String>)
    ensures
        strings_view(final(lines)@) == strings_view(old(lines)@) + steps_lines(steps@, prefix@),
    decreases steps@,
{
    let mut i: usize = 0;
    while i < steps.len()
        invariant
            i <= steps@.len(),
            strings_view(lines@) == strings_view(old(lines)@) + steps_lines(steps@.take(i as int), prefix@),
        decreases steps@.len() - i,
    {
        proof {
            assert(steps@.take(i + 1).drop_last() =~= steps@.take(i as int));
            assert(steps@.take(i + 1).last() == steps@[i as int]);
        }
        format_step(&steps[i], prefix, lines);
        proof {
            assert(strings_view(lines@) =~= strings_view(old(lines)@) + steps_lines(steps@.take(i + 1), prefix@));
        }
        i += 1;
    }
    assert(steps@.take(i as int) =~= steps@);
}

fn format_step(step: &Step, prefix: &str, lines: &mut Vec<String>)
    ensures
        strings_view(final(lines)@) == strings_view(old(lines)@) + step_lines(*step, prefix@),
    decreases step,
{
    let ghost start = strings_view(lines@);
    match step {
        Step::AssignStep { target, value } => {
            let mut s = String::from_str(prefix);
            s.append(target.as_str());
            s.append(" = ");
            let v = format_expression(value);
            s.append(v.as_str());
            push_line(lines, s);
            assert(strings_view(lines@) =~= start + step_lines(*step, prefix@));
        }
        Step::ToolStep { tool_id, arguments, output_variable } => {
            let texts = format_all(arguments);
            let mut call = tool_id.clone();
            call.append("(");
            let joined = join_strings(&texts, ", ");
            call.append(joined.as_str());
            call.append(")");
            let line = bound_line_text(prefix, output_variable, call);
            push_line(lines, line);
            assert(strings_view(lines@) =~= start + step_lines(*step, prefix@));
        }
        Step::SwitchStep { branches } => {
            let mut inner = String::from_str(prefix);
            inner.append("  ");
            let mut i: usize = 0;
            while i < branches.len()
                invariant
                    i <= branches@.len(),
                    *step == (Step::SwitchStep { branches: *branches }),
                    inner@ == prefix@ + "  "@,
                    strings_view(lines@) == start + branches_lines(branches@.take(i as int), prefix@),
                decreases branches@.len() - i,
            {
                proof {
                    assert(branches@.take(i + 1).drop_last() =~= branches@.take(i as int));
                    assert(branches@.take(i + 1).last() == branches@[i as int]);
                    assert(*branches == (*step)->branches);
                    assert(decreases_to!(*step => (*step)->branches));
                    assert(decreases_to!(*branches => branches@));
                    assert(decreases_to!(branches@ => branches@[i as int]));
                    assert(decreases_to!(branches@[i as int] => branches@[i as int].steps));
                    assert(decreases_to!(branches@[i as int].steps => branches@[i as int].steps@));
                }
                let branch = &branches[i];
                let header = match &branch.condition {
                    None => {
                        let mut h = String::from_str(prefix);
                        h.append("else:");
                        h
                    }
                    Some(c) => {
                        let word = match branch.kind {
                            BranchKind::Else => "else",
                            BranchKind::If => if i == 0 { "if " } else { "elif " },
                            BranchKind::ElseIf => "elif ",
                        };
                        let mut h = String::from_str(prefix);
                        h.append(word);
                        match branch.kind {
                            BranchKind::Else => {
                                h.append(":");
                            }
                            _ => {
                                let t = format_expression(c);
                                h.append(t.as_str());
                                h.append(":");
                            }
                        }
                        h
                    }
                };
                proof {
                    reveal_strlit("else");
                    reveal_strlit("else:");
                    reveal_strlit(":");
                    assert(header@ == branch_header(branches@[i as int], i as int, prefix@));
                }
                push_line(lines, header);
                format_steps_into(&branch.steps, inner.as_str(), lines);
                proof {
                    assert(strings_view(lines@) =~= start + branches_lines(branches@.take(i + 1), prefix@));
                }
                i += 1;
            }
            assert(branches@.take(i as int) =~= branches@);
        }
        Step::LoopStep { iterable_variable, item_variable, body } => {
            let mut s = String::from_str(prefix);
            s.append("for ");
            s.append(item_variable.as_str());
            s.append(" in ");
            s.append(iterable_variable.as_str());
            s.append(":");
            push_line(lines, s);
            let mut inner = String::from_str(prefix);
            inner.append("  ");
            format_steps_into(body, inner.as_str(), lines);
            assert(strings_view(lines@) =~= start + step_lines(*step, prefix@));
        }
        Step::WhileStep { condition, body } => {
            let mut s = String::from_str(prefix);
            s.append("while ");
            let c = format_expression(condition);
            s.append(c.as_str());
            s.append(":");
            push_line(lines, s);
            let mut inner = String::from_str(prefix);
            inner.append("  ");
            format_steps_into(body, inner.as_str(), lines);
            assert(strings_view(lines@) =~= start + step_lines(*step, prefix@));
        }
        Step::UserInteractionStep { prompt, output_variable } => {
            let mut call = String::from_str("collect_user_input(");
            let q = json_quote(prompt.as_str());
            call.append(q.as_str());
            call.append(")");
            let line = bound_line_text(prefix, output_variable, call);
            push_line(lines, line);
            assert(strings_view(lines@) =~= start + step_lines(*step, prefix@));
        }
        Step::BreakStep => {
            let mut s = String::from_str(prefix);
            s.append("break");
            push_line(lines, s);
            assert(strings_view(lines@) =~= start + step_lines(*step, prefix@));
        }
    }
}

/// The lines of steps indented by `indent` levels of two spaces.
pub fn format_steps(steps: &Vec<Step>, indent: usize) -> (r: Vec<String>)
    ensures
        strings_view(r@) == steps_lines(steps@, repeat_spec("  "@, indent as nat)),
{
    let prefix = crate::text::repeat_str("  ", indent);
    let mut lines: Vec<String> = Vec::new();
    assert(strings_view(lines@) =~= Seq::<Seq<char>>::empty());
    format_steps_into(steps, prefix.as_str(), &mut lines);
    assert(strings_view(lines@) =~= steps_lines(steps@, repeat_spec("  "@, indent as nat)));
    lines
}

/// The sections of a plan's text: its name, its trimmed description when not blank, its
/// steps when there are any, and its source code when there is any.
pub open spec fn plan_sections(plan: AbstractPlan) -> Seq<Seq<char>> {
    let head = seq!["Plan: "@ + plan.name@];
    let d = trim_spec(plan.description@);
    let with_description = if d.len() > 0 { head.push("\n"@ + d) } else { head };
    let with_steps = if plan.steps@.len() > 0 {
        with_description.push("\n--- Steps ---\n"@).push(join_spec(steps_lines(plan.steps@, Seq::empty()), "\n"@))
    } else {
        with_description
    };
    if plan.code@.len() > 0 {
        with_steps.push("\n--- Code ---\n"@).push(plan.code@)
    } else {
        with_steps
    }
}

/// The readable text of a plan: its sections on separate lines, ending with a newline.
pub open spec fn plan_text(plan: AbstractPlan) -> Seq<char> {
    join_spec(plan_sections(plan), "\n"@) + "\n"@
}

/// The readable text of a plan.
pub fn format_plan(plan: &AbstractPlan) -> (r: String)
    ensures
        r@ == plan_text(*plan),
{
    let mut sections: Vec<String> = Vec::new();
    let mut head = String::from_str("Plan: ");
    head.append(plan.name.as_str());
    push_line(&mut sections, head);
    let d = trim(plan.description.as_str());
    if d.unicode_len() > 0 {
        let mut s = String::from_str("\n");
        s.append(d.as_str());
        push_line(&mut sections, s);
    }
    if plan.steps.len() > 0 {
        push_line(&mut sections, String::from_str("\n--- Steps ---\n"));
        let lines = format_steps(&plan.steps, 0);
        let joined = join_strings(&lines, "\n");
        proof {
            assert(repeat_spec("  "@, 0) =~= Seq::<char>::empty());
        }
        push_line(&mut sections, joined);
    }
    if plan.code.unicode_len() > 0 {
        push_line(&mut sections, String::from_str("\n--- Code ---\n"));
        push_line(&mut sections, plan.code.clone());
    }
    let mut out = join_strings(&sections, "\n");
    out.append("\n");
    proof {
        assert(strings_view(sections@) =~= plan_sections(*plan));
    }
    out
}

} // verus!
