//! The `Debug` texts of expressions, as error messages quote them.

use vstd::prelude::*;
use vstd::string::*;

use crate::plan::expression::{BinaryOperator, BooleanOperator, ComparisonOperator, Expression, UnaryOperator};
use crate::plan::model::{accessor_view, expr_view, AccessorV, ExprV};
use crate::plan::Accessor;
use crate::planning::parser::literals::{literal_debug, literal_debug_spec, push_str_debug, str_debug};
use crate::text::{int_text, join_spec, join_strings, lemma_strings_view_push, push_i64_text, strings_view};

verus! {

broadcast use vstd::std_specs::vec::group_vec_axioms;

pub open spec fn binary_operator_debug(op: BinaryOperator) -> Seq<char> {
    match op {
        BinaryOperator::Add => "Add"@,
        BinaryOperator::Subtract => "Subtract"@,
        BinaryOperator::Multiply => "Multiply"@,
        BinaryOperator::Divide => "Divide"@,
        BinaryOperator::FloorDivide => "FloorDivide"@,
        BinaryOperator::Modulo => "Modulo"@,
        BinaryOperator::Power => "Power"@,
    }
}

pub open spec fn unary_operator_debug(op: UnaryOperator) -> Seq<char> {
    match op {
        UnaryOperator::Plus => "Plus"@,
        UnaryOperator::Minus => "Minus"@,
    }
}

pub open spec fn comparison_operator_debug(op: ComparisonOperator) -> Seq<char> {
    match op {
        ComparisonOperator::Equal => "Equal"@,
        ComparisonOperator::NotEqual => "NotEqual"@,
        ComparisonOperator::LessThan => "LessThan"@,
        ComparisonOperator::GreaterThan => "GreaterThan"@,
        ComparisonOperator::LessThanOrEqual => "LessThanOrEqual"@,
        ComparisonOperator::GreaterThanOrEqual => "GreaterThanOrEqual"@,
        ComparisonOperator::In => "In"@,
        ComparisonOperator::NotIn => "NotIn"@,
        ComparisonOperator::Is => "Is"@,
        ComparisonOperator::IsNot => "IsNot"@,
    }
}

pub open spec fn boolean_operator_debug(op: BooleanOperator) -> Seq<char> {
    match op {
        BooleanOperator::And => "And"@,
        BooleanOperator::Or => "Or"@,
    }
}

/// An accessor as `{:?}` writes it.
pub open spec fn accessor_debug(a: AccessorV) -> Seq<char> {
    match a {
        AccessorV::Attribute(k) => "Attribute("@ + str_debug(k) + ")"@,
        AccessorV::Key(k) => "Key("@ + str_debug(k) + ")"@,
        AccessorV::Index(i) => "Index("@ + int_text(i as int) + ")"@,
    }
}

/// An expression as `{:?}` writes it, given its model.
pub open spec fn expr_debug(e: ExprV) -> Seq<char>
    decreases e,
{
    match e {
        ExprV::AccessPath(n, accs) => "AccessPath { variable_name: "@ + str_debug(n) + ", accessors: ["@
            + join_spec(accs.map_values(|a: AccessorV| accessor_debug(a)), ", "@) + "] }"@,
        ExprV::Literal(j) => "Literal { value: "@ + literal_debug_spec(j) + " }"@,
        ExprV::Binary(op, l, r) => "BinaryExpression { operator: "@ + binary_operator_debug(op) + ", left: "@
            + expr_debug(*l) + ", right: "@ + expr_debug(*r) + " }"@,
        ExprV::Unary(op, x) => "UnaryExpression { operator: "@ + unary_operator_debug(op) + ", operand: "@
            + expr_debug(*x) + " }"@,
        ExprV::Concat(ps) => "ConcatExpression { parts: ["@ + join_spec(exprs_debug(ps), ", "@) + "] }"@,
        ExprV::Comparison(op, l, r) => "Comparison { operator: "@ + comparison_operator_debug(op) + ", left: "@
            + expr_debug(*l) + ", right: "@ + expr_debug(*r) + " }"@,
        ExprV::Boolean(op, xs) => "Boolean { operator: "@ + boolean_operator_debug(op) + ", operands: ["@
            + join_spec(exprs_debug(xs), ", "@) + "] }"@,
        ExprV::Not(x) => "Not { operand: "@ + expr_debug(*x) + " }"@,
        ExprV::Dict(es) => "DictExpression { entries: ["@ + join_spec(entries_debug(es), ", "@) + "] }"@,
        ExprV::Array(xs) => "ArrayExpression { elements: ["@ + join_spec(exprs_debug(xs), ", "@) + "] }"@,
    }
}

/// The `{:?}` texts of several expressions, in order.
pub open spec fn exprs_debug(xs: Seq<ExprV>) -> Seq<Seq<char>>
    decreases xs,
{
    Seq::new(xs.len(), |i: int| if 0 <= i < xs.len() { expr_debug(xs[i]) } else { Seq::empty() })
}

/// The `{:?}` texts of dictionary entries, `("key", value)`, in order.
pub open spec fn entries_debug(es: Seq<(Seq<char>, ExprV)>) -> Seq<Seq<char>>
    decreases es,
{
    Seq::new(
        es.len(),
        |i: int| if 0 <= i < es.len() { "("@ + str_debug(es[i].0) + ", "@ + expr_debug(es[i].1) + ")"@ } else { Seq::empty() },
    )
}

fn binary_operator_name(op: &BinaryOperator) -> (r: &'static str)
    ensures
        r@ == binary_operator_debug(*op),
{
    match op {
        BinaryOperator::Add => "Add",
        BinaryOperator::Subtract => "Subtract",
        BinaryOperator::Multiply => "Multiply",
        BinaryOperator::Divide => "Divide",
        BinaryOperator::FloorDivide => "FloorDivide",
        BinaryOperator::Modulo => "Modulo",
        BinaryOperator::Power => "Power",
    }
}

fn comparison_operator_name(op: &ComparisonOperator) -> (r: &'static str)
    ensures
        r@ == comparison_operator_debug(*op),
{
    match op {
        ComparisonOperator::Equal => "Equal",
        ComparisonOperator::NotEqual => "NotEqual",
        ComparisonOperator::LessThan => "LessThan",
        ComparisonOperator::GreaterThan => "GreaterThan",
        ComparisonOperator::LessThanOrEqual => "LessThanOrEqual",
        ComparisonOperator::GreaterThanOrEqual => "GreaterThanOrEqual",
        ComparisonOperator::In => "In",
        ComparisonOperator::NotIn => "NotIn",
        ComparisonOperator::Is => "Is",
        ComparisonOperator::IsNot => "IsNot",
    }
}

/// An accessor as `{:?}` writes it.
fn accessor_debug_text(a: &Accessor) -> (r: String)
    ensures
        r@ == accessor_debug(accessor_view(*a)),
{
    match a {
        Accessor::Attribute(k) => {
            let mut s = String::from_str("Attribute(");
            push_str_debug(&mut s, k.as_str());
            s.append(")");
            s
        },
        Accessor::Key(k) => {
            let mut s = String::from_str("Key(");
            push_str_debug(&mut s, k.as_str());
            s.append(")");
            s
        },
        Accessor::Index(i) => {
            let mut s = String::from_str("Index(");
            push_i64_text(&mut s, *i);
            s.append(")");
            s
        },
    }
}

/// The `{:?}` texts of several expressions, joined by `, `.
fn expressions_debug_text(xs: &Vec<Expression>) -> (r: String)
    ensures
        r@ == join_spec(exprs_debug(crate::plan::model::exprs_view(xs@)), ", "@),
    decreases xs@,
{
    let ghost v = crate::plan::model::exprs_view(xs@);
    let mut parts: Vec<String> = Vec::new();
    let mut i: usize = 0;
    while i < xs.len()
        invariant
            i <= xs@.len(),
            v == crate::plan::model::exprs_view(xs@),
            strings_view(parts@) == exprs_debug(v).take(i as int),
        decreases xs@.len() - i,
    {
        assert(decreases_to!(xs@ => xs@[i as int]));
        let d = expression_debug(&xs[i]);
        assert(exprs_debug(v)[i as int] == d@);
        proof {
            lemma_strings_view_push(parts@, d);
        }
        parts.push(d);
        i += 1;
        assert(strings_view(parts@) =~= exprs_debug(v).take(i as int));
    }
    assert(exprs_debug(v).take(i as int) =~= exprs_debug(v));
    join_strings(&parts, ", ")
}

/// An expression as `{:?}` writes it.
pub fn expression_debug(e: &Expression) -> (r: String)
    ensures
        r@ == expr_debug(expr_view(*e)),
    decreases e,
{
    match e {
        Expression::AccessPath { variable_name, accessors } => {
            let ghost av = accessors@.map_values(|a: Accessor| accessor_view(a));
            let mut parts: Vec<String> = Vec::new();
            let mut i: usize = 0;
            while i < accessors.len()
                invariant
                    i <= accessors@.len(),
                    av == accessors@.map_values(|a: Accessor| accessor_view(a)),
                    strings_view(parts@) == av.map_values(|a: AccessorV| accessor_debug(a)).take(i as int),
                decreases accessors@.len() - i,
            {
                let d = accessor_debug_text(&accessors[i]);
                proof {
                    lemma_strings_view_push(parts@, d);
                }
                parts.push(d);
                i += 1;
                assert(strings_view(parts@) =~= av.map_values(|a: AccessorV| accessor_debug(a)).take(i as int));
            }
            assert(av.map_values(|a: AccessorV| accessor_debug(a)).take(i as int) =~= av.map_values(
                |a: AccessorV| accessor_debug(a),
            ));
            let mut s = String::from_str("AccessPath { variable_name: ");
            push_str_debug(&mut s, variable_name.as_str());
            s.append(", accessors: [");
            let body = join_strings(&parts, ", ");
            s.append(body.as_str());
            s.append("] }");
            s
        },
        Expression::Literal { value } => {
            let mut s = String::from_str("Literal { value: ");
            let d = literal_debug(value);
            s.append(d.as_str());
            s.append(" }");
            s
        },
        Expression::BinaryExpression { operator, left, right } => {
            let mut s = String::from_str("BinaryExpression { operator: ");
            s.append(binary_operator_name(operator));
            s.append(", left: ");
            let l = expression_debug(left);
            s.append(l.as_str());
            s.append(", right: ");
            let r = expression_debug(right);
            s.append(r.as_str());
            s.append(" }");
            s
        },
        Expression::UnaryExpression { operator, operand } => {
            let mut s = String::from_str("UnaryExpression { operator: ");
            match operator {
                UnaryOperator::Plus => s.append("Plus"),
                UnaryOperator::Minus => s.append("Minus"),
            }
            s.append(", operand: ");
            let x = expression_debug(operand);
            s.append(x.as_str());
            s.append(" }");
            s
        },
        Expression::ConcatExpression { parts } => {
            let mut s = String::from_str("ConcatExpression { parts: [");
            let body = expressions_debug_text(parts);
            s.append(body.as_str());
            s.append("] }");
            s
        },
        Expression::Comparison { operator, left, right } => {
            let mut s = String::from_str("Comparison { operator: ");
            s.append(comparison_operator_name(operator));
            s.append(", left: ");
            let l = expression_debug(left);
            s.append(l.as_str());
            s.append(", right: ");
            let r = expression_debug(right);
            s.append(r.as_str());
            s.append(" }");
            s
        },
        Expression::Boolean { operator, operands } => {
            let mut s = String::from_str("Boolean { operator: ");
            match operator {
                BooleanOperator::And => s.append("And"),
                BooleanOperator::Or => s.append("Or"),
            }
            s.append(", operands: [");
            let body = expressions_debug_text(operands);
            s.append(body.as_str());
            s.append("] }");
            s
        },
        Expression::Not { operand } => {
            let mut s = String::from_str("Not { operand: ");
            let x = expression_debug(operand);
            s.append(x.as_str());
            s.append(" }");
            s
        },
        Expression::DictExpression { entries } => {
            let ghost v = crate::plan::model::entries_view(entries@);
            let mut parts: Vec<String> = Vec::new();
            let mut i: usize = 0;
            while i < entries.len()
                invariant
                    i <= entries@.len(),
                    v == crate::plan::model::entries_view(entries@),
                    *e == (Expression::DictExpression { entries: *entries }),
                    strings_view(parts@) == entries_debug(v).take(i as int),
                decreases entries@.len() - i,
            {
                assert((*e)->entries == *entries);
                assert(decreases_to!(*e => (*e)->entries));
                assert(decreases_to!(*entries => entries@));
                assert(decreases_to!(entries@ => entries@[i as int]));
                assert(decreases_to!(entries@[i as int] => entries@[i as int].1));
                let mut d = String::from_str("(");
                push_str_debug(&mut d, entries[i].0.as_str());
                d.append(", ");
                let x = expression_debug(&entries[i].1);
                d.append(x.as_str());
                d.append(")");
                assert(entries_debug(v)[i as int] == d@);
                proof {
                    lemma_strings_view_push(parts@, d);
                }
                parts.push(d);
                i += 1;
                assert(strings_view(parts@) =~= entries_debug(v).take(i as int));
            }
            assert(entries_debug(v).take(i as int) =~= entries_debug(v));
            let mut s = String::from_str("DictExpression { entries: [");
            let body = join_strings(&parts, ", ");
            s.append(body.as_str());
            s.append("] }");
            s
        },
        Expression::ArrayExpression { elements } => {
            let mut s = String::from_str("ArrayExpression { elements: [");
            let body = expressions_debug_text(elements);
            s.append(body.as_str());
            s.append("] }");
            s
        },
    }
}

} // verus!
