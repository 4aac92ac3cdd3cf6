//! Lowering Python expressions and conditions into plan expressions.

use vstd::prelude::*;
use vstd::string::*;

use crate::error::ReadyError;
use crate::execution::evaluator::obj_put;
use crate::json::{JNum, Json};
use crate::plan::expression::{literal_json, LiteralValue};
use crate::plan::model::{accessor_view, accessors_view, entries_view, expr_view, exprs_view, AccessorV, ExprV};
use crate::plan::{Accessor, BinaryOperator, BooleanOperator, ComparisonOperator, Expression, UnaryOperator};
use crate::planning::parser::debug::{expr_debug, expression_debug};
use crate::planning::parser::literals::{
    constant_spec, constant_to_literal, extract_subscript_key, float_is_finite, literal_debug, literal_debug_spec,
    parse_failure, subscript_key_spec,
};
use crate::planning::parser::names::{expression_name, expression_name_spec, parsing_error};
use crate::planning::syntax::{PyConstant, PyExpr};
use crate::text::{int_text, push_i64_text, str_eq};

verus! {

broadcast use vstd::std_specs::vec::group_vec_axioms;

/// The plan operator a Python binary operator maps to.
pub open spec fn binary_operator_spec(op: Seq<char>) -> Result<BinaryOperator, Seq<char>> {
    if op == "Add"@ {
        Ok(BinaryOperator::Add)
    } else if op == "Sub"@ {
        Ok(BinaryOperator::Subtract)
    } else if op == "Mult"@ {
        Ok(BinaryOperator::Multiply)
    } else if op == "Div"@ {
        Ok(BinaryOperator::Divide)
    } else if op == "Mod"@ {
        Ok(BinaryOperator::Modulo)
    } else if op == "Pow"@ {
        Ok(BinaryOperator::Power)
    } else if op == "FloorDiv"@ {
        Ok(BinaryOperator::FloorDivide)
    } else {
        Err("binary operator '"@ + op + "' is not supported — allowed operators are +, -, *, /, //, %, **"@)
    }
}

/// The plan operator a Python comparison operator maps to (`IsNot` for the last of the ten).
pub open spec fn comparison_operator_spec(op: Seq<char>) -> ComparisonOperator {
    if op == "Eq"@ {
        ComparisonOperator::Equal
    } else if op == "NotEq"@ {
        ComparisonOperator::NotEqual
    } else if op == "Lt"@ {
        ComparisonOperator::LessThan
    } else if op == "Gt"@ {
        ComparisonOperator::GreaterThan
    } else if op == "LtE"@ {
        ComparisonOperator::LessThanOrEqual
    } else if op == "GtE"@ {
        ComparisonOperator::GreaterThanOrEqual
    } else if op == "In"@ {
        ComparisonOperator::In
    } else if op == "NotIn"@ {
        ComparisonOperator::NotIn
    } else if op == "Is"@ {
        ComparisonOperator::Is
    } else {
        ComparisonOperator::IsNot
    }
}

/// The plan operator a Python boolean operator maps to (`Or` for the second of the two).
pub open spec fn boolean_operator_spec(op: Seq<char>) -> BooleanOperator {
    if op == "And"@ {
        BooleanOperator::And
    } else {
        BooleanOperator::Or
    }
}

/// Whether a chain of `+` holds a string constant or an f-string, which makes it a concatenation.
pub open spec fn has_string_part(e: PyExpr) -> bool
    decreases e,
{
    match e {
        PyExpr::BinOp { left, op, right } => if op@ == "Add"@ {
            has_string_part(*left) || has_string_part(*right)
        } else {
            false
        },
        PyExpr::Constant { value: PyConstant::Str(_), .. } => true,
        PyExpr::JoinedStr { .. } => true,
        _ => false,
    }
}

/// The variable and accessors of an attribute/subscript chain; keys are read outermost first.
pub open spec fn access_chain_spec(e: PyExpr) -> Result<(Seq<char>, Seq<AccessorV>), Seq<char>>
    decreases e,
{
    match e {
        PyExpr::Attribute { value, attr } => match access_chain_spec(*value) {
            Ok((n, accs)) => Ok((n, accs.push(AccessorV::Attribute(attr@)))),
            Err(m) => Err(m),
        },
        PyExpr::Subscript { value, slice } => match subscript_key_spec(*slice) {
            Err(m) => Err(m),
            Ok(a) => match access_chain_spec(*value) {
                Ok((n, accs)) => Ok((n, accs.push(a))),
                Err(m) => Err(m),
            },
        },
        PyExpr::Name { id } => Ok((id@, Seq::empty())),
        other => Err(
            "access chain must start from a variable name, not a '"@ + expression_name_spec(other)
                + "' — only `var.attr` or `var[key]` chains are allowed"@,
        ),
    }
}

pub open spec fn unsupported_expression_msg(e: PyExpr) -> Seq<char> {
    "'"@ + expression_name_spec(e)
        + "' is not supported — only literals, variable names, attribute/index access, arithmetic, boolean expressions, f-strings, lists, and dicts are allowed"@
}

/// Whether every model is a literal.
pub open spec fn all_literal(vs: Seq<ExprV>) -> bool {
    forall|i: int| 0 <= i < vs.len() ==> vs[i] is Literal
}

/// The JSON values of literal models.
pub open spec fn literal_values(vs: Seq<ExprV>) -> Seq<Json> {
    vs.map_values(|v: ExprV| v->Literal_0)
}

/// The object literal entries build, later keys replacing earlier equal ones.
pub open spec fn entries_object(es: Seq<(Seq<char>, ExprV)>) -> Json
    decreases es.len(),
{
    if es.len() == 0 {
        Json::Obj(Seq::empty(), Seq::empty())
    } else {
        obj_put(entries_object(es.drop_last()), es.last().0, es.last().1->Literal_0)
    }
}

pub open spec fn min_len(a: nat, b: nat) -> int {
    if a <= b { a as int } else { b as int }
}

/// A list or tuple display: a literal array when every element is a literal.
pub open spec fn array_of(r: Result<Seq<ExprV>, Seq<char>>) -> Result<ExprV, Seq<char>> {
    match r {
        Ok(vs) => if all_literal(vs) { Ok(ExprV::Literal(Json::Arr(literal_values(vs)))) } else { Ok(ExprV::Array(vs)) },
        Err(m) => Err(m),
    }
}

/// The values of dictionary entries, in order.
pub open spec fn entry_values(es: Seq<(Seq<char>, ExprV)>) -> Seq<ExprV> {
    es.map_values(|p: (Seq<char>, ExprV)| p.1)
}

/// A dict display: a literal object when every value is a literal.
pub open spec fn dict_of(r: Result<Seq<(Seq<char>, ExprV)>, Seq<char>>) -> Result<ExprV, Seq<char>> {
    match r {
        Ok(es) => if all_literal(entry_values(es)) {
            Ok(ExprV::Literal(entries_object(es)))
        } else {
            Ok(ExprV::Dict(es))
        },
        Err(m) => Err(m),
    }
}

/// Lowers an expression.
pub open spec fn lower_expr(e: PyExpr) -> Result<ExprV, Seq<char>>
    decreases e, 2int, 0int,
{
    match e {
        PyExpr::Constant { value, .. } => match constant_spec(value) {
            Ok(j) => Ok(ExprV::Literal(j)),
            Err(m) => Err(m),
        },
        PyExpr::Name { id } => Ok(ExprV::AccessPath(id@, Seq::empty())),
        PyExpr::Attribute { .. } => match access_chain_spec(e) {
            Ok((n, accs)) => Ok(ExprV::AccessPath(n, accs)),
            Err(m) => Err(m),
        },
        PyExpr::Subscript { .. } => match access_chain_spec(e) {
            Ok((n, accs)) => Ok(ExprV::AccessPath(n, accs)),
            Err(m) => Err(m),
        },
        PyExpr::FormattedValue { value } => lower_expr(*value),
        PyExpr::JoinedStr { values } => match lower_exprs(values@) {
            Ok(ps) => Ok(ExprV::Concat(ps)),
            Err(m) => Err(m),
        },
        PyExpr::BinOp { left, op, right } => if op@ == "Add"@ && has_string_part(e) {
            match add_part(*left) {
                Err(m) => Err(m),
                Ok(ls) => match add_part(*right) {
                    Err(m) => Err(m),
                    Ok(rs) => Ok(ExprV::Concat(ls + rs)),
                },
            }
        } else {
            match binary_operator_spec(op@) {
                Err(m) => Err(m),
                Ok(o) => match lower_expr(*left) {
                    Err(m) => Err(m),
                    Ok(l) => match lower_expr(*right) {
                        Err(m) => Err(m),
                        Ok(r) => Ok(ExprV::Binary(o, Box::new(l), Box::new(r))),
                    },
                },
            }
        },
        PyExpr::UnaryOp { op, operand } => if op@ == "Not"@ {
            match lower_expr(*operand) {
                Ok(x) => Ok(ExprV::Not(Box::new(x))),
                Err(m) => Err(m),
            }
        } else if op@ == "USub"@ {
            match lower_expr(*operand) {
                Ok(x) => Ok(ExprV::Unary(UnaryOperator::Minus, Box::new(x))),
                Err(m) => Err(m),
            }
        } else if op@ == "UAdd"@ {
            match lower_expr(*operand) {
                Ok(x) => Ok(ExprV::Unary(UnaryOperator::Plus, Box::new(x))),
                Err(m) => Err(m),
            }
        } else {
            Err("unary operator '"@ + op@ + "' is not supported — only unary + and - are allowed"@)
        },
        PyExpr::Compare { .. } => lower_compare(e),
        PyExpr::BoolOp { op, values } => match lower_exprs(values@) {
            Ok(vs) => Ok(ExprV::Boolean(boolean_operator_spec(op@), vs)),
            Err(m) => Err(m),
        },
        PyExpr::List { elts } => array_of(lower_exprs(elts@)),
        PyExpr::Tuple { elts } => array_of(lower_exprs(elts@)),
        PyExpr::Dict { keys, values } => dict_of(dict_entries(e, min_len(keys@.len(), values@.len()))),
        _ => Err(unsupported_expression_msg(e)),
    }
}

/// Lowers expressions left to right; the first failure is the result.
pub open spec fn lower_exprs(es: Seq<PyExpr>) -> Result<Seq<ExprV>, Seq<char>>
    decreases es, 0int, 0int,
{
    if es.len() == 0 {
        Ok(Seq::empty())
    } else {
        match lower_exprs(es.drop_last()) {
            Err(m) => Err(m),
            Ok(vs) => match lower_expr(es[es.len() - 1]) {
                Err(m) => Err(m),
                Ok(v) => Ok(vs.push(v)),
            },
        }
    }
}

/// The lowered parts of one side of a string concatenation, with nested `+` flattened.
pub open spec fn add_part(x: PyExpr) -> Result<Seq<ExprV>, Seq<char>>
    decreases x, 3int, 0int,
{
    match x {
        PyExpr::BinOp { left, op, right } => if op@ == "Add"@ {
            match add_part(*left) {
                Err(m) => Err(m),
                Ok(ls) => match add_part(*right) {
                    Err(m) => Err(m),
                    Ok(rs) => Ok(ls + rs),
                },
            }
        } else {
            match lower_expr(x) {
                Ok(v) => Ok(seq![v]),
                Err(m) => Err(m),
            }
        },
        _ => match lower_expr(x) {
            Ok(v) => Ok(seq![v]),
            Err(m) => Err(m),
        },
    }
}

/// Lowers a condition: comparisons, `and`/`or` and `not` are read as conditions, calls are
/// refused, and anything else is an expression.
pub open spec fn lower_cond(e: PyExpr) -> Result<ExprV, Seq<char>>
    decreases e, 3int, 0int,
{
    match e {
        PyExpr::Compare { .. } => lower_compare(e),
        PyExpr::BoolOp { op, values } => match lower_conds(values@) {
            Ok(vs) => Ok(ExprV::Boolean(boolean_operator_spec(op@), vs)),
            Err(m) => Err(m),
        },
        PyExpr::UnaryOp { op, operand } => if op@ == "Not"@ {
            match lower_cond(*operand) {
                Ok(x) => Ok(ExprV::Not(Box::new(x))),
                Err(m) => Err(m),
            }
        } else {
            lower_expr(e)
        },
        PyExpr::Call { func, .. } => Err(
            "Conditions must not contain function calls. Found call to: "@ + expression_name_spec(*func),
        ),
        _ => lower_expr(e),
    }
}

/// Lowers conditions left to right; the first failure is the result.
pub open spec fn lower_conds(es: Seq<PyExpr>) -> Result<Seq<ExprV>, Seq<char>>
    decreases es, 0int, 0int,
{
    if es.len() == 0 {
        Ok(Seq::empty())
    } else {
        match lower_conds(es.drop_last()) {
            Err(m) => Err(m),
            Ok(vs) => match lower_cond(es[es.len() - 1]) {
                Err(m) => Err(m),
                Ok(v) => Ok(vs.push(v)),
            },
        }
    }
}

/// Lowers a comparison: one operator gives a comparison, a chain gives the `and` of its links.
pub open spec fn lower_compare(e: PyExpr) -> Result<ExprV, Seq<char>>
    decreases e, 1int, 0int,
{
    match e {
        PyExpr::Compare { left, ops, comparators } => if ops@.len() == 1 && comparators@.len() == 1 {
            match lower_cond(*left) {
                Err(m) => Err(m),
                Ok(l) => match lower_cond(comparators@[0]) {
                    Err(m) => Err(m),
                    Ok(r) => Ok(ExprV::Comparison(comparison_operator_spec(ops@[0]@), Box::new(l), Box::new(r))),
                },
            }
        } else {
            match compare_links(e, min_len(ops@.len(), comparators@.len())) {
                Ok(vs) => Ok(ExprV::Boolean(BooleanOperator::And, vs)),
                Err(m) => Err(m),
            }
        },
        _ => Ok(ExprV::Boolean(BooleanOperator::And, Seq::empty())),
    }
}

/// The first `n` links of a comparison chain, each comparing an operand with the next.
pub open spec fn compare_links(e: PyExpr, n: int) -> Result<Seq<ExprV>, Seq<char>>
    decreases e, 0int, n,
{
    match e {
        PyExpr::Compare { left, ops, comparators } => if n <= 0 || n > ops@.len() || n > comparators@.len() {
            Ok(Seq::empty())
        } else {
            match compare_links(e, n - 1) {
                Err(m) => Err(m),
                Ok(vs) => match lower_cond(if n == 1 { *left } else { comparators@[n - 2] }) {
                    Err(m) => Err(m),
                    Ok(l) => match lower_cond(comparators@[n - 1]) {
                        Err(m) => Err(m),
                        Ok(r) => Ok(vs.push(ExprV::Comparison(comparison_operator_spec(ops@[n - 1]@), Box::new(l), Box::new(r)))),
                    },
                },
            }
        },
        _ => Ok(Seq::empty()),
    }
}

/// The key of a dictionary entry: a literal, written as text.
pub open spec fn object_key_spec(k: PyExpr) -> Result<Seq<char>, Seq<char>>
    decreases k, 3int, 0int,
{
    match k {
        PyExpr::Constant { value: PyConstant::Float { debug, display }, .. } => if float_is_finite(debug@) {
            Ok(display@)
        } else {
            Err("Invalid float literal: "@ + display@)
        },
        _ => match lower_expr(k) {
            Err(m) => Err(m),
            Ok(ExprV::Literal(j)) => match j {
                Json::Str(s) => Ok(s),
                Json::Num(JNum::Int(i)) => Ok(int_text(i)),
                Json::Num(JNum::Float(t)) => Ok(t),
                Json::Bool(b) => Ok(if b { "true"@ } else { "false"@ }),
                Json::Null => Ok("null"@),
                other => Err("Unsupported dictionary key literal: "@ + literal_debug_spec(other)),
            },
            Ok(other) => Err("Expected literal expression, found "@ + expr_debug(other)),
        },
    }
}

/// The first `n` entries of a dict display, keys and values lowered in order.
pub open spec fn dict_entries(e: PyExpr, n: int) -> Result<Seq<(Seq<char>, ExprV)>, Seq<char>>
    decreases e, 0int, n,
{
    match e {
        PyExpr::Dict { keys, values } => if n <= 0 || n > keys@.len() || n > values@.len() {
            Ok(Seq::empty())
        } else {
            match dict_entries(e, n - 1) {
                Err(m) => Err(m),
                Ok(es) => match keys@[n - 1] {
                    None => Err("Dictionary unpacking is not supported"@),
                    Some(k) => match object_key_spec(k) {
                        Err(m) => Err(m),
                        Ok(key) => match lower_expr(values@[n - 1]) {
                            Err(m) => Err(m),
                            Ok(v) => Ok(es.push((key, v))),
                        },
                    },
                },
            }
        },
        _ => Ok(Seq::empty()),
    }
}

} // verus!
