//! Executable lowering of expressions and conditions, proved against `expressions`.

use vstd::prelude::*;
use vstd::string::*;

use crate::error::ReadyError;
use crate::execution::evaluator::{insert_position, obj_put};
use crate::json::{JNum, Json};
use crate::plan::expression::{literal_json, LiteralValue};
use crate::plan::model::{accessor_view, accessors_view, entries_view, expr_view, exprs_view, AccessorV, ExprV};
use crate::plan::{Accessor, BinaryOperator, BooleanOperator, ComparisonOperator, Expression, UnaryOperator};
use crate::planning::parser::debug::expression_debug;
use crate::planning::parser::expressions::{
    access_chain_spec, add_part, all_literal, array_of, binary_operator_spec, boolean_operator_spec,
    comparison_operator_spec, compare_links, dict_entries, dict_of, entries_object, entry_values, has_string_part, literal_values,
    lower_compare, lower_cond, lower_conds, lower_expr, lower_exprs, min_len, object_key_spec,
    unsupported_expression_msg,
};
use crate::planning::parser::literals::{constant_to_literal, extract_subscript_key, literal_debug, parse_failure};
use crate::planning::parser::names::{expression_name, parsing_error};
use crate::planning::syntax::{PyConstant, PyExpr};
use crate::text::{i64_text, lex_lt, str_eq, str_lt};

verus! {

broadcast use vstd::std_specs::vec::group_vec_axioms;

/// Whether an executable lowering result agrees with the lowering of the model.
pub open spec fn lowered(r: Result<Expression, ReadyError>, s: Result<ExprV, Seq<char>>) -> bool {
    match (r, s) {
        (Ok(x), Ok(v)) => expr_view(x) == v,
        (Err(e), Err(m)) => parse_failure(e, m),
        _ => false,
    }
}

/// Whether an executable lowering of several expressions agrees with the model.
pub open spec fn lowered_all(r: Result<Vec<Expression>, ReadyError>, s: Result<Seq<ExprV>, Seq<char>>) -> bool {
    match (r, s) {
        (Ok(x), Ok(v)) => exprs_view(x@) == v,
        (Err(e), Err(m)) => parse_failure(e, m),
        _ => false,
    }
}

proof fn lemma_exprs_view_push(v: Seq<Expression>, x: Expression)
    ensures
        exprs_view(v.push(x)) == exprs_view(v).push(expr_view(x)),
{
    assert(exprs_view(v.push(x)) =~= exprs_view(v).push(expr_view(x)));
}

proof fn lemma_exprs_error_persists(es: Seq<PyExpr>, n: int)
    requires
        0 <= n <= es.len(),
        lower_exprs(es.take(n)) is Err,
    ensures
        lower_exprs(es) == lower_exprs(es.take(n)),
    decreases es.len() - n,
{
    if n < es.len() {
        assert(es.take(n + 1).drop_last() =~= es.take(n));
        lemma_exprs_error_persists(es, n + 1);
    } else {
        assert(es.take(n) =~= es);
    }
}

proof fn lemma_conds_error_persists(es: Seq<PyExpr>, n: int)
    requires
        0 <= n <= es.len(),
        lower_conds(es.take(n)) is Err,
    ensures
        lower_conds(es) == lower_conds(es.take(n)),
    decreases es.len() - n,
{
    if n < es.len() {
        assert(es.take(n + 1).drop_last() =~= es.take(n));
        lemma_conds_error_persists(es, n + 1);
    } else {
        assert(es.take(n) =~= es);
    }
}

proof fn lemma_links_error_persists(e: PyExpr, k: int, n: int)
    requires
        e is Compare,
        0 <= k <= n <= min_len(e->Compare_ops@.len(), e->Compare_comparators@.len()),
        compare_links(e, k) is Err,
    ensures
        compare_links(e, n) == compare_links(e, k),
    decreases n - k,
{
    if k < n {
        lemma_links_error_persists(e, k + 1, n);
    }
}

proof fn lemma_entries_error_persists(e: PyExpr, k: int, n: int)
    requires
        e is Dict,
        0 <= k <= n <= min_len(e->Dict_keys@.len(), e->Dict_values@.len()),
        dict_entries(e, k) is Err,
    ensures
        dict_entries(e, n) == dict_entries(e, k),
    decreases n - k,
{
    if k < n {
        lemma_entries_error_persists(e, k + 1, n);
    }
}

/// The plan operator a Python binary operator maps to.
fn binary_operator(op: &str) -> (r: Result<BinaryOperator, ReadyError>)
    ensures
        match (r, binary_operator_spec(op@)) {
            (Ok(o), Ok(so)) => o == so,
            (Err(e), Err(m)) => parse_failure(e, m),
            _ => false,
        },
{
    if str_eq(op, "Add") {
        Ok(BinaryOperator::Add)
    } else if str_eq(op, "Sub") {
        Ok(BinaryOperator::Subtract)
    } else if str_eq(op, "Mult") {
        Ok(BinaryOperator::Multiply)
    } else if str_eq(op, "Div") {
        Ok(BinaryOperator::Divide)
    } else if str_eq(op, "Mod") {
        Ok(BinaryOperator::Modulo)
    } else if str_eq(op, "Pow") {
        Ok(BinaryOperator::Power)
    } else if str_eq(op, "FloorDiv") {
        Ok(BinaryOperator::FloorDivide)
    } else {
        let mut m = String::from_str("binary operator '");
        m.append(op);
        m.append("' is not supported — allowed operators are +, -, *, /, //, %, **");
        Err(parsing_error(m))
    }
}

/// The plan operator a Python comparison operator maps to.
fn comparison_operator(op: &str) -> (r: ComparisonOperator)
    ensures
        r == comparison_operator_spec(op@),
{
    if str_eq(op, "Eq") {
        ComparisonOperator::Equal
    } else if str_eq(op, "NotEq") {
        ComparisonOperator::NotEqual
    } else if str_eq(op, "Lt") {
        ComparisonOperator::LessThan
    } else if str_eq(op, "Gt") {
        ComparisonOperator::GreaterThan
    } else if str_eq(op, "LtE") {
        ComparisonOperator::LessThanOrEqual
    } else if str_eq(op, "GtE") {
        ComparisonOperator::GreaterThanOrEqual
    } else if str_eq(op, "In") {
        ComparisonOperator::In
    } else if str_eq(op, "NotIn") {
        ComparisonOperator::NotIn
    } else if str_eq(op, "Is") {
        ComparisonOperator::Is
    } else {
        ComparisonOperator::IsNot
    }
}

fn boolean_operator(op: &str) -> (r: BooleanOperator)
    ensures
        r == boolean_operator_spec(op@),
{
    if str_eq(op, "And") {
        BooleanOperator::And
    } else {
        BooleanOperator::Or
    }
}

fn has_string_part_exec(e: &PyExpr) -> (r: bool)
    ensures
        r == has_string_part(*e),
    decreases e,
{
    match e {
        PyExpr::BinOp { left, op, right } => {
            if str_eq(op.as_str(), "Add") {
                has_string_part_exec(left) || has_string_part_exec(right)
            } else {
                false
            }
        },
        PyExpr::Constant { value: PyConstant::Str(_), .. } => true,
        PyExpr::JoinedStr { .. } => true,
        _ => false,
    }
}

/// The variable and accessors of an attribute/subscript chain.
fn unwind_access_chain(e: &PyExpr) -> (r: Result<(String, Vec<Accessor>), ReadyError>)
    ensures
        match (r, access_chain_spec(*e)) {
            (Ok((n, accs)), Ok((sn, saccs))) => n@ == sn && accessors_view(accs@) == saccs,
            (Err(err), Err(m)) => parse_failure(err, m),
            _ => false,
        },
    decreases e,
{
    match e {
        PyExpr::Attribute { value, attr } => match unwind_access_chain(value) {
            Ok((n, accs)) => {
                let mut accs = accs;
                let a = Accessor::Attribute(attr.clone());
                let ghost before = accs@;
                accs.push(a);
                assert(accessors_view(accs@) =~= accessors_view(before).push(accessor_view(a)));
                Ok((n, accs))
            },
            Err(err) => Err(err),
        },
        PyExpr::Subscript { value, slice } => match extract_subscript_key(slice) {
            Err(err) => Err(err),
            Ok(a) => match unwind_access_chain(value) {
                Ok((n, accs)) => {
                    let mut accs = accs;
                    let ghost before = accs@;
                    let ghost av = accessor_view(a);
                    accs.push(a);
                    assert(accessors_view(accs@) =~= accessors_view(before).push(av));
                    Ok((n, accs))
                },
                Err(err) => Err(err),
            },
        },
        PyExpr::Name { id } => {
            let accs: Vec<Accessor> = Vec::new();
            assert(accessors_view(accs@) =~= Seq::<AccessorV>::empty());
            Ok((id.clone(), accs))
        },
        other => {
            let mut m = String::from_str("access chain must start from a variable name, not a '");
            m.append(expression_name(other));
            m.append("' — only `var.attr` or `var[key]` chains are allowed");
            Err(parsing_error(m))
        },
    }
}

/// Binds `key` to `value` in object literal entries kept in ascending key order.
fn literal_object_put(entries: &mut Vec<(String, LiteralValue)>, key: String, value: LiteralValue)
    ensures
        literal_json(LiteralValue::Object(*final(entries))) == obj_put(
            literal_json(LiteralValue::Object(*old(entries))),
            key@,
            literal_json(value),
        ),
{
    let ghost ks = literal_json(LiteralValue::Object(*entries))->Obj_0;
    let ghost vs = literal_json(LiteralValue::Object(*entries))->Obj_1;
    let ghost kv = key@;
    let ghost vv = literal_json(value);
    let ghost old_entries = *entries;
    assert(ks.skip(0) =~= ks);
    let mut i: usize = 0;
    let mut before: bool = entries.len() > 0 && str_lt(entries[0].0.as_str(), key.as_str());
    while before
        invariant
            i <= entries@.len(),
            *entries == old_entries,
            kv == key@,
            ks == literal_json(LiteralValue::Object(*entries))->Obj_0,
            ks.len() == entries@.len(),
            forall|j: int| 0 <= j < ks.len() ==> ks[j] == entries@[j].0@,
            insert_position(ks, kv) == i + insert_position(ks.skip(i as int), kv),
            before ==> i < entries@.len() && lex_lt(ks[i as int], kv),
            !before ==> i == entries@.len() || !lex_lt(ks[i as int], kv),
        decreases entries@.len() - i,
    {
        proof {
            assert(ks.skip(i as int).drop_first() =~= ks.skip(i + 1));
        }
        assert(i < entries.len());
        i += 1;
        if i < entries.len() {
            before = str_lt(entries[i].0.as_str(), key.as_str());
        } else {
            before = false;
        }
    }
    proof {
        if i < ks.len() {
            assert(ks.skip(i as int)[0] == ks[i as int]);
        } else {
            assert(ks.skip(i as int).len() == 0);
        }
        assert(insert_position(ks, kv) == i);
    }
    if i < entries.len() && str_eq(entries[i].0.as_str(), key.as_str()) {
        entries.set(i, (key, value));
        proof {
            let r = literal_json(LiteralValue::Object(*entries));
            assert(r->Obj_0 =~= ks);
            assert(r->Obj_1 =~= vs.update(i as int, vv));
        }
    } else {
        entries.insert(i, (key, value));
        proof {
            let r = literal_json(LiteralValue::Object(*entries));
            assert(r->Obj_0 =~= ks.insert(i as int, kv));
            assert(r->Obj_1 =~= vs.insert(i as int, vv));
        }
    }
}

/// Lowers an expression.
pub fn convert_expression(e: &PyExpr) -> (r: Result<Expression, ReadyError>)
    ensures
        lowered(r, lower_expr(*e)),
    decreases e, 2int, 0int,
{
    match e {
        PyExpr::Constant { value, .. } => match constant_to_literal(value) {
            Ok(l) => Ok(Expression::Literal { value: l }),
            Err(err) => Err(err),
        },
        PyExpr::Name { id } => {
            let accessors: Vec<Accessor> = Vec::new();
            assert(accessors_view(accessors@) =~= Seq::<AccessorV>::empty());
            Ok(Expression::AccessPath { variable_name: id.clone(), accessors })
        },
        PyExpr::Attribute { .. } | PyExpr::Subscript { .. } => match unwind_access_chain(e) {
            Ok((variable_name, accessors)) => Ok(Expression::AccessPath { variable_name, accessors }),
            Err(err) => Err(err),
        },
        PyExpr::FormattedValue { value } => convert_expression(value),
        PyExpr::JoinedStr { values } => match convert_expressions(values) {
            Ok(parts) => Ok(Expression::ConcatExpression { parts }),
            Err(err) => Err(err),
        },
        PyExpr::BinOp { left, op, right } => {
            if str_eq(op.as_str(), "Add") && has_string_part_exec(e) {
                let mut parts: Vec<Expression> = Vec::new();
                assert(exprs_view(parts@) =~= Seq::<ExprV>::empty());
                match convert_add_part(left, &mut parts) {
                    Err(err) => return Err(err),
                    Ok(()) => {},
                }
                match convert_add_part(right, &mut parts) {
                    Err(err) => return Err(err),
                    Ok(()) => {},
                }
                Ok(Expression::ConcatExpression { parts })
            } else {
                let operator = match binary_operator(op.as_str()) {
                    Err(err) => return Err(err),
                    Ok(o) => o,
                };
                let l = match convert_expression(left) {
                    Err(err) => return Err(err),
                    Ok(x) => x,
                };
                let r = match convert_expression(right) {
                    Err(err) => return Err(err),
                    Ok(x) => x,
                };
                Ok(Expression::BinaryExpression { operator, left: Box::new(l), right: Box::new(r) })
            }
        },
        PyExpr::UnaryOp { op, operand } => {
            if str_eq(op.as_str(), "Not") {
                match convert_expression(operand) {
                    Ok(x) => Ok(Expression::Not { operand: Box::new(x) }),
                    Err(err) => Err(err),
                }
            } else if str_eq(op.as_str(), "USub") {
                match convert_expression(operand) {
                    Ok(x) => Ok(Expression::UnaryExpression { operator: UnaryOperator::Minus, operand: Box::new(x) }),
                    Err(err) => Err(err),
                }
            } else if str_eq(op.as_str(), "UAdd") {
                match convert_expression(operand) {
                    Ok(x) => Ok(Expression::UnaryExpression { operator: UnaryOperator::Plus, operand: Box::new(x) }),
                    Err(err) => Err(err),
                }
            } else {
                let mut m = String::from_str("unary operator '");
                m.append(op.as_str());
                m.append("' is not supported — only unary + and - are allowed");
                Err(parsing_error(m))
            }
        },
        PyExpr::Compare { .. } => convert_compare(e),
        PyExpr::BoolOp { op, values } => match convert_expressions(values) {
            Ok(operands) => Ok(Expression::Boolean { operator: boolean_operator(op.as_str()), operands }),
            Err(err) => Err(err),
        },
        PyExpr::List { elts } => convert_array(elts),
        PyExpr::Tuple { elts } => convert_array(elts),
        PyExpr::Dict { .. } => convert_dict(e),
        _ => {
            let mut m = String::from_str("'");
            m.append(expression_name(e));
            m.append(
                "' is not supported — only literals, variable names, attribute/index access, arithmetic, boolean expressions, f-strings, lists, and dicts are allowed",
            );
            Err(parsing_error(m))
        },
    }
}

/// Lowers expressions left to right, stopping at the first failure.
pub fn convert_expressions(es: &Vec<PyExpr>) -> (r: Result<Vec<Expression>, ReadyError>)
    ensures
        lowered_all(r, lower_exprs(es@)),
    decreases es@, 0int, 0int,
{
    let mut out: Vec<Expression> = Vec::new();
    let mut i: usize = 0;
    assert(es@.take(0) =~= Seq::<PyExpr>::empty());
    assert(exprs_view(out@) =~= Seq::<ExprV>::empty());
    while i < es.len()
        invariant
            i <= es@.len(),
            lower_exprs(es@.take(i as int)) == Ok::<Seq<ExprV>, Seq<char>>(exprs_view(out@)),
        decreases es@.len() - i,
    {
        assert(decreases_to!(es@ => es@[i as int]));
        assert(es@.take(i + 1).drop_last() =~= es@.take(i as int));
        assert(es@.take(i + 1)[i as int] == es@[i as int]);
        match convert_expression(&es[i]) {
            Err(err) => {
                proof {
                    lemma_exprs_error_persists(es@, i + 1);
                }
                return Err(err);
            },
            Ok(x) => {
                proof {
                    lemma_exprs_view_push(out@, x);
                }
                out.push(x);
            },
        }
        i += 1;
    }
    assert(es@.take(i as int) =~= es@);
    Ok(out)
}

/// Appends the lowered parts of one side of a string concatenation.
fn convert_add_part(x: &PyExpr, out: &mut Vec<Expression>) -> (r: Result<(), ReadyError>)
    ensures
        match add_part(*x) {
            Ok(ps) => r is Ok && exprs_view(final(out)@) == exprs_view(old(out)@) + ps,
            Err(m) => r matches Err(e) && parse_failure(e, m),
        },
    decreases x, 3int, 0int,
{
    match x {
        PyExpr::BinOp { left, op, right } => {
            if str_eq(op.as_str(), "Add") {
                let ghost start = exprs_view(out@);
                match convert_add_part(left, out) {
                    Err(err) => return Err(err),
                    Ok(()) => {},
                }
                let ghost mid = exprs_view(out@);
                match convert_add_part(right, out) {
                    Err(err) => return Err(err),
                    Ok(()) => {},
                }
                assert(exprs_view(out@) =~= start + (mid.skip(start.len() as int) + exprs_view(out@).skip(mid.len() as int)));
                return Ok(());
            }
        },
        _ => {},
    }
    match convert_expression(x) {
        Err(err) => Err(err),
        Ok(v) => {
            proof {
                lemma_exprs_view_push(out@, v);
            }
            let ghost ev = expr_view(v);
            out.push(v);
            assert(seq![ev] =~= Seq::<ExprV>::empty().push(ev));
            Ok(())
        },
    }
}

/// Lowers a list or tuple display.
fn convert_array(elts: &Vec<PyExpr>) -> (r: Result<Expression, ReadyError>)
    ensures
        lowered(r, array_of(lower_exprs(elts@))),
    decreases elts@, 1int, 0int,
{
    let converted = match convert_expressions(elts) {
        Err(err) => return Err(err),
        Ok(v) => v,
    };
    Ok(array_from_elements(converted))
}

/// The key of a dictionary entry, written as text.
fn extract_json_object_key(k: &PyExpr) -> (r: Result<String, ReadyError>)
    ensures
        match (r, object_key_spec(*k)) {
            (Ok(s), Ok(t)) => s@ == t,
            (Err(e), Err(m)) => parse_failure(e, m),
            _ => false,
        },
    decreases k, 3int, 0int,
{
    match k {
        PyExpr::Constant { value: PyConstant::Float { debug, display }, .. } => {
            if str_eq(debug.as_str(), "inf") || str_eq(debug.as_str(), "-inf") || str_eq(debug.as_str(), "NaN") {
                let mut m = String::from_str("Invalid float literal: ");
                m.append(display.as_str());
                return Err(parsing_error(m));
            }
            return Ok(display.clone());
        },
        _ => {},
    }
    match convert_expression(k) {
        Err(err) => Err(err),
        Ok(Expression::Literal { value }) => match value {
            LiteralValue::String(s) => Ok(s),
            LiteralValue::Integer(i) => Ok(i64_text(i)),
            LiteralValue::Float(t) => Ok(t),
            LiteralValue::Bool(b) => Ok(if b { String::from_str("true") } else { String::from_str("false") }),
            LiteralValue::Null => Ok(String::from_str("null")),
            other => {
                let mut m = String::from_str("Unsupported dictionary key literal: ");
                let d = literal_debug(&other);
                m.append(d.as_str());
                Err(parsing_error(m))
            },
        },
        Ok(other) => {
            let mut m = String::from_str("Expected literal expression, found ");
            let d = expression_debug(&other);
            m.append(d.as_str());
            Err(parsing_error(m))
        },
    }
}

/// A list or tuple display from its lowered elements: a literal array when all are literals.
fn array_from_elements(converted: Vec<Expression>) -> (r: Expression)
    ensures
        array_of(Ok(exprs_view(converted@))) == Ok::<ExprV, Seq<char>>(expr_view(r)),
{
    let ghost vs = exprs_view(converted@);
    let mut all = true;
    let mut i: usize = 0;
    while i < converted.len()
        invariant
            i <= converted@.len(),
            vs == exprs_view(converted@),
            all == (forall|k: int| 0 <= k < i ==> vs[k] is Literal),
        decreases converted@.len() - i,
    {
        assert(vs[i as int] == expr_view(converted@[i as int]));
        match &converted[i] {
            Expression::Literal { .. } => {},
            _ => {
                all = false;
            },
        }
        i += 1;
    }
    if !all {
        return Expression::ArrayExpression { elements: converted };
    }
    let ghost orig = converted@;
    let mut rest = converted;
    let mut lits: Vec<LiteralValue> = Vec::new();
    while rest.len() > 0
        invariant
            lits@.len() + rest@.len() == orig.len(),
            rest@ == orig.skip(lits@.len() as int),
            vs == exprs_view(orig),
            all_literal(vs),
            forall|k: int| 0 <= k < lits@.len() ==> literal_json(#[trigger] lits@[k]) == vs[k]->Literal_0,
        decreases rest@.len(),
    {
        let ghost k = lits@.len() as int;
        let x = rest.remove(0);
        assert(x == orig[k]);
        assert(vs[k] is Literal);
        match x {
            Expression::Literal { value } => {
                lits.push(value);
            },
            _ => {},
        }
        assert(rest@ =~= orig.skip(lits@.len() as int));
    }
    let r = LiteralValue::Array(lits);
    assert(literal_json(r)->Arr_0 =~= literal_values(vs));
    Expression::Literal { value: r }
}

/// A dict display from its lowered entries: a literal object when all values are literals.
fn dict_from_entries(entries: Vec<(String, Expression)>) -> (r: Expression)
    ensures
        dict_of(Ok(entries_view(entries@))) == Ok::<ExprV, Seq<char>>(expr_view(r)),
{
    let ghost es = entries_view(entries@);
    let mut all = true;
    let mut j: usize = 0;
    while j < entries.len()
        invariant
            j <= entries@.len(),
            es == entries_view(entries@),
            all == (forall|k: int| 0 <= k < j ==> es[k].1 is Literal),
        decreases entries@.len() - j,
    {
        assert(es[j as int].1 == expr_view(entries@[j as int].1));
        match &entries[j].1 {
            Expression::Literal { .. } => {},
            _ => {
                all = false;
            },
        }
        j += 1;
    }
    if !all {
        assert(!all_literal(entry_values(es)) || false) by {
            let k = choose|k: int| 0 <= k < j && !(es[k].1 is Literal);
            assert(entry_values(es)[k] == es[k].1);
        }
        return Expression::DictExpression { entries };
    }
    assert(all_literal(entry_values(es))) by {
        assert forall|k: int| 0 <= k < es.len() implies (#[trigger] entry_values(es)[k]) is Literal by {
            assert(entry_values(es)[k] == es[k].1);
        }
    }
    let ghost orig = entries@;
    let mut rest = entries;
    let mut object: Vec<(String, LiteralValue)> = Vec::new();
    let mut taken: usize = 0;
    assert(es.take(0) =~= Seq::<(Seq<char>, ExprV)>::empty());
    assert(literal_json(LiteralValue::Object(object))->Obj_0 =~= Seq::<Seq<char>>::empty());
    assert(literal_json(LiteralValue::Object(object))->Obj_1 =~= Seq::<Json>::empty());
    while rest.len() > 0
        invariant
            taken + rest@.len() == orig.len(),
            orig.len() <= usize::MAX,
            rest@ == orig.skip(taken as int),
            es == entries_view(orig),
            forall|k: int| 0 <= k < es.len() ==> es[k].1 is Literal,
            literal_json(LiteralValue::Object(object)) == entries_object(es.take(taken as int)),
        decreases rest@.len(),
    {
        let (key, x) = rest.remove(0);
        assert(es[taken as int] == (key@, expr_view(x)));
        assert(es[taken as int].1 is Literal);
        assert(es.take(taken + 1).drop_last() =~= es.take(taken as int));
        match x {
            Expression::Literal { value } => {
                literal_object_put(&mut object, key, value);
            },
            _ => {},
        }
        taken += 1;
        assert(rest@ =~= orig.skip(taken as int));
    }
    assert(es.take(taken as int) =~= es);
    Expression::Literal { value: LiteralValue::Object(object) }
}

/// Lowers a dict display.
#[verifier::loop_isolation(false)]
fn convert_dict(e: &PyExpr) -> (r: Result<Expression, ReadyError>)
    requires
        e is Dict,
    ensures
        lowered(r, dict_of(dict_entries(*e, min_len(e->Dict_keys@.len(), e->Dict_values@.len())))),
    decreases e, 1int, 0int,
{
    match e {
        PyExpr::Dict { keys, values } => {
            let n: usize = if keys.len() <= values.len() { keys.len() } else { values.len() };
            let mut entries: Vec<(String, Expression)> = Vec::new();
            let mut i: usize = 0;
            assert(entries_view(entries@) =~= Seq::<(Seq<char>, ExprV)>::empty());
            while i < n
                invariant
                    i <= n,
                    n as int == min_len(keys@.len(), values@.len()),
                    dict_entries(*e, i as int) == Ok::<Seq<(Seq<char>, ExprV)>, Seq<char>>(entries_view(entries@)),
                decreases n - i,
            {
                match &keys[i] {
                    None => {
                        proof {
                            lemma_entries_error_persists(*e, i + 1, n as int);
                        }
                        return Err(parsing_error(String::from_str("Dictionary unpacking is not supported")));
                    },
                    Some(k) => {
                        assert(decreases_to!(*e => keys@[i as int]->0));
                        let key = match extract_json_object_key(k) {
                            Err(err) => {
                                proof {
                                    lemma_entries_error_persists(*e, i + 1, n as int);
                                }
                                return Err(err);
                            },
                            Ok(s) => s,
                        };
                        assert(decreases_to!(*e => values@[i as int]));
                        let v = match convert_expression(&values[i]) {
                            Err(err) => {
                                proof {
                                    lemma_entries_error_persists(*e, i + 1, n as int);
                                }
                                return Err(err);
                            },
                            Ok(x) => x,
                        };
                        let ghost before = entries@;
                        let ghost pv = (key@, expr_view(v));
                        entries.push((key, v));
                        assert(entries_view(entries@) =~= entries_view(before).push(pv));
                    },
                }
                i += 1;
            }
            Ok(dict_from_entries(entries))
        },
        _ => Ok(Expression::DictExpression { entries: Vec::new() }),
    }
}

/// Lowers a condition.
pub fn convert_condition(e: &PyExpr) -> (r: Result<Expression, ReadyError>)
    ensures
        lowered(r, lower_cond(*e)),
    decreases e, 3int, 0int,
{
    match e {
        PyExpr::Compare { .. } => convert_compare(e),
        PyExpr::BoolOp { op, values } => match convert_conditions(values) {
            Ok(operands) => Ok(Expression::Boolean { operator: boolean_operator(op.as_str()), operands }),
            Err(err) => Err(err),
        },
        PyExpr::UnaryOp { op, operand } => {
            if str_eq(op.as_str(), "Not") {
                match convert_condition(operand) {
                    Ok(x) => Ok(Expression::Not { operand: Box::new(x) }),
                    Err(err) => Err(err),
                }
            } else {
                convert_expression(e)
            }
        },
        PyExpr::Call { func, .. } => {
            let mut m = String::from_str("Conditions must not contain function calls. Found call to: ");
            m.append(expression_name(func));
            Err(parsing_error(m))
        },
        _ => convert_expression(e),
    }
}

/// Lowers conditions left to right, stopping at the first failure.
fn convert_conditions(es: &Vec<PyExpr>) -> (r: Result<Vec<Expression>, ReadyError>)
    ensures
        lowered_all(r, lower_conds(es@)),
    decreases es@, 0int, 0int,
{
    let mut out: Vec<Expression> = Vec::new();
    let mut i: usize = 0;
    assert(es@.take(0) =~= Seq::<PyExpr>::empty());
    assert(exprs_view(out@) =~= Seq::<ExprV>::empty());
    while i < es.len()
        invariant
            i <= es@.len(),
            lower_conds(es@.take(i as int)) == Ok::<Seq<ExprV>, Seq<char>>(exprs_view(out@)),
        decreases es@.len() - i,
    {
        assert(decreases_to!(es@ => es@[i as int]));
        assert(es@.take(i + 1).drop_last() =~= es@.take(i as int));
        assert(es@.take(i + 1)[i as int] == es@[i as int]);
        match convert_condition(&es[i]) {
            Err(err) => {
                proof {
                    lemma_conds_error_persists(es@, i + 1);
                }
                return Err(err);
            },
            Ok(x) => {
                proof {
                    lemma_exprs_view_push(out@, x);
                }
                out.push(x);
            },
        }
        i += 1;
    }
    assert(es@.take(i as int) =~= es@);
    Ok(out)
}

/// Lowers a comparison or a comparison chain.
#[verifier::loop_isolation(false)]
fn convert_compare(e: &PyExpr) -> (r: Result<Expression, ReadyError>)
    ensures
        lowered(r, lower_compare(*e)),
    decreases e, 1int, 0int,
{
    match e {
        PyExpr::Compare { left, ops, comparators } => {
            if ops.len() == 1 && comparators.len() == 1 {
                let l = match convert_condition(left) {
                    Err(err) => return Err(err),
                    Ok(x) => x,
                };
                assert(decreases_to!(*e => comparators@[0]));
                let r = match convert_condition(&comparators[0]) {
                    Err(err) => return Err(err),
                    Ok(x) => x,
                };
                return Ok(
                    Expression::Comparison {
                        operator: comparison_operator(ops[0].as_str()),
                        left: Box::new(l),
                        right: Box::new(r),
                    },
                );
            }
            let n: usize = if ops.len() <= comparators.len() { ops.len() } else { comparators.len() };
            let mut operands: Vec<Expression> = Vec::new();
            let mut i: usize = 0;
            assert(exprs_view(operands@) =~= Seq::<ExprV>::empty());
            while i < n
                invariant
                    i <= n,
                    n as int == min_len(ops@.len(), comparators@.len()),
                    compare_links(*e, i as int) == Ok::<Seq<ExprV>, Seq<char>>(exprs_view(operands@)),
                decreases n - i,
            {
                let l = if i == 0 {
                    convert_condition(left)
                } else {
                    assert(decreases_to!(*e => comparators@[i - 1]));
                    convert_condition(&comparators[i - 1])
                };
                let l = match l {
                    Err(err) => {
                        proof {
                            lemma_links_error_persists(*e, i + 1, n as int);
                        }
                        return Err(err);
                    },
                    Ok(x) => x,
                };
                assert(decreases_to!(*e => comparators@[i as int]));
                let r = match convert_condition(&comparators[i]) {
                    Err(err) => {
                        proof {
                            lemma_links_error_persists(*e, i + 1, n as int);
                        }
                        return Err(err);
                    },
                    Ok(x) => x,
                };
                let c = Expression::Comparison {
                    operator: comparison_operator(ops[i].as_str()),
                    left: Box::new(l),
                    right: Box::new(r),
                };
                proof {
                    lemma_exprs_view_push(operands@, c);
                }
                operands.push(c);
                i += 1;
            }
            Ok(Expression::Boolean { operator: BooleanOperator::And, operands })
        },
        _ => {
            let operands: Vec<Expression> = Vec::new();
            assert(exprs_view(operands@) =~= Seq::<ExprV>::empty());
            Ok(Expression::Boolean { operator: BooleanOperator::And, operands })
        },
    }
}

} // verus!
