//! Expression evaluation against a variable scope.
//!
//! Integer arithmetic is exact; an operation whose `i64` result does not fit, a division or
//! remainder by zero, and arithmetic or ordering that involves a float are reported as
//! evaluation errors.

use vstd::prelude::*;
use vstd::string::*;

use crate::error::ReadyError;
use crate::execution::scope::Variables;
use crate::json::{
    as_i64, copy_json, copy_number, display_text, find_member, is_truthy, jint, json_as_i64, json_eq, json_equal,
    json_from_i64, json_truthy, json_type_name, json_type_name_spec, key_index, obj_get, value_to_string, JNum, Json,
    JsonMember, JsonNumber, JsonValue,
};
use crate::plan::expression::literal_json;
use crate::plan::{
    Accessor, BinaryOperator, BooleanOperator, ComparisonOperator, Expression, LiteralValue, UnaryOperator,
};
use crate::text::{
    contains_seq, int_text, lemma_lex_total, lex_lt, push_i64_text, str_contains, str_eq, str_lt,
};

verus! {

broadcast use vstd::std_specs::vec::group_vec_axioms;

/// An evaluation outcome: a value or an error message.
pub type EvalResult = Result<Json, Seq<char>>;

pub open spec fn undefined_variable_msg(name: Seq<char>) -> Seq<char> {
    "Undefined variable: '"@ + name + "'"@
}

pub open spec fn not_numeric_msg(v: Json) -> Seq<char> {
    "Expected numeric value, got "@ + json_type_name_spec(v)
}

pub open spec fn float_unsupported_msg() -> Seq<char> {
    "Floating-point arithmetic is not supported"@
}

pub open spec fn overflow_msg() -> Seq<char> {
    "Integer overflow"@
}

pub open spec fn division_by_zero_msg() -> Seq<char> {
    "Division by zero"@
}

/// One accessor applied to a value.
pub open spec fn apply_accessor_spec(v: Json, a: Accessor) -> EvalResult {
    match a {
        Accessor::Attribute(key) => match v {
            Json::Obj(ks, vs) => match obj_get(ks, vs, key@) {
                Some(x) => Ok(x),
                None => Err("Attribute '"@ + key@ + "' not found"@),
            },
            _ => Err("Cannot access attribute '"@ + key@ + "' on "@ + json_type_name_spec(v)),
        },
        Accessor::Index(i) => match v {
            Json::Arr(xs) => if 0 <= i < xs.len() {
                Ok(xs[i as int])
            } else {
                Err("Array index out of range: "@ + int_text(i as int))
            },
            _ => Err("Cannot index into "@ + json_type_name_spec(v)),
        },
        Accessor::Key(key) => match v {
            Json::Obj(ks, vs) => match obj_get(ks, vs, key@) {
                Some(x) => Ok(x),
                None => Err("Object key '"@ + key@ + "' not found"@),
            },
            _ => Err("Cannot index into "@ + json_type_name_spec(v)),
        },
    }
}

/// Accessors applied left to right; the first failure stops the walk.
pub open spec fn apply_accessors_spec(v: Json, accs: Seq<Accessor>) -> EvalResult
    decreases accs.len(),
{
    if accs.len() == 0 {
        Ok(v)
    } else {
        match apply_accessors_spec(v, accs.drop_last()) {
            Ok(x) => apply_accessor_spec(x, accs.last()),
            Err(m) => Err(m),
        }
    }
}

/// Arithmetic that would go through floating point: an operand that is not a number is an
/// error naming its type; two numbers are refused, as floating-point arithmetic is not
/// supported.
pub open spec fn numeric_check(l: Json, r: Json) -> EvalResult {
    if !(l is Num) {
        Err(not_numeric_msg(l))
    } else if !(r is Num) {
        Err(not_numeric_msg(r))
    } else {
        Err(float_unsupported_msg())
    }
}

/// Rust's `/` on integers: the quotient truncated toward zero.
pub open spec fn trunc_div(a: int, b: int) -> int {
    let q = (if a < 0 { -a } else { a }) / (if b < 0 { -b } else { b });
    if (a < 0) != (b < 0) { -q } else { q }
}

/// Rust's `%` on integers: the remainder with the sign of the dividend.
pub open spec fn trunc_rem(a: int, b: int) -> int {
    a - b * trunc_div(a, b)
}

pub open spec fn in_i64(x: int) -> bool {
    i64::MIN <= x <= i64::MAX
}

pub open spec fn checked_int(x: int) -> EvalResult {
    if in_i64(x) { Ok(jint(x)) } else { Err(overflow_msg()) }
}

/// `base` to the power `e`.
pub open spec fn pow_spec(base: int, e: nat) -> int
    decreases e,
{
    if e == 0 { 1 } else { pow_spec(base, (e - 1) as nat) * base }
}

/// The value of a binary arithmetic expression.
pub open spec fn binary_spec(op: BinaryOperator, l: Json, r: Json) -> EvalResult {
    match (json_as_i64(l), json_as_i64(r)) {
        (Some(a), Some(b)) => match op {
            BinaryOperator::Add => checked_int(a + b),
            BinaryOperator::Subtract => checked_int(a - b),
            BinaryOperator::Multiply => checked_int(a * b),
            BinaryOperator::Divide => Err(float_unsupported_msg()),
            BinaryOperator::FloorDivide => if b == 0 {
                Err(division_by_zero_msg())
            } else {
                checked_int(trunc_div(a, b))
            },
            BinaryOperator::Modulo => if b == 0 {
                Err(division_by_zero_msg())
            } else if !in_i64(trunc_div(a, b)) {
                Err(overflow_msg())
            } else {
                Ok(jint(trunc_rem(a, b)))
            },
            BinaryOperator::Power => if b >= 0 {
                checked_int(pow_spec(a, (b % 0x1_0000_0000) as nat))
            } else {
                Err(float_unsupported_msg())
            },
        },
        _ => numeric_check(l, r),
    }
}

/// The value of a unary arithmetic expression.
pub open spec fn unary_spec(op: UnaryOperator, v: Json) -> EvalResult {
    match json_as_i64(v) {
        Some(a) => match op {
            UnaryOperator::Plus => Ok(jint(a)),
            UnaryOperator::Minus => checked_int(-a),
        },
        None => match v {
            Json::Num(JNum::Float(t)) => match op {
                UnaryOperator::Plus => Ok(v),
                UnaryOperator::Minus => Ok(Json::Num(JNum::Float(negate_float_text(t)))),
            },
            Json::Num(JNum::Int(_)) => Err(float_unsupported_msg()),
            _ => Err(not_numeric_msg(v)),
        },
    }
}

/// The text of a float's negation, given the text of the float.
pub open spec fn negate_float_text(t: Seq<char>) -> Seq<char> {
    if t.len() > 0 && t[0] == '-' { t.drop_first() } else { seq!['-'] + t }
}

/// `in`: membership of `needle` in `container`.
pub open spec fn contains_spec(container: Json, needle: Json) -> Result<bool, Seq<char>> {
    match container {
        Json::Arr(xs) => Ok(exists|i: int| 0 <= i < xs.len() && json_eq(#[trigger] xs[i], needle)),
        Json::Obj(ks, vs) => match needle {
            Json::Str(k) => Ok(key_index(ks, k) is Some),
            _ => Err("Object membership requires a string key"@),
        },
        Json::Str(s) => match needle {
            Json::Str(n) => Ok(contains_seq(s, n)),
            _ => Err("String membership requires a string needle"@),
        },
        _ => Err("Operator 'in' not supported for "@ + json_type_name_spec(container)),
    }
}

/// The number of binary digits of `n`.
pub open spec fn bit_length(n: nat) -> nat
    decreases n,
{
    if n == 0 { 0 } else { 1 + bit_length(n / 2) }
}

/// Two to the power `k`.
pub open spec fn power_of_two(k: nat) -> nat
    decreases k,
{
    if k == 0 { 1 } else { 2 * power_of_two((k - 1) as nat) }
}

/// The magnitude `n` rounded to the nearest `f64`: to 53 significant bits, ties to the even
/// neighbour, as Rust's `as f64` rounds an integer.
pub open spec fn round_to_f64(n: nat) -> nat {
    let b = bit_length(n);
    let unit = if b > 53 { power_of_two((b - 53) as nat) } else { 1 };
    let rest = n % unit;
    if rest * 2 > unit || (rest * 2 == unit && (n / unit) % 2 == 1) {
        (n - rest + unit) as nat
    } else {
        (n - rest) as nat
    }
}

/// An integer's value as the nearest `f64`, the sign kept.
pub open spec fn f64_value(i: int) -> int {
    if i < 0 { -(round_to_f64((-i) as nat) as int) } else { round_to_f64(i as nat) as int }
}

/// Ordering comparisons: strings lexicographically, integers by the `f64` values they round to.
pub open spec fn ordering_spec(op: ComparisonOperator, l: Json, r: Json) -> Result<bool, Seq<char>> {
    match (l, r) {
        (Json::Str(a), Json::Str(b)) => Ok(match op {
            ComparisonOperator::LessThan => lex_lt(a, b),
            ComparisonOperator::GreaterThan => lex_lt(b, a),
            ComparisonOperator::LessThanOrEqual => !lex_lt(b, a),
            _ => !lex_lt(a, b),
        }),
        (Json::Num(JNum::Int(a)), Json::Num(JNum::Int(b))) => {
            let (x, y) = (f64_value(a), f64_value(b));
            Ok(match op {
                ComparisonOperator::LessThan => x < y,
                ComparisonOperator::GreaterThan => x > y,
                ComparisonOperator::LessThanOrEqual => x <= y,
                _ => x >= y,
            })
        },
        _ => match numeric_check(l, r) {
            Err(m) => Err(m),
            Ok(_) => Err(float_unsupported_msg()),
        },
    }
}

/// The truth value of a comparison.
pub open spec fn comparison_spec(op: ComparisonOperator, l: Json, r: Json) -> Result<bool, Seq<char>> {
    match op {
        ComparisonOperator::Equal => Ok(json_eq(l, r)),
        ComparisonOperator::NotEqual => Ok(!json_eq(l, r)),
        ComparisonOperator::Is => Ok(json_eq(l, r)),
        ComparisonOperator::IsNot => Ok(!json_eq(l, r)),
        ComparisonOperator::In => contains_spec(r, l),
        ComparisonOperator::NotIn => match contains_spec(r, l) {
            Ok(b) => Ok(!b),
            Err(m) => Err(m),
        },
        _ => ordering_spec(op, l, r),
    }
}

/// Index of the first key not less than `k` in ascending keys.
pub open spec fn insert_position(ks: Seq<Seq<char>>, k: Seq<char>) -> int
    decreases ks.len(),
{
    if ks.len() == 0 {
        0
    } else if lex_lt(ks[0], k) {
        1 + insert_position(ks.drop_first(), k)
    } else {
        0
    }
}

/// An object with `k` bound to `v`: an existing entry for `k` is replaced, otherwise the entry
/// is inserted before the first larger key.
pub open spec fn obj_put(o: Json, k: Seq<char>, v: Json) -> Json {
    match o {
        Json::Obj(ks, vs) => {
            let p = insert_position(ks, k);
            if p < ks.len() && ks[p] == k {
                Json::Obj(ks, vs.update(p, v))
            } else {
                Json::Obj(ks.insert(p, k), vs.insert(p, v))
            }
        },
        _ => o,
    }
}

/// The value of an expression in a scope.
pub open spec fn eval_spec(e: Expression, vars: Map<Seq<char>, Json>) -> EvalResult
    decreases e,
{
    match e {
        Expression::Literal { value } => Ok(literal_json(value)),
        Expression::AccessPath { variable_name, accessors } => if vars.contains_key(variable_name@) {
            apply_accessors_spec(vars[variable_name@], accessors@)
        } else {
            Err(undefined_variable_msg(variable_name@))
        },
        Expression::BinaryExpression { operator, left, right } => match eval_spec(*left, vars) {
            Err(m) => Err(m),
            Ok(l) => match eval_spec(*right, vars) {
                Err(m) => Err(m),
                Ok(r) => binary_spec(operator, l, r),
            },
        },
        Expression::UnaryExpression { operator, operand } => match eval_spec(*operand, vars) {
            Err(m) => Err(m),
            Ok(v) => unary_spec(operator, v),
        },
        Expression::ConcatExpression { parts } => match concat_spec(parts@, vars) {
            Err(m) => Err(m),
            Ok(s) => Ok(Json::Str(s)),
        },
        Expression::Comparison { operator, left, right } => match eval_spec(*left, vars) {
            Err(m) => Err(m),
            Ok(l) => match eval_spec(*right, vars) {
                Err(m) => Err(m),
                Ok(r) => match comparison_spec(operator, l, r) {
                    Ok(b) => Ok(Json::Bool(b)),
                    Err(m) => Err(m),
                },
            },
        },
        Expression::Boolean { operator, operands } => match operator {
            BooleanOperator::And => and_spec(operands@, vars),
            BooleanOperator::Or => or_spec(operands@, vars),
        },
        Expression::Not { operand } => match eval_spec(*operand, vars) {
            Err(m) => Err(m),
            Ok(v) => Ok(Json::Bool(!json_truthy(v))),
        },
        Expression::DictExpression { entries } => dict_spec(entries@, vars),
        Expression::ArrayExpression { elements } => match elements_spec(elements@, vars) {
            Err(m) => Err(m),
            Ok(xs) => Ok(Json::Arr(xs)),
        },
    }
}

/// Display texts of the parts, concatenated; the first failing part stops evaluation.
pub open spec fn concat_spec(parts: Seq<Expression>, vars: Map<Seq<char>, Json>) -> Result<Seq<char>, Seq<char>>
    decreases parts,
{
    if parts.len() == 0 {
        Ok(Seq::empty())
    } else {
        match concat_spec(parts.drop_last(), vars) {
            Err(m) => Err(m),
            Ok(s) => match eval_spec(parts.last(), vars) {
                Err(m) => Err(m),
                Ok(v) => Ok(s + display_text(v)),
            },
        }
    }
}

/// `and`: operands are evaluated left to right until one is falsy.
pub open spec fn and_spec(ops: Seq<Expression>, vars: Map<Seq<char>, Json>) -> EvalResult
    decreases ops,
{
    if ops.len() == 0 {
        Ok(Json::Bool(true))
    } else {
        match eval_spec(ops[0], vars) {
            Err(m) => Err(m),
            Ok(v) => if json_truthy(v) { and_spec(ops.drop_first(), vars) } else { Ok(Json::Bool(false)) },
        }
    }
}

/// `or`: operands are evaluated left to right until one is truthy.
pub open spec fn or_spec(ops: Seq<Expression>, vars: Map<Seq<char>, Json>) -> EvalResult
    decreases ops,
{
    if ops.len() == 0 {
        Ok(Json::Bool(false))
    } else {
        match eval_spec(ops[0], vars) {
            Err(m) => Err(m),
            Ok(v) => if json_truthy(v) { Ok(Json::Bool(true)) } else { or_spec(ops.drop_first(), vars) },
        }
    }
}

/// The values of the elements, in order.
pub open spec fn elements_spec(es: Seq<Expression>, vars: Map<Seq<char>, Json>) -> Result<Seq<Json>, Seq<char>>
    decreases es,
{
    if es.len() == 0 {
        Ok(Seq::empty())
    } else {
        match elements_spec(es.drop_last(), vars) {
            Err(m) => Err(m),
            Ok(xs) => match eval_spec(es.last(), vars) {
                Err(m) => Err(m),
                Ok(v) => Ok(xs.push(v)),
            },
        }
    }
}

/// An object built from the entries in order, a later entry replacing an earlier equal key.
pub open spec fn dict_spec(es: Seq<(String, Expression)>, vars: Map<Seq<char>, Json>) -> EvalResult
    decreases es,
{
    if es.len() == 0 {
        Ok(Json::Obj(Seq::empty(), Seq::empty()))
    } else {
        match dict_spec(es.drop_last(), vars) {
            Err(m) => Err(m),
            Ok(o) => match eval_spec(es.last().1, vars) {
                Err(m) => Err(m),
                Ok(v) => Ok(obj_put(o, es.last().0@, v)),
            },
        }
    }
}

/// Whether an executable outcome is the specified one.
pub open spec fn eval_matches(r: Result<JsonValue, ReadyError>, s: EvalResult) -> bool {
    match (r, s) {
        (Ok(v), Ok(j)) => v@ == j,
        (Err(ReadyError::Evaluation(m)), Err(sm)) => m@ == sm,
        _ => false,
    }
}

/// The JSON value of a literal.
#[verifier::loop_isolation(false)]
pub fn literal_to_json(l: &LiteralValue) -> (r: JsonValue)
    ensures
        r@ == literal_json(*l),
    decreases l,
{
    match l {
        LiteralValue::Null => JsonValue::Null,
        LiteralValue::Bool(b) => JsonValue::Bool(*b),
        LiteralValue::Integer(i) => json_from_i64(*i),
        LiteralValue::Float(t) => JsonValue::Number(JsonNumber::Float(t.clone())),
        LiteralValue::String(s) => JsonValue::String(s.clone()),
        LiteralValue::Array(items) => {
            let mut out: Vec<JsonValue> = Vec::new();
            let mut i: usize = 0;
            while i < items.len()
                invariant
                    i <= items@.len(),
                    out@.len() == i,
                    forall|j: int| 0 <= j < i ==> (#[trigger] out@[j])@ == literal_json(items@[j]),
                decreases items@.len() - i,
            {
                out.push(literal_to_json(&items[i]));
                i += 1;
            }
            let r = JsonValue::Array(out);
            proof {
                let ra = r@->Arr_0;
                let la = literal_json(*l)->Arr_0;
                assert forall|j: int| 0 <= j < ra.len() implies ra[j] == la[j] by {
                    assert(out@[j]@ == literal_json(items@[j]));
                }
                assert(ra =~= la);
            }
            r
        }
        LiteralValue::Object(entries) => {
            let mut out: Vec<JsonMember> = Vec::new();
            let mut i: usize = 0;
            while i < entries.len()
                invariant
                    i <= entries@.len(),
                    out@.len() == i,
                    forall|j: int| 0 <= j < i ==> (#[trigger] out@[j]).key@ == entries@[j].0@,
                    forall|j: int| 0 <= j < i ==> (#[trigger] out@[j]).value@ == literal_json(entries@[j].1),
                decreases entries@.len() - i,
            {
                out.push(JsonMember { key: entries[i].0.clone(), value: literal_to_json(&entries[i].1) });
                i += 1;
            }
            let r = JsonValue::Object(out);
            proof {
                let rv = r@->Obj_1;
                let lv = literal_json(*l)->Obj_1;
                assert forall|j: int| 0 <= j < rv.len() implies rv[j] == lv[j] by {
                    assert(out@[j].value@ == literal_json(entries@[j].1));
                }
                assert(rv =~= lv);
                assert(r@->Obj_0 =~= literal_json(*l)->Obj_0);
            }
            r
        }
    }
}

/// `a + b + c` as a new string.
pub fn message3(a: &str, b: &str, c: &str) -> (r: String)
    ensures
        r@ == a@ + b@ + c@,
{
    let mut s = String::from_str(a);
    s.append(b);
    s.append(c);
    s
}

/// `a + b` as a new string.
pub fn message2(a: &str, b: &str) -> (r: String)
    ensures
        r@ == a@ + b@,
{
    let mut s = String::from_str(a);
    s.append(b);
    s
}

fn eval_err(m: String) -> (r: Result<JsonValue, ReadyError>)
    ensures
        r matches Err(ReadyError::Evaluation(x)) && x@ == m@,
{
    Err(ReadyError::Evaluation(m))
}

proof fn lemma_accessors_error_persists(base: Json, accs: Seq<Accessor>, n: int)
    requires
        0 <= n <= accs.len(),
        apply_accessors_spec(base, accs.take(n)) is Err,
    ensures
        apply_accessors_spec(base, accs) == apply_accessors_spec(base, accs.take(n)),
    decreases accs.len() - n,
{
    if n < accs.len() {
        assert(accs.take(n + 1).drop_last() =~= accs.take(n));
        lemma_accessors_error_persists(base, accs, n + 1);
    } else {
        assert(accs.take(n) =~= accs);
    }
}

/// One accessor applied to a value.
pub fn apply_accessor(v: &JsonValue, a: &Accessor) -> (r: Result<JsonValue, ReadyError>)
    ensures
        eval_matches(r, apply_accessor_spec(v@, *a)),
{
    match a {
        Accessor::Attribute(key) => match v {
            JsonValue::Object(entries) => match find_member(entries, key.as_str()) {
                Some(i) => {
                    assert(v@->Obj_0 =~= Seq::new(entries@.len(), |i: int| entries@[i].key@));
                    assert(v@->Obj_1[i as int] == entries@[i as int].value@);
                    Ok(copy_json(&entries[i].value))
                }
                None => {
                    assert(v@->Obj_0 =~= Seq::new(entries@.len(), |i: int| entries@[i].key@));
                    eval_err(message3("Attribute '", key.as_str(), "' not found"))
                }
            },
            _ => eval_err(message3("Cannot access attribute '", key.as_str(), "' on ")
                .concat(json_type_name(v))),
        },
        Accessor::Index(i) => match v {
            JsonValue::Array(items) => {
                if *i >= 0 && (*i as u64) < (items.len() as u64) {
                    assert(v@->Arr_0[*i as int] == items@[*i as int]@);
                    Ok(copy_json(&items[*i as usize]))
                } else {
                    let mut m = String::from_str("Array index out of range: ");
                    push_i64_text(&mut m, *i);
                    eval_err(m)
                }
            }
            _ => eval_err(message2("Cannot index into ", json_type_name(v))),
        },
        Accessor::Key(key) => match v {
            JsonValue::Object(entries) => match find_member(entries, key.as_str()) {
                Some(i) => {
                    assert(v@->Obj_0 =~= Seq::new(entries@.len(), |i: int| entries@[i].key@));
                    assert(v@->Obj_1[i as int] == entries@[i as int].value@);
                    Ok(copy_json(&entries[i].value))
                }
                None => {
                    assert(v@->Obj_0 =~= Seq::new(entries@.len(), |i: int| entries@[i].key@));
                    eval_err(message3("Object key '", key.as_str(), "' not found"))
                }
            },
            _ => eval_err(message2("Cannot index into ", json_type_name(v))),
        },
    }
}

/// A variable's value with the accessors applied.
pub fn resolve_access(variable_name: &str, accessors: &Vec<Accessor>, variables: &Variables) -> (r: Result<JsonValue, ReadyError>)
    ensures
        eval_matches(r, if variables@.contains_key(variable_name@) {
            apply_accessors_spec(variables@[variable_name@], accessors@)
        } else {
            Err(undefined_variable_msg(variable_name@))
        }),
{
    let mut value = match variables.get(variable_name) {
        Some(v) => copy_json(v),
        None => {
            return eval_err(message3("Undefined variable: '", variable_name, "'"));
        }
    };
    let ghost base = variables@[variable_name@];
    let mut i: usize = 0;
    while i < accessors.len()
        invariant
            i <= accessors@.len(),
            variables@.contains_key(variable_name@),
            base == variables@[variable_name@],
            apply_accessors_spec(base, accessors@.take(i as int)) == Ok::<Json, Seq<char>>(value@),
        decreases accessors@.len() - i,
    {
        proof {
            assert(accessors@.take(i + 1).drop_last() =~= accessors@.take(i as int));
        }
        match apply_accessor(&value, &accessors[i]) {
            Ok(next) => {
                value = next;
            }
            Err(e) => {
                proof {
                    assert(accessors@.take(i + 1).last() == accessors@[i as int]);
                    assert(apply_accessors_spec(base, accessors@.take(i + 1)) == apply_accessor_spec(value@, accessors@[i as int]));
                    lemma_accessors_error_persists(base, accessors@, i + 1);
                }
                return Err(e);
            }
        }
        i += 1;
    }
    assert(accessors@.take(i as int) =~= accessors@);
    Ok(value)
}

fn checked_result(x: i128) -> (r: Result<JsonValue, ReadyError>)
    ensures
        eval_matches(r, checked_int(x as int)),
{
    if x >= -9223372036854775808i128 && x <= 9223372036854775807i128 {
        Ok(json_from_i64(x as i64))
    } else {
        eval_err(String::from_str("Integer overflow"))
    }
}

fn trunc_div_i64(a: i64, b: i64) -> (q: i128)
    requires
        b != 0,
    ensures
        q == trunc_div(a as int, b as int),
        -0x8000_0000_0000_0000 <= q <= 0x8000_0000_0000_0000,
        in_i64((a as int) - (b as int) * q),
{
    let ua: u128 = if a < 0 { (0i128 - a as i128) as u128 } else { a as u128 };
    let ub: u128 = if b < 0 { (0i128 - b as i128) as u128 } else { b as u128 };
    let uq: u128 = ua / ub;
    proof {
        assert(uq <= ua) by (nonlinear_arith)
            requires uq == ua / ub, ub >= 1;
        assert(0 <= ua - uq * ub < ub) by (nonlinear_arith)
            requires uq == ua / ub, ub >= 1;
    }
    let q: i128 = if (a < 0) != (b < 0) { 0i128 - (uq as i128) } else { uq as i128 };
    proof {
        let ai = a as int;
        let bi = b as int;
        let ur = (ua as int) - (uq as int) * (ub as int);
        assert(ub as int <= 0x8000_0000_0000_0000);
        if a < 0 && b < 0 {
            assert(bi * (q as int) == -((uq as int) * (ub as int))) by (nonlinear_arith)
                requires q as int == uq as int, bi == -(ub as int);
            assert(ai - bi * (q as int) == -ur);
        } else if a < 0 {
            assert(bi * (q as int) == -((uq as int) * (ub as int))) by (nonlinear_arith)
                requires q as int == -(uq as int), bi == ub as int;
            assert(ai - bi * (q as int) == -ur);
        } else if b < 0 {
            assert(bi * (q as int) == (uq as int) * (ub as int)) by (nonlinear_arith)
                requires q as int == -(uq as int), bi == -(ub as int);
            assert(ai - bi * (q as int) == ur);
        } else {
            assert(bi * (q as int) == (uq as int) * (ub as int)) by (nonlinear_arith)
                requires q as int == uq as int, bi == ub as int;
            assert(ai - bi * (q as int) == ur);
        }
    }
    q
}

proof fn lemma_pow_zero_one(a: int, e: nat)
    ensures
        a == 0 && e > 0 ==> pow_spec(a, e) == 0,
        a == 1 ==> pow_spec(a, e) == 1,
        a == -1 ==> pow_spec(a, e) == (if e % 2 == 0 { 1int } else { -1int }),
    decreases e,
{
    if e > 0 {
        lemma_pow_zero_one(a, (e - 1) as nat);
    }
}

proof fn lemma_pow_grows(a: int, k: nat, e: nat)
    requires
        a <= -2 || a >= 2,
        k <= e,
    ensures
        pow_spec(a, e) * pow_spec(a, e) >= pow_spec(a, k) * pow_spec(a, k),
    decreases e - k,
{
    if k < e {
        lemma_pow_grows(a, k, (e - 1) as nat);
        let p = pow_spec(a, (e - 1) as nat);
        assert(pow_spec(a, e) == p * a);
        assert((p * a) * (p * a) >= p * p) by (nonlinear_arith)
            requires a <= -2 || a >= 2;
    }
}

fn power_i64(a: i64, e: u64) -> (r: Result<JsonValue, ReadyError>)
    ensures
        eval_matches(r, checked_int(pow_spec(a as int, e as nat))),
{
    proof { lemma_pow_zero_one(a as int, e as nat); }
    if a == 0 {
        return if e == 0 { Ok(json_from_i64(1)) } else { Ok(json_from_i64(0)) };
    }
    if a == 1 {
        return Ok(json_from_i64(1));
    }
    if a == -1 {
        return if e % 2 == 0 { Ok(json_from_i64(1)) } else { Ok(json_from_i64(-1)) };
    }
    let mut acc: i128 = 1;
    let mut k: u64 = 0;
    while k < e
        invariant
            k <= e,
            a <= -2 || a >= 2,
            acc as int == pow_spec(a as int, k as nat),
            -0x8000_0000_0000_0000 <= acc <= 0x8000_0000_0000_0000,
        decreases e - k,
    {
        proof {
            assert((acc as int) * (a as int) >= -0x8000_0000_0000_0000 * 0x8000_0000_0000_0000
                && (acc as int) * (a as int) <= 0x8000_0000_0000_0000 * 0x8000_0000_0000_0000) by (nonlinear_arith)
                requires -0x8000_0000_0000_0000 <= acc <= 0x8000_0000_0000_0000, -0x8000_0000_0000_0000 <= a <= 0x7fff_ffff_ffff_ffff;
        }
        let next: i128 = acc * (a as i128);
        if next > 0x8000_0000_0000_0000i128 || next < -0x8000_0000_0000_0000i128 {
            proof {
                assert(pow_spec(a as int, (k + 1) as nat) == next);
                lemma_pow_grows(a as int, (k + 1) as nat, e as nat);
                let p = pow_spec(a as int, e as nat);
                assert((next as int) * (next as int) > 0x8000_0000_0000_0000 * 0x8000_0000_0000_0000) by (nonlinear_arith)
                    requires next > 0x8000_0000_0000_0000i128 || next < -0x8000_0000_0000_0000i128;
                assert(!in_i64(p)) by (nonlinear_arith)
                    requires p * p > 0x8000_0000_0000_0000 * 0x8000_0000_0000_0000;
            }
            return eval_err(String::from_str("Integer overflow"));
        }
        acc = next;
        k += 1;
    }
    checked_result(acc)
}

/// The value of a binary arithmetic expression over two values.
pub fn evaluate_binary(op: &BinaryOperator, l: &JsonValue, r: &JsonValue) -> (res: Result<JsonValue, ReadyError>)
    ensures
        eval_matches(res, binary_spec(*op, l@, r@)),
{
    match (as_i64(l), as_i64(r)) {
        (Some(a), Some(b)) => match op {
            BinaryOperator::Add => checked_result(a as i128 + b as i128),
            BinaryOperator::Subtract => checked_result(a as i128 - b as i128),
            BinaryOperator::Multiply => {
                proof {
                    assert(-0x4000_0000_0000_0000_0000_0000_0000_0000 <= (a as int) * (b as int)
                        <= 0x4000_0000_0000_0000_0000_0000_0000_0000) by (nonlinear_arith)
                        requires i64::MIN <= a <= i64::MAX, i64::MIN <= b <= i64::MAX;
                }
                checked_result(a as i128 * b as i128)
            }
            BinaryOperator::Divide => eval_err(String::from_str("Floating-point arithmetic is not supported")),
            BinaryOperator::FloorDivide => {
                if b == 0 {
                    eval_err(String::from_str("Division by zero"))
                } else {
                    checked_result(trunc_div_i64(a, b))
                }
            }
            BinaryOperator::Modulo => {
                if b == 0 {
                    eval_err(String::from_str("Division by zero"))
                } else {
                    let q = trunc_div_i64(a, b);
                    if q > 9223372036854775807i128 {
                        eval_err(String::from_str("Integer overflow"))
                    } else {
                        let rem: i128 = a as i128 - (b as i128) * q;
                        Ok(json_from_i64(rem as i64))
                    }
                }
            }
            BinaryOperator::Power => {
                if b >= 0 {
                    power_i64(a, (b as u64) % 0x1_0000_0000u64)
                } else {
                    eval_err(String::from_str("Floating-point arithmetic is not supported"))
                }
            }
        },
        _ => numeric_error(l, r),
    }
}

fn numeric_error(l: &JsonValue, r: &JsonValue) -> (res: Result<JsonValue, ReadyError>)
    ensures
        eval_matches(res, numeric_check(l@, r@)),
{
    match l {
        JsonValue::Number(_) => {}
        _ => {
            return eval_err(message2("Expected numeric value, got ", json_type_name(l)));
        }
    }
    match r {
        JsonValue::Number(_) => {}
        _ => {
            return eval_err(message2("Expected numeric value, got ", json_type_name(r)));
        }
    }
    eval_err(String::from_str("Floating-point arithmetic is not supported"))
}

fn negate_float(t: &String) -> (r: String)
    ensures
        r@ == negate_float_text(t@),
{
    let cs = crate::text::str_chars(t.as_str());
    if cs.len() > 0 && cs[0] == '-' {
        let r = crate::text::string_from_chars(&cs, 1, cs.len());
        assert(r@ =~= t@.drop_first());
        r
    } else {
        let mut s = String::from_str("-");
        proof { reveal_strlit("-"); }
        s.append(t.as_str());
        assert(s@ =~= seq!['-'] + t@);
        s
    }
}

/// The value of a unary arithmetic expression over a value.
pub fn evaluate_unary(op: &UnaryOperator, v: &JsonValue) -> (res: Result<JsonValue, ReadyError>)
    ensures
        eval_matches(res, unary_spec(*op, v@)),
{
    match as_i64(v) {
        Some(a) => match op {
            UnaryOperator::Plus => Ok(json_from_i64(a)),
            UnaryOperator::Minus => checked_result(0i128 - a as i128),
        },
        None => match v {
            JsonValue::Number(JsonNumber::Float(t)) => match op {
                UnaryOperator::Plus => Ok(JsonValue::Number(JsonNumber::Float(t.clone()))),
                UnaryOperator::Minus => Ok(JsonValue::Number(JsonNumber::Float(negate_float(t)))),
            },
            JsonValue::Number(_) => eval_err(String::from_str("Floating-point arithmetic is not supported")),
            _ => eval_err(message2("Expected numeric value, got ", json_type_name(v))),
        },
    }
}

fn int_of(v: &JsonValue) -> (r: Option<i128>)
    ensures
        match v@ {
            Json::Num(JNum::Int(i)) => r == Some(i as i128) && i as i128 == i,
            _ => r is None,
        },
        r matches Some(x) ==> -0x8000_0000_0000_0000 <= x < 0x1_0000_0000_0000_0000,
{
    match v {
        JsonValue::Number(JsonNumber::PosInt(u)) => Some(*u as i128),
        JsonValue::Number(JsonNumber::NegInt(i)) => Some(*i as i128),
        _ => None,
    }
}

proof fn lemma_bit_length_bound(n: nat, j: nat)
    requires
        n < power_of_two(j),
    ensures
        bit_length(n) <= j,
    decreases j,
{
    if j > 0 && n > 0 {
        lemma_bit_length_bound(n / 2, (j - 1) as nat);
    }
}

proof fn lemma_power_of_two_monotone(a: nat, b: nat)
    requires
        a <= b,
    ensures
        power_of_two(a) <= power_of_two(b),
        power_of_two(a) >= 1,
    decreases b,
{
    if a < b {
        lemma_power_of_two_monotone(a, (b - 1) as nat);
    } else if a > 0 {
        lemma_power_of_two_monotone((a - 1) as nat, (a - 1) as nat);
    }
}

proof fn lemma_powers_of_two()
    ensures
        power_of_two(11) == 2048,
        power_of_two(64) == 0x1_0000_0000_0000_0000,
{
    reveal_with_fuel(power_of_two, 65);
}

/// A magnitude below 2^64 rounded to the nearest `f64`.
fn round_to_f64_exec(n: u128) -> (r: u128)
    requires
        n < 0x1_0000_0000_0000_0000,
    ensures
        r == round_to_f64(n as nat),
        r <= n + 2048,
{
    proof {
        lemma_powers_of_two();
        lemma_bit_length_bound(n as nat, 64);
    }
    let mut m: u128 = n;
    let mut b: u128 = 0;
    while m > 0
        invariant
            bit_length(n as nat) == b + bit_length(m as nat),
            b <= 128,
            m <= n,
            bit_length(n as nat) <= 64,
        decreases m,
    {
        m = m / 2;
        b = b + 1;
    }
    let mut unit: u128 = 1;
    if b > 53 {
        let k = b - 53;
        let mut i: u128 = 0;
        while i < k
            invariant
                i <= k,
                k <= 11,
                unit == power_of_two(i as nat),
                1 <= unit <= 2048,
            decreases k - i,
        {
            proof {
                lemma_power_of_two_monotone((i + 1) as nat, 11);
                lemma_powers_of_two();
            }
            unit = unit * 2;
            i = i + 1;
        }
    }
    proof {
        vstd::arithmetic::div_mod::lemma_mod_decreases(n as nat, unit as nat);
    }
    let rest = n % unit;
    let q = n / unit;
    if rest * 2 > unit || (rest * 2 == unit && q % 2 == 1) {
        n - rest + unit
    } else {
        n - rest
    }
}

/// An integer's value as the nearest `f64`, the sign kept.
fn f64_value_exec(i: i128) -> (r: i128)
    requires
        -0x1_0000_0000_0000_0000 < i < 0x1_0000_0000_0000_0000,
    ensures
        r == f64_value(i as int),
{
    if i < 0 {
        let m = round_to_f64_exec((-i) as u128);
        -(m as i128)
    } else {
        let m = round_to_f64_exec(i as u128);
        m as i128
    }
}

fn ordering(op: &ComparisonOperator, l: &JsonValue, r: &JsonValue) -> (res: Result<bool, ReadyError>)
    requires
        !(*op is Equal || *op is NotEqual || *op is Is || *op is IsNot || *op is In || *op is NotIn),
    ensures
        match (res, ordering_spec(*op, l@, r@)) {
            (Ok(b), Ok(sb)) => b == sb,
            (Err(ReadyError::Evaluation(m)), Err(sm)) => m@ == sm,
            _ => false,
        },
{
    match (l, r) {
        (JsonValue::String(a), JsonValue::String(b)) => {
            return Ok(match op {
                ComparisonOperator::LessThan => str_lt(a.as_str(), b.as_str()),
                ComparisonOperator::GreaterThan => str_lt(b.as_str(), a.as_str()),
                ComparisonOperator::LessThanOrEqual => !str_lt(b.as_str(), a.as_str()),
                _ => !str_lt(a.as_str(), b.as_str()),
            });
        }
        _ => {}
    }
    match (int_of(l), int_of(r)) {
        (Some(a), Some(b)) => {
            let x = f64_value_exec(a);
            let y = f64_value_exec(b);
            return Ok(match op {
                ComparisonOperator::LessThan => x < y,
                ComparisonOperator::GreaterThan => x > y,
                ComparisonOperator::LessThanOrEqual => x <= y,
                _ => x >= y,
            });
        }
        _ => {}
    }
    match numeric_error(l, r) {
        Err(e) => Err(e),
        Ok(_) => Err(ReadyError::Evaluation(String::from_str("Floating-point arithmetic is not supported"))),
    }
}

fn contains_value(container: &JsonValue, needle: &JsonValue) -> (res: Result<bool, ReadyError>)
    ensures
        match (res, contains_spec(container@, needle@)) {
            (Ok(b), Ok(sb)) => b == sb,
            (Err(ReadyError::Evaluation(m)), Err(sm)) => m@ == sm,
            _ => false,
        },
{
    match container {
        JsonValue::Array(items) => {
            let mut i: usize = 0;
            while i < items.len()
                invariant
                    i <= items@.len(),
                    container@ == Json::Arr(container@->Arr_0),
                    container@->Arr_0.len() == items@.len(),
                    forall|j: int| 0 <= j < items@.len() ==> container@->Arr_0[j] == (#[trigger] items@[j])@,
                    forall|j: int| 0 <= j < i ==> !json_eq(#[trigger] container@->Arr_0[j], needle@),
                decreases items@.len() - i,
            {
                if json_equal(&items[i], needle) {
                    assert(json_eq(container@->Arr_0[i as int], needle@));
                    return Ok(true);
                }
                i += 1;
            }
            Ok(false)
        }
        JsonValue::Object(entries) => match needle {
            JsonValue::String(k) => {
                let found = find_member(entries, k.as_str());
                assert(container@->Obj_0 =~= Seq::new(entries@.len(), |i: int| entries@[i].key@));
                Ok(found.is_some())
            }
            _ => Err(ReadyError::Evaluation(String::from_str("Object membership requires a string key"))),
        },
        JsonValue::String(s) => match needle {
            JsonValue::String(n) => Ok(str_contains(s.as_str(), n.as_str())),
            _ => Err(ReadyError::Evaluation(String::from_str("String membership requires a string needle"))),
        },
        _ => Err(ReadyError::Evaluation(message2("Operator 'in' not supported for ", json_type_name(container)))),
    }
}

/// The truth value of a comparison between two values.
pub fn evaluate_comparison(op: &ComparisonOperator, l: &JsonValue, r: &JsonValue) -> (res: Result<bool, ReadyError>)
    ensures
        match (res, comparison_spec(*op, l@, r@)) {
            (Ok(b), Ok(sb)) => b == sb,
            (Err(ReadyError::Evaluation(m)), Err(sm)) => m@ == sm,
            _ => false,
        },
{
    match op {
        ComparisonOperator::Equal => Ok(json_equal(l, r)),
        ComparisonOperator::NotEqual => Ok(!json_equal(l, r)),
        ComparisonOperator::Is => Ok(json_equal(l, r)),
        ComparisonOperator::IsNot => Ok(!json_equal(l, r)),
        ComparisonOperator::In => contains_value(r, l),
        ComparisonOperator::NotIn => match contains_value(r, l) {
            Ok(b) => Ok(!b),
            Err(e) => Err(e),
        },
        _ => ordering(op, l, r),
    }
}

proof fn lemma_insert_position_step(ks: Seq<Seq<char>>, k: Seq<char>, i: int)
    requires
        0 <= i < ks.len(),
        lex_lt(ks[i], k),
    ensures
        insert_position(ks.skip(i), k) == 1 + insert_position(ks.skip(i + 1), k),
{
    assert(ks.skip(i).drop_first() =~= ks.skip(i + 1));
}

/// Binds `key` to `value` in an object whose entries are in ascending key order.
pub fn object_put(entries: &mut Vec<JsonMember>, key: String, value: JsonValue)
    ensures
        JsonValue::Object(*final(entries))@ == obj_put(JsonValue::Object(*old(entries))@, key@, value@),
{
    let ghost ks = Seq::new(entries@.len(), |j: int| entries@[j].key@);
    let ghost vs = JsonValue::Object(*entries)@->Obj_1;
    let ghost kv = key@;
    let ghost vv = value@;
    let ghost old_entries = *entries;
    assert(ks.skip(0) =~= ks);
    let mut i: usize = 0;
    let mut before: bool = entries.len() > 0 && str_lt(entries[0].key.as_str(), key.as_str());
    while before
        invariant
            i <= entries@.len(),
            *entries == old_entries,
            kv == key@,
            ks == Seq::new(entries@.len(), |j: int| entries@[j].key@),
            insert_position(ks, kv) == i + insert_position(ks.skip(i as int), kv),
            before ==> i < entries@.len() && lex_lt(ks[i as int], kv),
            !before ==> i == entries@.len() || !lex_lt(ks[i as int], kv),
        decreases entries@.len() - i,
    {
        proof {
            lemma_insert_position_step(ks, kv, i as int);
        }
        assert(i < entries.len());
        i += 1;
        if i < entries.len() {
            before = str_lt(entries[i].key.as_str(), key.as_str());
            assert(ks[i as int] == entries@[i as int].key@);
        } else {
            before = false;
        }
    }
    proof {
        if i < ks.len() {
            assert(ks.skip(i as int)[0] == ks[i as int]);
        } else {
            assert(ks.skip(i as int).len() == 0);
        }
        assert(insert_position(ks, kv) == i);
    }
    if i < entries.len() && str_eq(entries[i].key.as_str(), key.as_str()) {
        entries.set(i, JsonMember { key: key, value: value });
        proof {
            let r = JsonValue::Object(*entries)@;
            assert(r->Obj_0 =~= ks);
            assert(r->Obj_1 =~= vs.update(i as int, vv));
        }
    } else {
        entries.insert(i, JsonMember { key: key, value: value });
        proof {
            let r = JsonValue::Object(*entries)@;
            assert(r->Obj_0 =~= ks.insert(i as int, kv));
            assert(r->Obj_1 =~= vs.insert(i as int, vv));
        }
    }
}

proof fn lemma_concat_error_persists(parts: Seq<Expression>, vars: Map<Seq<char>, Json>, n: int)
    requires
        0 <= n <= parts.len(),
        concat_spec(parts.take(n), vars) is Err,
    ensures
        concat_spec(parts, vars) == concat_spec(parts.take(n), vars),
    decreases parts.len() - n,
{
    if n < parts.len() {
        assert(parts.take(n + 1).drop_last() =~= parts.take(n));
        lemma_concat_error_persists(parts, vars, n + 1);
    } else {
        assert(parts.take(n) =~= parts);
    }
}

pub proof fn lemma_elements_error_persists(es: Seq<Expression>, vars: Map<Seq<char>, Json>, n: int)
    requires
        0 <= n <= es.len(),
        elements_spec(es.take(n), vars) is Err,
    ensures
        elements_spec(es, vars) == elements_spec(es.take(n), vars),
    decreases es.len() - n,
{
    if n < es.len() {
        assert(es.take(n + 1).drop_last() =~= es.take(n));
        lemma_elements_error_persists(es, vars, n + 1);
    } else {
        assert(es.take(n) =~= es);
    }
}

proof fn lemma_dict_error_persists(es: Seq<(String, Expression)>, vars: Map<Seq<char>, Json>, n: int)
    requires
        0 <= n <= es.len(),
        dict_spec(es.take(n), vars) is Err,
    ensures
        dict_spec(es, vars) == dict_spec(es.take(n), vars),
    decreases es.len() - n,
{
    if n < es.len() {
        assert(es.take(n + 1).drop_last() =~= es.take(n));
        lemma_dict_error_persists(es, vars, n + 1);
    } else {
        assert(es.take(n) =~= es);
    }
}

/// The value of an expression in a variable scope.
#[verifier::loop_isolation(false)]
pub fn evaluate_expression(expr: &Expression, variables: &Variables) -> (r: Result<JsonValue, ReadyError>)
    ensures
        eval_matches(r, eval_spec(*expr, variables@)),
    decreases expr,
{
    match expr {
        Expression::Literal { value } => Ok(literal_to_json(value)),
        Expression::AccessPath { variable_name, accessors } => resolve_access(
            variable_name.as_str(),
            accessors,
            variables,
        ),
        Expression::BinaryExpression { operator, left, right } => {
            let l = match evaluate_expression(&**left, variables) {
                Ok(v) => v,
                Err(e) => return Err(e),
            };
            let r = match evaluate_expression(&**right, variables) {
                Ok(v) => v,
                Err(e) => return Err(e),
            };
            evaluate_binary(operator, &l, &r)
        }
        Expression::UnaryExpression { operator, operand } => {
            let v = match evaluate_expression(&**operand, variables) {
                Ok(v) => v,
                Err(e) => return Err(e),
            };
            evaluate_unary(operator, &v)
        }
        Expression::ConcatExpression { parts } => {
            let mut out = String::new();
            let mut i: usize = 0;
            while i < parts.len()
                invariant
                    i <= parts@.len(),
                    concat_spec(parts@.take(i as int), variables@) == Ok::<Seq<char>, Seq<char>>(out@),
                decreases parts@.len() - i,
            {
                proof {
                    assert(parts@.take(i + 1).drop_last() =~= parts@.take(i as int));
                    assert(parts@.take(i + 1).last() == parts@[i as int]);
                    assert(decreases_to!(*expr => parts@[i as int]));
                }
                let v = match evaluate_expression(&parts[i], variables) {
                    Ok(v) => v,
                    Err(e) => {
                        proof { lemma_concat_error_persists(parts@, variables@, i + 1); }
                        return Err(e);
                    }
                };
                let t = value_to_string(&v);
                out.append(t.as_str());
                i += 1;
            }
            assert(parts@.take(i as int) =~= parts@);
            Ok(JsonValue::String(out))
        }
        Expression::Comparison { operator, left, right } => {
            let l = match evaluate_expression(&**left, variables) {
                Ok(v) => v,
                Err(e) => return Err(e),
            };
            let r = match evaluate_expression(&**right, variables) {
                Ok(v) => v,
                Err(e) => return Err(e),
            };
            match evaluate_comparison(operator, &l, &r) {
                Ok(b) => Ok(JsonValue::Bool(b)),
                Err(e) => Err(e),
            }
        }
        Expression::Boolean { operator, operands } => {
            let is_and = match operator {
                BooleanOperator::And => true,
                BooleanOperator::Or => false,
            };
            let mut i: usize = 0;
            assert(operands@.skip(0) =~= operands@);
            while i < operands.len()
                invariant
                    i <= operands@.len(),
                    is_and ==> and_spec(operands@, variables@) == and_spec(operands@.skip(i as int), variables@),
                    !is_and ==> or_spec(operands@, variables@) == or_spec(operands@.skip(i as int), variables@),
                decreases operands@.len() - i,
            {
                proof {
                    assert(operands@.skip(i as int)[0] == operands@[i as int]);
                    assert(operands@.skip(i as int).drop_first() =~= operands@.skip(i + 1));
                    assert(decreases_to!(*expr => operands@[i as int]));
                }
                let v = match evaluate_expression(&operands[i], variables) {
                    Ok(v) => v,
                    Err(e) => return Err(e),
                };
                let t = is_truthy(&v);
                if is_and && !t {
                    return Ok(JsonValue::Bool(false));
                }
                if !is_and && t {
                    return Ok(JsonValue::Bool(true));
                }
                i += 1;
            }
            assert(operands@.skip(i as int).len() == 0);
            Ok(JsonValue::Bool(is_and))
        }
        Expression::Not { operand } => {
            let v = match evaluate_expression(&**operand, variables) {
                Ok(v) => v,
                Err(e) => return Err(e),
            };
            Ok(JsonValue::Bool(!is_truthy(&v)))
        }
        Expression::DictExpression { entries } => {
            let mut out: Vec<JsonMember> = Vec::new();
            let mut i: usize = 0;
            assert(JsonValue::Object(out)@->Obj_0 =~= Seq::<Seq<char>>::empty());
            assert(JsonValue::Object(out)@->Obj_1 =~= Seq::<Json>::empty());
            while i < entries.len()
                invariant
                    i <= entries@.len(),
                    dict_spec(entries@.take(i as int), variables@) == Ok::<Json, Seq<char>>(JsonValue::Object(out)@),
                decreases entries@.len() - i,
            {
                proof {
                    assert(entries@.take(i + 1).drop_last() =~= entries@.take(i as int));
                    assert(entries@.take(i + 1).last() == entries@[i as int]);
                    assert(decreases_to!(*expr => entries@[i as int].1));
                }
                let v = match evaluate_expression(&entries[i].1, variables) {
                    Ok(v) => v,
                    Err(e) => {
                        proof { lemma_dict_error_persists(entries@, variables@, i + 1); }
                        return Err(e);
                    }
                };
                object_put(&mut out, entries[i].0.clone(), v);
                i += 1;
            }
            assert(entries@.take(i as int) =~= entries@);
            Ok(JsonValue::Object(out))
        }
        Expression::ArrayExpression { elements } => {
            let mut out: Vec<JsonValue> = Vec::new();
            let mut i: usize = 0;
            assert(JsonValue::Array(out)@->Arr_0 =~= Seq::<Json>::empty());
            while i < elements.len()
                invariant
                    i <= elements@.len(),
                    elements_spec(elements@.take(i as int), variables@) == Ok::<Seq<Json>, Seq<char>>(
                        JsonValue::Array(out)@->Arr_0,
                    ),
                decreases elements@.len() - i,
            {
                proof {
                    assert(elements@.take(i + 1).drop_last() =~= elements@.take(i as int));
                    assert(elements@.take(i + 1).last() == elements@[i as int]);
                    assert(decreases_to!(*expr => elements@[i as int]));
                }
                let v = match evaluate_expression(&elements[i], variables) {
                    Ok(v) => v,
                    Err(e) => {
                        proof { lemma_elements_error_persists(elements@, variables@, i + 1); }
                        return Err(e);
                    }
                };
                let ghost before = JsonValue::Array(out)@->Arr_0;
                let ghost vv = v@;
                out.push(v);
                assert(JsonValue::Array(out)@->Arr_0 =~= before.push(vv));
                i += 1;
            }
            assert(elements@.take(i as int) =~= elements@);
            Ok(JsonValue::Array(out))
        }
    }
}

} // verus!
