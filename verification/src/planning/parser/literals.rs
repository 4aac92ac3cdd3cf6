//! Constants and keys of plan code, and the `Debug` texts of literals used in messages.

use vstd::prelude::*;
use vstd::string::*;

use crate::error::ReadyError;
use crate::json::{jint, JNum, Json};
use crate::plan::expression::{literal_json, LiteralValue};
use crate::plan::model::AccessorV;
use crate::plan::Accessor;
use crate::planning::parser::names::{expression_name, expression_name_spec, parsing_error};
use crate::planning::syntax::{PyConstant, PyExpr};
use crate::text::{int_text, join_spec, join_strings, push_i64_text, str_eq, strings_view, lemma_strings_view_push};
use crate::tools::shell::{int_parse_spec, parse_i64};

verus! {

broadcast use vstd::std_specs::vec::group_vec_axioms;

/// Whether `e` is a plan-parsing error with message `m`.
pub open spec fn parse_failure(e: ReadyError, m: Seq<char>) -> bool {
    e matches ReadyError::PlanParsing(s) && s@ == m
}

/// The text `{:?}` writes for a string: the string in double quotes, with the escapes of
/// `std`'s `Debug` for `str`.
pub uninterp spec fn str_debug(s: Seq<char>) -> Seq<char>;

/// A string as `{:?}` writes it.
///
/// Trusted: `format!("{:?}", s)`, that is `std`'s `Debug` for `str`; its text is named by
/// `str_debug`, a function of the string alone.
#[verifier::external_body]
fn str_debug_text(s: &str) -> (r: String)
    ensures
        r@ == str_debug(s@),
{
    format!("{s:?}")
}

/// Appends `s` as `{:?}` writes a string.
pub fn push_str_debug(out: &mut String, s: &str)
    ensures
        final(out)@ == old(out)@ + str_debug(s@),
{
    let text = str_debug_text(s);
    out.append(text.as_str());
}

/// A literal value as `{:?}` writes it, given the JSON value it denotes.
pub open spec fn literal_debug_spec(j: Json) -> Seq<char>
    decreases j,
{
    match j {
        Json::Null => "Null"@,
        Json::Bool(b) => if b { "Bool(true)"@ } else { "Bool(false)"@ },
        Json::Num(JNum::Int(i)) => "Integer("@ + int_text(i) + ")"@,
        Json::Num(JNum::Float(t)) => "Float("@ + t + ")"@,
        Json::Str(s) => "String("@ + str_debug(s) + ")"@,
        Json::Arr(items) => "Array(["@ + join_spec(items_debug(items), ", "@) + "])"@,
        Json::Obj(ks, vs) => "Object({"@ + join_spec(members_debug(ks, vs), ", "@) + "})"@,
    }
}

/// The `{:?}` texts of array items, in order.
pub open spec fn items_debug(items: Seq<Json>) -> Seq<Seq<char>>
    decreases items,
{
    Seq::new(items.len(), |i: int| if 0 <= i < items.len() { literal_debug_spec(items[i]) } else { Seq::empty() })
}

/// The `{:?}` texts of object members, `"key": value`, in order.
pub open spec fn members_debug(ks: Seq<Seq<char>>, vs: Seq<Json>) -> Seq<Seq<char>>
    decreases vs,
{
    Seq::new(
        ks.len(),
        |i: int| if 0 <= i < vs.len() { str_debug(ks[i]) + ": "@ + literal_debug_spec(vs[i]) } else { Seq::empty() },
    )
}

/// A literal value as `{:?}` writes it.
pub fn literal_debug(l: &LiteralValue) -> (r: String)
    ensures
        r@ == literal_debug_spec(literal_json(*l)),
    decreases l,
{
    match l {
        LiteralValue::Null => String::from_str("Null"),
        LiteralValue::Bool(b) => if *b { String::from_str("Bool(true)") } else { String::from_str("Bool(false)") },
        LiteralValue::Integer(i) => {
            let mut s = String::from_str("Integer(");
            push_i64_text(&mut s, *i);
            s.append(")");
            s
        },
        LiteralValue::Float(t) => {
            let mut s = String::from_str("Float(");
            s.append(t.as_str());
            s.append(")");
            s
        },
        LiteralValue::String(v) => {
            let mut s = String::from_str("String(");
            push_str_debug(&mut s, v.as_str());
            s.append(")");
            s
        },
        LiteralValue::Array(items) => {
            let ghost j = literal_json(*l);
            let mut parts: Vec<String> = Vec::new();
            let mut i: usize = 0;
            while i < items.len()
                invariant
                    i <= items@.len(),
                    j == literal_json(*l),
                    *l == LiteralValue::Array(*items),
                    strings_view(parts@) == items_debug(j->Arr_0).take(i as int),
                decreases items@.len() - i,
            {
                assert(decreases_to!(*l => items@[i as int]));
                let d = literal_debug(&items[i]);
                assert(j->Arr_0.len() == items@.len());
                assert(j->Arr_0[i as int] == literal_json(items@[i as int]));
                assert(items_debug(j->Arr_0)[i as int] == d@);
                proof {
                    lemma_strings_view_push(parts@, d);
                }
                parts.push(d);
                i += 1;
                assert(strings_view(parts@) =~= items_debug(j->Arr_0).take(i as int));
            }
            assert(items_debug(j->Arr_0).take(i as int) =~= items_debug(j->Arr_0));
            let mut s = String::from_str("Array([");
            let body = join_strings(&parts, ", ");
            s.append(body.as_str());
            s.append("])");
            s
        },
        LiteralValue::Object(entries) => {
            let ghost j = literal_json(*l);
            let mut parts: Vec<String> = Vec::new();
            let mut i: usize = 0;
            while i < entries.len()
                invariant
                    i <= entries@.len(),
                    j == literal_json(*l),
                    *l == LiteralValue::Object(*entries),
                    strings_view(parts@) == members_debug(j->Obj_0, j->Obj_1).take(i as int),
                decreases entries@.len() - i,
            {
                assert(decreases_to!(*l => entries@[i as int].1));
                let mut d = String::new();
                push_str_debug(&mut d, entries[i].0.as_str());
                d.append(": ");
                let v = literal_debug(&entries[i].1);
                d.append(v.as_str());
                assert(j->Obj_0[i as int] == entries@[i as int].0@);
                assert(j->Obj_1[i as int] == literal_json(entries@[i as int].1));
                assert(members_debug(j->Obj_0, j->Obj_1)[i as int] == d@);
                proof {
                    lemma_strings_view_push(parts@, d);
                }
                parts.push(d);
                i += 1;
                assert(strings_view(parts@) =~= members_debug(j->Obj_0, j->Obj_1).take(i as int));
            }
            assert(members_debug(j->Obj_0, j->Obj_1).take(i as int) =~= members_debug(j->Obj_0, j->Obj_1));
            let mut s = String::from_str("Object({");
            let body = join_strings(&parts, ", ");
            s.append(body.as_str());
            s.append("})");
            s
        },
    }
}

/// Whether a float's `Debug` text denotes a finite number.
pub open spec fn float_is_finite(debug: Seq<char>) -> bool {
    debug != "inf"@ && debug != "-inf"@ && debug != "NaN"@
}

/// The JSON array a byte string denotes: its bytes as integers.
pub open spec fn bytes_json(bs: Seq<u8>) -> Json {
    Json::Arr(bs.map_values(|b: u8| jint(b as int)))
}

/// The literal a constant denotes, as the JSON value it stands for.
pub open spec fn constant_spec(c: PyConstant) -> Result<Json, Seq<char>> {
    match c {
        PyConstant::NoneLiteral => Ok(Json::Null),
        PyConstant::Bool(b) => Ok(Json::Bool(b)),
        PyConstant::Str(s) => Ok(Json::Str(s@)),
        PyConstant::Bytes(bs) => Ok(bytes_json(bs@)),
        PyConstant::Int(t) => match int_parse_spec(t@) {
            Ok(v) => Ok(jint(v)),
            Err(_) => Err("Integer literal out of supported typed AST range: "@ + t@),
        },
        PyConstant::Float { debug, display } => if float_is_finite(debug@) {
            Ok(Json::Num(JNum::Float(debug@)))
        } else {
            Err("Invalid float literal: "@ + display@)
        },
        PyConstant::Other(d) => Err("Unsupported literal constant: "@ + d@),
    }
}

/// The literal a constant denotes.
pub fn constant_to_literal(c: &PyConstant) -> (r: Result<LiteralValue, ReadyError>)
    ensures
        match (r, constant_spec(*c)) {
            (Ok(v), Ok(j)) => literal_json(v) == j,
            (Err(e), Err(m)) => parse_failure(e, m),
            _ => false,
        },
{
    match c {
        PyConstant::NoneLiteral => Ok(LiteralValue::Null),
        PyConstant::Bool(b) => Ok(LiteralValue::Bool(*b)),
        PyConstant::Str(s) => Ok(LiteralValue::String(s.clone())),
        PyConstant::Bytes(bs) => {
            let mut items: Vec<LiteralValue> = Vec::new();
            let mut i: usize = 0;
            while i < bs.len()
                invariant
                    i <= bs@.len(),
                    items@.len() == i,
                    forall|k: int| 0 <= k < i ==> items@[k] == LiteralValue::Integer(bs@[k] as i64),
                decreases bs@.len() - i,
            {
                items.push(LiteralValue::Integer(bs[i] as i64));
                i += 1;
            }
            let r = LiteralValue::Array(items);
            assert forall|k: int| 0 <= k < bs@.len() implies literal_json(r)->Arr_0[k] == bytes_json(bs@)->Arr_0[k] by {
                assert(items@[k] == LiteralValue::Integer(bs@[k] as i64));
                assert(literal_json(items@[k]) == jint(bs@[k] as int));
            }
            assert(literal_json(r)->Arr_0 =~= bytes_json(bs@)->Arr_0);
            Ok(r)
        },
        PyConstant::Int(t) => match parse_i64(t.as_str()) {
            Ok(v) => Ok(LiteralValue::Integer(v)),
            Err(_) => {
                let mut m = String::from_str("Integer literal out of supported typed AST range: ");
                m.append(t.as_str());
                Err(parsing_error(m))
            },
        },
        PyConstant::Float { debug, display } => {
            if str_eq(debug.as_str(), "inf") || str_eq(debug.as_str(), "-inf") || str_eq(debug.as_str(), "NaN") {
                let mut m = String::from_str("Invalid float literal: ");
                m.append(display.as_str());
                Err(parsing_error(m))
            } else {
                Ok(LiteralValue::Float(debug.clone()))
            }
        },
        PyConstant::Other(d) => {
            let mut m = String::from_str("Unsupported literal constant: ");
            m.append(d.as_str());
            Err(parsing_error(m))
        },
    }
}

/// The prompt of `collect_user_input`: a string constant.
pub open spec fn string_literal_spec(e: PyExpr) -> Result<Seq<char>, Seq<char>> {
    match e {
        PyExpr::Constant { value: PyConstant::Str(s), .. } => Ok(s@),
        PyExpr::Constant { debug, .. } => Err("Expected string literal, found "@ + debug@),
        other => Err("Expected string literal, found "@ + expression_name_spec(other)),
    }
}

/// The text of a string constant.
pub fn extract_string_literal(e: &PyExpr) -> (r: Result<String, ReadyError>)
    ensures
        match (r, string_literal_spec(*e)) {
            (Ok(s), Ok(t)) => s@ == t,
            (Err(err), Err(m)) => parse_failure(err, m),
            _ => false,
        },
{
    match e {
        PyExpr::Constant { value: PyConstant::Str(s), .. } => Ok(s.clone()),
        PyExpr::Constant { debug, .. } => {
            let mut m = String::from_str("Expected string literal, found ");
            m.append(debug.as_str());
            Err(parsing_error(m))
        },
        other => {
            let mut m = String::from_str("Expected string literal, found ");
            m.append(expression_name(other));
            Err(parsing_error(m))
        },
    }
}

/// The accessor a subscript key gives: a string key or an integer index.
pub open spec fn subscript_key_spec(e: PyExpr) -> Result<AccessorV, Seq<char>> {
    match e {
        PyExpr::Constant { value, .. } => match constant_spec(value) {
            Err(m) => Err(m),
            Ok(Json::Str(s)) => Ok(AccessorV::Key(s)),
            Ok(Json::Num(JNum::Int(i))) => Ok(AccessorV::Index(i as i64)),
            Ok(Json::Num(JNum::Float(_))) => Err("Only integer subscript indices are supported in access paths"@),
            Ok(other) => Err("Unsupported subscript key literal: "@ + literal_debug_spec(other)),
        },
        other => Err(
            "Unsupported subscript slice type: "@ + expression_name_spec(other)
                + ". Only constant integer/string keys are supported."@,
        ),
    }
}

/// The accessor a subscript key gives.
pub fn extract_subscript_key(e: &PyExpr) -> (r: Result<Accessor, ReadyError>)
    ensures
        match (r, subscript_key_spec(*e)) {
            (Ok(a), Ok(av)) => crate::plan::model::accessor_view(a) == av,
            (Err(err), Err(m)) => parse_failure(err, m),
            _ => false,
        },
{
    match e {
        PyExpr::Constant { value, .. } => match constant_to_literal(value) {
            Err(err) => Err(err),
            Ok(LiteralValue::String(s)) => Ok(Accessor::Key(s)),
            Ok(LiteralValue::Integer(i)) => Ok(Accessor::Index(i)),
            Ok(LiteralValue::Float(_)) => Err(
                parsing_error(String::from_str("Only integer subscript indices are supported in access paths")),
            ),
            Ok(other) => {
                let mut m = String::from_str("Unsupported subscript key literal: ");
                let d = literal_debug(&other);
                m.append(d.as_str());
                Err(parsing_error(m))
            },
        },
        other => {
            let mut m = String::from_str("Unsupported subscript slice type: ");
            m.append(expression_name(other));
            m.append(". Only constant integer/string keys are supported.");
            Err(parsing_error(m))
        },
    }
}

} // verus!
