//! JSON values as the runtime manipulates them, with a mathematical model (`Json`).
//!
//! Numbers are integers or finite floats; a float is carried as the text that the JSON
//! writer prints for it, because arithmetic on floats is not performed by this library.

use vstd::prelude::*;
use vstd::string::*;

use crate::text::{first_index, lemma_first_index_from_spec, lemma_first_index_none, str_eq, digit_char, int_text, join_spec, push_char, push_i64_text, push_u64_text};

verus! {

broadcast use vstd::std_specs::vec::group_vec_axioms;

/// Model of a JSON number.
pub enum JNum {
    Int(int),
    Float(Seq<char>),
}

/// Model of a JSON value. Objects are keys and values in the same order.
#[verifier::ext_equal]
pub enum Json {
    Null,
    Bool(bool),
    Num(JNum),
    Str(Seq<char>),
    Arr(Seq<Json>),
    Obj(Seq<Seq<char>>, Seq<Json>),
}

/// A JSON number: a non-negative integer, a negative integer, or a finite float given by its text.
#[derive(Debug, PartialEq)]
pub enum JsonNumber {
    PosInt(u64),
    NegInt(i64),
    Float(String),
}

impl View for JsonNumber {
    type V = JNum;

    open spec fn view(&self) -> JNum {
        match self {
            JsonNumber::PosInt(u) => JNum::Int(*u as int),
            JsonNumber::NegInt(i) => JNum::Int(*i as int),
            JsonNumber::Float(t) => JNum::Float(t@),
        }
    }
}

/// One key/value entry of a JSON object.
#[derive(Debug, PartialEq)]
pub struct JsonMember {
    pub key: String,
    pub value: JsonValue,
}

/// A JSON value. Object entries are kept in ascending key order, as the JSON map does.
#[derive(Debug, PartialEq)]
pub enum JsonValue {
    Null,
    Bool(bool),
    Number(JsonNumber),
    String(String),
    Array(Vec<JsonValue>),
    Object(Vec<JsonMember>),
}

impl View for JsonValue {
    type V = Json;

    open spec fn view(&self) -> Json
        decreases self,
    {
        match self {
            JsonValue::Null => Json::Null,
            JsonValue::Bool(b) => Json::Bool(*b),
            JsonValue::Number(n) => Json::Num(n@),
            JsonValue::String(s) => Json::Str(s@),
            JsonValue::Array(items) => Json::Arr(
                Seq::new(items@.len(), |i: int| if 0 <= i < items@.len() { items[i].view() } else { Json::Null }),
            ),
            JsonValue::Object(entries) => Json::Obj(
                Seq::new(entries@.len(), |i: int| entries@[i].key@),
                Seq::new(entries@.len(), |i: int| if 0 <= i < entries@.len() { entries[i].value.view() } else { Json::Null }),
            ),
        }
    }
}

/// The JSON model of an integer.
pub open spec fn jint(i: int) -> Json {
    Json::Num(JNum::Int(i))
}

/// A float text that denotes zero; the only distinct texts of equal floats.
pub open spec fn float_is_zero(t: Seq<char>) -> bool {
    t == "0.0"@ || t == "-0.0"@
}

pub open spec fn num_eq(a: JNum, b: JNum) -> bool {
    match (a, b) {
        (JNum::Int(x), JNum::Int(y)) => x == y,
        (JNum::Float(x), JNum::Float(y)) => x == y || (float_is_zero(x) && float_is_zero(y)),
        _ => false,
    }
}

/// Equality of JSON values: integers and floats are distinct, objects compare entry by entry.
pub open spec fn json_eq(a: Json, b: Json) -> bool
    decreases a,
{
    match a {
        Json::Null => b is Null,
        Json::Bool(x) => b matches Json::Bool(y) && x == y,
        Json::Num(x) => b matches Json::Num(y) && num_eq(x, y),
        Json::Str(x) => b matches Json::Str(y) && x == y,
        Json::Arr(xs) => b matches Json::Arr(ys) && xs.len() == ys.len() && forall|i: int|
            0 <= i < xs.len() ==> json_eq(#[trigger] xs[i], ys[i]),
        Json::Obj(ka, va) => b matches Json::Obj(kb, vb) && ka == kb && va.len() == vb.len() && forall|i: int|
            0 <= i < va.len() ==> json_eq(#[trigger] va[i], vb[i]),
    }
}

/// Python-like truthiness: null, false, zero, and empty strings or collections are false.
pub open spec fn json_truthy(v: Json) -> bool {
    match v {
        Json::Null => false,
        Json::Bool(b) => b,
        Json::Num(JNum::Int(i)) => i != 0,
        Json::Num(JNum::Float(t)) => !float_is_zero(t),
        Json::Str(s) => s.len() > 0,
        Json::Arr(xs) => xs.len() > 0,
        Json::Obj(ks, vs) => vs.len() > 0,
    }
}

/// The name of a value's JSON type, as used in error messages.
pub open spec fn json_type_name_spec(v: Json) -> Seq<char> {
    match v {
        Json::Null => "null"@,
        Json::Bool(_) => "boolean"@,
        Json::Num(_) => "number"@,
        Json::Str(_) => "string"@,
        Json::Arr(_) => "array"@,
        Json::Obj(_, _) => "object"@,
    }
}

/// The integer a value holds when it is an integer in the `i64` range.
pub open spec fn json_as_i64(v: Json) -> Option<int> {
    match v {
        Json::Num(JNum::Int(i)) => if i64::MIN <= i <= i64::MAX { Some(i) } else { None },
        _ => None,
    }
}

/// Index of the first entry with key `k`.
pub open spec fn key_index(ks: Seq<Seq<char>>, k: Seq<char>) -> Option<int> {
    first_index(ks, k)
}

/// The value stored under key `k` of an object model.
pub open spec fn obj_get(ks: Seq<Seq<char>>, vs: Seq<Json>, k: Seq<char>) -> Option<Json> {
    match key_index(ks, k) {
        Some(i) => if i < vs.len() { Some(vs[i]) } else { None },
        None => None,
    }
}

/// JSON string escaping as the JSON writer performs it for one character.
pub open spec fn escape_char(c: char) -> Seq<char> {
    if c == '"' {
        seq!['\\', '"']
    } else if c == '\\' {
        seq!['\\', '\\']
    } else if c == '\u{8}' {
        seq!['\\', 'b']
    } else if c == '\t' {
        seq!['\\', 't']
    } else if c == '\n' {
        seq!['\\', 'n']
    } else if c == '\u{c}' {
        seq!['\\', 'f']
    } else if c == '\r' {
        seq!['\\', 'r']
    } else if (c as int) < 0x20 {
        seq!['\\', 'u', '0', '0', hex_digit((c as int) / 16), hex_digit((c as int) % 16)]
    } else {
        seq![c]
    }
}

/// Lower-case hexadecimal digit.
pub open spec fn hex_digit(d: int) -> char {
    if d < 10 { digit_char(d) } else if d == 10 { 'a' } else if d == 11 { 'b' } else if d == 12 { 'c' }
    else if d == 13 { 'd' } else if d == 14 { 'e' } else { 'f' }
}

pub open spec fn escape_spec(s: Seq<char>) -> Seq<char>
    decreases s.len(),
{
    if s.len() == 0 {
        Seq::empty()
    } else {
        escape_spec(s.drop_last()) + escape_char(s.last())
    }
}

/// A string as a JSON string literal.
pub open spec fn quote_spec(s: Seq<char>) -> Seq<char> {
    seq!['"'] + escape_spec(s) + seq!['"']
}

/// `serde_json::to_string` on a string slice.
///
/// The claim: the result is the string in double quotes, with `"` and `\` escaped by a
/// backslash, the control characters 8, 9, 10, 12 and 13 written `\b \t \n \f \r`, the other
/// characters below 0x20 written `\u00xx` in lower-case hex, and every other character
/// copied. Serialising a string slice cannot fail.
#[verifier::external_body]
pub(crate) fn json_quote(s: &str) -> (r: String)
    ensures
        r@ == quote_spec(s@),
{
    match serde_json::to_string(s) {
        Ok(text) => text,
        Err(_) => String::new(),
    }
}

/// Compact JSON text of a value, as the JSON writer prints it.
pub open spec fn json_text(v: Json) -> Seq<char>
    decreases v,
{
    match v {
        Json::Null => "null"@,
        Json::Bool(b) => if b { "true"@ } else { "false"@ },
        Json::Num(JNum::Int(i)) => int_text(i),
        Json::Num(JNum::Float(t)) => t,
        Json::Str(s) => quote_spec(s),
        Json::Arr(xs) => seq!['['] + join_spec(items_texts(xs), seq![',']) + seq![']'],
        Json::Obj(ks, vs) => seq!['{'] + join_spec(entries_texts(ks, vs), seq![',']) + seq!['}'],
    }
}

/// Texts of the items of an array.
pub open spec fn items_texts(xs: Seq<Json>) -> Seq<Seq<char>>
    decreases xs,
{
    if xs.len() == 0 {
        Seq::empty()
    } else {
        items_texts(xs.drop_last()).push(json_text(xs.last()))
    }
}

/// Texts `"key":value` of the entries of an object.
pub open spec fn entries_texts(ks: Seq<Seq<char>>, vs: Seq<Json>) -> Seq<Seq<char>>
    decreases vs,
{
    if vs.len() == 0 {
        Seq::empty()
    } else {
        entries_texts(ks, vs.drop_last()).push(quote_spec(ks[vs.len() - 1]) + seq![':'] + json_text(vs.last()))
    }
}

/// Display form of a value: strings without quotes, everything else as compact JSON.
pub open spec fn display_text(v: Json) -> Seq<char> {
    match v {
        Json::Str(s) => s,
        _ => json_text(v),
    }
}

/// Joining one more part onto a sequence of parts.
pub proof fn lemma_join_append(parts: Seq<Seq<char>>, sep: Seq<char>, x: Seq<char>)
    ensures
        join_spec(parts.push(x), sep) == if parts.len() == 0 { x } else { join_spec(parts, sep) + sep + x },
{
    assert(parts.push(x).drop_last() =~= parts);
}

pub proof fn lemma_items_texts_len(xs: Seq<Json>)
    ensures
        items_texts(xs).len() == xs.len(),
    decreases xs.len(),
{
    if xs.len() > 0 {
        lemma_items_texts_len(xs.drop_last());
    }
}

pub proof fn lemma_entries_texts_len(ks: Seq<Seq<char>>, vs: Seq<Json>)
    ensures
        entries_texts(ks, vs).len() == vs.len(),
    decreases vs.len(),
{
    if vs.len() > 0 {
        lemma_entries_texts_len(ks, vs.drop_last());
    }
}

/// The value for an `i64`, normalised as the JSON number type stores integers.
pub fn json_from_i64(n: i64) -> (r: JsonValue)
    ensures
        r@ == jint(n as int),
{
    if n >= 0 {
        JsonValue::Number(JsonNumber::PosInt(n as u64))
    } else {
        JsonValue::Number(JsonNumber::NegInt(n))
    }
}

/// A deep copy of a number.
pub fn copy_number(n: &JsonNumber) -> (r: JsonNumber)
    ensures
        r@ == n@,
{
    match n {
        JsonNumber::PosInt(u) => JsonNumber::PosInt(*u),
        JsonNumber::NegInt(i) => JsonNumber::NegInt(*i),
        JsonNumber::Float(t) => JsonNumber::Float(t.clone()),
    }
}

/// A deep copy of a value.
#[verifier::loop_isolation(false)]
pub fn copy_json(v: &JsonValue) -> (r: JsonValue)
    ensures
        r@ == v@,
    decreases v,
{
    match v {
        JsonValue::Null => JsonValue::Null,
        JsonValue::Bool(b) => JsonValue::Bool(*b),
        JsonValue::Number(n) => JsonValue::Number(copy_number(n)),
        JsonValue::String(s) => JsonValue::String(s.clone()),
        JsonValue::Array(items) => {
            let mut out: Vec<JsonValue> = Vec::new();
            let mut i: usize = 0;
            while i < items.len()
                invariant
                    i <= items@.len(),
                    out@.len() == i,
                    forall|j: int| 0 <= j < i ==> (#[trigger] out@[j])@ == items@[j]@,
                decreases items@.len() - i,
            {
                let c = copy_json(&items[i]);
                out.push(c);
                i += 1;
            }
            let r = JsonValue::Array(out);
            proof {
                let ra = r@->Arr_0;
                let va = v@->Arr_0;
                assert forall|j: int| 0 <= j < ra.len() implies ra[j] == va[j] by {
                    assert(out@[j]@ == items@[j]@);
                }
                assert(ra =~= va);
            }
            r
        }
        JsonValue::Object(entries) => {
            let mut out: Vec<JsonMember> = Vec::new();
            let mut i: usize = 0;
            while i < entries.len()
                invariant
                    i <= entries@.len(),
                    out@.len() == i,
                    forall|j: int| 0 <= j < i ==> (#[trigger] out@[j]).key@ == entries@[j].key@,
                    forall|j: int| 0 <= j < i ==> (#[trigger] out@[j]).value@ == entries@[j].value@,
                decreases entries@.len() - i,
            {
                let k = entries[i].key.clone();
                let c = copy_json(&entries[i].value);
                out.push(JsonMember { key: k, value: c });
                i += 1;
            }
            let r = JsonValue::Object(out);
            proof {
                let ra = r@->Obj_1;
                let va = v@->Obj_1;
                assert forall|j: int| 0 <= j < ra.len() implies ra[j] == va[j] by {
                    assert(out@[j].value@ == entries@[j].value@);
                }
                assert(ra =~= va);
                assert(r@->Obj_0 =~= v@->Obj_0);
            }
            r
        }
    }
}

fn is_float_zero_text(t: &String) -> (r: bool)
    ensures
        r == float_is_zero(t@),
{
    let z = String::from_str("0.0");
    let nz = String::from_str("-0.0");
    *t == z || *t == nz
}

fn numbers_equal(a: &JsonNumber, b: &JsonNumber) -> (r: bool)
    ensures
        r == num_eq(a@, b@),
{
    match (a, b) {
        (JsonNumber::PosInt(x), JsonNumber::PosInt(y)) => *x == *y,
        (JsonNumber::NegInt(x), JsonNumber::NegInt(y)) => *x == *y,
        (JsonNumber::PosInt(x), JsonNumber::NegInt(y)) => (*y as i128) == (*x as i128),
        (JsonNumber::NegInt(x), JsonNumber::PosInt(y)) => (*x as i128) == (*y as i128),
        (JsonNumber::Float(x), JsonNumber::Float(y)) => *x == *y || (is_float_zero_text(x)
            && is_float_zero_text(y)),
        _ => false,
    }
}

/// Whether two values are equal as JSON values.
#[verifier::loop_isolation(false)]
pub fn json_equal(a: &JsonValue, b: &JsonValue) -> (r: bool)
    ensures
        r == json_eq(a@, b@),
    decreases a,
{
    match (a, b) {
        (JsonValue::Null, JsonValue::Null) => true,
        (JsonValue::Bool(x), JsonValue::Bool(y)) => *x == *y,
        (JsonValue::Number(x), JsonValue::Number(y)) => numbers_equal(x, y),
        (JsonValue::String(x), JsonValue::String(y)) => *x == *y,
        (JsonValue::Array(xs), JsonValue::Array(ys)) => {
            if xs.len() != ys.len() {
                return false;
            }
            let mut i: usize = 0;
            while i < xs.len()
                invariant
                    i <= xs@.len(),
                    xs@.len() == ys@.len(),
                    forall|j: int| 0 <= j < i ==> json_eq((#[trigger] xs@[j])@, ys@[j]@),
                decreases xs@.len() - i,
            {
                if !json_equal(&xs[i], &ys[i]) {
                    assert(a@->Arr_0[i as int] == xs@[i as int]@);
                    return false;
                }
                i += 1;
            }
            proof {
                assert forall|j: int| 0 <= j < xs@.len() implies json_eq(#[trigger] a@->Arr_0[j], b@->Arr_0[j]) by {
                    assert(json_eq(xs@[j]@, ys@[j]@));
                }
            }
            true
        }
        (JsonValue::Object(xs), JsonValue::Object(ys)) => {
            if xs.len() != ys.len() {
                return false;
            }
            let mut i: usize = 0;
            while i < xs.len()
                invariant
                    i <= xs@.len(),
                    xs@.len() == ys@.len(),
                    forall|j: int| 0 <= j < i ==> (#[trigger] xs@[j]).key@ == ys@[j].key@,
                    forall|j: int| 0 <= j < i ==> json_eq((#[trigger] xs@[j]).value@, ys@[j].value@),
                decreases xs@.len() - i,
            {
                if xs[i].key != ys[i].key {
                    assert(a@->Obj_0[i as int] != b@->Obj_0[i as int]);
                    return false;
                }
                if !json_equal(&xs[i].value, &ys[i].value) {
                    assert(a@->Obj_1[i as int] == xs@[i as int].value@);
                    return false;
                }
                i += 1;
            }
            proof {
                assert(a@->Obj_0 =~= b@->Obj_0);
                assert forall|j: int| 0 <= j < xs@.len() implies json_eq(#[trigger] a@->Obj_1[j], b@->Obj_1[j]) by {
                    assert(json_eq(xs@[j].value@, ys@[j].value@));
                }
            }
            true
        }
        _ => false,
    }
}

/// Python-like truthiness of a value.
pub fn is_truthy(v: &JsonValue) -> (r: bool)
    ensures
        r == json_truthy(v@),
{
    match v {
        JsonValue::Null => false,
        JsonValue::Bool(b) => *b,
        JsonValue::Number(JsonNumber::PosInt(u)) => *u != 0,
        JsonValue::Number(JsonNumber::NegInt(i)) => *i != 0,
        JsonValue::Number(JsonNumber::Float(t)) => !is_float_zero_text(t),
        JsonValue::String(s) => s.unicode_len() > 0,
        JsonValue::Array(xs) => xs.len() > 0,
        JsonValue::Object(xs) => xs.len() > 0,
    }
}

/// The name of a value's JSON type.
pub fn json_type_name(v: &JsonValue) -> (r: &'static str)
    ensures
        r@ == json_type_name_spec(v@),
{
    match v {
        JsonValue::Null => "null",
        JsonValue::Bool(_) => "boolean",
        JsonValue::Number(_) => "number",
        JsonValue::String(_) => "string",
        JsonValue::Array(_) => "array",
        JsonValue::Object(_) => "object",
    }
}

/// The integer a value holds, when it holds one in the `i64` range.
pub fn as_i64(v: &JsonValue) -> (r: Option<i64>)
    ensures
        match json_as_i64(v@) {
            Some(i) => r == Some(i as i64),
            None => r is None,
        },
{
    match v {
        JsonValue::Number(JsonNumber::PosInt(u)) => if *u <= 9223372036854775807u64 {
            Some(*u as i64)
        } else {
            None
        },
        JsonValue::Number(JsonNumber::NegInt(i)) => Some(*i),
        _ => None,
    }
}

/// Position of the first entry with key `key`.
pub fn find_member(entries: &Vec<JsonMember>, key: &str) -> (r: Option<usize>)
    ensures
        match r {
            Some(i) => key_index(Seq::new(entries@.len(), |i: int| entries@[i].key@), key@) == Some(i as int)
                && i < entries@.len() && entries@[i as int].key@ == key@,
            None => key_index(Seq::new(entries@.len(), |i: int| entries@[i].key@), key@) is None,
        },
{
    let ghost ks = Seq::new(entries@.len(), |i: int| entries@[i].key@);
    let mut i: usize = 0;
    while i < entries.len()
        invariant
            i <= entries@.len(),
            ks == Seq::new(entries@.len(), |i: int| entries@[i].key@),
            forall|j: int| 0 <= j < i ==> ks[j] != key@,
        decreases entries@.len() - i,
    {
        if str_eq(entries[i].key.as_str(), key) {
            proof { lemma_first_index_from_spec(ks, key@, i as int); }
            return Some(i);
        }
        i += 1;
    }
    proof { lemma_first_index_none(ks, key@); }
    None
}

/// Appends the compact JSON text of `v` to `out`.
#[verifier::loop_isolation(false)]
#[verifier::rlimit(60)]
pub fn write_json(out: &mut String, v: &JsonValue)
    ensures
        final(out)@ == old(out)@ + json_text(v@),
    decreases v,
{
    match v {
        JsonValue::Null => {
            out.append("null");
        }
        JsonValue::Bool(b) => {
            if *b {
                out.append("true");
            } else {
                out.append("false");
            }
        }
        JsonValue::Number(JsonNumber::PosInt(u)) => {
            push_u64_text(out, *u);
        }
        JsonValue::Number(JsonNumber::NegInt(i)) => {
            push_i64_text(out, *i);
        }
        JsonValue::Number(JsonNumber::Float(t)) => {
            out.append(t.as_str());
        }
        JsonValue::String(s) => {
            let q = json_quote(s.as_str());
            out.append(q.as_str());
        }
        JsonValue::Array(items) => {
            let ghost start = out@;
            let ghost xs = v@->Arr_0;
            push_char(out, '[');
            let mut i: usize = 0;
            while i < items.len()
                invariant
                    i <= items@.len(),
                    xs.len() == items@.len(),
                    out@ == start + seq!['['] + join_spec(items_texts(xs.take(i as int)), seq![',']),
                decreases items@.len() - i,
            {
                if i > 0 {
                    push_char(out, ',');
                }
                write_json(out, &items[i]);
                proof {
                    assert(xs.take(i + 1).drop_last() =~= xs.take(i as int));
                    assert(xs[i as int] == items@[i as int]@);
                    lemma_items_texts_len(xs.take(i as int));
                    lemma_join_append(items_texts(xs.take(i as int)), seq![','], json_text(xs[i as int]));
                    assert(out@ =~= start + seq!['['] + join_spec(items_texts(xs.take(i + 1)), seq![',']));
                }
                i += 1;
            }
            push_char(out, ']');
            proof {
                assert(xs.take(i as int) =~= xs);
                assert(out@ =~= old(out)@ + json_text(v@));
            }
        }
        JsonValue::Object(entries) => {
            let ghost start = out@;
            let ghost vs = v@->Obj_1;
            let ghost ks = v@->Obj_0;
            push_char(out, '{');
            let mut i: usize = 0;
            while i < entries.len()
                invariant
                    i <= entries@.len(),
                    vs.len() == entries@.len(),
                    ks.len() == entries@.len(),
                    out@ == start + seq!['{'] + join_spec(entries_texts(ks, vs.take(i as int)), seq![',']),
                decreases entries@.len() - i,
            {
                if i > 0 {
                    push_char(out, ',');
                }
                let q = json_quote(entries[i].key.as_str());
                out.append(q.as_str());
                push_char(out, ':');
                write_json(out, &entries[i].value);
                proof {
                    assert(vs.take(i + 1).drop_last() =~= vs.take(i as int));
                    assert(vs[i as int] == entries@[i as int].value@);
                    assert(ks[i as int] == entries@[i as int].key@);
                    lemma_entries_texts_len(ks, vs.take(i as int));
                    lemma_join_append(entries_texts(ks, vs.take(i as int)), seq![','], quote_spec(ks[i as int]) + seq![':'] + json_text(vs[i as int]));
                    assert(out@ =~= start + seq!['{'] + join_spec(entries_texts(ks, vs.take(i + 1)), seq![',']));
                }
                i += 1;
            }
            push_char(out, '}');
            proof {
                assert(vs.take(i as int) =~= vs);
                assert(out@ =~= old(out)@ + json_text(v@));
            }
        }
    }
}

/// Compact JSON text of a value.
pub fn to_json_text(v: &JsonValue) -> (r: String)
    ensures
        r@ == json_text(v@),
{
    let mut s = String::new();
    write_json(&mut s, v);
    assert(s@ =~= json_text(v@));
    s
}

/// Display form of a value: a string's own characters, or the compact JSON text otherwise.
pub fn value_to_string(v: &JsonValue) -> (r: String)
    ensures
        r@ == display_text(v@),
{
    match v {
        JsonValue::String(s) => s.clone(),
        _ => to_json_text(v),
    }
}

} // verus!
