//! The request bodies, response reading and error texts of the chat-completions API; the
//! HTTP exchange itself is performed by the caller.

use vstd::prelude::*;
use vstd::string::*;

use crate::error::ReadyError;
use crate::execution::evaluator::{object_put, obj_put};
use crate::json::{copy_json, find_member, json_text, key_index, obj_get, to_json_text, JNum, Json, JsonMember, JsonNumber, JsonValue};
use crate::planning::parser::literals::{push_str_debug, str_debug};
use crate::text::{str_chars, string_from_chars, string_of, str_eq};

verus! {

broadcast use vstd::std_specs::vec::group_vec_axioms;

/// The model used when none is configured.
pub const DEFAULT_MODEL: &'static str = "gpt-4o";

/// The API base used when none is configured.
pub const DEFAULT_API_BASE: &'static str = "https://api.openai.com/v1";

/// A member of an object model, if the value is an object that has it.
pub open spec fn json_get(v: Json, k: Seq<char>) -> Option<Json> {
    match v {
        Json::Obj(ks, vs) => obj_get(ks, vs, k),
        _ => None,
    }
}

/// The value of a member of an object, if the value is an object that has it.
pub fn get_member<'a>(v: &'a JsonValue, key: &str) -> (r: Option<&'a JsonValue>)
    ensures
        match r {
            Some(x) => json_get(v@, key@) == Some(x@),
            None => json_get(v@, key@) is None,
        },
{
    match v {
        JsonValue::Object(members) => match find_member(members, key) {
            Some(i) => Some(&members[i].value),
            None => None,
        },
        _ => None,
    }
}

/// A schema made strict: every object schema lists all its property keys under `required`
/// (when it has `properties`) and forbids `additionalProperties`, and the schemas below it
/// are made strict too: those of its properties and those of its array items.
pub open spec fn strict_schema(j: Json) -> Json
    decreases j, 1int,
{
    match j {
        Json::Obj(ks, vs) => match key_index(ks, "items"@) {
            Some(k) => if 0 <= k < vs.len() {
                let items = match vs[k] {
                    Json::Arr(xs) => Json::Arr(strict_all(xs)),
                    other => strict_schema(other),
                };
                obj_put(closed_schema(j), "items"@, items)
            } else {
                closed_schema(j)
            },
            None => closed_schema(j),
        },
        _ => j,
    }
}

/// An object schema closed to extra members, its property schemas made strict. An object
/// schema is one with `properties` or with `"type": "object"`; with `properties` it also lists
/// all its property keys under `required`.
pub open spec fn closed_schema(j: Json) -> Json
    decreases j, 0int,
{
    match j {
        Json::Obj(ks, vs) => match key_index(ks, "properties"@) {
            Some(k) => if 0 <= k < vs.len() {
                let p = vs[k];
                let with_required = match p {
                    Json::Obj(pks, _) => obj_put(j, "required"@, Json::Arr(pks.map_values(|key: Seq<char>| Json::Str(key)))),
                    _ => j,
                };
                let forbidden = obj_put(with_required, "additionalProperties"@, Json::Bool(false));
                match p {
                    Json::Obj(pks, pvs) => obj_put(forbidden, "properties"@, Json::Obj(pks, strict_all(pvs))),
                    _ => forbidden,
                }
            } else {
                j
            },
            None => if obj_get(ks, vs, "type"@) == Some(Json::Str("object"@)) {
                obj_put(j, "additionalProperties"@, Json::Bool(false))
            } else {
                j
            },
        },
        _ => j,
    }
}

/// The schemas made strict, in order.
pub open spec fn strict_all(vs: Seq<Json>) -> Seq<Json>
    decreases vs, 2int,
{
    Seq::new(vs.len(), |i: int| if 0 <= i < vs.len() { strict_schema(vs[i]) } else { Json::Null })
}

fn key_strings(members: &Vec<JsonMember>) -> (r: Vec<JsonValue>)
    ensures
        JsonValue::Array(r)@ == Json::Arr(JsonValue::Object(*members)@->Obj_0.map_values(|key: Seq<char>| Json::Str(key))),
{
    let ghost ks = JsonValue::Object(*members)@->Obj_0;
    let mut out: Vec<JsonValue> = Vec::new();
    let mut i: usize = 0;
    while i < members.len()
        invariant
            i <= members@.len(),
            ks == JsonValue::Object(*members)@->Obj_0,
            out@.len() == i,
            forall|k: int| 0 <= k < i ==> (#[trigger] out@[k])@ == Json::Str(ks[k]),
        decreases members@.len() - i,
    {
        out.push(JsonValue::String(string_of(members[i].key.as_str())));
        i += 1;
    }
    assert(JsonValue::Array(out)@->Arr_0 =~= ks.map_values(|key: Seq<char>| Json::Str(key)));
    out
}

/// A schema made strict.
pub fn strict_schema_value(schema: JsonValue) -> (r: JsonValue)
    ensures
        r@ == strict_schema(schema@),
    decreases schema@,
{
    let ghost j = schema@;
    match schema {
        JsonValue::Object(members) => {
            let items = match find_member(&members, "items") {
                None => None,
                Some(i) => {
                    let v = copy_json(&members[i].value);
                    assert(j->Obj_1[i as int] == v@);
                    assert(decreases_to!(j => j->Obj_1));
                    assert(decreases_to!(j->Obj_1 => j->Obj_1[i as int]));
                    let strict = match v {
                        JsonValue::Array(xs) => {
                            assert(decreases_to!(j->Obj_1[i as int] => j->Obj_1[i as int]->Arr_0));
                            JsonValue::Array(strict_elements(xs))
                        },
                        other => strict_schema_value(other),
                    };
                    assert(key_index(j->Obj_0, "items"@) == Some(i as int));
                    assert(strict@ == match j->Obj_1[i as int] {
                        Json::Arr(xs) => Json::Arr(strict_all(xs)),
                        other => strict_schema(other),
                    });
                    Some(strict)
                },
            };
            assert(match items {
                Some(v) => key_index(j->Obj_0, "items"@) matches Some(k) && 0 <= k < j->Obj_1.len() && v@ == match j->Obj_1[k] {
                    Json::Arr(xs) => Json::Arr(strict_all(xs)),
                    other => strict_schema(other),
                },
                None => key_index(j->Obj_0, "items"@) is None,
            });
            let mut members = members;
            match find_member(&members, "properties") {
                None => {
                    let is_object = match find_member(&members, "type") {
                        Some(t) => {
                            assert(j->Obj_1[t as int] == members@[t as int].value@);
                            match &members[t].value {
                                JsonValue::String(name) => str_eq(name.as_str(), "object"),
                                _ => false,
                            }
                        },
                        None => false,
                    };
                    assert(is_object == (obj_get(j->Obj_0, j->Obj_1, "type"@) == Some(Json::Str("object"@))));
                    if is_object {
                        object_put(&mut members, String::from_str("additionalProperties"), JsonValue::Bool(false));
                    }
                },
                Some(idx) => {
                    let props = copy_json(&members[idx].value);
                    assert(j->Obj_1[idx as int] == props@);
                    match &props {
                        JsonValue::Object(pms) => {
                            let keys = key_strings(pms);
                            object_put(&mut members, String::from_str("required"), JsonValue::Array(keys));
                        },
                        _ => {},
                    }
                    object_put(&mut members, String::from_str("additionalProperties"), JsonValue::Bool(false));
                    match props {
                        JsonValue::Object(pms) => {
                            assert(decreases_to!(j => j->Obj_1));
                            assert(decreases_to!(j->Obj_1 => j->Obj_1[idx as int]));
                            let strict = strict_members(pms);
                            object_put(&mut members, String::from_str("properties"), JsonValue::Object(strict));
                        },
                        _ => {},
                    }
                },
            }
            assert(JsonValue::Object(members)@ == closed_schema(j));
            let ghost closed = JsonValue::Object(members)@;
            match items {
                Some(v) => {
                    let ghost vv = v@;
                    object_put(&mut members, String::from_str("items"), v);
                    assert(JsonValue::Object(members)@ == obj_put(closed, "items"@, vv));
                },
                None => {},
            }
            JsonValue::Object(members)
        },
        other => other,
    }
}

/// Array items made strict schemas, in order.
#[verifier::loop_isolation(false)]
fn strict_elements(xs: Vec<JsonValue>) -> (r: Vec<JsonValue>)
    ensures
        JsonValue::Array(r)@ == Json::Arr(strict_all(JsonValue::Array(xs)@->Arr_0)),
    decreases JsonValue::Array(xs)@,
{
    let ghost p = JsonValue::Array(xs)@;
    let ghost orig = xs@;
    assert(xs.len() == orig.len());
    assert(p->Arr_0.len() == orig.len());
    let mut rest = xs;
    let mut out: Vec<JsonValue> = Vec::new();
    let mut taken: usize = 0;
    while rest.len() > 0
        invariant
            taken + rest@.len() == orig.len(),
            orig.len() <= usize::MAX,
            rest@ == orig.skip(taken as int),
            p is Arr,
            p->Arr_0.len() == orig.len(),
            forall|k: int| 0 <= k < orig.len() ==> (#[trigger] p->Arr_0[k]) == orig[k]@,
            out@.len() == taken,
            forall|k: int| 0 <= k < taken ==> (#[trigger] out@[k])@ == strict_schema(orig[k]@),
        decreases rest@.len(),
    {
        let x = rest.remove(0);
        assert(x == orig[taken as int]);
        assert(decreases_to!(p => p->Arr_0));
        assert(decreases_to!(p->Arr_0 => p->Arr_0[taken as int]));
        assert(x@ == p->Arr_0[taken as int]);
        assert(decreases_to!(p => x@));
        let v = strict_schema_value(x);
        out.push(v);
        taken += 1;
        assert(rest@ =~= orig.skip(taken as int));
    }
    let ghost r = JsonValue::Array(out)@;
    assert(r->Arr_0 =~= strict_all(p->Arr_0));
    out
}

/// Members with their values made strict schemas.
#[verifier::loop_isolation(false)]
fn strict_members(pms: Vec<JsonMember>) -> (r: Vec<JsonMember>)
    ensures
        JsonValue::Object(r)@ == Json::Obj(
            JsonValue::Object(pms)@->Obj_0,
            strict_all(JsonValue::Object(pms)@->Obj_1),
        ),
    decreases JsonValue::Object(pms)@,
{
    let ghost p = JsonValue::Object(pms)@;
    let ghost orig = pms@;
    assert(orig.len() == pms.len());
    let mut rest = pms;
    let mut out: Vec<JsonMember> = Vec::new();
    let mut taken: usize = 0;
    while rest.len() > 0
        invariant
            taken + rest@.len() == orig.len(),
            orig.len() <= usize::MAX,
            rest@ == orig.skip(taken as int),
            p->Obj_0 == Seq::new(orig.len(), |i: int| orig[i].key@),
            p->Obj_1.len() == orig.len(),
            forall|k: int| 0 <= k < orig.len() ==> (#[trigger] p->Obj_1[k]) == orig[k].value@,
            p is Obj,
            out@.len() == taken,
            forall|k: int| 0 <= k < taken ==> (#[trigger] out@[k]).key@ == orig[k].key@ && out@[k].value@ == strict_schema(
                orig[k].value@,
            ),
        decreases rest@.len(),
    {
        let m = rest.remove(0);
        assert(m == orig[taken as int]);
        assert(decreases_to!(p => p->Obj_1));
        assert(decreases_to!(p->Obj_1 => p->Obj_1[taken as int]));
        assert(m.value@ == p->Obj_1[taken as int]);
        assert(decreases_to!(p => m.value@));
        let v = strict_schema_value(m.value);
        out.push(JsonMember { key: m.key, value: v });
        taken += 1;
        assert(rest@ =~= orig.skip(taken as int));
    }
    let ghost r = JsonValue::Object(out)@;
    assert(r->Obj_0 =~= p->Obj_0);
    assert(r->Obj_1 =~= strict_all(p->Obj_1));
    out
}

/// Makes a schema strict in place.
pub fn enforce_strict_schema(schema: &mut JsonValue)
    ensures
        final(schema)@ == strict_schema(old(schema)@),
{
    let mut s = JsonValue::Null;
    std::mem::swap(&mut s, schema);
    *schema = strict_schema_value(s);
}

/// A chat message.
pub open spec fn message_json(role: Seq<char>, content: Seq<char>) -> Json {
    Json::Obj(seq!["content"@, "role"@], seq![Json::Str(content), Json::Str(role)])
}

/// The system and user messages of a request.
pub open spec fn messages_json(system_prompt: Seq<char>, user_prompt: Seq<char>) -> Json {
    Json::Arr(seq![message_json("system"@, system_prompt), message_json("user"@, user_prompt)])
}

/// The sampling temperature of every request, zero.
pub open spec fn temperature_json() -> Json {
    Json::Num(JNum::Float("0.0"@))
}

/// The body of a text completion request.
pub open spec fn chat_payload_spec(model: Seq<char>, system_prompt: Seq<char>, user_prompt: Seq<char>) -> Json {
    Json::Obj(
        seq!["messages"@, "model"@, "temperature"@],
        seq![messages_json(system_prompt, user_prompt), Json::Str(model), temperature_json()],
    )
}

/// The body of a structured extraction request whose reply must follow `schema`.
pub open spec fn schema_payload_spec(model: Seq<char>, system_prompt: Seq<char>, user_prompt: Seq<char>, schema: Json) -> Json {
    Json::Obj(
        seq!["messages"@, "model"@, "response_format"@, "temperature"@],
        seq![
            messages_json(system_prompt, user_prompt),
            Json::Str(model),
            Json::Obj(
                seq!["json_schema"@, "type"@],
                seq![
                    Json::Obj(seq!["name"@, "schema"@, "strict"@], seq![Json::Str("extraction"@), schema, Json::Bool(true)]),
                    Json::Str("json_schema"@),
                ],
            ),
            temperature_json(),
        ],
    )
}

fn text_value(s: &str) -> (r: JsonValue)
    ensures
        r@ == Json::Str(s@),
{
    JsonValue::String(string_of(s))
}

fn member(key: &str, value: JsonValue) -> (r: JsonMember)
    ensures
        r.key@ == key@,
        r.value == value,
{
    JsonMember { key: string_of(key), value }
}

fn message_value(role: &str, content: &str) -> (r: JsonValue)
    ensures
        r@ == message_json(role@, content@),
{
    let r = JsonValue::Object(vec![member("content", text_value(content)), member("role", text_value(role))]);
    assert(r@->Obj_0 =~= seq!["content"@, "role"@]);
    assert(r@->Obj_1 =~= seq![Json::Str(content@), Json::Str(role@)]);
    r
}

fn messages_value(system_prompt: &str, user_prompt: &str) -> (r: JsonValue)
    ensures
        r@ == messages_json(system_prompt@, user_prompt@),
{
    let r = JsonValue::Array(vec![message_value("system", system_prompt), message_value("user", user_prompt)]);
    assert(r@->Arr_0 =~= messages_json(system_prompt@, user_prompt@)->Arr_0);
    r
}

fn temperature_value() -> (r: JsonValue)
    ensures
        r@ == temperature_json(),
{
    JsonValue::Number(JsonNumber::Float(String::from_str("0.0")))
}

/// The body of a text completion request.
pub fn chat_payload(model: &str, system_prompt: &str, user_prompt: &str) -> (r: JsonValue)
    ensures
        r@ == chat_payload_spec(model@, system_prompt@, user_prompt@),
{
    let r = JsonValue::Object(
        vec![
            member("messages", messages_value(system_prompt, user_prompt)),
            member("model", text_value(model)),
            member("temperature", temperature_value()),
        ],
    );
    assert(r@->Obj_0 =~= chat_payload_spec(model@, system_prompt@, user_prompt@)->Obj_0);
    assert(r@->Obj_1 =~= chat_payload_spec(model@, system_prompt@, user_prompt@)->Obj_1);
    r
}

/// The body of a structured extraction request; the schema is made strict first.
pub fn schema_payload(model: &str, system_prompt: &str, user_prompt: &str, json_schema: &JsonValue) -> (r: JsonValue)
    ensures
        r@ == schema_payload_spec(model@, system_prompt@, user_prompt@, strict_schema(json_schema@)),
{
    let mut schema = copy_json(json_schema);
    enforce_strict_schema(&mut schema);
    let ghost sv = schema@;
    let name_member = member("name", text_value("extraction"));
    let schema_member = member("schema", schema);
    let strict_value = JsonValue::Bool(true);
    assert(strict_value@ == Json::Bool(true));
    let strict_member = member("strict", strict_value);
    assert(strict_member.value@ == Json::Bool(true));
    assert(schema_member.value@ == sv);
    let inner = JsonValue::Object(vec![name_member, schema_member, strict_member]);
    assert(inner@->Obj_1.len() == 3);
    assert(inner@->Obj_1[0] == Json::Str("extraction"@));
    assert(inner@->Obj_1[1] == sv);
    assert(inner@->Obj_1[2] == Json::Bool(true));
    assert(inner@->Obj_0 =~= seq!["name"@, "schema"@, "strict"@]);
    assert(inner@->Obj_1 =~= seq![Json::Str("extraction"@), sv, Json::Bool(true)]);
    let format = JsonValue::Object(vec![member("json_schema", inner), member("type", text_value("json_schema"))]);
    assert(format@->Obj_0 =~= seq!["json_schema"@, "type"@]);
    assert(format@->Obj_1 =~= seq![inner@, Json::Str("json_schema"@)]);
    let r = JsonValue::Object(
        vec![
            member("messages", messages_value(system_prompt, user_prompt)),
            member("model", text_value(model)),
            member("response_format", format),
            member("temperature", temperature_value()),
        ],
    );
    assert(r@->Obj_0 =~= schema_payload_spec(model@, system_prompt@, user_prompt@, sv)->Obj_0);
    assert(r@->Obj_1 =~= schema_payload_spec(model@, system_prompt@, user_prompt@, sv)->Obj_1);
    r
}

/// A base URL without its trailing slashes.
pub open spec fn without_trailing_slashes(s: Seq<char>) -> Seq<char>
    decreases s.len(),
{
    if s.len() > 0 && s.last() == '/' {
        without_trailing_slashes(s.drop_last())
    } else {
        s
    }
}

/// A base URL without its trailing slashes.
pub fn trim_api_base(api_base: &str) -> (r: String)
    ensures
        r@ == without_trailing_slashes(api_base@),
{
    let cs = str_chars(api_base);
    let mut n: usize = cs.len();
    assert(cs@.take(n as int) =~= cs@);
    while n > 0 && cs[n - 1] == '/'
        invariant
            n <= cs@.len(),
            without_trailing_slashes(cs@) == without_trailing_slashes(cs@.take(n as int)),
        decreases n,
    {
        assert(cs@.take(n as int).drop_last() =~= cs@.take(n - 1));
        n -= 1;
    }
    string_from_chars(&cs, 0, n)
}

/// The chat-completions endpoint under an API base.
pub fn chat_completions_url(api_base: &str) -> (r: String)
    ensures
        r@ == without_trailing_slashes(api_base@) + "/chat/completions"@,
{
    let mut r = trim_api_base(api_base);
    r.append("/chat/completions");
    r
}

/// The content of the first choice's message, if the reply has one.
pub open spec fn first_message_content(body: Json) -> Option<Json> {
    match json_get(body, "choices"@) {
        Some(Json::Arr(choices)) => if choices.len() > 0 {
            match json_get(choices[0], "message"@) {
                Some(m) => json_get(m, "content"@),
                None => None,
            }
        } else {
            None
        },
        _ => None,
    }
}

/// The texts of content parts, concatenated; a part without a string `text` adds nothing.
pub open spec fn parts_text(parts: Seq<Json>) -> Seq<char>
    decreases parts.len(),
{
    if parts.len() == 0 {
        Seq::empty()
    } else {
        parts_text(parts.drop_last()) + match json_get(parts.last(), "text"@) {
            Some(Json::Str(t)) => t,
            _ => Seq::empty(),
        }
    }
}

/// The text of a chat-completions reply: the content of the first choice's message — empty
/// for `null`, the string itself, the texts of its parts, or the JSON text of anything else.
pub open spec fn message_content_spec(body: Json) -> Result<Seq<char>, Seq<char>> {
    match first_message_content(body) {
        None => Err("Missing choices[0].message.content in response: "@ + json_text(body)),
        Some(Json::Null) => Ok(Seq::empty()),
        Some(Json::Str(s)) => Ok(s),
        Some(Json::Arr(parts)) => Ok(parts_text(parts)),
        Some(other) => Ok(json_text(other)),
    }
}

/// The text of a chat-completions reply.
pub fn extract_message_content(body: &JsonValue) -> (r: Result<String, ReadyError>)
    ensures
        match (r, message_content_spec(body@)) {
            (Ok(s), Ok(t)) => s@ == t,
            (Err(ReadyError::Llm(m)), Err(t)) => m@ == t,
            _ => false,
        },
{
    let content = match get_member(body, "choices") {
        Some(JsonValue::Array(choices)) => {
            if choices.len() > 0 {
                assert(json_get(body@, "choices"@)->Some_0->Arr_0[0] == choices@[0]@);
                match get_member(&choices[0], "message") {
                    Some(m) => get_member(m, "content"),
                    None => None,
                }
            } else {
                None
            }
        },
        _ => None,
    };
    match content {
        None => {
            let mut m = String::from_str("Missing choices[0].message.content in response: ");
            let t = to_json_text(body);
            m.append(t.as_str());
            Err(ReadyError::Llm(m))
        },
        Some(JsonValue::Null) => Ok(String::new()),
        Some(JsonValue::String(s)) => Ok(string_of(s.as_str())),
        Some(JsonValue::Array(parts)) => {
            let ghost pv = JsonValue::Array(*parts)@->Arr_0;
            let mut text = String::new();
            let mut i: usize = 0;
            assert(pv.take(0) =~= Seq::<Json>::empty());
            while i < parts.len()
                invariant
                    i <= parts@.len(),
                    pv == JsonValue::Array(*parts)@->Arr_0,
                    pv.len() == parts@.len(),
                    text@ == parts_text(pv.take(i as int)),
                decreases parts@.len() - i,
            {
                assert(pv.take(i + 1).drop_last() =~= pv.take(i as int));
                assert(pv.take(i + 1).last() == parts@[i as int]@);
                match get_member(&parts[i], "text") {
                    Some(JsonValue::String(t)) => text.append(t.as_str()),
                    _ => {},
                }
                i += 1;
            }
            assert(pv.take(i as int) =~= pv);
            Ok(text)
        },
        Some(other) => Ok(to_json_text(other)),
    }
}

/// The error for a reply with an unsuccessful HTTP status.
pub fn api_status_error(status: &str, body: &JsonValue) -> (r: ReadyError)
    ensures
        r matches ReadyError::Llm(m) && m@ == "OpenAI-compatible API returned "@ + status@ + ": "@ + json_text(body@),
{
    let mut m = String::from_str("OpenAI-compatible API returned ");
    m.append(status);
    m.append(": ");
    let t = to_json_text(body);
    m.append(t.as_str());
    ReadyError::Llm(m)
}

/// The error for a structured reply that is not JSON; the reply is quoted as `{:?}` quotes it.
pub fn structured_output_error(parse_error: &str, raw: &str) -> (r: ReadyError)
    ensures
        r matches ReadyError::Llm(m) && m@ == "Structured-output response was not valid JSON: "@ + parse_error@
            + "; raw response: "@ + str_debug(raw@),
{
    let mut m = String::from_str("Structured-output response was not valid JSON: ");
    m.append(parse_error);
    m.append("; raw response: ");
    push_str_debug(&mut m, raw);
    ReadyError::Llm(m)
}

/// The error for a fallback reply that is not JSON; the reply is quoted as `{:?}` quotes it.
pub fn fallback_output_error(parse_error: &str, raw: &str) -> (r: ReadyError)
    ensures
        r matches ReadyError::Llm(m) && m@ == "Fallback structured extraction could not parse JSON: "@ + parse_error@
            + "; raw response: "@ + str_debug(raw@),
{
    let mut m = String::from_str("Fallback structured extraction could not parse JSON: ");
    m.append(parse_error);
    m.append("; raw response: ");
    push_str_debug(&mut m, raw);
    ReadyError::Llm(m)
}

/// The system prompt of a plain-text extraction: the given prompt, then the instruction to
/// answer with JSON following the schema, given as text.
pub fn fallback_system_prompt(system_prompt: &str, schema_text: &str) -> (r: String)
    ensures
        r@ == system_prompt@
            + "\n\nRespond with a JSON object only — no prose, no markdown fences. The JSON must conform to this schema:\n"@
            + schema_text@,
{
    let mut s = string_of(system_prompt);
    s.append(
        "\n\nRespond with a JSON object only — no prose, no markdown fences. The JSON must conform to this schema:\n",
    );
    s.append(schema_text);
    s
}

} // verus!
