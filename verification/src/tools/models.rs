//! Data models for tool descriptions, tool calls, and tool results.

use vstd::prelude::*;
use vstd::string::*;

use crate::json::JsonValue;
use crate::text::{
    ends_with, insert_sorted_unique, join_spec, join_strings, starts_with, str_chars, str_ends_with, str_starts_with,
    string_from_chars, string_of, strictly_sorted, strings_contain, strings_view,
};

verus! {

/// The suspension state handed back to a tool that suspended earlier.
#[derive(Debug)]
pub struct Continuation {
    pub state: JsonValue,
    pub resume_value: Option<JsonValue>,
}

/// A tool invocation: the tool, its evaluated arguments, and a continuation when resuming.
#[derive(Debug)]
pub struct ToolCall {
    pub tool_id: String,
    pub args: Vec<JsonValue>,
    pub continuation: Option<Continuation>,
}

/// Why a tool suspended, with the state it needs to continue.
#[derive(Debug, PartialEq)]
pub struct ToolSuspension {
    pub reason: String,
    pub continuation_state: JsonValue,
}

/// A completed tool result or a suspension.
#[derive(Debug, PartialEq)]
pub enum ToolResult {
    Success(JsonValue),
    Suspended(ToolSuspension),
}

/// A named field of a structured type, with its type and nested fields.
#[derive(Debug, PartialEq)]
pub struct FieldDescription {
    pub name: String,
    pub description: String,
    pub value_type: String,
    pub fields: Vec<FieldDescription>,
}

/// A tool's return value: its name, type, and structured fields.
#[derive(Debug, PartialEq)]
pub struct ToolReturnDescription {
    pub name: Option<String>,
    pub description: String,
    pub value_type: Option<String>,
    pub fields: Vec<FieldDescription>,
}

/// A positional argument of a tool.
#[derive(Debug, PartialEq)]
pub struct ToolArgumentDescription {
    pub name: String,
    pub description: String,
    pub value_type: String,
    pub default: Option<String>,
}

/// A tool: its identifier, description, arguments and return value.
#[derive(Debug, PartialEq)]
pub struct ToolDescription {
    pub id: String,
    pub description: String,
    pub arguments: Vec<ToolArgumentDescription>,
    pub returns: ToolReturnDescription,
}

/// The element type of a `list[T]` type name, or the name itself.
pub open spec fn element_type_spec(t: Seq<char>) -> Seq<char> {
    if starts_with(t, "list["@) && t.len() > 5 && ends_with(t, "]"@) {
        t.subrange(5, t.len() - 1)
    } else {
        t
    }
}

/// The element type of a `list[T]` type name, or the name itself.
pub fn element_type_name(value_type: &str) -> (r: String)
    ensures
        r@ == element_type_spec(value_type@),
{
    proof {
        reveal_strlit("list[");
        reveal_strlit("]");
    }
    let cs = str_chars(value_type);
    if str_starts_with(value_type, "list[") && cs.len() > 5 && str_ends_with(value_type, "]") {
        string_from_chars(&cs, 5, cs.len() - 1)
    } else {
        string_of(value_type)
    }
}

/// The line of one field in a class stub: `    name: type`, followed by `  # description`
/// when there is one.
pub open spec fn field_line(f: FieldDescription) -> Seq<char> {
    "    "@ + f.name@ + ": "@ + f.value_type@ + if f.description@.len() > 0 {
        "  # "@ + f.description@
    } else {
        Seq::empty()
    }
}

/// A `class` stub with one line per field.
pub open spec fn class_stub_spec(name: Seq<char>, fields: Seq<FieldDescription>) -> Seq<char> {
    join_spec(seq!["class "@ + name + ":"@] + Seq::new(fields.len(), |i: int| field_line(fields[i])), "\n"@)
}

/// Renders a named structured type as a Python class stub.
pub fn render_class_stub(value_type: &str, fields: &[FieldDescription]) -> (r: String)
    ensures
        r@ == class_stub_spec(value_type@, fields@),
{
    let mut lines: Vec<String> = Vec::new();
    let mut head = String::from_str("class ");
    head.append(value_type);
    head.append(":");
    lines.push(head);
    let ghost want = seq!["class "@ + value_type@ + ":"@] + Seq::new(fields@.len(), |i: int| field_line(fields@[i]));
    let mut i: usize = 0;
    while i < fields.len()
        invariant
            i <= fields@.len(),
            want == seq!["class "@ + value_type@ + ":"@] + Seq::new(fields@.len(), |i: int| field_line(fields@[i])),
            lines@.len() == i + 1,
            forall|j: int| 0 <= j <= i ==> (#[trigger] lines@[j])@ == want[j],
        decreases fields@.len() - i,
    {
        let f = &fields[i];
        let mut line = String::from_str("    ");
        line.append(f.name.as_str());
        line.append(": ");
        line.append(f.value_type.as_str());
        if f.description.unicode_len() > 0 {
            line.append("  # ");
            line.append(f.description.as_str());
        }
        proof {
            reveal_strlit("");
        }
        assert(line@ =~= field_line(fields@[i as int]));
        lines.push(line);
        i += 1;
    }
    assert(strings_view(lines@) =~= want);
    join_strings(&lines, "\n")
}

impl ToolReturnDescription {
    /// The class stub of a structured return type: present when the type is named and has
    /// fields.
    pub fn to_class_stub(&self) -> (r: Option<String>)
        ensures
            match r {
                Some(t) => self.value_type matches Some(n) && self.fields@.len() > 0 && t@ == class_stub_spec(
                    element_type_spec(n@),
                    self.fields@,
                ),
                None => self.value_type is None || self.fields@.len() == 0,
            },
    {
        match &self.value_type {
            Some(n) => {
                if self.fields.len() > 0 {
                    let e = element_type_name(n.as_str());
                    Some(render_class_stub(e.as_str(), self.fields.as_slice()))
                } else {
                    None
                }
            }
            None => None,
        }
    }
}

/// `name: type`, with ` = default` when the argument has a default.
pub open spec fn param_text(a: ToolArgumentDescription) -> Seq<char> {
    a.name@ + ": "@ + a.value_type@ + match a.default {
        Some(d) => " = "@ + d@,
        None => Seq::empty(),
    }
}

/// A Python function stub: the signature, the docstring when there is a description, and
/// `...`.
pub open spec fn python_stub_spec(t: ToolDescription) -> Seq<char> {
    let params = join_spec(Seq::new(t.arguments@.len(), |i: int| param_text(t.arguments@[i])), ", "@);
    let ret = match t.returns.value_type {
        Some(n) => n@,
        None => "Any"@,
    };
    let head = seq!["def "@ + t.id@ + "("@ + params + ") -> "@ + ret + ":"@];
    let doc = if t.description@.len() > 0 {
        seq!["    \"\"\""@ + t.description@ + "\"\"\""@]
    } else {
        Seq::empty()
    };
    join_spec(head + doc + seq!["    ..."@], "\n"@)
}

impl ToolDescription {
    /// Renders the tool as a Python function stub for prompts.
    pub fn to_python_stub(&self) -> (r: String)
        ensures
            r@ == python_stub_spec(*self),
    {
        let mut params: Vec<String> = Vec::new();
        let mut i: usize = 0;
        while i < self.arguments.len()
            invariant
                i <= self.arguments@.len(),
                params@.len() == i,
                forall|j: int| 0 <= j < i ==> (#[trigger] params@[j])@ == param_text(self.arguments@[j]),
            decreases self.arguments@.len() - i,
        {
            let a = &self.arguments[i];
            let mut p = string_of(a.name.as_str());
            p.append(": ");
            p.append(a.value_type.as_str());
            match &a.default {
                Some(d) => {
                    p.append(" = ");
                    p.append(d.as_str());
                }
                None => {}
            }
            assert(p@ =~= param_text(self.arguments@[i as int]));
            params.push(p);
            i += 1;
        }
        assert(strings_view(params@) =~= Seq::new(self.arguments@.len(), |i: int| param_text(self.arguments@[i])));
        let joined = join_strings(&params, ", ");
        let mut head = String::from_str("def ");
        head.append(self.id.as_str());
        head.append("(");
        head.append(joined.as_str());
        head.append(") -> ");
        match &self.returns.value_type {
            Some(n) => head.append(n.as_str()),
            None => head.append("Any"),
        }
        head.append(":");
        let mut lines: Vec<String> = Vec::new();
        lines.push(head);
        if self.description.unicode_len() > 0 {
            let mut doc = String::from_str("    \"\"\"");
            doc.append(self.description.as_str());
            doc.append("\"\"\"");
            lines.push(doc);
        }
        lines.push(String::from_str("    ..."));
        let ghost params_text = join_spec(Seq::new(self.arguments@.len(), |i: int| param_text(self.arguments@[i])), ", "@);
        proof {
            let t = *self;
            let ret = match t.returns.value_type {
                Some(n) => n@,
                None => "Any"@,
            };
            let hd = seq!["def "@ + t.id@ + "("@ + params_text + ") -> "@ + ret + ":"@];
            let doc = if t.description@.len() > 0 {
                seq!["    \"\"\""@ + t.description@ + "\"\"\""@]
            } else {
                Seq::empty()
            };
            assert(strings_view(lines@) =~= hd + doc + seq!["    ..."@]);
        }
        join_strings(&lines, "\n")
    }
}

/// Class stubs gathered so far: the type names already emitted and the stubs in order.
pub type StubAcc = (Set<Seq<char>>, Seq<Seq<char>>);

/// Gathers the class stubs of structured fields: nested structured types come first, then
/// the type itself when it has a name, has fields, and was not emitted before.
pub open spec fn collect_spec(fields: Seq<FieldDescription>, name: Option<Seq<char>>, acc: StubAcc) -> StubAcc
    decreases fields, 1int,
{
    let inner = collect_fields_spec(fields, acc);
    match name {
        Some(t) => if fields.len() > 0 && !inner.0.contains(element_type_spec(t)) {
            (
                inner.0.insert(element_type_spec(t)),
                inner.1.push(class_stub_spec(element_type_spec(t), fields)),
            )
        } else {
            inner
        },
        None => inner,
    }
}

/// Gathers the class stubs of the nested types of fields, in order; a nested type is named by
/// the element type of its field's type.
pub open spec fn collect_fields_spec(fields: Seq<FieldDescription>, acc: StubAcc) -> StubAcc
    decreases fields, 0int,
{
    if fields.len() == 0 {
        acc
    } else {
        let before = collect_fields_spec(fields.drop_last(), acc);
        let f = fields.last();
        if f.fields@.len() > 0 {
            collect_spec(f.fields@, Some(element_type_spec(f.value_type@)), before)
        } else {
            before
        }
    }
}

/// Adds the class stubs of `fields` (named `value_type`) and of their nested types.
pub fn collect_class_stubs(
    fields: &Vec<FieldDescription>,
    value_type: Option<&str>,
    seen: &mut Vec<String>,
    out: &mut Vec<String>,
)
    requires
        strictly_sorted(strings_view(old(seen)@)),
    ensures
        strictly_sorted(strings_view(final(seen)@)),
        ({
            let r = collect_spec(
                fields@,
                match value_type {
                    Some(t) => Some(t@),
                    None => None,
                },
                (strings_view(old(seen)@).to_set(), strings_view(old(out)@)),
            );
            strings_view(final(seen)@).to_set() == r.0 && strings_view(final(out)@) == r.1
        }),
    decreases fields@, 1int,
{
    collect_nested_stubs(fields, seen, out);
    match value_type {
        Some(t) => {
            if fields.len() > 0 {
                let e = element_type_name(t);
                if !strings_contain(seen, e.as_str()) {
                    let stub = render_class_stub(e.as_str(), fields.as_slice());
                    let ghost sv = stub@;
                    insert_sorted_unique(seen, e);
                    out.push(stub);
                    proof {
                        let inner = collect_fields_spec(fields@, (strings_view(old(seen)@).to_set(), strings_view(old(out)@)));
                        assert(strings_view(out@) =~= inner.1.push(sv));
                    }
                }
            }
        }
        None => {}
    }
}

fn collect_nested_stubs(fields: &Vec<FieldDescription>, seen: &mut Vec<String>, out: &mut Vec<String>)
    requires
        strictly_sorted(strings_view(old(seen)@)),
    ensures
        strictly_sorted(strings_view(final(seen)@)),
        ({
            let r = collect_fields_spec(fields@, (strings_view(old(seen)@).to_set(), strings_view(old(out)@)));
            strings_view(final(seen)@).to_set() == r.0 && strings_view(final(out)@) == r.1
        }),
    decreases fields@, 0int,
{
    let ghost acc0 = (strings_view(seen@).to_set(), strings_view(out@));
    let mut i: usize = 0;
    while i < fields.len()
        invariant
            i <= fields@.len(),
            acc0 == (strings_view(old(seen)@).to_set(), strings_view(old(out)@)),
            strictly_sorted(strings_view(seen@)),
            ({
                let r = collect_fields_spec(fields@.take(i as int), acc0);
                strings_view(seen@).to_set() == r.0 && strings_view(out@) == r.1
            }),
        decreases fields@.len() - i,
    {
        proof {
            assert(fields@.take(i + 1).drop_last() =~= fields@.take(i as int));
            assert(fields@.take(i + 1).last() == fields@[i as int]);
            assert(decreases_to!(fields@ => fields@[i as int]));
            assert(decreases_to!(fields@[i as int] => fields@[i as int].fields));
            assert(decreases_to!(fields@[i as int].fields => fields@[i as int].fields@));
            assert(decreases_to!(fields@ => fields@[i as int].fields@));
        }
        let f = &fields[i];
        if f.fields.len() > 0 {
            let element = element_type_name(f.value_type.as_str());
            collect_class_stubs(&f.fields, Some(element.as_str()), seen, out);
        }
        i += 1;
    }
    assert(fields@.take(i as int) =~= fields@);
}

/// Python stubs for prompts: the class stubs of all structured return types, each emitted
/// once, followed by one function stub per tool, separated by blank lines.
pub open spec fn prompt_stubs_spec(ds: Seq<ToolDescription>) -> Seq<char> {
    let classes = descriptions_stubs(ds, (Set::empty(), Seq::empty())).1;
    join_spec(classes + Seq::new(ds.len(), |i: int| python_stub_spec(ds[i])), "\n\n"@)
}

/// The class stubs of the return types of tool descriptions, in order.
pub open spec fn descriptions_stubs(ds: Seq<ToolDescription>, acc: StubAcc) -> StubAcc
    decreases ds.len(),
{
    if ds.len() == 0 {
        acc
    } else {
        let before = descriptions_stubs(ds.drop_last(), acc);
        collect_spec(
            ds.last().returns.fields@,
            match ds.last().returns.value_type {
                Some(t) => Some(t@),
                None => None,
            },
            before,
        )
    }
}

/// The descriptions behind references.
pub open spec fn deref_all(ds: Seq<&ToolDescription>) -> Seq<ToolDescription> {
    Seq::new(ds.len(), |i: int| *ds[i])
}

/// Python stub text for the referenced tool descriptions.
pub fn prompt_stubs_of(refs: &Vec<&ToolDescription>) -> (r: String)
    ensures
        r@ == prompt_stubs_spec(deref_all(refs@)),
{
    let ghost descs = deref_all(refs@);
    let mut seen: Vec<String> = Vec::new();
    let mut stubs: Vec<String> = Vec::new();
    let ghost acc0: StubAcc = (Set::empty(), Seq::empty());
    assert(strings_view(seen@).to_set() =~= Set::<Seq<char>>::empty());
    assert(strings_view(stubs@) =~= Seq::<Seq<char>>::empty());
    let mut i: usize = 0;
    while i < refs.len()
        invariant
            descs == deref_all(refs@),
            i <= descs.len(),
            strictly_sorted(strings_view(seen@)),
            ({
                let r = descriptions_stubs(descs.take(i as int), acc0);
                strings_view(seen@).to_set() == r.0 && strings_view(stubs@) == r.1
            }),
        decreases descs.len() - i,
    {
        proof {
            assert(descs.take(i + 1).drop_last() =~= descs.take(i as int));
            assert(descs.take(i + 1).last() == descs[i as int]);
        }
        let d = refs[i];
        let name = match &d.returns.value_type {
            Some(t) => Some(t.as_str()),
            None => None,
        };
        collect_class_stubs(&d.returns.fields, name, &mut seen, &mut stubs);
        i += 1;
    }
    assert(descs.take(i as int) =~= descs);
    let ghost classes = strings_view(stubs@);
    assert forall|j: int| 0 <= j < classes.len() implies (#[trigger] stubs@[j])@ == classes[j] by {}
    let mut k: usize = 0;
    while k < refs.len()
        invariant
            descs == deref_all(refs@),
            k <= descs.len(),
            stubs@.len() == classes.len() + k,
            forall|j: int| 0 <= j < classes.len() ==> (#[trigger] stubs@[j])@ == classes[j],
            forall|j: int| 0 <= j < k ==> (#[trigger] stubs@[classes.len() + j])@ == python_stub_spec(descs[j]),
        decreases descs.len() - k,
    {
        let stub = refs[k].to_python_stub();
        stubs.push(stub);
        k += 1;
    }
    let ghost want = classes + Seq::new(descs.len(), |j: int| python_stub_spec(descs[j]));
    assert forall|idx: int| 0 <= idx < want.len() implies strings_view(stubs@)[idx] == want[idx] by {
        if idx >= classes.len() {
            let j = idx - classes.len();
            assert(stubs@[classes.len() + j]@ == python_stub_spec(descs[j]));
        }
    }
    assert(strings_view(stubs@) =~= want);
    join_strings(&stubs, "\n\n")
}

/// Generates Python stub text for tool descriptions, emitting each class stub once.
pub fn generate_prompt_stubs(descriptions: &[ToolDescription]) -> (r: String)
    ensures
        r@ == prompt_stubs_spec(descriptions@),
{
    let mut refs: Vec<&ToolDescription> = Vec::new();
    let mut i: usize = 0;
    while i < descriptions.len()
        invariant
            i <= descriptions@.len(),
            refs@.len() == i,
            forall|j: int| 0 <= j < i ==> *refs@[j] == descriptions@[j],
        decreases descriptions@.len() - i,
    {
        refs.push(&descriptions[i]);
        i += 1;
    }
    assert(deref_all(refs@) =~= descriptions@);
    prompt_stubs_of(&refs)
}

} // verus!
