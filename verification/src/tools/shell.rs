//! Shell-backed tools: templated commands and the parsing of their output.

use vstd::prelude::*;
use vstd::string::*;

use crate::error::{option_usize_debug, ReadyError};
use crate::json::{display_text, json_from_i64, value_to_string, JsonValue, Json, jint};
use crate::text::{digit_char, int_text, nat_text, push_char, push_i64_text, str_chars, str_eq, string_of, trim, trim_spec};
use crate::tools::models::{ToolArgumentDescription, ToolReturnDescription};

verus! {

broadcast use vstd::std_specs::vec::group_vec_axioms;

/// How a command's standard output becomes the tool's result.
#[derive(Debug, Clone, Copy, PartialEq, Eq, Structural)]
pub enum OutputParsing {
    Raw,
    Json,
    Int,
    Float,
    Bool,
}

/// A shell-backed tool: its command template, schema, and settings.
#[derive(Debug, PartialEq)]
pub struct ShellToolEntry {
    pub description: String,
    pub template: Vec<String>,
    pub arguments: Vec<ToolArgumentDescription>,
    pub returns: ToolReturnDescription,
    pub active: bool,
    pub output_parsing: OutputParsing,
    pub output_schema: Option<JsonValue>,
}

/// What a finished command reported.
#[derive(Debug, PartialEq, Eq)]
pub struct ShellCommandOutput {
    pub success: bool,
    pub exit_code: Option<i32>,
    pub stdout: String,
    pub stderr: String,
}

/// Index of the last occurrence of `k` in `ks`.
pub open spec fn last_index<K>(ks: Seq<K>, k: K) -> Option<int>
    decreases ks.len(),
{
    if ks.len() == 0 {
        None
    } else if ks.last() == k {
        Some(ks.len() - 1)
    } else {
        last_index(ks.drop_last(), k)
    }
}

pub proof fn lemma_last_index<K>(ks: Seq<K>, k: K)
    ensures
        match last_index(ks, k) {
            Some(i) => 0 <= i < ks.len() && ks[i] == k && forall|j: int| i < j < ks.len() ==> ks[j] != k,
            None => forall|j: int| 0 <= j < ks.len() ==> ks[j] != k,
        },
    decreases ks.len(),
{
    if ks.len() > 0 && ks.last() != k {
        lemma_last_index(ks.drop_last(), k);
        assert forall|j: int| 0 <= j < ks.len() - 1 implies ks.drop_last()[j] == ks[j] by {}
    }
}

/// Placeholder values of a command template: a later binding of a name wins.
pub struct TemplateBindings {
    pub entries: Vec<(String, String)>,
}

impl View for TemplateBindings {
    type V = Map<Seq<char>, Seq<char>>;

    open spec fn view(&self) -> Map<Seq<char>, Seq<char>> {
        let ks = Seq::new(self.entries@.len(), |i: int| self.entries@[i].0@);
        Map::new(|k: Seq<char>| last_index(ks, k) is Some, |k: Seq<char>| self.entries@[last_index(ks, k)->0].1@)
    }
}

impl TemplateBindings {
    /// No bindings.
    pub fn new() -> (r: TemplateBindings)
        ensures
            r@ == Map::<Seq<char>, Seq<char>>::empty(),
    {
        let r = TemplateBindings { entries: Vec::new() };
        assert(r@ =~= Map::<Seq<char>, Seq<char>>::empty());
        r
    }

    /// Binds `name` to `value`.
    pub fn insert(&mut self, name: String, value: String)
        ensures
            final(self)@ == old(self)@.insert(name@, value@),
    {
        let ghost nv = name@;
        let ghost vv = value@;
        let ghost ks = Seq::new(self.entries@.len(), |i: int| self.entries@[i].0@);
        self.entries.push((name, value));
        proof {
            let ks2 = Seq::new(self.entries@.len(), |i: int| self.entries@[i].0@);
            assert(ks2.drop_last() =~= ks);
            assert(ks2.last() == nv);
            assert forall|k: Seq<char>| k != nv implies #[trigger] last_index(ks2, k) == last_index(ks, k) by {}
            assert forall|k: Seq<char>| k != nv && #[trigger] last_index(ks, k) is Some implies self.entries@[last_index(ks, k)->0]
                == old(self).entries@[last_index(ks, k)->0] by {
                lemma_last_index(ks, k);
            }
            assert(self@ =~= old(self)@.insert(nv, vv));
        }
    }

    /// The value bound to `name`.
    pub fn get(&self, name: &str) -> (r: Option<&String>)
        ensures
            match r {
                Some(v) => self@.contains_key(name@) && v@ == self@[name@],
                None => !self@.contains_key(name@),
            },
    {
        let ghost ks = Seq::new(self.entries@.len(), |i: int| self.entries@[i].0@);
        proof {
            lemma_last_index(ks, name@);
        }
        let mut i: usize = self.entries.len();
        while i > 0
            invariant
                i <= self.entries@.len(),
                ks == Seq::new(self.entries@.len(), |i: int| self.entries@[i].0@),
                forall|j: int| i <= j < ks.len() ==> ks[j] != name@,
            decreases i,
        {
            if str_eq(self.entries[i - 1].0.as_str(), name) {
                proof {
                    assert(ks[i - 1] == name@);
                    lemma_last_index(ks, name@);
                    if last_index(ks, name@)->0 != i - 1 {
                        assert(last_index(ks, name@)->0 < i - 1);
                    }
                }
                return Some(&self.entries[i - 1].1);
            }
            i -= 1;
        }
        None
    }
}

/// Position of the first `}` in `s`, or its length.
pub open spec fn close_pos(s: Seq<char>) -> int
    decreases s.len(),
{
    if s.len() == 0 {
        0
    } else if s[0] == '}' {
        0
    } else {
        1 + close_pos(s.drop_first())
    }
}

pub proof fn lemma_close_pos(s: Seq<char>)
    ensures
        0 <= close_pos(s) <= s.len(),
        forall|i: int| 0 <= i < close_pos(s) ==> s[i] != '}',
        close_pos(s) < s.len() ==> s[close_pos(s)] == '}',
    decreases s.len(),
{
    if s.len() > 0 && s[0] != '}' {
        lemma_close_pos(s.drop_first());
        assert forall|i: int| 0 <= i < close_pos(s) implies s[i] != '}' by {
            if i > 0 {
                assert(s[i] == s.drop_first()[i - 1]);
            }
        }
    }
}

pub open spec fn placeholder_msg(key: Seq<char>) -> Seq<char> {
    "Template placeholder '"@ + key + "' not satisfied"@
}

/// A template part with each `{name}` replaced by its binding; text after an unclosed `{` is
/// a name too. The first placeholder without a binding is reported.
pub open spec fn render_spec(part: Seq<char>, bound: Map<Seq<char>, Seq<char>>) -> Result<Seq<char>, Seq<char>>
    decreases part.len(),
{
    if part.len() == 0 {
        Ok(Seq::empty())
    } else if part[0] == '{' {
        let rest = part.drop_first();
        let j = close_pos(rest);
        proof {
            lemma_close_pos(rest);
        }
        let key = rest.take(j);
        let after = if j < rest.len() { rest.skip(j + 1) } else { Seq::empty() };
        if !bound.contains_key(key) {
            Err(placeholder_msg(key))
        } else {
            match render_spec(after, bound) {
                Ok(t) => Ok(bound[key] + t),
                Err(m) => Err(m),
            }
        }
    } else {
        match render_spec(part.drop_first(), bound) {
            Ok(t) => Ok(seq![part[0]] + t),
            Err(m) => Err(m),
        }
    }
}

/// A tool failure.
pub open spec fn tool_error(r: ReadyError, tool_id: Seq<char>, message: Seq<char>) -> bool {
    match r {
        ReadyError::Tool { tool_id: t, message: m } => t@ == tool_id && m@ == message,
        _ => false,
    }
}

proof fn lemma_render_step(part: Seq<char>, bound: Map<Seq<char>, Seq<char>>, i: int, out: Seq<char>)
    requires
        0 <= i < part.len(),
        part[i] != '{',
    ensures
        match (render_spec(part.skip(i), bound), render_spec(part.skip(i + 1), bound)) {
            (Ok(a), Ok(b)) => a == seq![part[i]] + b,
            (Err(a), Err(b)) => a == b,
            _ => false,
        },
{
    assert(part.skip(i).drop_first() =~= part.skip(i + 1));
}

/// Renders one part of a command template.
pub fn render_template_part(part: &str, bound: &TemplateBindings, tool_id: &str) -> (r: Result<String, ReadyError>)
    ensures
        match (r, render_spec(part@, bound@)) {
            (Ok(t), Ok(s)) => t@ == s,
            (Err(e), Err(m)) => tool_error(e, tool_id@, m),
            _ => false,
        },
{
    let cs = str_chars(part);
    let mut rendered = String::new();
    let mut i: usize = 0;
    assert(cs@.skip(0) =~= part@);
    while i < cs.len()
        invariant
            i <= cs@.len(),
            cs@ == part@,
            match render_spec(part@, bound@) {
                Ok(s) => render_spec(cs@.skip(i as int), bound@) matches Ok(t) && s == rendered@ + t,
                Err(m) => render_spec(cs@.skip(i as int), bound@) == Err::<Seq<char>, Seq<char>>(m),
            },
        decreases cs@.len() - i,
    {
        let ghost rest_all = cs@.skip(i as int);
        if cs[i] == '{' {
            let ghost rest = rest_all.drop_first();
            proof {
                lemma_close_pos(rest);
            }
            let mut key = String::new();
            let mut j: usize = i + 1;
            while j < cs.len() && cs[j] != '}'
                invariant
                    i + 1 <= j <= cs@.len(),
                    rest == cs@.skip(i + 1),
                    key@ == cs@.subrange(i + 1, j as int),
                    forall|m: int| i + 1 <= m < j ==> cs@[m] != '}',
                decreases cs@.len() - j,
            {
                push_char(&mut key, cs[j]);
                j += 1;
                assert(key@ =~= cs@.subrange(i + 1, j as int));
            }
            proof {
                assert(close_pos(rest) == j - (i + 1)) by {
                    if close_pos(rest) < j - (i + 1) {
                        assert(rest[close_pos(rest)] == cs@[i + 1 + close_pos(rest)]);
                    }
                    if close_pos(rest) > j - (i + 1) {
                        assert(rest[j - (i + 1)] == cs@[j as int]);
                    }
                }
                assert(rest.take(j - (i + 1)) =~= key@);
            }
            let value = match bound.get(key.as_str()) {
                Some(v) => v,
                None => {
                    let mut m = String::from_str("Template placeholder '");
                    m.append(key.as_str());
                    m.append("' not satisfied");
                    return Err(ReadyError::Tool { tool_id: string_of(tool_id), message: m });
                }
            };
            let ghost before = rendered@;
            rendered.append(value.as_str());
            if j < cs.len() {
                i = j + 1;
                proof {
                    assert(rest.skip(close_pos(rest) + 1) =~= cs@.skip(i as int));
                }
            } else {
                i = j;
                proof {
                    assert(cs@.skip(i as int) =~= Seq::<char>::empty());
                }
            }
        } else {
            proof {
                lemma_render_step(cs@, bound@, i as int, rendered@);
            }
            push_char(&mut rendered, cs[i]);
            i += 1;
        }
    }
    assert(cs@.skip(i as int) =~= Seq::<char>::empty());
    Ok(rendered)
}

/// Whether a character is an ASCII digit.
pub open spec fn is_digit(c: char) -> bool {
    '0' <= c <= '9'
}

/// The number written by decimal digits.
pub open spec fn digits_value(ds: Seq<char>) -> int
    decreases ds.len(),
{
    if ds.len() == 0 {
        0
    } else {
        digits_value(ds.drop_last()) * 10 + (ds.last() as int - '0' as int)
    }
}

/// The length of the run of digits at the start of `s`.
pub open spec fn digit_run(s: Seq<char>) -> int
    decreases s.len(),
{
    if s.len() > 0 && is_digit(s[0]) {
        1 + digit_run(s.drop_first())
    } else {
        0
    }
}

pub open spec fn empty_int_msg() -> Seq<char> {
    "cannot parse integer from empty string"@
}

pub open spec fn invalid_digit_msg() -> Seq<char> {
    "invalid digit found in string"@
}

pub open spec fn too_large_msg() -> Seq<char> {
    "number too large to fit in target type"@
}

pub open spec fn too_small_msg() -> Seq<char> {
    "number too small to fit in target type"@
}

/// Parsing an `i64` as `str::parse` does: an optional sign and decimal digits, read left to
/// right, so that a value leaving the range before the first bad character is reported as too
/// large or too small, and otherwise the bad character is reported.
pub open spec fn int_parse_spec(s: Seq<char>) -> Result<int, Seq<char>> {
    if s.len() == 0 {
        Err(empty_int_msg())
    } else if (s[0] == '+' || s[0] == '-') && s.len() == 1 {
        Err(invalid_digit_msg())
    } else {
        let neg = s[0] == '-';
        let ds = if s[0] == '+' || s[0] == '-' { s.drop_first() } else { s };
        let k = digit_run(ds);
        let mag = digits_value(ds.take(k));
        let v = if neg { -mag } else { mag };
        if v > i64::MAX {
            Err(too_large_msg())
        } else if v < i64::MIN {
            Err(too_small_msg())
        } else if k < ds.len() {
            Err(invalid_digit_msg())
        } else {
            Ok(v)
        }
    }
}

proof fn lemma_digit_run(s: Seq<char>)
    ensures
        0 <= digit_run(s) <= s.len(),
        forall|i: int| 0 <= i < digit_run(s) ==> is_digit(#[trigger] s[i]),
        digit_run(s) < s.len() ==> !is_digit(s[digit_run(s)]),
    decreases s.len(),
{
    if s.len() > 0 && is_digit(s[0]) {
        lemma_digit_run(s.drop_first());
        assert forall|i: int| 0 <= i < digit_run(s) implies is_digit(#[trigger] s[i]) by {
            if i > 0 {
                assert(s[i] == s.drop_first()[i - 1]);
            }
        }
    }
}

proof fn lemma_digits_monotone(ds: Seq<char>, p: int)
    requires
        0 <= p <= ds.len(),
        forall|i: int| 0 <= i < ds.len() ==> is_digit(#[trigger] ds[i]),
    ensures
        0 <= digits_value(ds.take(p)) <= digits_value(ds),
    decreases ds.len() - p,
{
    if p < ds.len() {
        lemma_digits_monotone(ds, p + 1);
        let t = ds.take(p + 1);
        assert(t.drop_last() =~= ds.take(p));
        assert(t.last() == ds[p]);
        assert(is_digit(ds[p]));
    } else {
        assert(ds.take(p) =~= ds);
        lemma_digits_nonneg(ds);
    }
}

proof fn lemma_digits_nonneg(ds: Seq<char>)
    requires
        forall|i: int| 0 <= i < ds.len() ==> is_digit(#[trigger] ds[i]),
    ensures
        digits_value(ds) >= 0,
    decreases ds.len(),
{
    if ds.len() > 0 {
        assert(is_digit(ds.last()));
        lemma_digits_nonneg(ds.drop_last());
    }
}

/// Parses a decimal `i64` as `str::parse` does, reporting std's error texts.
pub fn parse_i64(text: &str) -> (r: Result<i64, String>)
    ensures
        match (r, int_parse_spec(text@)) {
            (Ok(v), Ok(w)) => v == w,
            (Err(m), Err(w)) => m@ == w,
            _ => false,
        },
{
    let cs = str_chars(text);
    let n = cs.len();
    if n == 0 {
        return Err(String::from_str("cannot parse integer from empty string"));
    }
    if (cs[0] == '+' || cs[0] == '-') && n == 1 {
        return Err(String::from_str("invalid digit found in string"));
    }
    let neg = cs[0] == '-';
    let start: usize = if cs[0] == '+' || cs[0] == '-' { 1 } else { 0 };
    let ghost ds = if cs@[0] == '+' || cs@[0] == '-' { cs@.drop_first() } else { cs@ };
    assert(ds =~= cs@.skip(start as int));
    proof {
        lemma_digit_run(ds);
    }
    let ghost k = digit_run(ds);
    let mut mag: i128 = 0;
    let mut i: usize = start;
    while i < n && '0' <= cs[i] && cs[i] <= '9'
        invariant
            start <= i <= n,
            n == cs@.len(),
            cs@ == text@,
            n >= 1,
            !((cs@[0] == '+' || cs@[0] == '-') && n == 1),
            neg == (cs@[0] == '-'),
            start == (if cs@[0] == '+' || cs@[0] == '-' { 1usize } else { 0usize }),
            ds == (if cs@[0] == '+' || cs@[0] == '-' { cs@.drop_first() } else { cs@ }),
            ds == cs@.skip(start as int),
            k == digit_run(ds),
            0 <= k <= ds.len(),
            i - start <= k,
            mag as int == digits_value(ds.take(i - start)),
            0 <= mag <= 0x8000_0000_0000_0000,
            forall|j: int| 0 <= j < k ==> is_digit(#[trigger] ds[j]),
            k < ds.len() ==> !is_digit(ds[k]),
        decreases n - i,
    {
        proof {
            let t = ds.take(i - start + 1);
            assert(t.drop_last() =~= ds.take(i - start));
            assert(t.last() == cs@[i as int]);
            if i - start == k {
                assert(ds[k] == cs@[i as int]);
            }
            assert(i - start < k);
        }
        let d = (cs[i] as u32 - '0' as u32) as i128;
        mag = mag * 10 + d;
        i += 1;
        if mag > 0x8000_0000_0000_0000i128 {
            proof {
                let prefix = ds.take(k);
                assert forall|j: int| 0 <= j < prefix.len() implies is_digit(#[trigger] prefix[j]) by {
                    assert(prefix[j] == ds[j]);
                }
                lemma_digits_monotone(prefix, i - start);
                assert(prefix.take(i - start) =~= ds.take(i - start));
            }
            if neg {
                return Err(String::from_str("number too small to fit in target type"));
            } else {
                return Err(String::from_str("number too large to fit in target type"));
            }
        }
    }
    proof {
        if i < n {
            assert(!is_digit(cs@[i as int]));
            assert(cs@[i as int] == ds[i - start]);
            if i - start < k {
                assert(is_digit(ds[i - start]));
            }
        }
        assert(i - start == k);
    }
    if !neg && mag > 0x7fff_ffff_ffff_ffffi128 {
        return Err(String::from_str("number too large to fit in target type"));
    }
    if i < n {
        return Err(String::from_str("invalid digit found in string"));
    }
    assert(k == ds.len());
    if neg {
        Ok((0i128 - mag) as i64)
    } else {
        Ok(mag as i64)
    }
}

/// ASCII upper-case letters made lower-case.
pub open spec fn ascii_lower(s: Seq<char>) -> Seq<char> {
    Seq::new(s.len(), |i: int| if 'A' <= s[i] <= 'Z' { (((s[i] as u8) + 32) as u8) as char } else { s[i] })
}

fn to_ascii_lowercase(s: &str) -> (r: String)
    ensures
        r@ == ascii_lower(s@),
{
    let cs = str_chars(s);
    let mut out = String::new();
    let mut i: usize = 0;
    while i < cs.len()
        invariant
            i <= cs@.len(),
            cs@ == s@,
            out@ == ascii_lower(cs@).take(i as int),
        decreases cs@.len() - i,
    {
        let c = cs[i];
        let l = if 'A' <= c && c <= 'Z' {
            let code: u8 = c as u8 + 32;
            code as char
        } else {
            c
        };
        push_char(&mut out, l);
        i += 1;
        assert(out@ =~= ascii_lower(cs@).take(i as int));
    }
    assert(ascii_lower(cs@).take(i as int) =~= ascii_lower(cs@));
    out
}

/// The value of a command's output when it needs no further parsing, or the text that still
/// has to be read as JSON or as a float.
#[derive(Debug, PartialEq)]
pub enum OutputValue {
    Ready(JsonValue),
    JsonText(String),
    FloatText(String),
}

/// Whether a trimmed, lower-cased output reads as true.
pub open spec fn truthy_text(t: Seq<char>) -> bool {
    t == "true"@ || t == "1"@ || t == "yes"@
}

/// Interprets a command's output: raw text is stdout followed by stderr; an integer is the
/// trimmed stdout parsed as `i64`; a boolean is whether the trimmed, lower-cased stdout is
/// `true`, `1` or `yes`; JSON is stdout and a float the trimmed stdout, to be read further.
pub fn parse_output(parsing: OutputParsing, stdout: &str, stderr: &str, tool_id: &str) -> (r: Result<OutputValue, ReadyError>)
    ensures
        match parsing {
            OutputParsing::Raw => r matches Ok(OutputValue::Ready(v)) && v@ == Json::Str(stdout@ + stderr@),
            OutputParsing::Json => r matches Ok(OutputValue::JsonText(t)) && t@ == stdout@,
            OutputParsing::Float => r matches Ok(OutputValue::FloatText(t)) && t@ == trim_spec(stdout@),
            OutputParsing::Bool => r matches Ok(OutputValue::Ready(v)) && v@ == Json::Bool(
                {
                    let t = ascii_lower(trim_spec(stdout@));
                    t == "true"@ || t == "1"@ || t == "yes"@
                },
            ),
            OutputParsing::Int => match int_parse_spec(trim_spec(stdout@)) {
                Ok(n) => r matches Ok(OutputValue::Ready(v)) && v@ == jint(n),
                Err(m) => r matches Err(e) && tool_error(e, tool_id@, "Failed to parse integer output: "@ + m),
            },
        },
{
    match parsing {
        OutputParsing::Raw => {
            let mut s = string_of(stdout);
            s.append(stderr);
            Ok(OutputValue::Ready(JsonValue::String(s)))
        }
        OutputParsing::Json => Ok(OutputValue::JsonText(string_of(stdout))),
        OutputParsing::Float => Ok(OutputValue::FloatText(trim(stdout))),
        OutputParsing::Bool => {
            let t = trim(stdout);
            let l = to_ascii_lowercase(t.as_str());
            let b = str_eq(l.as_str(), "true") || str_eq(l.as_str(), "1") || str_eq(l.as_str(), "yes");
            Ok(OutputValue::Ready(JsonValue::Bool(b)))
        }
        OutputParsing::Int => {
            let t = trim(stdout);
            match parse_i64(t.as_str()) {
                Ok(n) => Ok(OutputValue::Ready(json_from_i64(n))),
                Err(m) => {
                    let mut msg = String::from_str("Failed to parse integer output: ");
                    msg.append(m.as_str());
                    Err(ReadyError::Tool { tool_id: string_of(tool_id), message: msg })
                }
            }
        }
    }
}

/// `Option<i32>` as `{:?}` prints it.
pub open spec fn option_i32_debug(o: Option<i32>) -> Seq<char> {
    match o {
        Some(n) => "Some("@ + int_text(n as int) + ")"@,
        None => "None"@,
    }
}

/// Checks a command's result and interprets its output: a failed command is an error unless
/// its output is taken raw.
pub fn parse_command_output(entry: &ShellToolEntry, output: ShellCommandOutput, tool_id: &str) -> (r: Result<OutputValue, ReadyError>)
    ensures
        entry.output_parsing != OutputParsing::Raw && !output.success ==> (r matches Err(e) && tool_error(
            e,
            tool_id@,
            "Command failed (exit "@ + option_i32_debug(output.exit_code) + "): "@ + output.stderr@,
        )),
        !(entry.output_parsing != OutputParsing::Raw && !output.success) ==> match (
            r,
            parse_output_outcome(entry.output_parsing, output.stdout@, output.stderr@, tool_id@),
        ) {
            (Ok(a), Ok(b)) => output_value_view(a) == b,
            (Err(a), Err(m)) => tool_error(a, tool_id@, m),
            _ => false,
        },
{
    if entry.output_parsing != OutputParsing::Raw && !output.success {
        let mut msg = String::from_str("Command failed (exit ");
        match output.exit_code {
            Some(c) => {
                msg.append("Some(");
                push_i64_text(&mut msg, c as i64);
                msg.append(")");
            }
            None => msg.append("None"),
        }
        msg.append("): ");
        msg.append(output.stderr.as_str());
        assert(msg@ =~= "Command failed (exit "@ + option_i32_debug(output.exit_code) + "): "@ + output.stderr@);
        return Err(ReadyError::Tool { tool_id: string_of(tool_id), message: msg });
    }
    parse_output(entry.output_parsing, output.stdout.as_str(), output.stderr.as_str(), tool_id)
}

/// The model of an interpreted output.
pub enum OutputView {
    Ready(Json),
    JsonText(Seq<char>),
    FloatText(Seq<char>),
}

pub open spec fn output_value_view(v: OutputValue) -> OutputView {
    match v {
        OutputValue::Ready(j) => OutputView::Ready(j@),
        OutputValue::JsonText(t) => OutputView::JsonText(t@),
        OutputValue::FloatText(t) => OutputView::FloatText(t@),
    }
}

/// What `parse_output` gives, as a model.
pub open spec fn parse_output_outcome(parsing: OutputParsing, stdout: Seq<char>, stderr: Seq<char>, tool_id: Seq<char>) -> Result<OutputView, Seq<char>> {
    match parsing {
        OutputParsing::Raw => Ok(OutputView::Ready(Json::Str(stdout + stderr))),
        OutputParsing::Json => Ok(OutputView::JsonText(stdout)),
        OutputParsing::Float => Ok(OutputView::FloatText(trim_spec(stdout))),
        OutputParsing::Bool => Ok(OutputView::Ready(Json::Bool(truthy_text(ascii_lower(trim_spec(stdout)))))),
        OutputParsing::Int => match int_parse_spec(trim_spec(stdout)) {
            Ok(n) => Ok(OutputView::Ready(jint(n))),
            Err(m) => Err("Failed to parse integer output: "@ + m),
        },
    }
}

/// The placeholder values of a command: each argument's name bound to the display text of
/// the value at its position.
pub open spec fn bindings_spec(arguments: Seq<ToolArgumentDescription>, args: Seq<JsonValue>, n: int) -> Map<Seq<char>, Seq<char>>
    decreases n,
{
    if n <= 0 {
        Map::empty()
    } else {
        bindings_spec(arguments, args, n - 1).insert(arguments[n - 1].name@, display_text(args[n - 1]@))
    }
}

/// The rendered parts of a template; the first failing part stops rendering.
pub open spec fn render_all_spec(parts: Seq<String>, bound: Map<Seq<char>, Seq<char>>) -> Result<Seq<Seq<char>>, Seq<char>>
    decreases parts.len(),
{
    if parts.len() == 0 {
        Ok(Seq::empty())
    } else {
        match render_all_spec(parts.drop_last(), bound) {
            Err(m) => Err(m),
            Ok(done) => match render_spec(parts.last()@, bound) {
                Err(m) => Err(m),
                Ok(t) => Ok(done.push(t)),
            },
        }
    }
}

/// The command line of a shell tool call: every template part with its placeholders filled
/// from the arguments.
pub fn render_command(entry: &ShellToolEntry, args: &[JsonValue], tool_id: &str) -> (r: Result<Vec<String>, ReadyError>)
    ensures
        ({
            let n = if entry.arguments@.len() < args@.len() { entry.arguments@.len() } else { args@.len() };
            match (r, render_all_spec(entry.template@, bindings_spec(entry.arguments@, args@, n as int))) {
                (Ok(v), Ok(w)) => crate::text::strings_view(v@) == w,
                (Err(e), Err(m)) => tool_error(e, tool_id@, m),
                _ => false,
            }
        }),
{
    let n = if entry.arguments.len() < args.len() { entry.arguments.len() } else { args.len() };
    let mut bound = TemplateBindings::new();
    let mut i: usize = 0;
    while i < n
        invariant
            i <= n,
            n <= entry.arguments@.len(),
            n <= args@.len(),
            bound@ == bindings_spec(entry.arguments@, args@, i as int),
        decreases n - i,
    {
        bound.insert(string_of(entry.arguments[i].name.as_str()), value_to_string(&args[i]));
        i += 1;
    }
    let ghost b = bound@;
    let mut parts: Vec<String> = Vec::new();
    let mut k: usize = 0;
    assert(entry.template@.take(0) =~= Seq::<String>::empty());
    assert(crate::text::strings_view(parts@) =~= Seq::<Seq<char>>::empty());
    while k < entry.template.len()
        invariant
            k <= entry.template@.len(),
            b == bound@,
            n == (if entry.arguments@.len() < args@.len() { entry.arguments@.len() } else { args@.len() }),
            b == bindings_spec(entry.arguments@, args@, n as int),
            render_all_spec(entry.template@.take(k as int), b) == Ok::<Seq<Seq<char>>, Seq<char>>(
                crate::text::strings_view(parts@),
            ),
        decreases entry.template@.len() - k,
    {
        proof {
            assert(entry.template@.take(k + 1).drop_last() =~= entry.template@.take(k as int));
            assert(entry.template@.take(k + 1).last() == entry.template@[k as int]);
        }
        match render_template_part(entry.template[k].as_str(), &bound, tool_id) {
            Ok(t) => {
                let ghost before = parts@;
                parts.push(t);
                proof {
                    crate::text::lemma_strings_view_push(before, t);
                }
            }
            Err(e) => {
                proof {
                    assert(render_all_spec(entry.template@.take(k + 1), b) is Err);
                    lemma_render_all_error_persists(entry.template@, b, k as int + 1);
                }
                return Err(e);
            }
        }
        k += 1;
    }
    assert(entry.template@.take(k as int) =~= entry.template@);
    Ok(parts)
}

proof fn lemma_render_all_error_persists(parts: Seq<String>, b: Map<Seq<char>, Seq<char>>, n: int)
    requires
        0 <= n <= parts.len(),
        render_all_spec(parts.take(n), b) is Err,
    ensures
        render_all_spec(parts, b) == render_all_spec(parts.take(n), b),
    decreases parts.len() - n,
{
    if n < parts.len() {
        assert(parts.take(n + 1).drop_last() =~= parts.take(n));
        lemma_render_all_error_persists(parts, b, n + 1);
    } else {
        assert(parts.take(n) =~= parts);
    }
}

} // verus!
