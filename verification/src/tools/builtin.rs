//! The built-in tools: delegating to a language model, extracting from text, and sorting.

use vstd::prelude::*;
use vstd::string::*;

use crate::error::ReadyError;
use crate::execution::evaluator::message3;
use crate::json::{Json, JsonValue};
use crate::text::{str_eq, string_of};
use crate::tools::models::{ToolArgumentDescription, ToolCall, ToolDescription, ToolReturnDescription};

verus! {

broadcast use vstd::std_specs::vec::group_vec_axioms;

/// The system prompt for extraction when a call gives none.
pub const DEFAULT_EXTRACTION_PROMPT: &'static str = "Extract structured information from the provided text according to the supplied JSON Schema. Return only the extracted data; do not add commentary.";

fn argument(name: &str, description: &str, value_type: &str, default: Option<&str>) -> (r: ToolArgumentDescription)
    ensures
        r.name@ == name@,
        r.description@ == description@,
        r.value_type@ == value_type@,
        match default {
            Some(d) => r.default matches Some(x) && x@ == d@,
            None => r.default is None,
        },
{
    ToolArgumentDescription {
        name: string_of(name),
        description: string_of(description),
        value_type: string_of(value_type),
        default: match default {
            Some(d) => Some(string_of(d)),
            None => None,
        },
    }
}

fn output_return(description: &str, value_type: &str) -> (r: ToolReturnDescription)
    ensures
        r.name matches Some(n) && n@ == "output"@,
        r.description@ == description@,
        r.value_type matches Some(t) && t@ == value_type@,
        r.fields@.len() == 0,
{
    ToolReturnDescription {
        name: Some(String::from_str("output")),
        description: string_of(description),
        value_type: Some(string_of(value_type)),
        fields: Vec::new(),
    }
}

/// The description of `delegate_to_large_language_model`.
pub fn delegate_description() -> (r: ToolDescription)
    ensures
        r.id@ == "delegate_to_large_language_model"@,
        r.arguments@.len() == 2,
        r.arguments@[0].name@ == "system_prompt"@,
        r.arguments@[1].name@ == "user_prompt"@,
{
    let mut arguments = Vec::new();
    arguments.push(argument("system_prompt", "Instructions for what you want the LLM to do.", "str", None));
    arguments.push(argument("user_prompt", "The task/input data for the LLM.", "str", None));
    ToolDescription {
        id: String::from_str("delegate_to_large_language_model"),
        description: String::from_str("Delegates a task to a large language model. Use this when you need rephrasing, summarization, or other free-form language generation."),
        arguments,
        returns: output_return("LLM response text.", "str"),
    }
}

/// The description of `extract_from_plaintext`.
pub fn extract_description() -> (r: ToolDescription)
    ensures
        r.id@ == "extract_from_plaintext"@,
        r.arguments@.len() == 3,
        r.arguments@[0].name@ == "system_prompt"@,
        r.arguments@[1].name@ == "plaintext"@,
        r.arguments@[2].name@ == "json_schema"@,
{
    let mut arguments = Vec::new();
    arguments.push(argument("system_prompt", "Plain text that contains information to extract.", "str", None));
    arguments.push(argument("plaintext", "Plain text that contains information to extract.", "str", None));
    arguments.push(argument("json_schema", "JSON Schema definition that specifies the expected output structure.", "dict", None));
    ToolDescription {
        id: String::from_str("extract_from_plaintext"),
        description: String::from_str("Extracts any information from a string. Use this whenever you need to pull, parse, or read anything out of a string value — for example extracting a name, date, number, URL, status, or any other field; filtering or selecting items from text; converting free-form text into a typed value; or answering a question about the contents of a string. Pass the string as plain_text and a JSON Schema describing what you want back as schema."),
        arguments,
        returns: output_return("Extracted structured data.", "dict"),
    }
}

/// The description of `sort_list`.
pub fn sort_description() -> (r: ToolDescription)
    ensures
        r.id@ == "sort_list"@,
        r.arguments@.len() == 3,
        r.arguments@[0].name@ == "items"@,
        r.arguments@[1].name@ == "key"@,
        r.arguments@[2].name@ == "reverse"@,
        r.arguments@[2].default matches Some(d) && d@ == "False"@,
{
    let mut arguments = Vec::new();
    arguments.push(argument("items", "List of dictionaries or objects to sort.", "list[dict]", None));
    arguments.push(argument("key", "Dictionary key or object attribute name to sort by.", "str", None));
    arguments.push(argument("reverse", "Whether to sort in descending order.", "bool", Some("False")));
    ToolDescription {
        id: String::from_str("sort_list"),
        description: String::from_str("Sorts a list of dictionaries or objects by the specified key or attribute and returns a new list."),
        arguments,
        returns: output_return("A new list sorted by the requested key.", "list[dict]"),
    }
}

/// The descriptions of the built-in tools, in order.
pub fn builtin_descriptions() -> (r: Vec<ToolDescription>)
    ensures
        r@.len() == 3,
        r@[0].id@ == "delegate_to_large_language_model"@,
        r@[1].id@ == "extract_from_plaintext"@,
        r@[2].id@ == "sort_list"@,
{
    let mut v = Vec::new();
    v.push(delegate_description());
    v.push(extract_description());
    v.push(sort_description());
    v
}

/// What a built-in tool call asks for once its arguments are checked.
#[derive(Debug)]
pub enum BuiltinRequest {
    /// A completion with these prompts.
    Delegate { system_prompt: String, user_prompt: String },
    /// An extraction of structured data following the schema.
    Extract { system_prompt: String, user_prompt: String, schema: JsonValue },
    /// The items sorted by the key, descending when `reverse` holds.
    Sort { items: Vec<JsonValue>, key: String, reverse: bool },
}

pub open spec fn argument_not_string_msg(name: Seq<char>) -> Seq<char> {
    "Argument '"@ + name + "' must be a string"@
}

/// The checked request of a built-in tool call: each tool needs its number of arguments and
/// their types, an extraction without a system prompt uses the module's default, and an
/// unknown tool is not found.
pub open spec fn builtin_request_ok(call: ToolCall, extraction_prompt: Seq<char>, r: Result<BuiltinRequest, ReadyError>) -> bool {
    let id = call.tool_id@;
    let args = call.args@;
    let tool_err = |m: Seq<char>| (match r {
        Err(ReadyError::Tool { tool_id, message }) => tool_id@ == id && message@ == m,
        _ => false,
    });
    if id == "delegate_to_large_language_model"@ {
        if args.len() < 2 {
            tool_err("Expected arguments: system_prompt, user_prompt"@)
        } else if !(args[0]@ is Str) {
            tool_err(argument_not_string_msg("system_prompt"@))
        } else if !(args[1]@ is Str) {
            tool_err(argument_not_string_msg("user_prompt"@))
        } else {
            match r {
                Ok(BuiltinRequest::Delegate { system_prompt, user_prompt }) => system_prompt@ == args[0]@->Str_0
                    && user_prompt@ == args[1]@->Str_0,
                _ => false,
            }
        }
    } else if id == "extract_from_plaintext"@ {
        if args.len() < 3 {
            tool_err("Expected arguments: system_prompt, plaintext, json_schema"@)
        } else if !(args[0]@ is Str) {
            tool_err(argument_not_string_msg("system_prompt"@))
        } else if !(args[1]@ is Str) {
            tool_err(argument_not_string_msg("plaintext"@))
        } else {
            match r {
                Ok(BuiltinRequest::Extract { system_prompt, user_prompt, schema }) => system_prompt@ == (if args[0]@->Str_0.len()
                    == 0 {
                    extraction_prompt
                } else {
                    args[0]@->Str_0
                }) && user_prompt@ == args[1]@->Str_0 && schema@ == args[2]@,
                _ => false,
            }
        }
    } else if id == "sort_list"@ {
        if args.len() < 3 {
            tool_err("Expected arguments: items, key, reverse"@)
        } else if !(args[0]@ is Arr) {
            tool_err("Argument 'items' must be a list"@)
        } else if !(args[1]@ is Str) {
            tool_err(argument_not_string_msg("key"@))
        } else if !(args[2]@ is Bool) {
            tool_err("Argument 'reverse' must be a bool"@)
        } else {
            match r {
                Ok(BuiltinRequest::Sort { items, key, reverse }) => JsonValue::Array(items)@ == args[0]@ && key@
                    == args[1]@->Str_0 && reverse == args[2]@->Bool_0,
                _ => false,
            }
        }
    } else {
        match r {
            Err(ReadyError::ToolNotFound(t)) => t@ == id,
            _ => false,
        }
    }
}

fn tool_failure(tool_id: &str, message: String) -> (r: Result<BuiltinRequest, ReadyError>)
    ensures
        r matches Err(ReadyError::Tool { tool_id: t, message: m }) && t@ == tool_id@ && m@ == message@,
{
    Err(ReadyError::Tool { tool_id: string_of(tool_id), message })
}

fn string_argument(v: &JsonValue) -> (r: Option<String>)
    ensures
        match r {
            Some(s) => v@ is Str && s@ == v@->Str_0,
            None => !(v@ is Str),
        },
{
    match v {
        JsonValue::String(s) => Some(string_of(s.as_str())),
        _ => None,
    }
}

/// Checks the arguments of a built-in tool call and says what it asks for.
pub fn prepare_builtin_call(call: &ToolCall, extraction_system_prompt: &str) -> (r: Result<BuiltinRequest, ReadyError>)
    ensures
        builtin_request_ok(*call, extraction_system_prompt@, r),
{
    let tool_id = call.tool_id.as_str();
    let args = &call.args;
    proof {
        reveal_strlit("delegate_to_large_language_model");
        reveal_strlit("extract_from_plaintext");
        reveal_strlit("sort_list");
    }
    if str_eq(tool_id, "delegate_to_large_language_model") {
        if args.len() < 2 {
            return tool_failure(tool_id, String::from_str("Expected arguments: system_prompt, user_prompt"));
        }
        let system_prompt = match string_argument(&args[0]) {
            Some(s) => s,
            None => {
                return tool_failure(tool_id, message3("Argument '", "system_prompt", "' must be a string"));
            }
        };
        let user_prompt = match string_argument(&args[1]) {
            Some(s) => s,
            None => {
                return tool_failure(tool_id, message3("Argument '", "user_prompt", "' must be a string"));
            }
        };
        Ok(BuiltinRequest::Delegate { system_prompt, user_prompt })
    } else if str_eq(tool_id, "extract_from_plaintext") {
        if args.len() < 3 {
            return tool_failure(tool_id, String::from_str("Expected arguments: system_prompt, plaintext, json_schema"));
        }
        let system_prompt = match string_argument(&args[0]) {
            Some(s) => s,
            None => {
                return tool_failure(tool_id, message3("Argument '", "system_prompt", "' must be a string"));
            }
        };
        let user_prompt = match string_argument(&args[1]) {
            Some(s) => s,
            None => {
                return tool_failure(tool_id, message3("Argument '", "plaintext", "' must be a string"));
            }
        };
        let system_prompt = if system_prompt.unicode_len() == 0 { string_of(extraction_system_prompt) } else { system_prompt };
        Ok(BuiltinRequest::Extract { system_prompt, user_prompt, schema: crate::json::copy_json(&args[2]) })
    } else if str_eq(tool_id, "sort_list") {
        if args.len() < 3 {
            return tool_failure(tool_id, String::from_str("Expected arguments: items, key, reverse"));
        }
        let items = match crate::json::copy_json(&args[0]) {
            JsonValue::Array(items) => items,
            _ => {
                return tool_failure(tool_id, String::from_str("Argument 'items' must be a list"));
            }
        };
        let key = match string_argument(&args[1]) {
            Some(s) => s,
            None => {
                return tool_failure(tool_id, message3("Argument '", "key", "' must be a string"));
            }
        };
        let reverse = match &args[2] {
            JsonValue::Bool(b) => *b,
            _ => {
                return tool_failure(tool_id, String::from_str("Argument 'reverse' must be a bool"));
            }
        };
        Ok(BuiltinRequest::Sort { items, key, reverse })
    } else {
        Err(ReadyError::ToolNotFound(string_of(tool_id)))
    }
}

} // verus!
