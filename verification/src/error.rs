//! The crate-wide error type.

use vstd::prelude::*;
use vstd::string::*;

use crate::text::{nat_text, push_u64_text};

verus! {

/// Failures of parsing, validation, tool calls, language-model calls, and execution.
///
/// The I/O, JSON and HTTP variants carry the message of the underlying error.
#[derive(Debug)]
pub enum ReadyError {
    PlanParsing(String),
    PlanValidation(String),
    Evaluation(String),
    Tool { tool_id: String, message: String },
    ToolNotFound(String),
    DuplicateTool(String),
    Llm(String),
    Execution { step_index: Option<usize>, step_type: Option<String>, message: String },
    Io(String),
    Json(String),
    Http(String),
}

/// `Option<usize>` as `{:?}` prints it.
pub open spec fn option_usize_debug(o: Option<usize>) -> Seq<char> {
    match o {
        Some(n) => "Some("@ + nat_text(n as nat) + ")"@,
        None => "None"@,
    }
}

/// The error's display text.
pub open spec fn error_text(e: ReadyError) -> Seq<char> {
    match e {
        ReadyError::PlanParsing(m) => "Plan parsing error: "@ + m@,
        ReadyError::PlanValidation(m) => "Plan validation error: "@ + m@,
        ReadyError::Evaluation(m) => "Expression evaluation error: "@ + m@,
        ReadyError::Tool { tool_id, message } => "Tool error: "@ + tool_id@ + ": "@ + message@,
        ReadyError::ToolNotFound(m) => "Tool not found: "@ + m@,
        ReadyError::DuplicateTool(m) => "Duplicate tool registration: "@ + m@,
        ReadyError::Llm(m) => "LLM error: "@ + m@,
        ReadyError::Execution { step_index, message, .. } => "Execution error at step "@
            + option_usize_debug(step_index) + ": "@ + message@,
        ReadyError::Io(m) => "IO error: "@ + m@,
        ReadyError::Json(m) => "JSON error: "@ + m@,
        ReadyError::Http(m) => "HTTP error: "@ + m@,
    }
}

/// Appends `Option<usize>` as `{:?}` prints it.
pub fn push_option_usize_debug(s: &mut String, o: Option<usize>)
    ensures
        final(s)@ == old(s)@ + option_usize_debug(o),
{
    match o {
        Some(n) => {
            s.append("Some(");
            push_u64_text(s, n as u64);
            s.append(")");
            assert(final(s)@ =~= old(s)@ + option_usize_debug(o));
        }
        None => {
            s.append("None");
        }
    }
}

impl ReadyError {
    /// Whether the error can be recovered from by planning again: runtime execution and tool
    /// failures are; a missing tool, a parse or a validation failure are not.
    pub fn is_recoverable(&self) -> (r: bool)
        ensures
            r == (self is Execution || self is Tool),
    {
        match self {
            ReadyError::Execution { .. } | ReadyError::Tool { .. } => true,
            _ => false,
        }
    }

    /// The error's display text.
    pub fn to_display_string(&self) -> (r: String)
        ensures
            r@ == error_text(*self),
    {
        let mut s = String::new();
        match self {
            ReadyError::PlanParsing(m) => {
                s.append("Plan parsing error: ");
                s.append(m.as_str());
            }
            ReadyError::PlanValidation(m) => {
                s.append("Plan validation error: ");
                s.append(m.as_str());
            }
            ReadyError::Evaluation(m) => {
                s.append("Expression evaluation error: ");
                s.append(m.as_str());
            }
            ReadyError::Tool { tool_id, message } => {
                s.append("Tool error: ");
                s.append(tool_id.as_str());
                s.append(": ");
                s.append(message.as_str());
            }
            ReadyError::ToolNotFound(m) => {
                s.append("Tool not found: ");
                s.append(m.as_str());
            }
            ReadyError::DuplicateTool(m) => {
                s.append("Duplicate tool registration: ");
                s.append(m.as_str());
            }
            ReadyError::Llm(m) => {
                s.append("LLM error: ");
                s.append(m.as_str());
            }
            ReadyError::Execution { step_index, message, .. } => {
                s.append("Execution error at step ");
                push_option_usize_debug(&mut s, *step_index);
                s.append(": ");
                s.append(message.as_str());
            }
            ReadyError::Io(m) => {
                s.append("IO error: ");
                s.append(m.as_str());
            }
            ReadyError::Json(m) => {
                s.append("JSON error: ");
                s.append(m.as_str());
            }
            ReadyError::Http(m) => {
                s.append("HTTP error: ");
                s.append(m.as_str());
            }
        }
        assert(s@ =~= error_text(*self));
        s
    }
}

} // verus!
