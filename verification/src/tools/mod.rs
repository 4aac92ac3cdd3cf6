//! Tool descriptions, tool calls and their results, and the tool-id index of a registry.

pub mod builtin;
pub mod models;
pub mod process;
pub mod registry;
pub mod shell;

pub use models::{
    Continuation, FieldDescription, ToolArgumentDescription, ToolCall, ToolDescription, ToolResult,
    ToolReturnDescription, ToolSuspension,
};
