//! Plan-based agent execution engine: the plan model, its validation and formatting,
//! expression evaluation, and the interpreter's step machine.

pub mod behaviour;
pub mod error;
pub mod execution;
pub mod json;
pub mod laws;
pub mod llm;
pub mod plan;
pub mod plan_format;
pub mod planning;
pub mod text;
pub mod tools;
pub mod workflow;
