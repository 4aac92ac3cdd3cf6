//! Plan execution: runtime state, expression evaluation, navigation, and the step machine.

pub mod evaluator;
pub mod interpreter;
pub mod navigator;
pub mod observer;
pub mod scope;
pub mod state;
