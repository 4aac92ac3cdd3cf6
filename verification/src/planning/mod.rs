//! Reading plan code into plans, and static analysis of plans before they run.

pub mod parser;
pub mod syntax;
pub mod validator;
