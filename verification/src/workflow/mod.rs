//! Plan generation, run inputs, and plan execution decisions.

pub mod executor;
pub mod inputs;
pub mod planner;
