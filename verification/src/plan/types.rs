//! Plan-level records: the plan itself, prefillable inputs, and validation diagnostics.

use vstd::prelude::*;

use crate::plan::step::Step;

verus! {

/// A top-level user input request that can be supplied before execution starts.
#[derive(Debug, PartialEq)]
pub struct PrefillableInput {
    /// The variable that receives the input.
    pub variable_name: String,
    /// The prompt shown when the value is not prefilled.
    pub prompt: String,
}

/// A parsed plan: name, description, steps, and the source code it came from.
#[derive(Debug, PartialEq)]
pub struct AbstractPlan {
    pub name: String,
    pub description: String,
    pub steps: Vec<Step>,
    pub code: String,
}

/// Whether a diagnostic blocks execution or only informs.
#[derive(Debug, Clone, PartialEq, Eq)]
pub enum DiagnosticSeverity {
    Error,
    Warning,
}

/// A validation finding about a plan.
#[derive(Debug, PartialEq)]
pub struct PlanDiagnostic {
    pub severity: DiagnosticSeverity,
    pub message: String,
    pub variable_name: Option<String>,
}

} // verus!
