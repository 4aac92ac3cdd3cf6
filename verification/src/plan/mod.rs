//! The abstract plan data model: expressions, steps, and plan-level records.

pub mod expression;
pub mod model;
pub mod queries;
pub mod step;
pub mod types;

pub use expression::{
    Accessor, BinaryOperator, BooleanOperator, ComparisonOperator, Expression, LiteralValue,
    UnaryOperator,
};
pub use step::{BranchKind, ConditionalBranch, Step};
pub use types::{AbstractPlan, DiagnosticSeverity, PlanDiagnostic, PrefillableInput};
