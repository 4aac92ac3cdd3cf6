//! Steps of a plan: the control-flow tree the interpreter walks.

use vstd::prelude::*;

use crate::plan::expression::Expression;

verus! {

/// Semantic branch identity for switch-style conditionals.
#[derive(Debug, Clone, PartialEq, Eq, Hash)]
pub enum BranchKind {
    If,
    ElseIf,
    Else,
}

/// One branch of a switch step.
#[derive(Debug, PartialEq)]
pub struct ConditionalBranch {
    /// The semantic kind of branch.
    pub kind: BranchKind,
    /// The condition that selects the branch; `None` always selects it.
    pub condition: Option<Expression>,
    /// The steps executed when the branch is selected.
    pub steps: Vec<Step>,
}

/// A single executable statement of a plan.
#[derive(Debug, PartialEq)]
pub enum Step {
    /// Assigns the value of an expression to a variable.
    AssignStep { target: String, value: Expression },
    /// Invokes a tool and optionally stores its result.
    ToolStep { tool_id: String, arguments: Vec<Expression>, output_variable: Option<String> },
    /// Runs the first branch whose condition holds.
    SwitchStep { branches: Vec<ConditionalBranch> },
    /// Runs the body once per item of an array variable.
    LoopStep { iterable_variable: String, item_variable: String, body: Vec<Step> },
    /// Runs the body while the condition is truthy.
    WhileStep { condition: Expression, body: Vec<Step> },
    /// Asks the user for input, optionally binding it to a variable.
    UserInteractionStep { prompt: String, output_variable: Option<String> },
    /// Leaves the nearest enclosing loop.
    BreakStep,
}

} // verus!
