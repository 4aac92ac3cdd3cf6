//! Lifecycle hooks that a run reports to.

use vstd::prelude::*;

use crate::error::ReadyError;
use crate::execution::state::{ExecutionState, StepResult};
use crate::plan::Step;

verus! {

/// Receives callbacks as a plan starts, advances, suspends, errors, and completes.
pub trait ExecutionObserver: Send + Sync {
    /// Called before plan execution begins.
    fn on_plan_start(&self, plan_name: &str, state: &ExecutionState);

    /// Called immediately before a step is executed.
    fn on_step_start(&self, step_index: usize, step: &Step, ip: &[usize], state: &ExecutionState);

    /// Called after a step completes successfully.
    fn on_step_complete(&self, step_index: usize, step: &Step, result: &StepResult);

    /// Called when execution suspends and awaits external input.
    fn on_suspension(&self, reason: &str, state: &ExecutionState);

    /// Called when a step fails.
    fn on_error(&self, step: &Step, error: &ReadyError, state: &ExecutionState);

    /// Called after execution reaches a terminal state.
    fn on_plan_complete(&self, state: &ExecutionState);
}

/// An observer that ignores every event.
pub struct NoOpObserver;

impl ExecutionObserver for NoOpObserver {
    fn on_plan_start(&self, plan_name: &str, state: &ExecutionState) {
    }

    fn on_step_start(&self, step_index: usize, step: &Step, ip: &[usize], state: &ExecutionState) {
    }

    fn on_step_complete(&self, step_index: usize, step: &Step, result: &StepResult) {
    }

    fn on_suspension(&self, reason: &str, state: &ExecutionState) {
    }

    fn on_error(&self, step: &Step, error: &ReadyError, state: &ExecutionState) {
    }

    fn on_plan_complete(&self, state: &ExecutionState) {
    }
}

} // verus!
