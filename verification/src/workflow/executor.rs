//! Decisions of the plan executor: the state a run starts from, when a suspended run asks
//! the user to continue, and when a failed run is recovered from its checkpoint.

use vstd::prelude::*;
use vstd::string::*;

use crate::execution::state::{ExecutionState, ExecutionStatus};
use crate::json::{Json, JsonValue};

verus! {

broadcast use vstd::std_specs::vec::group_vec_axioms;

/// Variables bound in order, a later binding of a name replacing an earlier one.
pub open spec fn bound_inputs(inputs: Seq<(String, JsonValue)>) -> Map<Seq<char>, Json>
    decreases inputs.len(),
{
    if inputs.len() == 0 {
        Map::empty()
    } else {
        bound_inputs(inputs.drop_last()).insert(inputs.last().0@, inputs.last().1@)
    }
}

/// A run about to start: running at the first step, with the initial inputs as variables.
pub fn seeded_state(initial_inputs: Vec<(String, JsonValue)>) -> (r: ExecutionState)
    ensures
        r.status == ExecutionStatus::Running,
        r.interpreter_state.ip_path@ == seq![0usize],
        r.interpreter_state.variables@ == bound_inputs(initial_inputs@),
        r.interpreter_state.pending_input_variable is None,
        r.interpreter_state.pending_tool_id is None,
        r.interpreter_state.pending_tool_state is None,
        r.interpreter_state.pending_resume_value is None,
        r.current_step_index is None,
        r.error is None,
        r.suspension_reason is None,
{
    let mut state = ExecutionState::new();
    state.status = ExecutionStatus::Running;
    let ghost all = initial_inputs@;
    assert(initial_inputs@.len() == initial_inputs.len());
    let mut rest = initial_inputs;
    let mut taken: usize = 0;
    assert(all.take(0) =~= Seq::<(String, JsonValue)>::empty());
    assert(state.interpreter_state.variables@ =~= bound_inputs(all.take(0)));
    while rest.len() > 0
        invariant
            taken + rest@.len() == all.len(),
            all.len() <= usize::MAX,
            rest@ == all.skip(taken as int),
            state.status == ExecutionStatus::Running,
            state.interpreter_state.ip_path@ == seq![0usize],
            state.interpreter_state.variables@ == bound_inputs(all.take(taken as int)),
            state.interpreter_state.pending_input_variable is None,
            state.interpreter_state.pending_tool_id is None,
            state.interpreter_state.pending_tool_state is None,
            state.interpreter_state.pending_resume_value is None,
            state.current_step_index is None,
            state.error is None,
            state.suspension_reason is None,
        decreases rest@.len(),
    {
        let (name, value) = rest.remove(0);
        assert(all[taken as int] == (name, value));
        assert(all.take(taken + 1).drop_last() =~= all.take(taken as int));
        state.interpreter_state.variables.insert(name, value);
        taken += 1;
        assert(rest@ =~= all.skip(taken as int));
    }
    assert(all.take(taken as int) =~= all);
    state
}

/// The question a suspended run puts to the user: its suspension reason, or
/// `User input required`.
pub open spec fn question_spec(state: ExecutionState) -> Seq<char> {
    match state.suspension_reason {
        Some(r) => r@,
        None => "User input required"@,
    }
}

/// What to ask the user after a run stopped: nothing unless the run is suspended and there
/// is someone to ask.
pub fn suspension_question(state: &ExecutionState, can_ask: bool) -> (r: Option<String>)
    ensures
        match r {
            Some(q) => can_ask && state.status == ExecutionStatus::Suspended && q@ == question_spec(*state),
            None => !can_ask || state.status != ExecutionStatus::Suspended,
        },
{
    if !can_ask || state.status != ExecutionStatus::Suspended {
        return None;
    }
    match &state.suspension_reason {
        Some(reason) => Some(reason.clone()),
        None => Some(String::from_str("User input required")),
    }
}

/// Whether a run is due for recovery: it failed with a recorded error and recovery attempts
/// remain.
pub fn recovery_due(state: &ExecutionState, attempts: usize, max_attempts: usize) -> (r: bool)
    ensures
        r == (state.status == ExecutionStatus::Failed && state.error is Some && attempts < max_attempts),
{
    state.status == ExecutionStatus::Failed && state.error.is_some() && attempts < max_attempts
}

/// A failed run made ready to continue from its checkpoint: running again, its error cleared,
/// its position, variables and pending input kept.
pub fn restart_from_checkpoint(state: &mut ExecutionState)
    ensures
        final(state).status == ExecutionStatus::Running,
        final(state).error is None,
        final(state).interpreter_state == old(state).interpreter_state,
        final(state).current_step_index == old(state).current_step_index,
        final(state).suspension_reason == old(state).suspension_reason,
{
    state.status = ExecutionStatus::Running;
    state.error = None;
}

} // verus!
