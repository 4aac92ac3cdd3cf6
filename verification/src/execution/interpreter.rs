//! The interpreter's step machine: one step of a plan at a time, driven by a caller that
//! performs tool calls and feeds their results back.

use vstd::prelude::*;
use vstd::string::*;

use crate::error::{error_text, ReadyError};
use crate::execution::evaluator::{elements_spec, eval_spec, evaluate_expression, lemma_elements_error_persists};
use crate::execution::navigator::{
    ascended, resolve_spec, lemma_resolve_step_at, on_scope_exit, path_walkable, resolve_step, slice_to_path, step_at_path,
    is_container, is_loop, lemma_walk_branches, lemma_walk_descend, lemma_walk_take, lemma_walk_update_last,
    same_on_inner_prefixes, select_branch, select_branch_spec, step_at_spec, walk_ok,
};
use crate::execution::scope::Variables;
use crate::execution::evaluator::message3;
use crate::execution::observer::ExecutionObserver;
use crate::execution::state::{ExecutionError, ExecutionState, ExecutionStatus, InstructionPointer, InternalState, InterpreterState, LoopState, StepResult, WhileState};
use crate::text::{nat_text, push_u64_text, str_eq};
use crate::tools::{Continuation, ToolCall, ToolResult};
use crate::json::{is_truthy, json_truthy, Json, JsonValue};
use crate::plan::{AbstractPlan, ConditionalBranch, Expression, Step};

verus! {

broadcast use vstd::std_specs::vec::group_vec_axioms;

/// A path moved to the next step at its depth.
pub open spec fn advanced(p: Seq<usize>) -> Seq<usize> {
    if p.len() > 0 {
        p.update(p.len() - 1, (p[p.len() - 1] + 1) as usize)
    } else {
        p
    }
}

/// Whether an outcome is a step that completed without suspending.
pub open spec fn completed(r: Result<StepResult, ReadyError>) -> bool {
    r matches Ok(sr) && !sr.suspend && sr.suspend_reason is None
}

/// Whether an outcome is a suspension with reason `reason`.
pub open spec fn suspends_with(r: Result<StepResult, ReadyError>, reason: Seq<char>) -> bool {
    match r {
        Ok(sr) => sr.suspend && match sr.suspend_reason {
            Some(t) => t@ == reason,
            None => false,
        },
        Err(_) => false,
    }
}

/// What an assignment does: the value is bound to the target and the pointer moves on; an
/// evaluation error is returned with nothing changed.
pub open spec fn assign_effect(
    target: Seq<char>,
    value: Expression,
    vars: Map<Seq<char>, Json>,
    vars2: Map<Seq<char>, Json>,
    p: Seq<usize>,
    p2: Seq<usize>,
    r: Result<StepResult, ReadyError>,
) -> bool {
    match eval_spec(value, vars) {
        Ok(v) => {
            &&& completed(r)
            &&& vars2 == vars.insert(target, v)
            &&& p2 == advanced(p)
        },
        Err(m) => {
            &&& r matches Err(ReadyError::Evaluation(x)) && x@ == m
            &&& vars2 == vars
            &&& p2 == p
        },
    }
}

/// Evaluates an assignment's value and binds it to the target; the pointer then moves on.
pub fn handle_assign_step(
    target: &str,
    value: &Expression,
    ip: &mut InstructionPointer,
    variables: &mut Variables,
) -> (r: Result<StepResult, ReadyError>)
    requires
        old(ip).path@.len() > 0 ==> old(ip).path@.last() < usize::MAX,
    ensures
        assign_effect(target@, *value, old(variables)@, final(variables)@, old(ip).path@, final(ip).path@, r),
{
    let v = match evaluate_expression(value, variables) {
        Ok(v) => v,
        Err(e) => {
            return Err(e);
        }
    };
    variables.insert(String::from_str(target), v);
    ip.advance();
    Ok(StepResult::done())
}

/// What a user interaction does: with its output variable already bound the step is done;
/// otherwise the run suspends with the prompt and remembers which variable the input is for.
/// The variables and the pending tool stay as they were.
pub open spec fn interaction_effect(
    prompt: Seq<char>,
    output_variable: Option<String>,
    st: InterpreterState,
    st2: InterpreterState,
    p: Seq<usize>,
    p2: Seq<usize>,
    r: Result<StepResult, ReadyError>,
) -> bool {
    &&& st2.variables@ == st.variables@
    &&& st2.pending_tool_id == st.pending_tool_id
    &&& st2.pending_tool_state == st.pending_tool_state
    &&& st2.pending_resume_value == st.pending_resume_value
    &&& if output_variable matches Some(v) && st.variables@.contains_key(v@) {
        &&& completed(r)
        &&& p2 == advanced(p)
        &&& st2.pending_input_variable == st.pending_input_variable
    } else {
        &&& suspends_with(r, prompt)
        &&& p2 == p
        &&& match (st2.pending_input_variable, output_variable) {
            (Some(a), Some(b)) => a@ == b@,
            (None, None) => true,
            _ => false,
        }
    }
}

/// Asks for user input: when the output variable is already bound the step is done;
/// otherwise the run suspends with the prompt and remembers which variable the input is for.
pub fn handle_user_interaction_step(
    prompt: &str,
    output_variable: &Option<String>,
    ip: &mut InstructionPointer,
    interpreter_state: &mut InterpreterState,
) -> (r: Result<StepResult, ReadyError>)
    requires
        old(ip).path@.len() > 0 ==> old(ip).path@.last() < usize::MAX,
    ensures
        final(interpreter_state).ip_path == old(interpreter_state).ip_path,
        interaction_effect(
            prompt@,
            *output_variable,
            *old(interpreter_state),
            *final(interpreter_state),
            old(ip).path@,
            final(ip).path@,
            r,
        ),
{
    match output_variable {
        Some(v) => {
            if interpreter_state.variables.contains_key(v.as_str()) {
                ip.advance();
                return Ok(StepResult::done());
            }
        }
        None => {}
    }
    interpreter_state.pending_input_variable = match output_variable {
        Some(v) => Some(v.clone()),
        None => None,
    };
    Ok(StepResult { suspend: true, suspend_reason: Some(String::from_str(prompt)) })
}

/// Whether the selected branch of a switch has steps.
pub open spec fn branch_has_steps(branches: Seq<ConditionalBranch>, i: int) -> bool {
    0 <= i < branches.len() && branches[i].steps@.len() > 0
}

/// What a switch does: the first branch whose condition holds is entered and remembered at the
/// switch's path when it has steps; otherwise the pointer moves past the switch.
pub open spec fn switch_effect(
    step: Step,
    branches: Seq<ConditionalBranch>,
    vars: Map<Seq<char>, Json>,
    internal: InternalState,
    internal2: InternalState,
    p: Seq<usize>,
    p2: Seq<usize>,
    r: Result<StepResult, ReadyError>,
) -> bool {
    &&& completed(r)
    &&& internal2.loops@ == internal.loops@
    &&& internal2.whiles@ == internal.whiles@
    &&& match select_branch_spec(step, vars) {
        Some(i) => if branch_has_steps(branches, i) {
            &&& internal2.branches@ == internal.branches@.insert(p, i as usize)
            &&& p2 == p.push(0)
        } else {
            &&& internal2.branches@ == internal.branches@.insert(p, i as usize).remove(p)
            &&& p2 == advanced(p)
        },
        None => {
            &&& internal2.branches@ == internal.branches@
            &&& p2 == advanced(p)
        },
    }
}

/// Selects the first branch whose condition holds: a branch with steps is entered and
/// remembered at the switch's path; otherwise the pointer moves past the switch.
pub fn handle_switch_step(
    step: &Step,
    branches: &Vec<ConditionalBranch>,
    ip: &mut InstructionPointer,
    variables: &Variables,
    internal_state: &mut InternalState,
) -> (r: Result<StepResult, ReadyError>)
    requires
        *step == (Step::SwitchStep { branches: *branches }),
        old(ip).path@.len() > 0 ==> old(ip).path@.last() < usize::MAX,
    ensures
        switch_effect(*step, branches@, variables@, *old(internal_state), *final(internal_state), old(ip).path@, final(ip).path@, r),
{
    match select_branch(step, variables) {
        Some(branch_index) => {
            proof {
                crate::execution::navigator::lemma_select_in_range(branches@, variables@, 0);
            }
            internal_state.branches.insert(ip.snapshot(), branch_index);
            let has_steps = branch_index < branches.len() && branches[branch_index].steps.len() > 0;
            if has_steps {
                ip.descend();
            } else {
                internal_state.branches.remove(ip.path.as_slice());
                ip.advance();
            }
        }
        None => {
            ip.advance();
        }
    }
    Ok(StepResult::done())
}

/// Every loop's index points at one of its items.
pub open spec fn loops_ok(loops: Map<Seq<usize>, LoopState>) -> bool {
    forall|k: Seq<usize>| #[trigger] loops.contains_key(k) ==> loops[k].index < loops[k].items@.len()
}

/// An execution failure of a step kind, with its message.
pub open spec fn execution_error(r: Result<StepResult, ReadyError>, step_index: Option<usize>, kind: Seq<char>, message: Seq<char>) -> bool {
    match r {
        Err(ReadyError::Execution { step_index: i, step_type: Some(t), message: m }) => i == step_index && t@ == kind
            && m@ == message,
        _ => false,
    }
}

fn execution_failure(step_index: Option<usize>, kind: &str, message: String) -> (r: Result<StepResult, ReadyError>)
    ensures
        execution_error(r, step_index, kind@, message@),
{
    Err(ReadyError::Execution { step_index, step_type: Some(String::from_str(kind)), message })
}

/// What a pass of a `for` loop does: the first pass binds the first item and enters the body
/// (or moves past an empty array); later passes bind the next item or finish the loop; a
/// missing or non-array iterable is an error.
pub open spec fn loop_effect(
    iterable: Seq<char>,
    item: Seq<char>,
    index: Option<usize>,
    vars: Map<Seq<char>, Json>,
    vars2: Map<Seq<char>, Json>,
    internal: InternalState,
    internal2: InternalState,
    p: Seq<usize>,
    p2: Seq<usize>,
    r: Result<StepResult, ReadyError>,
) -> bool {
    &&& internal2.whiles@ == internal.whiles@
    &&& internal2.branches@ == internal.branches@
    &&& {
        let key = p;
        let loops = internal.loops@;
        if loops.contains_key(key) {
            let ls = loops[key];
            let next = ls.index + 1;
            &&& completed(r)
            &&& if next < ls.items@.len() {
                &&& vars2 == vars.insert(item, ls.items@[next]@)
                &&& internal2.loops@ == loops.insert(key, LoopState { index: next as usize, items: ls.items })
                &&& p2 == key.push(0)
            } else {
                &&& vars2 == vars
                &&& internal2.loops@ == loops.remove(key)
                &&& p2 == advanced(key)
            }
        } else if !vars.contains_key(iterable) {
            &&& execution_error(r, index, "LoopStep"@, "Undefined iterable variable: '"@ + iterable + "'"@)
            &&& vars2 == vars
            &&& internal2.loops@ == loops
            &&& p2 == key
        } else if !(vars[iterable] is Arr) {
            &&& execution_error(r, index, "LoopStep"@, "Loop variable '"@ + iterable + "' is not iterable"@)
            &&& vars2 == vars
            &&& internal2.loops@ == loops
            &&& p2 == key
        } else if vars[iterable]->Arr_0.len() == 0 {
            &&& completed(r)
            &&& vars2 == vars
            &&& internal2.loops@ == loops
            &&& p2 == advanced(key)
        } else {
            let items = internal2.loops@[key].items;
            &&& completed(r)
            &&& vars2 == vars.insert(item, vars[iterable]->Arr_0[0])
            &&& internal2.loops@ == loops.insert(key, LoopState { index: 0, items: items })
            &&& JsonValue::Array(items)@ == vars[iterable]
            &&& p2 == key.push(0)
        }
    }
}

/// One pass of a `for` loop step: the first pass binds the first item (or skips an empty
/// array), later passes bind the next item or finish the loop.
pub fn handle_loop_step(
    iterable_variable: &str,
    item_variable: &str,
    ip: &mut InstructionPointer,
    step_index: Option<usize>,
    variables: &mut Variables,
    internal_state: &mut InternalState,
) -> (r: Result<StepResult, ReadyError>)
    requires
        old(ip).path@.len() > 0 ==> old(ip).path@.last() < usize::MAX,
        loops_ok(old(internal_state).loops@),
    ensures
        loops_ok(final(internal_state).loops@),
        loop_effect(
            iterable_variable@,
            item_variable@,
            step_index,
            old(variables)@,
            final(variables)@,
            *old(internal_state),
            *final(internal_state),
            old(ip).path@,
            final(ip).path@,
            r,
        ),
{
    let key = ip.snapshot();
    match internal_state.loops.take(key.as_slice()) {
        Some(loop_state) => {
            assert(old(internal_state).loops@.contains_key(key@));
            assert(loop_state.index < loop_state.items@.len());
            let count = loop_state.items.len();
            let next = loop_state.index + 1;
            if next < loop_state.items.len() {
                let item = crate::json::copy_json(&loop_state.items[next]);
                variables.insert(String::from_str(item_variable), item);
                let ghost items = loop_state.items;
                internal_state.loops.insert(key, LoopState { index: next, items: loop_state.items });
                proof {
                    assert(internal_state.loops@ =~= old(internal_state).loops@.insert(
                        old(ip).path@,
                        LoopState { index: next, items: items },
                    ));
                }
                ip.descend();
            } else {
                ip.advance();
            }
            return Ok(StepResult::done());
        }
        None => {}
    }
    assert(!old(internal_state).loops@.contains_key(old(ip).path@));
    assert(internal_state.loops@ == old(internal_state).loops@);
    assert(internal_state.whiles@ == old(internal_state).whiles@);
    assert(internal_state.branches@ == old(internal_state).branches@);
    let iterable = match variables.get(iterable_variable) {
        Some(v) => crate::json::copy_json(v),
        None => {
            return execution_failure(step_index, "LoopStep", message3("Undefined iterable variable: '", iterable_variable, "'"));
        }
    };
    let ghost iv = iterable@;
    assert(iv == old(variables)@[iterable_variable@]);
    let items = match iterable {
        JsonValue::Array(items) => items,
        _ => {
            assert(!(iv is Arr));
            return execution_failure(step_index, "LoopStep", message3("Loop variable '", iterable_variable, "' is not iterable"));
        }
    };
    if items.len() == 0 {
        ip.advance();
        return Ok(StepResult::done());
    }
    let first = crate::json::copy_json(&items[0]);
    variables.insert(String::from_str(item_variable), first);
    internal_state.loops.insert(key, LoopState { index: 0, items });
    ip.descend();
    Ok(StepResult::done())
}

/// Every `while` counter is at most the limit, or is the first pass.
pub open spec fn whiles_ok(whiles: Map<Seq<usize>, WhileState>, max: usize) -> bool {
    forall|k: Seq<usize>| #[trigger] whiles.contains_key(k) ==> whiles[k].iterations <= max || whiles[k].iterations == 1
}

/// The text of the iteration-limit failure.
pub open spec fn while_limit_msg(max: usize) -> Seq<char> {
    "WhileStep exceeded maximum iterations ("@ + nat_text(max as nat) + ")"@
}

/// What a pass of a `while` loop does: the counter is raised and checked against the limit,
/// then the condition decides between entering the body and finishing the loop.
pub open spec fn while_effect(
    condition: Expression,
    index: Option<usize>,
    vars: Map<Seq<char>, Json>,
    internal: InternalState,
    internal2: InternalState,
    p: Seq<usize>,
    p2: Seq<usize>,
    r: Result<StepResult, ReadyError>,
    max: usize,
) -> bool {
    &&& internal2.loops@ == internal.loops@
    &&& internal2.branches@ == internal.branches@
    &&& {
        let key = p;
        let whiles = internal.whiles@;
        let cond = eval_spec(condition, vars);
        if whiles.contains_key(key) {
            let n = whiles[key].iterations + 1;
            if n > max {
                &&& execution_error(r, index, "WhileStep"@, while_limit_msg(max))
                &&& internal2.whiles@ == whiles.remove(key)
                &&& p2 == key
            } else {
                match cond {
                    Err(m) => {
                        &&& r matches Err(ReadyError::Evaluation(x)) && x@ == m
                        &&& internal2.whiles@ == whiles.insert(key, WhileState { iterations: n as usize })
                        &&& p2 == key
                    },
                    Ok(v) => {
                        &&& completed(r)
                        &&& if json_truthy(v) {
                            &&& internal2.whiles@ == whiles.insert(key, WhileState { iterations: n as usize })
                            &&& p2 == key.push(0)
                        } else {
                            &&& internal2.whiles@ == whiles.remove(key)
                            &&& p2 == advanced(key)
                        }
                    },
                }
            }
        } else {
            match cond {
                Err(m) => {
                    &&& r matches Err(ReadyError::Evaluation(x)) && x@ == m
                    &&& internal2.whiles@ == whiles
                    &&& p2 == key
                },
                Ok(v) => {
                    &&& completed(r)
                    &&& if json_truthy(v) {
                        &&& internal2.whiles@ == whiles.insert(key, WhileState { iterations: 1 })
                        &&& p2 == key.push(0)
                    } else {
                        &&& internal2.whiles@ == whiles
                        &&& p2 == advanced(key)
                    }
                },
            }
        }
    }
}

/// One pass of a `while` step: the counter is raised and checked against the limit, then the
/// condition decides between entering the body and finishing the loop.
pub fn handle_while_step(
    condition: &Expression,
    ip: &mut InstructionPointer,
    step_index: Option<usize>,
    variables: &Variables,
    internal_state: &mut InternalState,
    max_while_iterations: usize,
) -> (r: Result<StepResult, ReadyError>)
    requires
        old(ip).path@.len() > 0 ==> old(ip).path@.last() < usize::MAX,
        max_while_iterations < usize::MAX,
        whiles_ok(old(internal_state).whiles@, max_while_iterations),
    ensures
        whiles_ok(final(internal_state).whiles@, max_while_iterations),
        while_effect(
            *condition,
            step_index,
            variables@,
            *old(internal_state),
            *final(internal_state),
            old(ip).path@,
            final(ip).path@,
            r,
            max_while_iterations,
        ),
{
    let key = ip.snapshot();
    match internal_state.whiles.get(key.as_slice()) {
        Some(while_state) => {
            let iterations = while_state.iterations + 1;
            if iterations > max_while_iterations {
                internal_state.whiles.remove(key.as_slice());
                let mut m = String::from_str("WhileStep exceeded maximum iterations (");
                push_u64_text(&mut m, max_while_iterations as u64);
                m.append(")");
                return execution_failure(step_index, "WhileStep", m);
            }
            internal_state.whiles.insert(key, WhileState { iterations });
            let value = match evaluate_expression(condition, variables) {
                Ok(v) => v,
                Err(e) => {
                    return Err(e);
                }
            };
            if is_truthy(&value) {
                ip.descend();
            } else {
                internal_state.whiles.remove(ip.path.as_slice());
                proof {
                    assert(internal_state.whiles@ =~= old(internal_state).whiles@.remove(old(ip).path@));
                }
                ip.advance();
            }
            return Ok(StepResult::done());
        }
        None => {}
    }
    let value = match evaluate_expression(condition, variables) {
        Ok(v) => v,
        Err(e) => {
            return Err(e);
        }
    };
    if is_truthy(&value) {
        internal_state.whiles.insert(key, WhileState { iterations: 1 });
        ip.descend();
    } else {
        ip.advance();
    }
    Ok(StepResult::done())
}

/// Whether the step at `path` is a loop.
pub open spec fn loop_at(steps: Seq<Step>, path: Seq<usize>, branches: Map<Seq<usize>, usize>) -> bool {
    match step_at_spec(steps, path, 0, branches) {
        Some(s) => is_loop(s),
        None => false,
    }
}

/// The deepest level `d <= top` at which the path passes through a loop step.
pub open spec fn break_depth(steps: Seq<Step>, p: Seq<usize>, branches: Map<Seq<usize>, usize>, top: int) -> Option<int>
    decreases top + 1,
{
    if top < 0 {
        None
    } else if loop_at(steps, p.take(top + 1), branches) {
        Some(top)
    } else {
        break_depth(steps, p, branches, top - 1)
    }
}

/// `branches` without the entries of the prefixes of `p` of lengths `lo` up to `hi - 1`.
pub open spec fn without_prefixes(branches: Map<Seq<usize>, usize>, p: Seq<usize>, lo: int, hi: int) -> Map<Seq<usize>, usize>
    decreases hi - lo,
{
    if lo >= hi {
        branches
    } else {
        without_prefixes(branches.remove(p.take(lo)), p, lo + 1, hi)
    }
}

proof fn lemma_break_depth_range(steps: Seq<Step>, p: Seq<usize>, branches: Map<Seq<usize>, usize>, top: int)
    ensures
        break_depth(steps, p, branches, top) matches Some(d) ==> 0 <= d <= top && loop_at(steps, p.take(d + 1), branches),
    decreases top + 1,
{
    if top >= 0 {
        lemma_break_depth_range(steps, p, branches, top - 1);
    }
}

/// Removing the entries of long prefixes leaves the entries of shorter keys alone.
pub proof fn lemma_without_prefixes_short(branches: Map<Seq<usize>, usize>, p: Seq<usize>, lo: int, hi: int, k: Seq<usize>)
    requires
        k.len() < lo,
        0 <= lo,
        hi <= p.len(),
    ensures
        without_prefixes(branches, p, lo, hi).contains_key(k) == branches.contains_key(k),
        branches.contains_key(k) ==> without_prefixes(branches, p, lo, hi)[k] == branches[k],
    decreases hi - lo,
{
    if lo < hi {
        if lo <= p.len() {
            assert(p.take(lo).len() == lo);
        }
        assert(p.take(lo) != k);
        lemma_without_prefixes_short(branches.remove(p.take(lo)), p, lo + 1, hi, k);
    }
}

/// What a `break` does: the nearest enclosing loop's bookkeeping and the branch choices of
/// the switches between it and the break are dropped, and the pointer moves past the loop;
/// with no enclosing loop it is an error.
pub open spec fn break_effect(
    steps: Seq<Step>,
    internal: InternalState,
    internal2: InternalState,
    p: Seq<usize>,
    p2: Seq<usize>,
    r: Result<StepResult, ReadyError>,
) -> bool {
    let b = internal.branches@;
    match break_depth(steps, p, b, p.len() - 2) {
        Some(d) => {
            &&& completed(r)
            &&& internal2.loops@ == internal.loops@.remove(p.take(d + 1))
            &&& internal2.whiles@ == internal.whiles@.remove(p.take(d + 1))
            &&& internal2.branches@ == without_prefixes(b, p, d + 2, p.len() as int)
            &&& p2 == advanced(p.take(d + 1))
        },
        None => {
            &&& r matches Err(ReadyError::PlanParsing(m)) && m@ == "break statement used outside of a loop"@
            &&& internal2.loops@ == internal.loops@
            &&& internal2.whiles@ == internal.whiles@
            &&& internal2.branches@ == b
            &&& p2 == p
        },
    }
}

/// Leaves the nearest enclosing loop: its bookkeeping and the branch choices of the switches
/// between it and the break are dropped, and the pointer moves past the loop.
pub fn handle_break_step(
    plan_steps: &[Step],
    internal_state: &mut InternalState,
    ip: &mut InstructionPointer,
) -> (r: Result<StepResult, ReadyError>)
    requires
        walk_ok(plan_steps@, old(ip).path@, 0, old(internal_state).branches@),
        forall|i: int| 0 <= i < old(ip).path@.len() - 1 ==> old(ip).path@[i] < usize::MAX,
    ensures
        break_effect(plan_steps@, *old(internal_state), *final(internal_state), old(ip).path@, final(ip).path@, r),
{
    let ghost p = ip.path@;
    let ghost b = internal_state.branches@;
    let n = ip.path.len();
    let mut depth: usize = if n >= 1 { n - 1 } else { 0 };
    // `depth` counts down over the candidate levels; level `depth - 1` is examined next.
    while depth > 0
        invariant
            ip.path@ == p,
            p == old(ip).path@,
            b == old(internal_state).branches@,
            internal_state.branches@ == b,
            *internal_state == *old(internal_state),
            n == p.len(),
            depth <= (if n >= 1 { n - 1 } else { 0 }),
            walk_ok(plan_steps@, p, 0, b),
            forall|i: int| 0 <= i < p.len() - 1 ==> p[i] < usize::MAX,
            break_depth(plan_steps@, p, b, p.len() - 2) == break_depth(plan_steps@, p, b, depth - 1),
        decreases depth,
    {
        let d = depth - 1;
        let ancestor_path = vstd::slice::slice_subrange(ip.path.as_slice(), 0, d + 1);
        proof {
            crate::execution::navigator::lemma_walk_take(plan_steps@, p, 0, b, d + 1);
        }
        let ancestor = crate::execution::navigator::step_at_path(plan_steps, ancestor_path, internal_state);
        let is_loop_step = match ancestor {
            Some(Step::LoopStep { .. }) => true,
            Some(Step::WhileStep { .. }) => true,
            _ => false,
        };
        if is_loop_step {
            let loop_path = crate::execution::navigator::slice_to_path(ancestor_path);
            internal_state.loops.remove(loop_path.as_slice());
            internal_state.whiles.remove(loop_path.as_slice());
            let mut inner: usize = d + 1;
            while inner < n - 1
                invariant
                    d + 1 <= inner <= n - 1,
                    internal_state.loops@ == old(internal_state).loops@.remove(p.take(d + 1)),
                    internal_state.whiles@ == old(internal_state).whiles@.remove(p.take(d + 1)),
                    loop_path@ == p.take(d + 1),
                    ip.path@ == p,
                    n == p.len(),
                    d + 1 < n,
                    internal_state.branches@ == without_prefixes(b, p, d + 2, inner + 1),
                decreases n - inner,
            {
                let prefix = vstd::slice::slice_subrange(ip.path.as_slice(), 0, inner + 1);
                internal_state.branches.remove(prefix);
                proof {
                    lemma_without_prefixes_step(b, p, d + 2, inner + 1);
                }
                inner += 1;
            }
            proof {
                assert(loop_at(plan_steps@, p.take(d + 1), b));
            }
            ip.path = loop_path;
            ip.advance();
            return Ok(StepResult::done());
        }
        depth = d;
    }
    Err(ReadyError::PlanParsing(String::from_str("break statement used outside of a loop")))
}

proof fn lemma_without_prefixes_step(b: Map<Seq<usize>, usize>, p: Seq<usize>, lo: int, hi: int)
    requires
        lo <= hi,
    ensures
        without_prefixes(b, p, lo, hi).remove(p.take(hi)) == without_prefixes(b, p, lo, hi + 1),
    decreases hi - lo,
{
    if lo < hi {
        lemma_without_prefixes_step(b.remove(p.take(lo)), p, lo + 1, hi);
    } else {
        assert(without_prefixes(b, p, lo, hi + 1) == without_prefixes(b.remove(p.take(lo)), p, lo + 1, hi + 1));
    }
}

/// The JSON model of an optional value.
pub open spec fn opt_json(o: Option<JsonValue>) -> Option<Json> {
    match o {
        Some(v) => Some(v@),
        None => None,
    }
}

/// Whether the interpreter state waits for the result of `tool_id`.
pub open spec fn resumes_tool(st: InterpreterState, tool_id: Seq<char>) -> bool {
    match st.pending_tool_id {
        Some(t) => t@ == tool_id,
        None => false,
    }
}

/// The call that resumes a suspended tool: no arguments, the saved state (null when none was
/// saved), and the value supplied by the user.
pub open spec fn is_resume_call(r: Result<ToolCall, ReadyError>, tool_id: Seq<char>, st: InterpreterState) -> bool {
    match r {
        Ok(call) => call.tool_id@ == tool_id && call.args@.len() == 0 && match call.continuation {
            Some(c) => c.state@ == (match st.pending_tool_state {
                Some(x) => x@,
                None => Json::Null,
            }) && opt_json(c.resume_value) == opt_json(st.pending_resume_value),
            None => false,
        },
        Err(_) => false,
    }
}

/// The call of a tool with the given argument values.
pub open spec fn is_fresh_call(r: Result<ToolCall, ReadyError>, tool_id: Seq<char>, args: Seq<Json>) -> bool {
    match r {
        Ok(call) => call.tool_id@ == tool_id && call.continuation is None && JsonValue::Array(call.args)@ == Json::Arr(args),
        Err(_) => false,
    }
}

/// The call a tool step makes, and what making it does to the pending tool: a resumption
/// when the state waits for this tool (the pending tool is then cleared), otherwise a fresh
/// call with the arguments evaluated in order, or the first evaluation error. The variables
/// and the pending input stay as they were.
pub open spec fn call_prepared(
    tool_id: Seq<char>,
    arguments: Seq<Expression>,
    st: InterpreterState,
    st2: InterpreterState,
    r: Result<ToolCall, ReadyError>,
) -> bool {
    &&& st2.variables == st.variables
    &&& st2.pending_input_variable == st.pending_input_variable
    &&& if resumes_tool(st, tool_id) {
        &&& is_resume_call(r, tool_id, st)
        &&& st2.pending_tool_id is None
        &&& st2.pending_tool_state is None
        &&& st2.pending_resume_value is None
    } else {
        &&& st2.pending_tool_id == st.pending_tool_id
        &&& st2.pending_tool_state == st.pending_tool_state
        &&& st2.pending_resume_value == st.pending_resume_value
        &&& match elements_spec(arguments, st.variables@) {
            Ok(vs) => is_fresh_call(r, tool_id, vs),
            Err(m) => r matches Err(ReadyError::Evaluation(x)) && x@ == m,
        }
    }
}

/// The call a tool step makes: a resumption when the state waits for this tool, otherwise a
/// fresh call with the arguments evaluated in order.
pub fn prepare_tool_call(
    tool_id: &str,
    arguments: &Vec<Expression>,
    interpreter_state: &mut InterpreterState,
) -> (r: Result<ToolCall, ReadyError>)
    ensures
        final(interpreter_state).ip_path == old(interpreter_state).ip_path,
        call_prepared(tool_id@, arguments@, *old(interpreter_state), *final(interpreter_state), r),
{
    let resuming = match &interpreter_state.pending_tool_id {
        Some(t) => str_eq(t.as_str(), tool_id),
        None => false,
    };
    if resuming {
        let saved = interpreter_state.pending_tool_state.take();
        let resume_value = interpreter_state.pending_resume_value.take();
        interpreter_state.pending_tool_id = None;
        let state = match saved {
            Some(v) => v,
            None => JsonValue::Null,
        };
        return Ok(ToolCall {
            tool_id: String::from_str(tool_id),
            args: Vec::new(),
            continuation: Some(Continuation { state, resume_value }),
        });
    }
    let mut args: Vec<JsonValue> = Vec::new();
    let mut i: usize = 0;
    assert(JsonValue::Array(args)@->Arr_0 =~= Seq::<Json>::empty());
    while i < arguments.len()
        invariant
            i <= arguments@.len(),
            *interpreter_state == *old(interpreter_state),
            !resumes_tool(*old(interpreter_state), tool_id@),
            elements_spec(arguments@.take(i as int), interpreter_state.variables@) == Ok::<Seq<Json>, Seq<char>>(
                JsonValue::Array(args)@->Arr_0,
            ),
        decreases arguments@.len() - i,
    {
        proof {
            assert(arguments@.take(i + 1).drop_last() =~= arguments@.take(i as int));
            assert(arguments@.take(i + 1).last() == arguments@[i as int]);
        }
        let v = match evaluate_expression(&arguments[i], &interpreter_state.variables) {
            Ok(v) => v,
            Err(e) => {
                proof { lemma_elements_error_persists(arguments@, interpreter_state.variables@, i + 1); }
                return Err(e);
            }
        };
        let ghost before = JsonValue::Array(args)@->Arr_0;
        let ghost vv = v@;
        args.push(v);
        assert(JsonValue::Array(args)@->Arr_0 =~= before.push(vv));
        i += 1;
    }
    assert(arguments@.take(i as int) =~= arguments@);
    Ok(ToolCall { tool_id: String::from_str(tool_id), args, continuation: None })
}

/// What a tool's result does to its step: a value is bound to the output variable and the
/// pointer moves on; a suspension records the tool and its state and suspends with the tool's
/// reason. The pending input and the resume value stay as they were.
pub open spec fn tool_completion(
    tool_id: Seq<char>,
    output_variable: Option<String>,
    result: ToolResult,
    st: InterpreterState,
    st2: InterpreterState,
    p: Seq<usize>,
    p2: Seq<usize>,
    r: StepResult,
) -> bool {
    &&& st2.pending_input_variable == st.pending_input_variable
    &&& st2.pending_resume_value == st.pending_resume_value
    &&& match result {
        ToolResult::Success(v) => {
            &&& !r.suspend && r.suspend_reason is None
            &&& st2.variables@ == match output_variable {
                Some(o) => st.variables@.insert(o@, v@),
                None => st.variables@,
            }
            &&& st2.pending_tool_id == st.pending_tool_id
            &&& st2.pending_tool_state == st.pending_tool_state
            &&& p2 == advanced(p)
        },
        ToolResult::Suspended(sus) => {
            &&& suspends_with(Ok(r), sus.reason@)
            &&& st2.variables == st.variables
            &&& st2.pending_tool_id matches Some(t) && t@ == tool_id
            &&& st2.pending_tool_state == Some(sus.continuation_state)
            &&& p2 == p
        },
    }
}

/// Applies a tool's result: a value is bound to the output variable and the pointer moves
/// on; a suspension records the tool and its state and suspends with the tool's reason.
pub fn complete_tool_step(
    tool_id: &str,
    output_variable: &Option<String>,
    result: ToolResult,
    ip: &mut InstructionPointer,
    interpreter_state: &mut InterpreterState,
) -> (r: StepResult)
    requires
        old(ip).path@.len() > 0 ==> old(ip).path@.last() < usize::MAX,
    ensures
        final(interpreter_state).ip_path == old(interpreter_state).ip_path,
        tool_completion(
            tool_id@,
            *output_variable,
            result,
            *old(interpreter_state),
            *final(interpreter_state),
            old(ip).path@,
            final(ip).path@,
            r,
        ),
{
    match result {
        ToolResult::Success(value) => {
            match output_variable {
                Some(o) => {
                    interpreter_state.variables.insert(o.clone(), value);
                }
                None => {}
            }
            ip.advance();
            StepResult::done()
        }
        ToolResult::Suspended(suspension) => {
            interpreter_state.pending_tool_id = Some(String::from_str(tool_id));
            interpreter_state.pending_tool_state = Some(suspension.continuation_state);
            StepResult { suspend: true, suspend_reason: Some(suspension.reason) }
        }
    }
}

/// The instruction pointer stored in an interpreter state; an empty path is an error.
pub fn instruction_pointer(state: &InterpreterState) -> (r: Result<InstructionPointer, ReadyError>)
    ensures
        match r {
            Ok(ip) => state.ip_path@.len() > 0 && ip.path@ == state.ip_path@,
            Err(ReadyError::Execution { step_index: None, step_type: None, message }) => state.ip_path@.len() == 0
                && message@ == "Instruction pointer path cannot be empty"@,
            _ => false,
        },
{
    match InstructionPointer::from_path(state.ip_path.clone()) {
        Ok(ip) => Ok(ip),
        Err(m) => Err(ReadyError::Execution { step_index: None, step_type: None, message: String::from_str(m) }),
    }
}

/// A run's position and bookkeeping are consistent with the plan: the path never descends
/// into a plain step, its inner indices can be advanced, loop indices are in range, and
/// `while` counters respect the limit.
pub open spec fn run_ok(steps: Seq<Step>, path: Seq<usize>, internal: InternalState, max: usize) -> bool {
    &&& forall|i: int| 0 <= i < path.len() - 1 ==> path[i] < usize::MAX
    &&& walk_ok(steps, path, 0, internal.branches@)
    &&& loops_ok(internal.loops@)
    &&& whiles_ok(internal.whiles@, max)
}

/// What a step other than a tool step does to the variables, the pending input, the
/// bookkeeping and the pointer (`p` before, `p2` after), with outcome `r`; the pending tool
/// stays as it was.
pub open spec fn step_effect(
    steps: Seq<Step>,
    max: usize,
    step: Step,
    index: Option<usize>,
    st: InterpreterState,
    st2: InterpreterState,
    internal: InternalState,
    internal2: InternalState,
    p: Seq<usize>,
    p2: Seq<usize>,
    r: Result<StepResult, ReadyError>,
) -> bool {
    &&& st2.pending_tool_id == st.pending_tool_id
    &&& st2.pending_tool_state == st.pending_tool_state
    &&& st2.pending_resume_value == st.pending_resume_value
    &&& match step {
        Step::AssignStep { target, value } => {
            &&& assign_effect(target@, value, st.variables@, st2.variables@, p, p2, r)
            &&& st2.pending_input_variable == st.pending_input_variable
            &&& internal2.loops@ == internal.loops@
            &&& internal2.whiles@ == internal.whiles@
            &&& internal2.branches@ == internal.branches@
        },
        Step::UserInteractionStep { prompt, output_variable } => {
            &&& interaction_effect(prompt@, output_variable, st, st2, p, p2, r)
            &&& internal2.loops@ == internal.loops@
            &&& internal2.whiles@ == internal.whiles@
            &&& internal2.branches@ == internal.branches@
        },
        Step::SwitchStep { branches } => {
            &&& switch_effect(step, branches@, st.variables@, internal, internal2, p, p2, r)
            &&& st2.variables@ == st.variables@
            &&& st2.pending_input_variable == st.pending_input_variable
        },
        Step::LoopStep { iterable_variable, item_variable, .. } => {
            &&& loop_effect(iterable_variable@, item_variable@, index, st.variables@, st2.variables@, internal, internal2, p, p2, r)
            &&& st2.pending_input_variable == st.pending_input_variable
        },
        Step::WhileStep { condition, .. } => {
            &&& while_effect(condition, index, st.variables@, internal, internal2, p, p2, r, max)
            &&& st2.variables@ == st.variables@
            &&& st2.pending_input_variable == st.pending_input_variable
        },
        Step::BreakStep => {
            &&& break_effect(steps, internal, internal2, p, p2, r)
            &&& st2.variables@ == st.variables@
            &&& st2.pending_input_variable == st.pending_input_variable
        },
        Step::ToolStep { .. } => false,
    }
}

/// A step that did not suspend reports no reason.
pub proof fn lemma_quiet_step_is_done(
    steps: Seq<Step>,
    max: usize,
    step: Step,
    index: Option<usize>,
    st: InterpreterState,
    st2: InterpreterState,
    internal: InternalState,
    internal2: InternalState,
    p: Seq<usize>,
    p2: Seq<usize>,
    r: Result<StepResult, ReadyError>,
)
    requires
        step_effect(steps, max, step, index, st, st2, internal, internal2, p, p2, r),
        r matches Ok(sr) && !sr.suspend,
    ensures
        r == Ok::<StepResult, ReadyError>(StepResult { suspend: false, suspend_reason: None }),
{
}

/// The interpreter of one plan.
pub struct PlanInterpreter {
    pub plan: AbstractPlan,
    pub max_while_iterations: usize,
}

impl PlanInterpreter {
    /// An interpreter for `plan` that allows 1000 iterations of any `while` loop.
    pub fn new(plan: AbstractPlan) -> (r: PlanInterpreter)
        ensures
            r.plan == plan,
            r.max_while_iterations == 1000,
    {
        PlanInterpreter { plan, max_while_iterations: 1000 }
    }

    /// The same interpreter with another iteration limit for `while` loops.
    pub fn with_max_while_iterations(self, max_while_iterations: usize) -> (r: PlanInterpreter)
        requires
            max_while_iterations < usize::MAX,
        ensures
            r.plan == self.plan,
            r.max_while_iterations == max_while_iterations,
    {
        PlanInterpreter { plan: self.plan, max_while_iterations }
    }

    /// Runs one step other than a tool step on a separate pointer; the state keeps its stored
    /// path.
    pub fn dispatch_step(
        &self,
        step: &Step,
        ip: &mut InstructionPointer,
        state: &mut ExecutionState,
        internal_state: &mut InternalState,
    ) -> (r: Result<StepResult, ReadyError>)
        requires
            !(*step is ToolStep),
            self.max_while_iterations < usize::MAX,
            old(ip).path@.len() >= 1,
            old(ip).path@.last() < usize::MAX,
            step_at_spec(self.plan.steps@, old(ip).path@, 0, old(internal_state).branches@) == Some(*step),
            run_ok(self.plan.steps@, old(ip).path@, *old(internal_state), self.max_while_iterations),
        ensures
            run_ok(self.plan.steps@, final(ip).path@, *final(internal_state), self.max_while_iterations),
            r is Err ==> final(ip).path@ == old(ip).path@,
            final(state).status == old(state).status,
            final(state).current_step_index == old(state).current_step_index,
            final(state).error == old(state).error,
            final(state).suspension_reason == old(state).suspension_reason,
            final(state).interpreter_state.ip_path == old(state).interpreter_state.ip_path,
            final(state).interpreter_state.pending_tool_id == old(state).interpreter_state.pending_tool_id,
            final(state).interpreter_state.pending_tool_state == old(state).interpreter_state.pending_tool_state,
            step_effect(
                self.plan.steps@,
                self.max_while_iterations,
                *step,
                old(state).current_step_index,
                old(state).interpreter_state,
                final(state).interpreter_state,
                *old(internal_state),
                *final(internal_state),
                old(ip).path@,
                final(ip).path@,
                r,
            ),
    {
        let ghost steps = self.plan.steps@;
        let ghost p = ip.path@;
        let ghost b = internal_state.branches@;
        let ghost max = self.max_while_iterations;
        match step {
            Step::AssignStep { target, value } => {
                let r = handle_assign_step(target.as_str(), value, ip, &mut state.interpreter_state.variables);
                proof { lemma_walk_update_last(steps, p, 0, b, (p.last() + 1) as usize); }
                r
            }
            Step::SwitchStep { branches } => {
                let r = handle_switch_step(step, branches, ip, &state.interpreter_state.variables, internal_state);
                proof {
                    let b2 = internal_state.branches@;
                    assert forall|j: int| 0 < j < p.len() implies #[trigger] b.contains_key(p.take(j)) == b2.contains_key(p.take(j))
                        && (b.contains_key(p.take(j)) ==> b[p.take(j)] == b2[p.take(j)]) by {
                        assert(p.take(j).len() != p.len());
                    }
                    assert(same_on_inner_prefixes(p, 0, b, b2));
                    lemma_walk_branches(steps, p, 0, b, b2);
                    if ip.path@ == p.push(0) {
                        lemma_walk_descend(steps, p, 0, b2, *step);
                        assert forall|i: int| 0 <= i < ip.path@.len() - 1 implies ip.path@[i] < usize::MAX by {
                            if i < p.len() - 1 {
                                assert(ip.path@[i] == p[i]);
                            }
                        }
                    } else {
                        lemma_walk_update_last(steps, p, 0, b2, (p.last() + 1) as usize);
                    }
                }
                r
            }
            Step::LoopStep { iterable_variable, item_variable, .. } => {
                let r = handle_loop_step(
                    iterable_variable.as_str(),
                    item_variable.as_str(),
                    ip,
                    state.current_step_index,
                    &mut state.interpreter_state.variables,
                    internal_state,
                );
                proof {
                    if ip.path@ == p.push(0) {
                        lemma_walk_descend(steps, p, 0, b, *step);
                    } else if ip.path@ != p {
                        lemma_walk_update_last(steps, p, 0, b, (p.last() + 1) as usize);
                    }
                }
                r
            }
            Step::WhileStep { condition, .. } => {
                let r = handle_while_step(
                    condition,
                    ip,
                    state.current_step_index,
                    &state.interpreter_state.variables,
                    internal_state,
                    self.max_while_iterations,
                );
                proof {
                    if ip.path@ == p.push(0) {
                        lemma_walk_descend(steps, p, 0, b, *step);
                    } else if ip.path@ != p {
                        lemma_walk_update_last(steps, p, 0, b, (p.last() + 1) as usize);
                    }
                }
                r
            }
            Step::UserInteractionStep { prompt, output_variable } => {
                let r = handle_user_interaction_step(prompt.as_str(), output_variable, ip, &mut state.interpreter_state);
                proof { lemma_walk_update_last(steps, p, 0, b, (p.last() + 1) as usize); }
                r
            }
            Step::BreakStep => {
                let r = handle_break_step(self.plan.steps.as_slice(), internal_state, ip);
                proof {
                    lemma_break_depth_range(steps, p, b, p.len() - 2);
                    match break_depth(steps, p, b, p.len() - 2) {
                        Some(d) => {
                            let q = p.take(d + 1);
                            let b2 = internal_state.branches@;
                            lemma_walk_take(steps, p, 0, b, d + 1);
                            lemma_walk_update_last(steps, q, 0, b, (q.last() + 1) as usize);
                            let q2 = ip.path@;
                            assert forall|j: int| 0 < j < q2.len() implies #[trigger] b.contains_key(q2.take(j)) == b2.contains_key(q2.take(j))
                                && (b.contains_key(q2.take(j)) ==> b[q2.take(j)] == b2[q2.take(j)]) by {
                                lemma_without_prefixes_short(b, p, d + 2, p.len() as int, q2.take(j));
                            }
                            lemma_walk_branches(steps, q2, 0, b, b2);
                            assert forall|i: int| 0 <= i < q2.len() - 1 implies q2[i] < usize::MAX by {
                                assert(q2[i] == p[i]);
                            }
                            assert forall|k: Seq<usize>| #[trigger] internal_state.loops@.contains_key(k) implies internal_state.loops@[k].index
                                < internal_state.loops@[k].items@.len() by {
                                assert(old(internal_state).loops@.contains_key(k));
                            }
                            assert forall|k: Seq<usize>| #[trigger] internal_state.whiles@.contains_key(k) implies internal_state.whiles@[k].iterations
                                <= max || internal_state.whiles@[k].iterations == 1 by {
                                assert(old(internal_state).whiles@.contains_key(k));
                            }
                        },
                        None => {},
                    }
                }
                r
            }
            Step::ToolStep { .. } => Ok(StepResult::done()),
        }
    }

    /// Reports the outcome of a step: a completed step stores the new pointer and may
    /// suspend the run; a failed step leaves the stored pointer as it was.
    fn conclude_step<'a, O: ExecutionObserver>(
        &'a self,
        step: &'a Step,
        result: Result<StepResult, ReadyError>,
        ip: InstructionPointer,
        state: &mut ExecutionState,
        observer: &O,
    ) -> (r: Progress<'a>)
        ensures
            !(r is CallTool),
            final(state).current_step_index == old(state).current_step_index,
            final(state).error == old(state).error,
            final(state).interpreter_state.variables == old(state).interpreter_state.variables,
            final(state).interpreter_state.pending_input_variable == old(state).interpreter_state.pending_input_variable,
            final(state).interpreter_state.pending_tool_id == old(state).interpreter_state.pending_tool_id,
            final(state).interpreter_state.pending_tool_state == old(state).interpreter_state.pending_tool_state,
            final(state).interpreter_state.pending_resume_value == old(state).interpreter_state.pending_resume_value,
            match result {
                Ok(sr) => {
                    &&& final(state).interpreter_state.ip_path@ == ip.path@
                    &&& if sr.suspend {
                        &&& r is Suspended
                        &&& final(state).status == ExecutionStatus::Suspended
                        &&& final(state).suspension_reason == sr.suspend_reason
                    } else {
                        &&& r is Continue
                        &&& final(state).status == old(state).status
                        &&& final(state).suspension_reason == old(state).suspension_reason
                    }
                },
                Err(e) => {
                    &&& r == Progress::<'a>::Failed(e)
                    &&& final(state).interpreter_state.ip_path == old(state).interpreter_state.ip_path
                    &&& final(state).status == old(state).status
                    &&& final(state).suspension_reason == old(state).suspension_reason
                },
            },
    {
        let index = match state.current_step_index {
            Some(i) => i,
            None => 0,
        };
        match result {
            Ok(step_result) => {
                observer.on_step_complete(index, step, &step_result);
                state.interpreter_state.ip_path = ip.path;
                if step_result.suspend {
                    state.status = ExecutionStatus::Suspended;
                    state.suspension_reason = step_result.suspend_reason;
                    match &state.suspension_reason {
                        Some(reason) => observer.on_suspension(reason.as_str(), state),
                        None => observer.on_suspension("", state),
                    }
                    Progress::Suspended
                } else {
                    Progress::Continue
                }
            }
            Err(error) => {
                observer.on_error(step, &error, state);
                Progress::Failed(error)
            }
        }
    }

    /// One pass of the run loop: leaves a finished scope, or runs the step at the pointer.
    /// A tool step stops at its call, which the caller performs and hands to
    /// `finish_tool_step`.
    pub fn run_step<'a, O: ExecutionObserver>(
        &'a self,
        state: &mut ExecutionState,
        internal_state: &mut InternalState,
        step_counter: &mut usize,
        observer: &O,
    ) -> (r: Progress<'a>)
        requires
            self.max_while_iterations < usize::MAX,
            *old(step_counter) < usize::MAX,
            run_ok(
                self.plan.steps@,
                old(state).interpreter_state.ip_path@,
                *old(internal_state),
                self.max_while_iterations,
            ),
        ensures
            run_ok(
                self.plan.steps@,
                final(state).interpreter_state.ip_path@,
                *final(internal_state),
                self.max_while_iterations,
            ),
            *final(step_counter) == *old(step_counter) || *final(step_counter) == *old(step_counter) + 1,
            r is Finished ==> *final(state) == *old(state) && *final(internal_state) == *old(internal_state),
            r is Suspended ==> final(state).status == ExecutionStatus::Suspended,
            !(r is Suspended) ==> final(state).status == old(state).status,
            r is Failed ==> final(state).interpreter_state.ip_path == old(state).interpreter_state.ip_path,
            match r {
                Progress::CallTool { step, call } => tool_call_ready(self.plan.steps@, step, call, *final(state), *final(internal_state)),
                _ => true,
            },
            pass_effect(
                self.plan.steps@,
                self.max_while_iterations,
                *old(state),
                *final(state),
                *old(internal_state),
                *final(internal_state),
                *old(step_counter),
                *final(step_counter),
                r,
            ),
    {
        let ghost steps = self.plan.steps@;
        let mut ip = match instruction_pointer(&state.interpreter_state) {
            Ok(ip) => ip,
            Err(e) => {
                return Progress::Failed(e);
            }
        };
        let ghost p = ip.path@;
        let ghost b = internal_state.branches@;
        proof {
            lemma_resolve_step_at(steps, p, 0, b);
        }
        match resolve_step(self.plan.steps.as_slice(), &ip, internal_state) {
            None => Progress::Finished,
            Some((None, _)) => {
                if ip.depth() <= 1 {
                    return Progress::Finished;
                }
                let n = ip.path.len();
                let parent_path = slice_to_path(vstd::slice::slice_subrange(ip.path.as_slice(), 0, n - 1));
                proof {
                    lemma_walk_take(steps, p, 0, b, n - 1);
                }
                let parent_step = step_at_path(self.plan.steps.as_slice(), parent_path.as_slice(), internal_state);
                on_scope_exit(parent_step, internal_state, &mut ip, parent_path.as_slice());
                proof {
                    let q = ip.path@;
                    let b2 = internal_state.branches@;
                    let parent_is_loop = match parent_step {
                        Some(ps) => is_loop(*ps),
                        None => false,
                    };
                    assert(parent_path@ =~= p.take(n - 1));
                    if parent_is_loop {
                        assert(q == parent_path@);
                        assert(b2 == b);
                        assert forall|i: int| 0 <= i < q.len() - 1 implies q[i] < usize::MAX by {
                            assert(q[i] == p[i]);
                        }
                    } else {
                        let t = p.take(n - 1);
                        lemma_walk_update_last(steps, t, 0, b, (t.last() + 1) as usize);
                        assert(q == t.update(t.len() - 1, (t.last() + 1) as usize));
                        assert forall|j: int| 0 < j < q.len() implies #[trigger] b.contains_key(q.take(j)) == b2.contains_key(q.take(j))
                            && (b.contains_key(q.take(j)) ==> b[q.take(j)] == b2[q.take(j)]) by {
                            assert(q.take(j).len() != parent_path@.len());
                        }
                        lemma_walk_branches(steps, q, 0, b, b2);
                        assert forall|i: int| 0 <= i < q.len() - 1 implies q[i] < usize::MAX by {
                            assert(q[i] == p[i]);
                        }
                    }
                }
                state.interpreter_state.ip_path = ip.path;
                Progress::Continue
            }
            Some((Some(step), siblings)) => {
                let count = siblings.len();
                let index = *step_counter;
                state.current_step_index = Some(index);
                *step_counter = index + 1;
                observer.on_step_start(index, step, ip.path.as_slice(), state);
                match step {
                    Step::ToolStep { tool_id, arguments, .. } => {
                        match prepare_tool_call(tool_id.as_str(), arguments, &mut state.interpreter_state) {
                            Ok(call) => Progress::CallTool { step, call },
                            Err(error) => {
                                observer.on_error(step, &error, state);
                                Progress::Failed(error)
                            }
                        }
                    }
                    _ => {
                        let result = self.dispatch_step(step, &mut ip, state, internal_state);
                        self.conclude_step(step, result, ip, state, observer)
                    }
                }
            }
        }
    }

    /// Completes a tool step with the outcome of its call.
    pub fn finish_tool_step<'a, O: ExecutionObserver>(
        &'a self,
        step: &'a Step,
        outcome: Result<ToolResult, ReadyError>,
        state: &mut ExecutionState,
        internal_state: &InternalState,
        observer: &O,
    ) -> (r: Progress<'a>)
        requires
            self.max_while_iterations < usize::MAX,
            *step is ToolStep,
            old(state).interpreter_state.ip_path@.len() >= 1,
            old(state).interpreter_state.ip_path@.last() < usize::MAX,
            step_at_spec(self.plan.steps@, old(state).interpreter_state.ip_path@, 0, internal_state.branches@) == Some(*step),
            run_ok(self.plan.steps@, old(state).interpreter_state.ip_path@, *internal_state, self.max_while_iterations),
        ensures
            run_ok(self.plan.steps@, final(state).interpreter_state.ip_path@, *internal_state, self.max_while_iterations),
            !(r is CallTool),
            !(r is Finished),
            tool_finish_effect(*step, outcome, *old(state), *final(state), r),
            r is Suspended ==> final(state).status == ExecutionStatus::Suspended,
            !(r is Suspended) ==> final(state).status == old(state).status,
            r is Failed ==> final(state).interpreter_state.ip_path == old(state).interpreter_state.ip_path,
    {
        let ghost steps = self.plan.steps@;
        let ghost p = state.interpreter_state.ip_path@;
        let ghost b = internal_state.branches@;
        let mut ip = match instruction_pointer(&state.interpreter_state) {
            Ok(ip) => ip,
            Err(e) => {
                return Progress::Failed(e);
            }
        };
        let (tool_id, output_variable) = match step {
            Step::ToolStep { tool_id, output_variable, .. } => (tool_id, output_variable),
            _ => {
                return Progress::Continue;
            }
        };
        let result = match outcome {
            Ok(tool_result) => {
                let sr = complete_tool_step(tool_id.as_str(), output_variable, tool_result, &mut ip, &mut state.interpreter_state);
                Ok(sr)
            }
            Err(e) => Err(e),
        };
        proof {
            lemma_walk_update_last(steps, p, 0, b, (p.last() + 1) as usize);
        }
        self.conclude_step(step, result, ip, state, observer)
    }
}

impl PlanInterpreter {
    /// Whether a run can start from the state's position: the path never descends into a
    /// plain step, and its inner indices can be advanced.
    pub fn can_start(&self, state: &ExecutionState) -> (r: bool)
        ensures
            r == start_ok(self.plan.steps@, state.interpreter_state.ip_path@),
    {
        let path = &state.interpreter_state.ip_path;
        let n = path.len();
        let mut i: usize = 0;
        while i < n
            invariant
                n == path@.len(),
                *path == state.interpreter_state.ip_path,
                i <= n,
                forall|j: int| 0 <= j < i && j < n - 1 ==> path@[j] < usize::MAX,
            decreases n - i,
        {
            if i + 1 < n && path[i] == usize::MAX {
                assert(!(state.interpreter_state.ip_path@[i as int] < usize::MAX));
                return false;
            }
            i += 1;
        }
        let fresh = InternalState::new();
        let r = path_walkable(self.plan.steps.as_slice(), path.as_slice(), &fresh);
        assert(fresh.branches@ == Map::<Seq<usize>, usize>::empty());
        r
    }

    /// Starts a run: the status becomes running, earlier terminal details are cleared, and the
    /// run gets fresh bookkeeping.
    pub fn begin<O: ExecutionObserver>(&self, state: &mut ExecutionState, observer: &O) -> (r: InternalState)
        ensures
            final(state).status == ExecutionStatus::Running,
            final(state).error is None,
            final(state).suspension_reason is None,
            final(state).interpreter_state == old(state).interpreter_state,
            final(state).current_step_index == old(state).current_step_index,
            r.loops@ == Map::<Seq<usize>, LoopState>::empty(),
            r.whiles@ == Map::<Seq<usize>, WhileState>::empty(),
            r.branches@ == Map::<Seq<usize>, usize>::empty(),
            start_ok(self.plan.steps@, final(state).interpreter_state.ip_path@) ==> run_ok(
                self.plan.steps@,
                final(state).interpreter_state.ip_path@,
                r,
                self.max_while_iterations,
            ),
    {
        state.status = ExecutionStatus::Running;
        state.error = None;
        state.suspension_reason = None;
        observer.on_plan_start(self.plan.name.as_str(), state);
        InternalState::new()
    }

    /// Ends a run: a run that finished while running is completed; a failure that did not
    /// come with a suspension marks the run failed and records the error's text.
    pub fn finish<O: ExecutionObserver>(
        &self,
        state: &mut ExecutionState,
        outcome: Result<(), ReadyError>,
        observer: &O,
    ) -> (r: Result<(), ReadyError>)
        ensures
            r == outcome,
            finish_effect(*old(state), *final(state), outcome),
    {
        match outcome {
            Ok(done) => {
                if state.status == ExecutionStatus::Running {
                    state.status = ExecutionStatus::Completed;
                }
                observer.on_plan_complete(state);
                Ok(done)
            }
            Err(error) => {
                if state.status != ExecutionStatus::Suspended {
                    state.status = ExecutionStatus::Failed;
                    let text = error.to_display_string();
                    let text2 = error.to_display_string();
                    state.error = Some(ExecutionError::from_step(state.current_step_index, None, text, text2));
                }
                observer.on_plan_complete(state);
                Err(error)
            }
        }
    }

    /// Hands input to a suspended run before it continues: to the suspended tool when one
    /// waits, otherwise to the waiting variable, after which the pointer moves past the
    /// interaction step.
    pub fn accept_input(&self, state: &mut ExecutionState, value: JsonValue) -> (r: Result<(), ReadyError>)
        requires
            old(state).interpreter_state.ip_path@.len() > 0 ==> old(state).interpreter_state.ip_path@.last() < usize::MAX,
        ensures
            final(state).status == old(state).status,
            final(state).error == old(state).error,
            final(state).current_step_index == old(state).current_step_index,
            final(state).suspension_reason == old(state).suspension_reason,
            input_accepted(old(state).interpreter_state, final(state).interpreter_state, value, r),
            start_ok(self.plan.steps@, old(state).interpreter_state.ip_path@) ==> start_ok(
                self.plan.steps@,
                final(state).interpreter_state.ip_path@,
            ),
    {
        let ghost p = state.interpreter_state.ip_path@;
        if state.interpreter_state.pending_tool_id.is_some() {
            state.interpreter_state.pending_resume_value = Some(value);
            state.interpreter_state.pending_input_variable = None;
            return Ok(());
        }
        match state.interpreter_state.pending_input_variable.take() {
            Some(output_var) => {
                state.interpreter_state.variables.insert(output_var, value);
            }
            None => {}
        }
        let mut ip = match instruction_pointer(&state.interpreter_state) {
            Ok(ip) => ip,
            Err(e) => {
                return Err(e);
            }
        };
        ip.advance();
        state.interpreter_state.ip_path = ip.path;
        proof {
            if start_ok(self.plan.steps@, p) {
                lemma_walk_update_last(self.plan.steps@, p, 0, Map::empty(), (p.last() + 1) as usize);
                let q = state.interpreter_state.ip_path@;
                assert forall|i: int| 0 <= i < q.len() - 1 implies q[i] < usize::MAX by {
                    assert(q[i] == p[i]);
                }
            }
        }
        Ok(())
    }
}

/// What handing input to a suspended run does: a waiting tool gets it as its resume value;
/// otherwise it is bound to the waiting variable, if any, and the pointer moves past the
/// interaction step (an empty pointer is an error).
pub open spec fn input_accepted(st: InterpreterState, st2: InterpreterState, value: JsonValue, r: Result<(), ReadyError>) -> bool {
    if st.pending_tool_id is Some {
        &&& r is Ok
        &&& st2.pending_resume_value == Some(value)
        &&& st2.pending_input_variable is None
        &&& st2.variables == st.variables
        &&& st2.ip_path == st.ip_path
        &&& st2.pending_tool_id == st.pending_tool_id
        &&& st2.pending_tool_state == st.pending_tool_state
    } else {
        &&& st2.pending_input_variable is None
        &&& st2.variables@ == match st.pending_input_variable {
            Some(v) => st.variables@.insert(v@, value@),
            None => st.variables@,
        }
        &&& st2.pending_tool_id == st.pending_tool_id
        &&& st2.pending_tool_state == st.pending_tool_state
        &&& st2.pending_resume_value == st.pending_resume_value
        &&& if st.ip_path@.len() == 0 {
            &&& r matches Err(ReadyError::Execution { step_index: None, step_type: None, message: m })
                && m@ == "Instruction pointer path cannot be empty"@
            &&& st2.ip_path == st.ip_path
        } else {
            &&& r is Ok
            &&& st2.ip_path@ == advanced(st.ip_path@)
        }
    }
}

/// A run can start at `path`: its inner indices can be advanced and, with no branch chosen
/// yet, it never descends into a plain step.
pub open spec fn start_ok(steps: Seq<Step>, path: Seq<usize>) -> bool {
    &&& forall|i: int| 0 <= i < path.len() - 1 ==> path[i] < usize::MAX
    &&& walk_ok(steps, path, 0, Map::empty())
}

/// The outcome of a step as a pass reports it: a failure, a suspension with the reason the
/// run then carries, or a step done.
pub open spec fn outcome_of(r: Progress, st2: ExecutionState) -> Result<StepResult, ReadyError> {
    match r {
        Progress::Failed(e) => Err(e),
        Progress::Suspended => Ok(StepResult { suspend: true, suspend_reason: st2.suspension_reason }),
        _ => Ok(StepResult { suspend: false, suspend_reason: None }),
    }
}

/// Whether `st2` is `st` with only the stored pointer changed.
pub open spec fn only_path_changed(st: ExecutionState, st2: ExecutionState) -> bool {
    &&& st2.status == st.status
    &&& st2.current_step_index == st.current_step_index
    &&& st2.error == st.error
    &&& st2.suspension_reason == st.suspension_reason
    &&& st2.interpreter_state.variables == st.interpreter_state.variables
    &&& st2.interpreter_state.pending_input_variable == st.interpreter_state.pending_input_variable
    &&& st2.interpreter_state.pending_tool_id == st.interpreter_state.pending_tool_id
    &&& st2.interpreter_state.pending_tool_state == st.interpreter_state.pending_tool_state
    &&& st2.interpreter_state.pending_resume_value == st.interpreter_state.pending_resume_value
}

/// Leaving the finished scope of the container at `parent`, whose step is `parent_step`, with
/// the pointer at `p`: a loop goes back to its own step, a switch forgets its branch choice
/// and is passed, any other container is passed.
pub open spec fn scope_exit_effect(
    parent_step: Option<Step>,
    parent: Seq<usize>,
    p: Seq<usize>,
    p2: Seq<usize>,
    internal: InternalState,
    internal2: InternalState,
) -> bool {
    &&& internal2.loops@ == internal.loops@
    &&& internal2.whiles@ == internal.whiles@
    &&& match parent_step {
        Some(s) => if is_loop(s) {
            &&& p2 == parent
            &&& internal2.branches@ == internal.branches@
        } else if s is SwitchStep {
            &&& p2 == ascended(p)
            &&& internal2.branches@ == internal.branches@.remove(parent)
        } else {
            &&& p2 == ascended(p)
            &&& internal2.branches@ == internal.branches@
        },
        None => {
            &&& p2 == ascended(p)
            &&& internal2.branches@ == internal.branches@
        },
    }
}

/// What a step reported by a pass did to the run: the step's effect with the outcome the
/// pass reports, the new pointer stored, and the run suspended when the step suspended.
pub open spec fn step_pass(
    steps: Seq<Step>,
    max: usize,
    step: Step,
    index: Option<usize>,
    st: ExecutionState,
    st2: ExecutionState,
    internal: InternalState,
    internal2: InternalState,
    r: Progress,
) -> bool {
    &&& (r is Continue || r is Suspended || r is Failed)
    &&& step_effect(
        steps,
        max,
        step,
        index,
        st.interpreter_state,
        st2.interpreter_state,
        internal,
        internal2,
        st.interpreter_state.ip_path@,
        st2.interpreter_state.ip_path@,
        outcome_of(r, st2),
    )
    &&& st2.error == st.error
    &&& if r is Suspended {
        st2.status == ExecutionStatus::Suspended
    } else {
        &&& st2.status == st.status
        &&& st2.suspension_reason == st.suspension_reason
    }
}

/// What one pass of the run loop does to the run `st` with bookkeeping `internal`, `counter`
/// steps having started: past the plan, or past the end of the top-level list, the run is
/// finished and nothing changes; past the end of a nested list, the scope is left; at a step,
/// the step starts under the next number and either runs, or, for a tool step, has its call
/// prepared (or fails while preparing it).
pub open spec fn pass_effect(
    steps: Seq<Step>,
    max: usize,
    st: ExecutionState,
    st2: ExecutionState,
    internal: InternalState,
    internal2: InternalState,
    counter: usize,
    counter2: usize,
    r: Progress,
) -> bool {
    let p = st.interpreter_state.ip_path@;
    let b = internal.branches@;
    let unchanged = st2 == st && internal2 == internal && counter2 == counter;
    if p.len() == 0 {
        &&& r matches Progress::Failed(ReadyError::Execution { step_index: None, step_type: None, message })
            && message@ == "Instruction pointer path cannot be empty"@
        &&& unchanged
    } else {
        match resolve_spec(steps, p, 0, b) {
            None => r is Finished && unchanged,
            Some((None, _)) => if p.len() <= 1 {
                r is Finished && unchanged
            } else {
                let parent = p.take(p.len() - 1);
                &&& r is Continue
                &&& counter2 == counter
                &&& only_path_changed(st, st2)
                &&& scope_exit_effect(
                    step_at_spec(steps, parent, 0, b),
                    parent,
                    p,
                    st2.interpreter_state.ip_path@,
                    internal,
                    internal2,
                )
            },
            Some((Some(step), _)) => {
                &&& counter2 == counter + 1
                &&& st2.current_step_index == Some(counter)
                &&& match step {
                    Step::ToolStep { tool_id, arguments, .. } => {
                        &&& st2.status == st.status
                        &&& st2.error == st.error
                        &&& st2.suspension_reason == st.suspension_reason
                        &&& st2.interpreter_state.ip_path == st.interpreter_state.ip_path
                        &&& internal2 == internal
                        &&& match r {
                            Progress::CallTool { step: called, call } => *called == step && call_prepared(
                                tool_id@,
                                arguments@,
                                st.interpreter_state,
                                st2.interpreter_state,
                                Ok(call),
                            ),
                            Progress::Failed(e) => call_prepared(
                                tool_id@,
                                arguments@,
                                st.interpreter_state,
                                st2.interpreter_state,
                                Err(e),
                            ),
                            _ => false,
                        }
                    },
                    _ => step_pass(steps, max, step, Some(counter), st, st2, internal, internal2, r),
                }
            },
        }
    }
}

/// What ending a run does: the outcome is handed back; a run that finished while running is
/// completed; a failure that did not come with a suspension marks the run failed and records
/// the error's text. Nothing else changes.
pub open spec fn finish_effect(st: ExecutionState, st2: ExecutionState, outcome: Result<(), ReadyError>) -> bool {
    &&& st2.interpreter_state == st.interpreter_state
    &&& st2.current_step_index == st.current_step_index
    &&& st2.suspension_reason == st.suspension_reason
    &&& match outcome {
        Ok(_) => {
            &&& st2.status == (if st.status == ExecutionStatus::Running {
                ExecutionStatus::Completed
            } else {
                st.status
            })
            &&& st2.error == st.error
        },
        Err(e) => if st.status == ExecutionStatus::Suspended {
            &&& st2.status == st.status
            &&& st2.error == st.error
        } else {
            &&& st2.status == ExecutionStatus::Failed
            &&& st2.error matches Some(x) && x.step_index == st.current_step_index && x.step_type is None
                && x.exception_type@ == error_text(e) && x.message@ == error_text(e)
        },
    }
}

/// What completing a tool step with the outcome of its call does to the run: a failed call
/// is reported and changes nothing; a result is applied to the step, the new pointer is
/// stored, and the run is suspended when the tool suspended.
pub open spec fn tool_finish_effect(
    step: Step,
    outcome: Result<ToolResult, ReadyError>,
    st: ExecutionState,
    st2: ExecutionState,
    r: Progress,
) -> bool {
    match step {
        Step::ToolStep { tool_id, output_variable, .. } => match outcome {
            Err(e) => r == Progress::Failed(e) && st2 == st,
            Ok(tool_result) => {
                &&& (r is Continue || r is Suspended)
                &&& st2.current_step_index == st.current_step_index
                &&& st2.error == st.error
                &&& match outcome_of(r, st2) {
                    Ok(sr) => tool_completion(
                        tool_id@,
                        output_variable,
                        tool_result,
                        st.interpreter_state,
                        st2.interpreter_state,
                        st.interpreter_state.ip_path@,
                        st2.interpreter_state.ip_path@,
                        sr,
                    ),
                    Err(_) => false,
                }
                &&& if r is Suspended {
                    st2.status == ExecutionStatus::Suspended
                } else {
                    &&& st2.status == st.status
                    &&& st2.suspension_reason == st.suspension_reason
                }
            },
        },
        _ => true,
    }
}

/// What a pass of the run loop leads to.
pub enum Progress<'a> {
    /// The run reached the end of the plan.
    Finished,
    /// A step ran or a scope was left; the run goes on.
    Continue,
    /// The run suspended and waits for input.
    Suspended,
    /// A tool step waits for the result of this call.
    CallTool { step: &'a Step, call: ToolCall },
    /// A step failed.
    Failed(ReadyError),
}

/// A tool step that is ready for its call: the pointer is at the step and the call names the
/// step's tool.
pub open spec fn tool_call_ready(
    steps: Seq<Step>,
    step: &Step,
    call: ToolCall,
    state: ExecutionState,
    internal: InternalState,
) -> bool {
    &&& *step is ToolStep
    &&& call.tool_id@ == step->ToolStep_tool_id@
    &&& state.interpreter_state.ip_path@.len() >= 1
    &&& state.interpreter_state.ip_path@.last() < usize::MAX
    &&& step_at_spec(steps, state.interpreter_state.ip_path@, 0, internal.branches@) == Some(*step)
}

} // verus!
