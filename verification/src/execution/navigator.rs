//! Step navigation within the plan tree by instruction-pointer paths.

use vstd::prelude::*;

use crate::execution::evaluator::{eval_spec, evaluate_expression};
use crate::execution::scope::Variables;
use crate::execution::state::{InstructionPointer, InternalState};
use crate::json::{is_truthy, json_truthy, Json};
use crate::plan::{ConditionalBranch, Step};

verus! {

broadcast use vstd::std_specs::vec::group_vec_axioms;

/// Steps that hold child steps: switches, loops and while loops.
pub open spec fn is_container(s: Step) -> bool {
    s is SwitchStep || s is LoopStep || s is WhileStep
}

/// The children of a container at `prefix`: a loop's body, or the selected branch's steps of a
/// switch (none when no branch is recorded for `prefix`).
pub open spec fn child_steps_spec(container: Step, prefix: Seq<usize>, branches: Map<Seq<usize>, usize>) -> Seq<Step> {
    match container {
        Step::SwitchStep { branches: bs } => if branches.contains_key(prefix) && branches[prefix] < bs@.len() {
            bs@[branches[prefix] as int].steps@
        } else {
            Seq::empty()
        },
        Step::LoopStep { body, .. } => body@,
        Step::WhileStep { body, .. } => body@,
        _ => Seq::empty(),
    }
}

/// Every existing step that `path` passes through above its last level is a container, so the
/// walk from level `level` (whose steps are `steps`) never descends into a plain step.
pub open spec fn walk_ok(steps: Seq<Step>, path: Seq<usize>, level: nat, branches: Map<Seq<usize>, usize>) -> bool
    decreases path.len() - level,
{
    if level + 1 >= path.len() {
        true
    } else if path[level as int] >= steps.len() {
        true
    } else {
        let s = steps[path[level as int] as int];
        is_container(s) && walk_ok(child_steps_spec(s, path.take((level + 1) as int), branches), path, level + 1, branches)
    }
}

/// What `resolve_step` finds from level `level` on: nothing past the end of the plan, the end of
/// a nested step list, or the step at the path together with its sibling list.
pub open spec fn resolve_spec(steps: Seq<Step>, path: Seq<usize>, level: nat, branches: Map<Seq<usize>, usize>) -> Option<(Option<Step>, Seq<Step>)>
    decreases path.len() - level,
{
    if level >= path.len() {
        None
    } else if path[level as int] >= steps.len() {
        if level == 0 { None } else { Some((None, steps)) }
    } else if level + 1 == path.len() {
        Some((Some(steps[path[level as int] as int]), steps))
    } else {
        let s = steps[path[level as int] as int];
        resolve_spec(child_steps_spec(s, path.take((level + 1) as int), branches), path, level + 1, branches)
    }
}

/// The step at `path`, walking from level `level`.
pub open spec fn step_at_spec(steps: Seq<Step>, path: Seq<usize>, level: nat, branches: Map<Seq<usize>, usize>) -> Option<Step>
    decreases path.len() - level,
{
    if level >= path.len() {
        None
    } else if path[level as int] >= steps.len() {
        None
    } else if level + 1 == path.len() {
        Some(steps[path[level as int] as int])
    } else {
        let s = steps[path[level as int] as int];
        step_at_spec(child_steps_spec(s, path.take((level + 1) as int), branches), path, level + 1, branches)
    }
}

/// The children of a container step at `path_prefix`.
pub fn get_child_steps<'a>(container: &'a Step, path_prefix: &[usize], state: &InternalState) -> (r: &'a [Step])
    requires
        is_container(*container),
    ensures
        r@ == child_steps_spec(*container, path_prefix@, state.branches@),
{
    match container {
        Step::SwitchStep { branches } => match state.branches.get(path_prefix) {
            Some(bi) => {
                if *bi < branches.len() {
                    branches[*bi].steps.as_slice()
                } else {
                    &[]
                }
            }
            None => &[],
        },
        Step::LoopStep { body, .. } => body.as_slice(),
        Step::WhileStep { body, .. } => body.as_slice(),
        _ => &[],
    }
}

/// Whether an executable resolution is the specified one.
pub open spec fn resolution_matches(r: Option<(Option<&Step>, &[Step])>, s: Option<(Option<Step>, Seq<Step>)>) -> bool {
    match (r, s) {
        (None, None) => true,
        (Some((a, b)), Some((sa, sb))) => b@ == sb && match (a, sa) {
            (None, None) => true,
            (Some(x), Some(y)) => *x == y,
            _ => false,
        },
        _ => false,
    }
}

/// The step at the instruction pointer and its sibling list; `None` when execution is past the
/// plan, and no step when the pointer is past the end of a nested list.
pub fn resolve_step<'a>(plan_steps: &'a [Step], ip: &InstructionPointer, state: &InternalState) -> (r: Option<(Option<&'a Step>, &'a [Step])>)
    requires
        walk_ok(plan_steps@, ip.path@, 0, state.branches@),
    ensures
        resolution_matches(r, resolve_spec(plan_steps@, ip.path@, 0, state.branches@)),
{
    let mut steps = plan_steps;
    let depth = ip.depth();
    let mut level: usize = 0;
    while level < depth
        invariant
            depth == ip.path@.len(),
            level <= depth,
            resolve_spec(plan_steps@, ip.path@, 0, state.branches@) == resolve_spec(steps@, ip.path@, level as nat, state.branches@),
            walk_ok(steps@, ip.path@, level as nat, state.branches@),
        decreases depth - level,
    {
        let idx = ip.path[level];
        if idx >= steps.len() {
            if level == 0 {
                return None;
            }
            return Some((None, steps));
        }
        if level == depth - 1 {
            return Some((Some(&steps[idx]), steps));
        }
        let container = &steps[idx];
        let prefix = vstd::slice::slice_subrange(ip.path.as_slice(), 0, level + 1);
        assert(prefix@ == ip.path@.take(level + 1));
        steps = get_child_steps(container, prefix, state);
        level += 1;
    }
    None
}

/// The step at `path`, or `None` when an index on the way is out of range.
pub fn step_at_path<'a>(plan_steps: &'a [Step], path: &[usize], state: &InternalState) -> (r: Option<&'a Step>)
    requires
        walk_ok(plan_steps@, path@, 0, state.branches@),
    ensures
        match (r, step_at_spec(plan_steps@, path@, 0, state.branches@)) {
            (None, None) => true,
            (Some(x), Some(y)) => *x == y,
            _ => false,
        },
{
    let mut steps = plan_steps;
    let mut depth: usize = 0;
    while depth < path.len()
        invariant
            depth <= path@.len(),
            step_at_spec(plan_steps@, path@, 0, state.branches@) == step_at_spec(steps@, path@, depth as nat, state.branches@),
            walk_ok(steps@, path@, depth as nat, state.branches@),
        decreases path@.len() - depth,
    {
        let idx = path[depth];
        if idx >= steps.len() {
            return None;
        }
        if depth == path.len() - 1 {
            return Some(&steps[idx]);
        }
        let container = &steps[idx];
        let prefix = vstd::slice::slice_subrange(path, 0, depth + 1);
        assert(prefix@ == path@.take(depth + 1));
        steps = get_child_steps(container, prefix, state);
        depth += 1;
    }
    None
}

/// A path after leaving its innermost scope: the last index dropped and the parent advanced.
pub open spec fn ascended(p: Seq<usize>) -> Seq<usize> {
    p.drop_last().update(p.len() - 2, (p[p.len() - 2] + 1) as usize)
}

/// Whether a step is a `for` or `while` loop.
pub open spec fn is_loop(s: Step) -> bool {
    s is LoopStep || s is WhileStep
}

/// Leaves a finished scope whose container is `parent_step` at `parent_path`: a loop goes back
/// to its own step for the next iteration; a switch forgets its selected branch and the pointer
/// moves past it; otherwise the pointer moves past the container.
pub fn on_scope_exit(
    parent_step: Option<&Step>,
    state: &mut InternalState,
    ip: &mut InstructionPointer,
    parent_path: &[usize],
)
    requires
        match parent_step {
            Some(s) => is_loop(*s) ==> old(ip).path@.len() >= parent_path@.len(),
            None => true,
        },
        !(parent_step matches Some(s) && is_loop(*s)) ==> old(ip).path@.len() > 1 && old(ip).path@[old(ip).path@.len() - 2]
            < usize::MAX,
    ensures
        final(state).loops@ == old(state).loops@,
        final(state).whiles@ == old(state).whiles@,
        match parent_step {
            Some(s) => if is_loop(*s) {
                &&& final(ip).path@ == parent_path@
                &&& final(state).branches@ == old(state).branches@
            } else if s is SwitchStep {
                &&& final(ip).path@ == ascended(old(ip).path@)
                &&& final(state).branches@ == old(state).branches@.remove(parent_path@)
            } else {
                &&& final(ip).path@ == ascended(old(ip).path@)
                &&& final(state).branches@ == old(state).branches@
            },
            None => {
                &&& final(ip).path@ == ascended(old(ip).path@)
                &&& final(state).branches@ == old(state).branches@
            },
        },
{
    match parent_step {
        Some(Step::LoopStep { .. }) | Some(Step::WhileStep { .. }) => {
            ip.path = vstd::slice::slice_to_vec(parent_path);
        }
        Some(Step::SwitchStep { .. }) => {
            state.branches.remove(parent_path);
            ip.ascend();
        }
        _ => ip.ascend(),
    }
}

/// The first branch whose condition holds from position `i` on; a branch without a condition
/// always holds, and a condition that fails to evaluate ends the search with no branch.
pub open spec fn select_from(bs: Seq<ConditionalBranch>, vars: Map<Seq<char>, Json>, i: int) -> Option<int>
    decreases bs.len() - i,
{
    if i < 0 || i >= bs.len() {
        None
    } else {
        match bs[i].condition {
            None => Some(i),
            Some(c) => match eval_spec(c, vars) {
                Err(_) => None,
                Ok(v) => if json_truthy(v) { Some(i) } else { select_from(bs, vars, i + 1) },
            },
        }
    }
}

/// The branch a switch step selects; `None` for any other step.
pub open spec fn select_branch_spec(step: Step, vars: Map<Seq<char>, Json>) -> Option<int> {
    match step {
        Step::SwitchStep { branches } => select_from(branches@, vars, 0),
        _ => None,
    }
}

/// The index of the first branch of a switch step whose condition holds in `variables`.
pub fn select_branch(step: &Step, variables: &Variables) -> (r: Option<usize>)
    ensures
        match r {
            Some(i) => select_branch_spec(*step, variables@) == Some(i as int),
            None => select_branch_spec(*step, variables@) is None,
        },
{
    let branches = match step {
        Step::SwitchStep { branches } => branches,
        _ => {
            return None;
        },
    };
    let mut i: usize = 0;
    while i < branches.len()
        invariant
            i <= branches@.len(),
            *step == (Step::SwitchStep { branches: *branches }),
            select_from(branches@, variables@, 0) == select_from(branches@, variables@, i as int),
        decreases branches@.len() - i,
    {
        match &branches[i].condition {
            None => {
                return Some(i);
            }
            Some(condition) => {
                match evaluate_expression(condition, variables) {
                    Ok(value) => {
                        if is_truthy(&value) {
                            return Some(i);
                        }
                    }
                    Err(_) => {
                        return None;
                    }
                }
            }
        }
        i += 1;
    }
    None
}

/// `branches2` agrees with `branches` on every prefix of `p` longer than `level` and shorter
/// than `p`: the only keys a walk along `p` from `level` reads.
pub open spec fn same_on_inner_prefixes(
    p: Seq<usize>,
    level: nat,
    branches: Map<Seq<usize>, usize>,
    branches2: Map<Seq<usize>, usize>,
) -> bool {
    forall|j: int|
        level < j < p.len() ==> (#[trigger] branches.contains_key(p.take(j)) == branches2.contains_key(p.take(j)) && (
        branches.contains_key(p.take(j)) ==> branches[p.take(j)] == branches2[p.take(j)]))
}

/// A walk only reads the branch choices at inner prefixes of the path.
pub proof fn lemma_walk_branches(
    steps: Seq<Step>,
    p: Seq<usize>,
    level: nat,
    branches: Map<Seq<usize>, usize>,
    branches2: Map<Seq<usize>, usize>,
)
    requires
        same_on_inner_prefixes(p, level, branches, branches2),
    ensures
        walk_ok(steps, p, level, branches) == walk_ok(steps, p, level, branches2),
        step_at_spec(steps, p, level, branches) == step_at_spec(steps, p, level, branches2),
        resolve_spec(steps, p, level, branches) == resolve_spec(steps, p, level, branches2),
    decreases p.len() - level,
{
    if level + 1 < p.len() && p[level as int] < steps.len() {
        let s = steps[p[level as int] as int];
        let k = p.take((level + 1) as int);
        assert(branches.contains_key(k) == branches2.contains_key(k));
        assert(child_steps_spec(s, k, branches) == child_steps_spec(s, k, branches2));
        lemma_walk_branches(child_steps_spec(s, k, branches), p, level + 1, branches, branches2);
    }
}

/// Changing the last index of a path keeps it walkable.
pub proof fn lemma_walk_update_last(steps: Seq<Step>, p: Seq<usize>, level: nat, branches: Map<Seq<usize>, usize>, x: usize)
    requires
        p.len() >= 1,
        walk_ok(steps, p, level, branches),
    ensures
        walk_ok(steps, p.update(p.len() - 1, x), level, branches),
    decreases p.len() - level,
{
    let q = p.update(p.len() - 1, x);
    if level + 1 < p.len() {
        assert(q[level as int] == p[level as int]);
        assert(q.take((level + 1) as int) =~= p.take((level + 1) as int));
        if p[level as int] < steps.len() {
            let s = steps[p[level as int] as int];
            lemma_walk_update_last(child_steps_spec(s, p.take((level + 1) as int), branches), p, level + 1, branches, x);
        }
    }
}

/// A prefix of a walkable path is walkable.
pub proof fn lemma_walk_take(steps: Seq<Step>, p: Seq<usize>, level: nat, branches: Map<Seq<usize>, usize>, n: int)
    requires
        level <= n <= p.len(),
        walk_ok(steps, p, level, branches),
    ensures
        walk_ok(steps, p.take(n), level, branches),
    decreases p.len() - level,
{
    let q = p.take(n);
    if level + 1 < n {
        assert(q[level as int] == p[level as int]);
        assert(q.take((level + 1) as int) =~= p.take((level + 1) as int));
        if p[level as int] < steps.len() {
            let s = steps[p[level as int] as int];
            lemma_walk_take(child_steps_spec(s, p.take((level + 1) as int), branches), p, level + 1, branches, n);
            let c = child_steps_spec(s, p.take((level + 1) as int), branches);
            assert(q.take(n) =~= q);
            assert(p.take(n) == q);
        }
    }
}

/// Descending into a container at the end of a walkable path keeps it walkable.
pub proof fn lemma_walk_descend(steps: Seq<Step>, p: Seq<usize>, level: nat, branches: Map<Seq<usize>, usize>, s: Step)
    requires
        level < p.len(),
        walk_ok(steps, p, level, branches),
        step_at_spec(steps, p, level, branches) == Some(s),
        is_container(s),
    ensures
        walk_ok(steps, p.push(0), level, branches),
    decreases p.len() - level,
{
    let q = p.push(0);
    assert(q[level as int] == p[level as int]);
    assert(q.take((level + 1) as int) =~= p.take((level + 1) as int));
    assert(p[level as int] < steps.len());
    let c = steps[p[level as int] as int];
    if level + 1 < p.len() {
        lemma_walk_descend(child_steps_spec(c, p.take((level + 1) as int), branches), p, level + 1, branches, s);
        assert(is_container(c));
    } else {
        assert(c == s);
        assert(walk_ok(child_steps_spec(c, q.take((level + 1) as int), branches), q, level + 1, branches));
    }
}

/// The step a resolution finds is the step at the path.
pub proof fn lemma_resolve_step_at(steps: Seq<Step>, p: Seq<usize>, level: nat, branches: Map<Seq<usize>, usize>)
    ensures
        resolve_spec(steps, p, level, branches) matches Some((Some(s), sib)) ==> step_at_spec(steps, p, level, branches)
            == Some(s) && p.len() > 0 && p[p.len() - 1] < sib.len() && sib[p[p.len() - 1] as int] == s,
    decreases p.len() - level,
{
    if level < p.len() && p[level as int] < steps.len() && level + 1 < p.len() {
        let c = steps[p[level as int] as int];
        lemma_resolve_step_at(child_steps_spec(c, p.take((level + 1) as int), branches), p, level + 1, branches);
    }
}

/// A selected branch is one of the switch's branches.
pub proof fn lemma_select_in_range(bs: Seq<ConditionalBranch>, vars: Map<Seq<char>, Json>, i: int)
    requires
        0 <= i,
    ensures
        select_from(bs, vars, i) matches Some(j) ==> i <= j < bs.len(),
    decreases bs.len() - i,
{
    if i < bs.len() {
        lemma_select_in_range(bs, vars, i + 1);
    }
}

/// A path copied out of a slice.
pub fn slice_to_path(s: &[usize]) -> (r: Vec<usize>)
    ensures
        r@ == s@,
{
    vstd::slice::slice_to_vec(s)
}

/// Whether `path` never descends into a plain step.
pub fn path_walkable(plan_steps: &[Step], path: &[usize], state: &InternalState) -> (r: bool)
    ensures
        r == walk_ok(plan_steps@, path@, 0, state.branches@),
{
    let mut steps = plan_steps;
    let mut level: usize = 0;
    while level < path.len()
        invariant
            level <= path@.len(),
            walk_ok(plan_steps@, path@, 0, state.branches@) == walk_ok(steps@, path@, level as nat, state.branches@),
        decreases path@.len() - level,
    {
        if level + 1 >= path.len() {
            return true;
        }
        let idx = path[level];
        if idx >= steps.len() {
            return true;
        }
        let container = &steps[idx];
        let is_container_step = match container {
            Step::SwitchStep { .. } => true,
            Step::LoopStep { .. } => true,
            Step::WhileStep { .. } => true,
            _ => false,
        };
        if !is_container_step {
            return false;
        }
        let prefix = vstd::slice::slice_subrange(path, 0, level + 1);
        assert(prefix@ == path@.take(level + 1));
        steps = get_child_steps(container, prefix, state);
        level += 1;
    }
    true
}

} // verus!
