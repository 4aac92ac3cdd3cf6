//! Queries over a plan: prefillable inputs and referenced tools.

use vstd::prelude::*;

use crate::plan::step::{ConditionalBranch, Step};
use crate::plan::types::{AbstractPlan, PrefillableInput};
use crate::text::{insert_sorted_unique, strictly_sorted, strings_view};

verus! {

broadcast use vstd::std_specs::vec::group_vec_axioms;

/// The `(variable, prompt)` pairs of the top-level user interaction steps that have a
/// non-empty prompt and an output variable, in order.
pub open spec fn prefillable_spec(steps: Seq<Step>) -> Seq<(Seq<char>, Seq<char>)>
    decreases steps.len(),
{
    if steps.len() == 0 {
        Seq::empty()
    } else {
        let rest = prefillable_spec(steps.drop_last());
        match steps.last() {
            Step::UserInteractionStep { prompt, output_variable: Some(v) } => if prompt@.len() > 0 {
                rest.push((v@, prompt@))
            } else {
                rest
            },
            _ => rest,
        }
    }
}

/// The `(variable, prompt)` view of prefillable inputs.
pub open spec fn prefillable_view(v: Seq<PrefillableInput>) -> Seq<(Seq<char>, Seq<char>)> {
    Seq::new(v.len(), |i: int| (v[i].variable_name@, v[i].prompt@))
}

/// Tool identifiers referenced by a step, including its nested steps.
pub open spec fn step_tool_ids(s: Step) -> Set<Seq<char>>
    decreases s,
{
    match s {
        Step::ToolStep { tool_id, .. } => set![tool_id@],
        Step::SwitchStep { branches } => branches_tool_ids(branches@),
        Step::LoopStep { body, .. } => steps_tool_ids(body@),
        Step::WhileStep { body, .. } => steps_tool_ids(body@),
        _ => Set::empty(),
    }
}

/// Tool identifiers referenced by a sequence of steps.
pub open spec fn steps_tool_ids(ss: Seq<Step>) -> Set<Seq<char>>
    decreases ss,
{
    if ss.len() == 0 {
        Set::empty()
    } else {
        steps_tool_ids(ss.drop_last()).union(step_tool_ids(ss.last()))
    }
}

/// Tool identifiers referenced by the steps of switch branches.
pub open spec fn branches_tool_ids(bs: Seq<ConditionalBranch>) -> Set<Seq<char>>
    decreases bs,
{
    if bs.len() == 0 {
        Set::empty()
    } else {
        branches_tool_ids(bs.drop_last()).union(steps_tool_ids(bs.last().steps@))
    }
}

fn collect_from_steps(steps: &Vec<Step>, ids: &mut Vec<String>)
    requires
        strictly_sorted(strings_view(old(ids)@)),
    ensures
        strictly_sorted(strings_view(final(ids)@)),
        strings_view(final(ids)@).to_set() == strings_view(old(ids)@).to_set().union(steps_tool_ids(steps@)),
    decreases steps@,
{
    let mut i: usize = 0;
    while i < steps.len()
        invariant
            i <= steps@.len(),
            strictly_sorted(strings_view(ids@)),
            strings_view(ids@).to_set() == strings_view(old(ids)@).to_set().union(steps_tool_ids(steps@.take(i as int))),
        decreases steps@.len() - i,
    {
        proof {
            assert(steps@.take(i + 1).drop_last() =~= steps@.take(i as int));
        }
        let ghost before = strings_view(ids@).to_set();
        collect_from_step(&steps[i], ids);
        proof {
            assert(steps@.take(i + 1).last() == steps@[i as int]);
            assert(strings_view(ids@).to_set() =~= strings_view(old(ids)@).to_set().union(steps_tool_ids(steps@.take(i + 1))));
        }
        i += 1;
    }
    assert(steps@.take(i as int) =~= steps@);
}

fn collect_from_step(step: &Step, ids: &mut Vec<String>)
    requires
        strictly_sorted(strings_view(old(ids)@)),
    ensures
        strictly_sorted(strings_view(final(ids)@)),
        strings_view(final(ids)@).to_set() == strings_view(old(ids)@).to_set().union(step_tool_ids(*step)),
    decreases step,
{
    match step {
        Step::ToolStep { tool_id, .. } => {
            insert_sorted_unique(ids, tool_id.clone());
            assert(strings_view(ids@).to_set() =~= strings_view(old(ids)@).to_set().union(step_tool_ids(*step)));
        }
        Step::SwitchStep { branches } => {
            let mut i: usize = 0;
            while i < branches.len()
                invariant
                    i <= branches@.len(),
                    *step == (Step::SwitchStep { branches: *branches }),
                    strictly_sorted(strings_view(ids@)),
                    strings_view(ids@).to_set() == strings_view(old(ids)@).to_set().union(branches_tool_ids(branches@.take(i as int))),
                decreases branches@.len() - i,
            {
                proof {
                    assert(branches@.take(i + 1).drop_last() =~= branches@.take(i as int));
                    assert(*branches == (*step)->branches);
                    assert(decreases_to!(*step => (*step)->branches));
                    assert(decreases_to!(*branches => branches@));
                    assert(decreases_to!(branches@ => branches@[i as int]));
                    assert(decreases_to!(branches@[i as int] => branches@[i as int].steps));
                    assert(decreases_to!(branches@[i as int].steps => branches@[i as int].steps@));
                }
                collect_from_steps(&branches[i].steps, ids);
                proof {
                    assert(branches@.take(i + 1).last() == branches@[i as int]);
                    assert(strings_view(ids@).to_set() =~= strings_view(old(ids)@).to_set().union(branches_tool_ids(branches@.take(i + 1))));
                }
                i += 1;
            }
            assert(branches@.take(i as int) =~= branches@);
        }
        Step::LoopStep { body, .. } => {
            collect_from_steps(body, ids);
        }
        Step::WhileStep { body, .. } => {
            collect_from_steps(body, ids);
        }
        _ => {
            assert(strings_view(ids@).to_set() =~= strings_view(old(ids)@).to_set().union(step_tool_ids(*step)));
        }
    }
}

impl AbstractPlan {
    /// Top-level user interaction steps that can be satisfied ahead of runtime: those with a
    /// non-empty prompt and an output variable, in plan order. Nested steps are not included.
    pub fn prefillable_inputs(&self) -> (r: Vec<PrefillableInput>)
        ensures
            prefillable_view(r@) == prefillable_spec(self.steps@),
    {
        let mut out: Vec<PrefillableInput> = Vec::new();
        let mut i: usize = 0;
        while i < self.steps.len()
            invariant
                i <= self.steps@.len(),
                prefillable_view(out@) == prefillable_spec(self.steps@.take(i as int)),
            decreases self.steps@.len() - i,
        {
            let ghost before = out@;
            proof {
                assert(self.steps@.take(i + 1).drop_last() =~= self.steps@.take(i as int));
                assert(self.steps@.take(i + 1).last() == self.steps@[i as int]);
            }
            match &self.steps[i] {
                Step::UserInteractionStep { prompt, output_variable: Some(variable_name) } => {
                    if prompt.unicode_len() > 0 {
                        out.push(PrefillableInput { variable_name: variable_name.clone(), prompt: prompt.clone() });
                        assert(prefillable_view(out@) =~= prefillable_view(before).push((variable_name@, prompt@)));
                    }
                }
                _ => {}
            }
            i += 1;
        }
        assert(self.steps@.take(i as int) =~= self.steps@);
        out
    }

    /// All tool identifiers the plan references, including in nested steps, without
    /// duplicates and in ascending order.
    pub fn collect_tool_ids(&self) -> (r: Vec<String>)
        ensures
            strictly_sorted(strings_view(r@)),
            strings_view(r@).to_set() == steps_tool_ids(self.steps@),
    {
        let mut ids: Vec<String> = Vec::new();
        assert(strings_view(ids@).to_set() =~= Set::empty());
        collect_from_steps(&self.steps, &mut ids);
        assert(strings_view(ids@).to_set() =~= steps_tool_ids(self.steps@));
        ids
    }
}

} // verus!
