//! Saved plans exposed as tools: their descriptions, the state a call starts from, and what a
//! finished run returns.

use vstd::prelude::*;
use vstd::string::*;

use crate::error::ReadyError;
use crate::execution::evaluator::message2;
use crate::execution::interpreter::opt_json;
use crate::execution::state::{ExecutionState, ExecutionStatus};
use crate::json::{copy_json, Json, JsonValue};
use crate::plan::queries::{prefillable_spec, prefillable_view, steps_tool_ids};
use crate::plan::AbstractPlan;
use crate::text::{lemma_sorted_names, sorted_names, str_eq, string_of, strings_view};
use crate::tools::models::{ToolArgumentDescription, ToolDescription, ToolResult, ToolReturnDescription, ToolSuspension};
use crate::tools::registry::ToolIndex;

verus! {

broadcast use vstd::std_specs::vec::group_vec_axioms;

/// The tool description of a saved plan: its name and description, one string argument per
/// prefillable input (named by the variable, described by the prompt), and no declared
/// return value.
pub fn process_description(plan: &AbstractPlan) -> (r: ToolDescription)
    ensures
        r.id@ == plan.name@,
        r.description@ == plan.description@,
        r.arguments@.len() == prefillable_spec(plan.steps@).len(),
        forall|i: int| 0 <= i < r.arguments@.len() ==> {
            &&& (#[trigger] r.arguments@[i]).name@ == prefillable_spec(plan.steps@)[i].0
            &&& r.arguments@[i].description@ == prefillable_spec(plan.steps@)[i].1
            &&& r.arguments@[i].value_type@ == "str"@
            &&& r.arguments@[i].default is None
        },
        r.returns.name is None,
        r.returns.description@.len() == 0,
        r.returns.value_type is None,
        r.returns.fields@.len() == 0,
{
    let inputs = plan.prefillable_inputs();
    let mut arguments: Vec<ToolArgumentDescription> = Vec::new();
    let mut i: usize = 0;
    while i < inputs.len()
        invariant
            i <= inputs@.len(),
            prefillable_view(inputs@) == prefillable_spec(plan.steps@),
            arguments@.len() == i,
            forall|j: int| 0 <= j < i ==> {
                &&& (#[trigger] arguments@[j]).name@ == inputs@[j].variable_name@
                &&& arguments@[j].description@ == inputs@[j].prompt@
                &&& arguments@[j].value_type@ == "str"@
                &&& arguments@[j].default is None
            },
        decreases inputs@.len() - i,
    {
        arguments.push(ToolArgumentDescription {
            name: string_of(inputs[i].variable_name.as_str()),
            description: string_of(inputs[i].prompt.as_str()),
            value_type: String::from_str("str"),
            default: None,
        });
        i += 1;
    }
    proof {
        assert forall|j: int| 0 <= j < arguments@.len() implies (#[trigger] arguments@[j]).name@ == prefillable_spec(plan.steps@)[j].0
            && arguments@[j].description@ == prefillable_spec(plan.steps@)[j].1 by {
            assert(prefillable_view(inputs@)[j] == (inputs@[j].variable_name@, inputs@[j].prompt@));
        }
    }
    ToolDescription {
        id: string_of(plan.name.as_str()),
        description: string_of(plan.description.as_str()),
        arguments,
        returns: ToolReturnDescription {
            name: None,
            description: String::new(),
            value_type: None,
            fields: Vec::new(),
        },
    }
}

/// The variables a process call starts with: each argument of the description bound to the
/// value at its position, for as many values as there are.
pub open spec fn seeded_variables(arguments: Seq<ToolArgumentDescription>, args: Seq<JsonValue>, n: int) -> Map<Seq<char>, Json>
    decreases n,
{
    if n <= 0 {
        Map::empty()
    } else {
        seeded_variables(arguments, args, n - 1).insert(arguments[n - 1].name@, args[n - 1]@)
    }
}

/// Position of the first description with identifier `id`.
pub open spec fn description_index(ds: Seq<ToolDescription>, id: Seq<char>) -> Option<int> {
    crate::text::first_index(Seq::new(ds.len(), |i: int| ds[i].id@), id)
}

fn find_description(descriptions: &[ToolDescription], tool_id: &str) -> (r: Option<usize>)
    ensures
        match r {
            Some(d) => description_index(descriptions@, tool_id@) == Some(d as int) && d < descriptions@.len(),
            None => description_index(descriptions@, tool_id@) is None,
        },
{
    let ghost ids = Seq::new(descriptions@.len(), |i: int| descriptions@[i].id@);
    let mut k: usize = 0;
    while k < descriptions.len()
        invariant
            k <= descriptions@.len(),
            ids == Seq::new(descriptions@.len(), |i: int| descriptions@[i].id@),
            forall|j: int| 0 <= j < k ==> ids[j] != tool_id@,
        decreases descriptions@.len() - k,
    {
        if str_eq(descriptions[k].id.as_str(), tool_id) {
            proof {
                crate::text::lemma_first_index_from_spec(ids, tool_id@, k as int);
            }
            return Some(k);
        }
        k += 1;
    }
    proof {
        crate::text::lemma_first_index_none(ids, tool_id@);
    }
    None
}

/// The state a process call starts from: a fresh run whose variables are the arguments of
/// the called plan's description bound to the given values.
pub fn seed_execution_state(descriptions: &[ToolDescription], tool_id: &str, args: &[JsonValue]) -> (r: Result<ExecutionState, ReadyError>)
    ensures
        match description_index(descriptions@, tool_id@) {
            None => r matches Err(ReadyError::ToolNotFound(t)) && t@ == tool_id@,
            Some(d) => r matches Ok(st) && {
                let arguments = descriptions@[d].arguments@;
                let n = if arguments.len() < args@.len() { arguments.len() } else { args@.len() };
                &&& st.status == ExecutionStatus::Pending
                &&& st.interpreter_state.ip_path@ == seq![0usize]
                &&& st.interpreter_state.variables@ == seeded_variables(arguments, args@, n as int)
                &&& st.interpreter_state.pending_input_variable is None
                &&& st.interpreter_state.pending_tool_id is None
                &&& st.interpreter_state.pending_tool_state is None
                &&& st.interpreter_state.pending_resume_value is None
                &&& st.current_step_index is None
                &&& st.error is None
                &&& st.suspension_reason is None
            },
        },
{
    let d = match find_description(descriptions, tool_id) {
        Some(d) => d,
        None => {
            return Err(ReadyError::ToolNotFound(string_of(tool_id)));
        }
    };
    let description = &descriptions[d];
    let mut state = ExecutionState::new();
    let n = if description.arguments.len() < args.len() { description.arguments.len() } else { args.len() };
    let mut i: usize = 0;
    while i < n
        invariant
            i <= n,
            n <= description.arguments@.len(),
            n <= args@.len(),
            state.status == ExecutionStatus::Pending,
            state.interpreter_state.ip_path@ == seq![0usize],
            state.interpreter_state.variables@ == seeded_variables(description.arguments@, args@, i as int),
            state.interpreter_state.pending_input_variable is None,
            state.interpreter_state.pending_tool_id is None,
            state.interpreter_state.pending_tool_state is None,
            state.interpreter_state.pending_resume_value is None,
            state.current_step_index is None,
            state.error is None,
            state.suspension_reason is None,
        decreases n - i,
    {
        state.interpreter_state.variables.insert(string_of(description.arguments[i].name.as_str()), copy_json(&args[i]));
        i += 1;
    }
    Ok(state)
}

/// `ExecutionStatus` as `{:?}` prints it.
pub open spec fn status_debug(s: ExecutionStatus) -> Seq<char> {
    match s {
        ExecutionStatus::Pending => "Pending"@,
        ExecutionStatus::Running => "Running"@,
        ExecutionStatus::Suspended => "Suspended"@,
        ExecutionStatus::Completed => "Completed"@,
        ExecutionStatus::Failed => "Failed"@,
    }
}

fn status_name(s: ExecutionStatus) -> (r: &'static str)
    ensures
        r@ == status_debug(s),
{
    match s {
        ExecutionStatus::Pending => "Pending",
        ExecutionStatus::Running => "Running",
        ExecutionStatus::Suspended => "Suspended",
        ExecutionStatus::Completed => "Completed",
        ExecutionStatus::Failed => "Failed",
    }
}

/// What a process call returns once its run stopped: null for a completed run, a suspension
/// carrying `continuation_state` (the serialized state) for a suspended one, and a tool error
/// otherwise.
pub fn map_execution_state_to_tool_result(tool_id: &str, state: &ExecutionState, continuation_state: JsonValue) -> (r: Result<ToolResult, ReadyError>)
    ensures
        match state.status {
            ExecutionStatus::Completed => r matches Ok(ToolResult::Success(v)) && v@ == Json::Null,
            ExecutionStatus::Suspended => r matches Ok(ToolResult::Suspended(sus)) && sus.continuation_state
                == continuation_state && sus.reason@ == match state.suspension_reason {
                Some(x) => x@,
                None => "User input required"@,
            },
            ExecutionStatus::Failed => r matches Err(ReadyError::Tool { tool_id: t, message: m }) && t@ == tool_id@ && m@
                == match state.error {
                Some(e) => e.message@,
                None => "Process-backed tool execution failed"@,
            },
            _ => r matches Err(ReadyError::Tool { tool_id: t, message: m }) && t@ == tool_id@ && m@
                == "Unexpected process execution state: "@ + status_debug(state.status),
        },
{
    match state.status {
        ExecutionStatus::Completed => Ok(ToolResult::Success(JsonValue::Null)),
        ExecutionStatus::Suspended => {
            let reason = match &state.suspension_reason {
                Some(x) => string_of(x.as_str()),
                None => String::from_str("User input required"),
            };
            Ok(ToolResult::Suspended(ToolSuspension { reason, continuation_state }))
        }
        ExecutionStatus::Failed => {
            let message = match &state.error {
                Some(e) => string_of(e.message.as_str()),
                None => String::from_str("Process-backed tool execution failed"),
            };
            Err(ReadyError::Tool { tool_id: string_of(tool_id), message })
        }
        _ => Err(ReadyError::Tool {
            tool_id: string_of(tool_id),
            message: message2("Unexpected process execution state: ", status_name(state.status)),
        }),
    }
}

/// The first identifier of `ids` that is neither a plan name nor a registered tool.
pub open spec fn first_unknown(ids: Seq<Seq<char>>, names: Set<Seq<char>>, known: Map<Seq<char>, usize>) -> Option<Seq<char>>
    decreases ids.len(),
{
    if ids.len() == 0 {
        None
    } else if !names.contains(ids[0]) && !known.contains_key(ids[0]) {
        Some(ids[0])
    } else {
        first_unknown(ids.drop_first(), names, known)
    }
}

/// The first plan, in order, that references a tool that is neither another plan nor a
/// registered tool, with that tool (the plan's tools taken in ascending order).
pub open spec fn first_unknown_reference(plans: Seq<AbstractPlan>, names: Set<Seq<char>>, known: Map<Seq<char>, usize>) -> Option<(Seq<char>, Seq<char>)>
    decreases plans.len(),
{
    if plans.len() == 0 {
        None
    } else {
        match first_unknown(sorted_names(steps_tool_ids(plans[0].steps@)), names, known) {
            Some(t) => Some((plans[0].name@, t)),
            None => first_unknown_reference(plans.drop_first(), names, known),
        }
    }
}

/// The names of plans.
pub open spec fn plan_names(plans: Seq<AbstractPlan>) -> Set<Seq<char>> {
    Seq::new(plans.len(), |i: int| plans[i].name@).to_set()
}

/// Checks that every tool the saved plans reference is another saved plan or a registered
/// tool.
pub fn validate_process_plans(plans: &[AbstractPlan], registry: &ToolIndex) -> (r: Result<(), ReadyError>)
    ensures
        match first_unknown_reference(plans@, plan_names(plans@), registry@) {
            None => r is Ok,
            Some((p, t)) => r matches Err(ReadyError::PlanValidation(m)) && m@ == "Unknown tool referenced by process plan '"@
                + p + "': "@ + t,
        },
{
    let ghost names = plan_names(plans@);
    let mut name_list: Vec<String> = Vec::new();
    let mut k: usize = 0;
    while k < plans.len()
        invariant
            k <= plans@.len(),
            name_list@.len() == k,
            forall|j: int| 0 <= j < k ==> (#[trigger] name_list@[j])@ == plans@[j].name@,
        decreases plans@.len() - k,
    {
        name_list.push(string_of(plans[k].name.as_str()));
        k += 1;
    }
    assert(strings_view(name_list@) =~= Seq::new(plans@.len(), |i: int| plans@[i].name@));
    let mut i: usize = 0;
    assert(plans@.skip(0) =~= plans@);
    while i < plans.len()
        invariant
            i <= plans@.len(),
            strings_view(name_list@).to_set() == names,
            names == plan_names(plans@),
            first_unknown_reference(plans@, names, registry@) == first_unknown_reference(plans@.skip(i as int), names, registry@),
        decreases plans@.len() - i,
    {
        let ids = plans[i].collect_tool_ids();
        proof {
            lemma_sorted_names(strings_view(ids@));
            assert(plans@.skip(i as int)[0] == plans@[i as int]);
            assert(plans@.skip(i as int).drop_first() =~= plans@.skip(i + 1));
        }
        let ghost idv = strings_view(ids@);
        let mut j: usize = 0;
        assert(idv.skip(0) =~= idv);
        while j < ids.len()
            invariant
                j <= ids@.len(),
                i < plans@.len(),
                idv == strings_view(ids@),
                idv == sorted_names(steps_tool_ids(plans@[i as int].steps@)),
                plans@.skip(i as int)[0] == plans@[i as int],
                plans@.skip(i as int).drop_first() == plans@.skip(i + 1),
                names == plan_names(plans@),
                first_unknown_reference(plans@, names, registry@) == first_unknown_reference(plans@.skip(i as int), names, registry@),
                strings_view(name_list@).to_set() == names,
                first_unknown(idv, names, registry@) == first_unknown(idv.skip(j as int), names, registry@),
            decreases ids@.len() - j,
        {
            proof {
                assert(idv.skip(j as int)[0] == idv[j as int]);
                assert(idv.skip(j as int).drop_first() =~= idv.skip(j + 1));
            }
            let id = ids[j].as_str();
            if !crate::text::strings_contain(&name_list, id) && !registry.has_tool(id) {
                let mut m = String::from_str("Unknown tool referenced by process plan '");
                m.append(plans[i].name.as_str());
                m.append("': ");
                m.append(id);
                return Err(ReadyError::PlanValidation(m));
            }
            j += 1;
        }
        assert(idv.skip(j as int).len() == 0);
        i += 1;
    }
    assert(plans@.skip(i as int).len() == 0);
    Ok(())
}

} // verus!
