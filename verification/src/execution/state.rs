//! Runtime state of an execution: instruction pointer, variables, loop bookkeeping, status.

use vstd::prelude::*;
use vstd::string::*;

use crate::execution::scope::{member_keys, PathMap, Variables};
use crate::json::{json_text, lemma_join_append, write_json, JsonValue};
use crate::plan::Step;
use crate::text::{join_spec, nat_text, push_u64_text};

verus! {

broadcast use vstd::std_specs::vec::group_vec_axioms;

/// High-level status of a plan run.
#[derive(Debug, Clone, Copy, PartialEq, Eq, Structural)]
pub enum ExecutionStatus {
    Pending,
    Running,
    Suspended,
    Completed,
    Failed,
}

/// Progress of a `for`-style loop: the current item index and the items.
#[derive(Debug)]
pub struct LoopState {
    pub index: usize,
    pub items: Vec<JsonValue>,
}

/// Number of iterations a `while` loop has run.
#[derive(Debug, Clone, Copy, PartialEq, Eq)]
pub struct WhileState {
    pub iterations: usize,
}

/// Indices locating the current step in the plan tree, outermost first.
#[derive(Debug, PartialEq, Eq)]
pub struct InstructionPointer {
    pub path: Vec<usize>,
}

impl InstructionPointer {
    /// A pointer at the first top-level step.
    pub fn new() -> (r: InstructionPointer)
        ensures
            r.path@ == seq![0usize],
    {
        let mut path = Vec::new();
        path.push(0);
        InstructionPointer { path }
    }

    /// A pointer at `path`; the path must not be empty.
    pub fn from_path(path: Vec<usize>) -> (r: Result<InstructionPointer, &'static str>)
        ensures
            path@.len() == 0 <==> r is Err,
            r matches Ok(ip) ==> ip.path@ == path@,
            r matches Err(m) ==> m@ == "Instruction pointer path cannot be empty"@,
    {
        if path.len() == 0 {
            return Err("Instruction pointer path cannot be empty");
        }
        Ok(InstructionPointer { path })
    }

    /// Moves to the next step at the current depth.
    pub fn advance(&mut self)
        requires
            old(self).path@.len() > 0 ==> old(self).path@.last() < usize::MAX,
        ensures
            final(self).path@ == if old(self).path@.len() > 0 {
                old(self).path@.update(old(self).path@.len() - 1, (old(self).path@.last() + 1) as usize)
            } else {
                old(self).path@
            },
    {
        let n = self.path.len();
        if n > 0 {
            let last = self.path[n - 1];
            self.path.set(n - 1, last + 1);
        }
    }

    /// Moves to the first child of the current step.
    pub fn descend(&mut self)
        ensures
            final(self).path@ == old(self).path@.push(0),
    {
        self.path.push(0);
    }

    /// Leaves the current scope and moves past the step that opened it. The root level
    /// cannot be left.
    pub fn ascend(&mut self)
        requires
            old(self).path@.len() > 1,
            old(self).path@[old(self).path@.len() - 2] < usize::MAX,
        ensures
            final(self).path@ == old(self).path@.drop_last().update(
                old(self).path@.len() - 2,
                (old(self).path@[old(self).path@.len() - 2] + 1) as usize,
            ),
    {
        self.path.pop();
        let n = self.path.len();
        let last = self.path[n - 1];
        self.path.set(n - 1, last + 1);
    }

    /// The number of levels of the path.
    pub fn depth(&self) -> (r: usize)
        ensures
            r == self.path@.len(),
    {
        self.path.len()
    }

    /// A copy of the current path.
    pub fn snapshot(&self) -> (r: Vec<usize>)
        ensures
            r@ == self.path@,
    {
        self.path.clone()
    }
}

/// Loop, while and switch bookkeeping keyed by the path of the step it belongs to.
#[derive(Debug)]
pub struct InternalState {
    pub loops: PathMap<LoopState>,
    pub whiles: PathMap<WhileState>,
    pub branches: PathMap<usize>,
}

impl InternalState {
    /// Empty bookkeeping.
    pub fn new() -> (r: InternalState)
        ensures
            r.loops@ == Map::<Seq<usize>, LoopState>::empty(),
            r.whiles@ == Map::<Seq<usize>, WhileState>::empty(),
            r.branches@ == Map::<Seq<usize>, usize>::empty(),
    {
        InternalState { loops: PathMap::new(), whiles: PathMap::new(), branches: PathMap::new() }
    }
}

/// Interpreter runtime state: position, variables, and what a suspension waits for.
#[derive(Debug)]
pub struct InterpreterState {
    pub ip_path: Vec<usize>,
    pub variables: Variables,
    pub pending_input_variable: Option<String>,
    pub pending_tool_id: Option<String>,
    pub pending_tool_state: Option<JsonValue>,
    pub pending_resume_value: Option<JsonValue>,
}

impl InterpreterState {
    /// The state at the first step with no variables and nothing pending.
    pub fn new() -> (r: InterpreterState)
        ensures
            r.ip_path@ == seq![0usize],
            r.variables@ == Map::<Seq<char>, crate::json::Json>::empty(),
            r.pending_input_variable is None,
            r.pending_tool_id is None,
            r.pending_tool_state is None,
            r.pending_resume_value is None,
    {
        let mut ip_path = Vec::new();
        ip_path.push(0);
        InterpreterState {
            ip_path,
            variables: Variables::new(),
            pending_input_variable: None,
            pending_tool_id: None,
            pending_tool_state: None,
            pending_resume_value: None,
        }
    }
}

/// The name of a step's kind.
pub open spec fn step_type_text(step: Step) -> Seq<char> {
    match step {
        Step::AssignStep { .. } => "AssignStep"@,
        Step::ToolStep { .. } => "ToolStep"@,
        Step::SwitchStep { .. } => "SwitchStep"@,
        Step::LoopStep { .. } => "LoopStep"@,
        Step::WhileStep { .. } => "WhileStep"@,
        Step::UserInteractionStep { .. } => "UserInteractionStep"@,
        Step::BreakStep => "BreakStep"@,
    }
}

/// The name of a step's kind.
pub fn step_type_name(step: &Step) -> (r: &'static str)
    ensures
        r@ == step_type_text(*step),
{
    match step {
        Step::AssignStep { .. } => "AssignStep",
        Step::ToolStep { .. } => "ToolStep",
        Step::SwitchStep { .. } => "SwitchStep",
        Step::LoopStep { .. } => "LoopStep",
        Step::WhileStep { .. } => "WhileStep",
        Step::UserInteractionStep { .. } => "UserInteractionStep",
        Step::BreakStep => "BreakStep",
    }
}

/// An execution failure with the step it happened at.
#[derive(Debug, PartialEq)]
pub struct ExecutionError {
    pub step_index: Option<usize>,
    pub step_type: Option<String>,
    pub exception_type: String,
    pub message: String,
}

/// The first `max` characters of `s`, followed by `...` when `s` is longer.
pub open spec fn truncate_spec(s: Seq<char>, max: nat) -> Seq<char> {
    if s.len() > max {
        s.take(max as int) + "..."@
    } else {
        s
    }
}

/// The text describing an execution error to a language model.
pub open spec fn error_context_text(e: ExecutionError, max: nat) -> Seq<char> {
    "Error at step "@ + nat_text(match e.step_index {
        Some(i) => i as nat,
        None => 0,
    }) + ": "@ + e.exception_type@ + ": "@ + truncate_spec(e.message@, max)
}

impl ExecutionError {
    /// An error annotated with the step index and the kind of the step.
    pub fn from_step(step_index: Option<usize>, step: Option<&Step>, exception_type: String, message: String) -> (r: ExecutionError)
        ensures
            r.step_index == step_index,
            match step {
                Some(s) => r.step_type matches Some(t) && t@ == step_type_text(*s),
                None => r.step_type is None,
            },
            r.exception_type@ == exception_type@,
            r.message@ == message@,
    {
        let step_type = match step {
            Some(s) => Some(String::from_str(step_type_name(s))),
            None => None,
        };
        ExecutionError { step_index, step_type, exception_type, message }
    }

    /// A summary for a language model: the step index (0 when unknown), the exception type,
    /// and the message cut to `max_message_chars` characters.
    pub fn to_llm_context(&self, max_message_chars: usize) -> (r: String)
        ensures
            r@ == error_context_text(*self, max_message_chars as nat),
    {
        let mut s = String::new();
        s.append("Error at step ");
        let idx = match self.step_index {
            Some(i) => i,
            None => 0,
        };
        push_u64_text(&mut s, idx as u64);
        s.append(": ");
        s.append(self.exception_type.as_str());
        s.append(": ");
        let n = self.message.unicode_len();
        if n > max_message_chars {
            let head = self.message.as_str().substring_char(0, max_message_chars);
            s.append(head);
            s.append("...");
        } else {
            s.append(self.message.as_str());
        }
        assert(s@ =~= error_context_text(*self, max_message_chars as nat));
        s
    }
}

/// Completion record of a step: whether execution suspends and why.
#[derive(Debug, PartialEq, Eq)]
pub struct StepResult {
    pub suspend: bool,
    pub suspend_reason: Option<String>,
}

impl StepResult {
    /// A step that completed without suspending.
    pub fn done() -> (r: StepResult)
        ensures
            !r.suspend,
            r.suspend_reason is None,
    {
        StepResult { suspend: false, suspend_reason: None }
    }
}

/// Status, interpreter state, and terminal details of a run.
#[derive(Debug)]
pub struct ExecutionState {
    pub status: ExecutionStatus,
    pub interpreter_state: InterpreterState,
    pub current_step_index: Option<usize>,
    pub error: Option<ExecutionError>,
    pub suspension_reason: Option<String>,
}

/// A path as `{:?}` prints a vector of indices.
pub open spec fn path_text(p: Seq<usize>) -> Seq<char> {
    "["@ + join_spec(Seq::new(p.len(), |i: int| nat_text(p[i] as nat)), ", "@) + "]"@
}

/// Lines `"\n  name = json"` of the first `n` variables.
pub open spec fn variable_lines(es: Seq<crate::json::JsonMember>, n: nat) -> Seq<char>
    decreases n,
{
    if n == 0 || es.len() == 0 {
        Seq::empty()
    } else if n > es.len() {
        variable_lines(es, es.len())
    } else {
        variable_lines(es, (n - 1) as nat) + "\n  "@ + es[n - 1].key@ + " = "@ + json_text(es[n - 1].value@)
    }
}

/// The text describing an execution state to a language model.
pub open spec fn state_context_text(st: ExecutionState, max: nat) -> Seq<char> {
    let es = st.interpreter_state.variables.entries@;
    let shown = if es.len() < max { es.len() } else { max };
    "Position (ip_path): "@ + path_text(st.interpreter_state.ip_path@) + "\nVariables ("@ + nat_text(shown)
        + " shown):"@ + variable_lines(es, shown)
}

/// Appends a path as `{:?}` prints it.
pub fn push_path_text(s: &mut String, p: &Vec<usize>)
    ensures
        final(s)@ == old(s)@ + path_text(p@),
{
    let ghost start = s@;
    let ghost parts = Seq::new(p@.len(), |i: int| nat_text(p@[i] as nat));
    s.append("[");
    let mut i: usize = 0;
    while i < p.len()
        invariant
            i <= p@.len(),
            parts == Seq::new(p@.len(), |i: int| nat_text(p@[i] as nat)),
            s@ == start + "["@ + join_spec(parts.take(i as int), ", "@),
        decreases p@.len() - i,
    {
        if i > 0 {
            s.append(", ");
        }
        push_u64_text(s, p[i] as u64);
        proof {
            assert(parts.take(i + 1) =~= parts.take(i as int).push(parts[i as int]));
            lemma_join_append(parts.take(i as int), ", "@, parts[i as int]);
            assert(s@ =~= start + "["@ + join_spec(parts.take(i + 1), ", "@));
        }
        i += 1;
    }
    s.append("]");
    assert(parts.take(i as int) =~= parts);
    assert(s@ =~= start + path_text(p@));
}

impl ExecutionState {
    /// A pending run at the first step with no variables.
    pub fn new() -> (r: ExecutionState)
        ensures
            r.status == ExecutionStatus::Pending,
            r.interpreter_state.ip_path@ == seq![0usize],
            r.interpreter_state.variables@ == Map::<Seq<char>, crate::json::Json>::empty(),
            r.interpreter_state.pending_input_variable is None,
            r.interpreter_state.pending_tool_id is None,
            r.interpreter_state.pending_tool_state is None,
            r.interpreter_state.pending_resume_value is None,
            r.current_step_index is None,
            r.error is None,
            r.suspension_reason is None,
    {
        ExecutionState {
            status: ExecutionStatus::Pending,
            interpreter_state: InterpreterState::new(),
            current_step_index: None,
            error: None,
            suspension_reason: None,
        }
    }

    /// A summary for a language model: the instruction path and at most `max_variables`
    /// variables with their JSON values.
    pub fn to_llm_context(&self, max_variables: usize) -> (r: String)
        ensures
            r@ == state_context_text(*self, max_variables as nat),
    {
        let es = &self.interpreter_state.variables.entries;
        let shown = if es.len() < max_variables { es.len() } else { max_variables };
        let mut s = String::new();
        s.append("Position (ip_path): ");
        push_path_text(&mut s, &self.interpreter_state.ip_path);
        s.append("\nVariables (");
        push_u64_text(&mut s, shown as u64);
        s.append(" shown):");
        let ghost head = s@;
        let mut i: usize = 0;
        while i < shown
            invariant
                i <= shown <= es@.len(),
                s@ == head + variable_lines(es@, i as nat),
            decreases shown - i,
        {
            s.append("\n  ");
            s.append(es[i].key.as_str());
            s.append(" = ");
            write_json(&mut s, &es[i].value);
            i += 1;
            assert(s@ =~= head + variable_lines(es@, i as nat));
        }
        assert(s@ =~= state_context_text(*self, max_variables as nat));
        s
    }
}

impl Default for InstructionPointer {
    fn default() -> (r: InstructionPointer)
        ensures
            r.path@ == seq![0usize],
    {
        InstructionPointer::new()
    }
}

impl Default for InterpreterState {
    fn default() -> (r: InterpreterState)
        ensures
            r.ip_path@ == seq![0usize],
            r.variables@ == Map::<Seq<char>, crate::json::Json>::empty(),
            r.pending_input_variable is None,
            r.pending_tool_id is None,
            r.pending_tool_state is None,
            r.pending_resume_value is None,
    {
        InterpreterState::new()
    }
}

impl Default for ExecutionState {
    fn default() -> (r: ExecutionState)
        ensures
            r.status == ExecutionStatus::Pending,
            r.interpreter_state.ip_path@ == seq![0usize],
            r.interpreter_state.variables@ == Map::<Seq<char>, crate::json::Json>::empty(),
            r.interpreter_state.pending_input_variable is None,
            r.interpreter_state.pending_tool_id is None,
            r.interpreter_state.pending_tool_state is None,
            r.interpreter_state.pending_resume_value is None,
            r.current_step_index is None,
            r.error is None,
            r.suspension_reason is None,
    {
        ExecutionState::new()
    }
}

impl Default for InternalState {
    fn default() -> (r: InternalState)
        ensures
            r.loops@ == Map::<Seq<usize>, LoopState>::empty(),
            r.whiles@ == Map::<Seq<usize>, WhileState>::empty(),
            r.branches@ == Map::<Seq<usize>, usize>::empty(),
    {
        InternalState::new()
    }
}

} // verus!
