//! Properties of the library that relate several operations or hold for all inputs.

use vstd::prelude::*;

use crate::error::ReadyError;
use crate::error::error_text;
use crate::execution::interpreter::{
    advanced, call_prepared, finish_effect, input_accepted, interaction_effect, opt_json, pass_effect, suspends_with,
    tool_completion, tool_finish_effect, Progress,
};
use crate::execution::state::{ExecutionState, ExecutionStatus, InterpreterState, InternalState, StepResult};
use crate::plan::expression::comparison_operator_text;
use crate::plan::{ComparisonOperator, Step};
use crate::json::JsonValue;
use crate::plan::Expression;
use crate::tools::models::{ToolCall, ToolResult, ToolSuspension};
use crate::execution::navigator::ascended;
use crate::json::{json_eq, JNum, Json, num_eq};
use crate::llm::client::strip_fences_spec;
use crate::text::{digit_char, int_text, lemma_trim_idempotent, nat_text, trim_spec};
use crate::tools::registry::bind_all;
use crate::tools::shell::{digit_run, digits_value, int_parse_spec, is_digit, render_spec};

verus! {

/// Every JSON value equals itself.
pub proof fn law_json_eq_reflexive(v: Json)
    ensures
        json_eq(v, v),
    decreases v,
{
    match v {
        Json::Arr(xs) => {
            assert forall|i: int| 0 <= i < xs.len() implies json_eq(#[trigger] xs[i], xs[i]) by {
                law_json_eq_reflexive(xs[i]);
            }
        },
        Json::Obj(ks, vs) => {
            assert forall|i: int| 0 <= i < vs.len() implies json_eq(#[trigger] vs[i], vs[i]) by {
                law_json_eq_reflexive(vs[i]);
            }
        },
        _ => {},
    }
}

/// JSON equality is symmetric.
pub proof fn law_json_eq_symmetric(a: Json, b: Json)
    requires
        json_eq(a, b),
    ensures
        json_eq(b, a),
    decreases a,
{
    match (a, b) {
        (Json::Arr(xs), Json::Arr(ys)) => {
            assert forall|i: int| 0 <= i < ys.len() implies json_eq(#[trigger] ys[i], xs[i]) by {
                law_json_eq_symmetric(xs[i], ys[i]);
            }
        },
        (Json::Obj(ka, va), Json::Obj(kb, vb)) => {
            assert forall|i: int| 0 <= i < vb.len() implies json_eq(#[trigger] vb[i], va[i]) by {
                law_json_eq_symmetric(va[i], vb[i]);
            }
        },
        _ => {},
    }
}

/// A variable scope gives back what was last written under a name, and writing one name
/// leaves every other name as it was.
pub proof fn law_scope_read_after_write(scope: Map<Seq<char>, Json>, name: Seq<char>, value: Json, other: Seq<char>)
    requires
        other != name,
    ensures
        scope.insert(name, value).contains_key(name),
        scope.insert(name, value)[name] == value,
        scope.insert(name, value).contains_key(other) == scope.contains_key(other),
        scope.contains_key(other) ==> scope.insert(name, value)[other] == scope[other],
{
}

/// Entering a container and leaving it again moves the pointer to the step after the
/// container, as advancing past it would.
pub proof fn law_descend_then_ascend(path: Seq<usize>)
    requires
        path.len() >= 1,
        path.last() < usize::MAX,
    ensures
        ascended(path.push(0)) == advanced(path),
{
    assert(ascended(path.push(0)) =~= advanced(path));
}

/// A reply with its fences stripped has no surrounding white space.
pub proof fn law_stripped_reply_is_trimmed(raw: Seq<char>)
    ensures
        trim_spec(strip_fences_spec(raw)) == strip_fences_spec(raw),
{
    lemma_trim_idempotent(raw);
    let t = trim_spec(raw);
    if crate::text::starts_with(t, "```"@) {
        let ls = crate::llm::client::text_lines(t);
        let end = if trim_spec(ls.last()) == "```"@ { ls.len() - 1 } else { ls.len() as int };
        lemma_trim_idempotent(crate::text::join_spec(ls.subrange(1, end), "\n"@));
    }
}

/// Template text without placeholders renders to itself.
pub proof fn law_template_without_placeholders(part: Seq<char>, bound: Map<Seq<char>, Seq<char>>)
    requires
        forall|i: int| 0 <= i < part.len() ==> part[i] != '{',
    ensures
        render_spec(part, bound) == Ok::<Seq<char>, Seq<char>>(part),
    decreases part.len(),
{
    if part.len() > 0 {
        assert forall|i: int| 0 <= i < part.drop_first().len() implies part.drop_first()[i] != '{' by {
            assert(part.drop_first()[i] == part[i + 1]);
        }
        law_template_without_placeholders(part.drop_first(), bound);
        assert(seq![part[0]] + part.drop_first() =~= part);
    } else {
        assert(part =~= Seq::<char>::empty());
    }
}

/// After a module is registered, each of its tools is found at that module.
pub proof fn law_registered_tools_found(map: Map<Seq<char>, usize>, ids: Seq<Seq<char>>, m: usize, n: int, i: int)
    requires
        0 <= i < n <= ids.len(),
    ensures
        bind_all(map, ids, m, n).contains_key(ids[i]),
        bind_all(map, ids, m, n)[ids[i]] == m,
    decreases n,
{
    if i < n - 1 {
        law_registered_tools_found(map, ids, m, n - 1, i);
    }
}

proof fn lemma_digit_char_value(d: int)
    requires
        0 <= d < 10,
    ensures
        is_digit(digit_char(d)),
        digit_char(d) as int - '0' as int == d,
{
}

proof fn lemma_nat_text_digits(n: nat)
    ensures
        forall|i: int| 0 <= i < nat_text(n).len() ==> is_digit(#[trigger] nat_text(n)[i]),
        digits_value(nat_text(n)) == n,
        nat_text(n).len() >= 1,
    decreases n,
{
    if n < 10 {
        lemma_digit_char_value(n as int);
        let t = nat_text(n);
        assert(t.drop_last() =~= Seq::<char>::empty());
        assert(digits_value(t) == digits_value(t.drop_last()) * 10 + (t.last() as int - '0' as int));
    } else {
        lemma_digit_char_value((n % 10) as int);
        lemma_nat_text_digits(n / 10);
        let t = nat_text(n);
        assert(t.drop_last() =~= nat_text(n / 10));
        assert(t.last() == digit_char((n % 10) as int));
        assert forall|i: int| 0 <= i < t.len() implies is_digit(#[trigger] t[i]) by {
            if i < t.len() - 1 {
                assert(t[i] == nat_text(n / 10)[i]);
            }
        }
        assert(digits_value(t) == digits_value(t.drop_last()) * 10 + (t.last() as int - '0' as int));
        assert(digits_value(t) == (n / 10) * 10 + n % 10);
    }
}

proof fn lemma_digit_run_all(s: Seq<char>)
    requires
        forall|i: int| 0 <= i < s.len() ==> is_digit(#[trigger] s[i]),
    ensures
        digit_run(s) == s.len(),
    decreases s.len(),
{
    if s.len() > 0 {
        assert forall|i: int| 0 <= i < s.drop_first().len() implies is_digit(#[trigger] s.drop_first()[i]) by {
            assert(s.drop_first()[i] == s[i + 1]);
        }
        lemma_digit_run_all(s.drop_first());
    }
}

/// The decimal text of an `i64` parses back to it.
pub proof fn law_int_text_parses_back(n: i64)
    ensures
        int_parse_spec(int_text(n as int)) == Ok::<int, Seq<char>>(n as int),
{
    let t = int_text(n as int);
    if n < 0 {
        let m = (-(n as int)) as nat;
        lemma_nat_text_digits(m);
        let ds = nat_text(m);
        assert(t == seq!['-'] + ds);
        assert(t[0] == '-');
        assert(t.drop_first() =~= ds);
        lemma_digit_run_all(ds);
        assert(ds.take(ds.len() as int) =~= ds);
    } else {
        lemma_nat_text_digits(n as nat);
        let ds = nat_text(n as nat);
        assert(t == ds);
        assert(is_digit(t[0]));
        lemma_digit_run_all(ds);
        assert(ds.take(ds.len() as int) =~= ds);
    }
}

/// A user interaction whose variable is unbound suspends the run with its prompt; input then
/// handed to the run is bound to that variable, and the pointer moves past the step.
pub proof fn law_interaction_input_is_bound(
    prompt: Seq<char>,
    variable: String,
    before: InterpreterState,
    suspended: InterpreterState,
    p: Seq<usize>,
    p2: Seq<usize>,
    outcome: Result<StepResult, ReadyError>,
    value: JsonValue,
    resumed: InterpreterState,
    r: Result<(), ReadyError>,
)
    requires
        interaction_effect(prompt, Some(variable), before, suspended, p, p2, outcome),
        !before.variables@.contains_key(variable@),
        before.pending_tool_id is None,
        p.len() > 0,
        suspended.ip_path@ == p2,
        input_accepted(suspended, resumed, value, r),
    ensures
        suspends_with(outcome, prompt),
        r is Ok,
        resumed.variables@ == before.variables@.insert(variable@, value@),
        resumed.variables@[variable@] == value@,
        resumed.ip_path@ == advanced(p),
        resumed.pending_input_variable is None,
{
}

/// A tool that suspended is called again, when its step comes round, with no arguments, the
/// state it saved and the input the run was given meanwhile.
pub proof fn law_suspended_tool_resumes_with_input(
    tool_id: Seq<char>,
    output_variable: Option<String>,
    suspension: ToolSuspension,
    before: InterpreterState,
    suspended: InterpreterState,
    p: Seq<usize>,
    p2: Seq<usize>,
    sr: StepResult,
    value: JsonValue,
    resumed: InterpreterState,
    r: Result<(), ReadyError>,
    arguments: Seq<Expression>,
    after: InterpreterState,
    call: Result<ToolCall, ReadyError>,
)
    requires
        tool_completion(tool_id, output_variable, ToolResult::Suspended(suspension), before, suspended, p, p2, sr),
        input_accepted(suspended, resumed, value, r),
        call_prepared(tool_id, arguments, resumed, after, call),
    ensures
        sr.suspend,
        p2 == p,
        r is Ok,
        after.pending_tool_id is None,
        after.variables == before.variables,
        match call {
            Ok(c) => {
                &&& c.tool_id@ == tool_id
                &&& c.args@.len() == 0
                &&& match c.continuation {
                    Some(k) => k.state@ == suspension.continuation_state@ && opt_json(k.resume_value) == Some(value@),
                    None => false,
                }
            },
            Err(_) => false,
        },
{
}

/// A run that is going: running, with no error and no suspension reason. `begin` leaves every
/// run in this state.
pub open spec fn running_clean(st: ExecutionState) -> bool {
    &&& st.status == ExecutionStatus::Running
    &&& st.error is None
    &&& st.suspension_reason is None
}

/// A run that stopped for input: suspended, with a reason and no error.
pub open spec fn suspended_clean(st: ExecutionState) -> bool {
    &&& st.status == ExecutionStatus::Suspended
    &&& st.error is None
    &&& st.suspension_reason is Some
}

/// A pass of the run loop keeps a going run going, unless it suspends it, in which case the
/// run is suspended with a reason and still has no error.
pub proof fn law_pass_keeps_run_status(
    steps: Seq<Step>,
    max: usize,
    st: ExecutionState,
    st2: ExecutionState,
    internal: InternalState,
    internal2: InternalState,
    counter: usize,
    counter2: usize,
    r: Progress,
)
    requires
        running_clean(st),
        pass_effect(steps, max, st, st2, internal, internal2, counter, counter2, r),
    ensures
        r is Suspended ==> suspended_clean(st2),
        !(r is Suspended) ==> running_clean(st2),
{
}

/// Completing a tool step keeps a going run going, unless the tool suspended, in which case
/// the run is suspended with the tool's reason and still has no error.
pub proof fn law_tool_step_keeps_run_status(
    step: Step,
    outcome: Result<ToolResult, ReadyError>,
    st: ExecutionState,
    st2: ExecutionState,
    r: Progress,
)
    requires
        running_clean(st),
        step is ToolStep,
        tool_finish_effect(step, outcome, st, st2, r),
    ensures
        r is Suspended ==> suspended_clean(st2),
        !(r is Suspended) ==> running_clean(st2),
{
}

/// How a run ends: a going run that finishes without error is completed, with no error and
/// no suspension reason; a suspended run stays suspended with its reason; a going run that
/// ends with an error is failed and records the error's text at the step it reached.
pub proof fn law_finish_run_status(st: ExecutionState, st2: ExecutionState, outcome: Result<(), ReadyError>)
    requires
        running_clean(st) || suspended_clean(st),
        finish_effect(st, st2, outcome),
    ensures
        outcome is Ok && running_clean(st) ==> st2.status == ExecutionStatus::Completed && st2.error is None
            && st2.suspension_reason is None,
        suspended_clean(st) ==> suspended_clean(st2),
        match outcome {
            Err(e) => running_clean(st) ==> {
                &&& st2.status == ExecutionStatus::Failed
                &&& st2.error matches Some(x) && x.step_index == st.current_step_index && x.step_type is None
                    && x.exception_type@ == error_text(e) && x.message@ == error_text(e)
            },
            Ok(_) => true,
        },
{
}

/// A move of an instruction pointer.
pub enum PointerMove {
    Advance,
    Descend,
    Ascend,
}

/// The path after a move, as `advance`, `descend` and `ascend` state it.
pub open spec fn moved(p: Seq<usize>, m: PointerMove) -> Seq<usize> {
    match m {
        PointerMove::Advance => advanced(p),
        PointerMove::Descend => p.push(0),
        PointerMove::Ascend => ascended(p),
    }
}

/// The path after a sequence of moves.
pub open spec fn after_moves(p: Seq<usize>, ms: Seq<PointerMove>) -> Seq<usize>
    decreases ms.len(),
{
    if ms.len() == 0 {
        p
    } else {
        moved(after_moves(p, ms.drop_last()), ms.last())
    }
}

/// Every move of the sequence is one its function accepts: `ascend` needs more than one level.
pub open spec fn moves_allowed(p: Seq<usize>, ms: Seq<PointerMove>) -> bool {
    forall|i: int| 0 <= i < ms.len() && ms[i] is Ascend ==> #[trigger] after_moves(p, ms.take(i)).len() > 1
}

/// A pointer made by `new` keeps at least one level through any sequence of moves its
/// functions accept, so its depth never drops to zero.
pub proof fn law_pointer_depth_stays_positive(ms: Seq<PointerMove>)
    requires
        moves_allowed(seq![0usize], ms),
    ensures
        after_moves(seq![0usize], ms).len() >= 1,
    decreases ms.len(),
{
    if ms.len() > 0 {
        let front = ms.drop_last();
        assert forall|i: int| 0 <= i < front.len() && front[i] is Ascend implies #[trigger] after_moves(
            seq![0usize],
            front.take(i),
        ).len() > 1 by {
            assert(front.take(i) =~= ms.take(i));
            assert(front[i] == ms[i]);
        }
        law_pointer_depth_stays_positive(front);
        assert(ms.take(ms.len() - 1) =~= front);
        if ms.last() is Ascend {
            assert(after_moves(seq![0usize], ms.take(ms.len() - 1)).len() > 1);
        }
    }
}

/// Distinct comparison operators have distinct names, so an operator is recovered from its
/// name.
pub proof fn law_comparison_names_distinct(a: ComparisonOperator, b: ComparisonOperator)
    requires
        comparison_operator_text(a) == comparison_operator_text(b),
    ensures
        a == b,
{
    reveal_strlit("==");
    reveal_strlit("!=");
    reveal_strlit("<");
    reveal_strlit(">");
    reveal_strlit("<=");
    reveal_strlit(">=");
    reveal_strlit("in");
    reveal_strlit("not in");
    reveal_strlit("is");
    reveal_strlit("is not");
    let t = comparison_operator_text(a);
    let u = comparison_operator_text(b);
    assert(t.len() == u.len());
    assert(t[0] == u[0]);
    if t.len() > 1 {
        assert(t[1] == u[1]);
    }
    match a {
        ComparisonOperator::Equal => {},
        ComparisonOperator::NotEqual => {},
        ComparisonOperator::LessThan => {},
        ComparisonOperator::GreaterThan => {},
        ComparisonOperator::LessThanOrEqual => {},
        ComparisonOperator::GreaterThanOrEqual => {},
        ComparisonOperator::In => {},
        ComparisonOperator::NotIn => {},
        ComparisonOperator::Is => {},
        ComparisonOperator::IsNot => {},
    }
}

/// One turn of the run loop that carries on: a pass that carried on, or a pass that
/// prepared a tool call followed by the completion of that call, which carried on.
pub open spec fn run_link(steps: Seq<Step>, max: usize, a: ExecutionState, b: ExecutionState) -> bool {
    ||| exists|ia: InternalState, ib: InternalState, c: usize, c2: usize, r: Progress|
        #[trigger] pass_effect(steps, max, a, b, ia, ib, c, c2, r) && r is Continue
    ||| exists|
        mid: ExecutionState,
        ia: InternalState,
        ib: InternalState,
        c: usize,
        c2: usize,
        r: Progress,
        outcome: Result<ToolResult, ReadyError>,
        r2: Progress,
    |
        #[trigger] pass_effect(steps, max, a, mid, ia, ib, c, c2, r) && r is CallTool && #[trigger] tool_finish_effect(
            *r->step,
            outcome,
            mid,
            b,
            r2,
        ) && r2 is Continue
}

/// What the run loop hands to `finish` when it stops at `r`: nothing for a finished or
/// suspended run, the error of a failed step.
pub open spec fn stop_outcome(r: Progress, outcome: Result<(), ReadyError>) -> bool {
    match r {
        Progress::Finished => outcome is Ok,
        Progress::Suspended => outcome is Ok,
        Progress::Failed(e) => outcome == Err::<(), ReadyError>(e),
        _ => false,
    }
}

/// The last turn of the run loop: a pass, or a pass and the completion of its tool call,
/// that stopped the loop, leaving the run at `b` with `outcome` for `finish`.
pub open spec fn run_stop(steps: Seq<Step>, max: usize, a: ExecutionState, b: ExecutionState, outcome: Result<(), ReadyError>) -> bool {
    ||| exists|ia: InternalState, ib: InternalState, c: usize, c2: usize, r: Progress|
        #[trigger] pass_effect(steps, max, a, b, ia, ib, c, c2, r) && stop_outcome(r, outcome)
    ||| exists|
        mid: ExecutionState,
        ia: InternalState,
        ib: InternalState,
        c: usize,
        c2: usize,
        r: Progress,
        tool_outcome: Result<ToolResult, ReadyError>,
        r2: Progress,
    |
        #[trigger] pass_effect(steps, max, a, mid, ia, ib, c, c2, r) && r is CallTool && #[trigger] tool_finish_effect(
            *r->step,
            tool_outcome,
            mid,
            b,
            r2,
        ) && stop_outcome(r2, outcome)
}

proof fn lemma_link_keeps_running(steps: Seq<Step>, max: usize, a: ExecutionState, b: ExecutionState)
    requires
        running_clean(a),
        run_link(steps, max, a, b),
    ensures
        running_clean(b),
{
    if exists|ia: InternalState, ib: InternalState, c: usize, c2: usize, r: Progress|
        #[trigger] pass_effect(steps, max, a, b, ia, ib, c, c2, r) && r is Continue {
        let (ia, ib, c, c2, r) = choose|ia: InternalState, ib: InternalState, c: usize, c2: usize, r: Progress|
            #[trigger] pass_effect(steps, max, a, b, ia, ib, c, c2, r) && r is Continue;
        law_pass_keeps_run_status(steps, max, a, b, ia, ib, c, c2, r);
    } else {
        let (mid, ia, ib, c, c2, r, outcome, r2) = choose|
            mid: ExecutionState,
            ia: InternalState,
            ib: InternalState,
            c: usize,
            c2: usize,
            r: Progress,
            outcome: Result<ToolResult, ReadyError>,
            r2: Progress,
        |
            #[trigger] pass_effect(steps, max, a, mid, ia, ib, c, c2, r) && r is CallTool && #[trigger] tool_finish_effect(
                *r->step,
                outcome,
                mid,
                b,
                r2,
            ) && r2 is Continue;
        law_pass_keeps_run_status(steps, max, a, mid, ia, ib, c, c2, r);
        law_tool_step_keeps_run_status(*r->step, outcome, mid, b, r2);
    }
}

proof fn lemma_stop_is_clean(steps: Seq<Step>, max: usize, a: ExecutionState, b: ExecutionState, outcome: Result<(), ReadyError>)
    requires
        running_clean(a),
        run_stop(steps, max, a, b, outcome),
    ensures
        outcome is Ok ==> running_clean(b) || suspended_clean(b),
        outcome is Err ==> running_clean(b),
{
    if exists|ia: InternalState, ib: InternalState, c: usize, c2: usize, r: Progress|
        #[trigger] pass_effect(steps, max, a, b, ia, ib, c, c2, r) && stop_outcome(r, outcome) {
        let (ia, ib, c, c2, r) = choose|ia: InternalState, ib: InternalState, c: usize, c2: usize, r: Progress|
            #[trigger] pass_effect(steps, max, a, b, ia, ib, c, c2, r) && stop_outcome(r, outcome);
        law_pass_keeps_run_status(steps, max, a, b, ia, ib, c, c2, r);
    } else {
        let (mid, ia, ib, c, c2, r, tool_outcome, r2) = choose|
            mid: ExecutionState,
            ia: InternalState,
            ib: InternalState,
            c: usize,
            c2: usize,
            r: Progress,
            tool_outcome: Result<ToolResult, ReadyError>,
            r2: Progress,
        |
            #[trigger] pass_effect(steps, max, a, mid, ia, ib, c, c2, r) && r is CallTool && #[trigger] tool_finish_effect(
                *r->step,
                tool_outcome,
                mid,
                b,
                r2,
            ) && stop_outcome(r2, outcome);
        law_pass_keeps_run_status(steps, max, a, mid, ia, ib, c, c2, r);
        law_tool_step_keeps_run_status(*r->step, tool_outcome, mid, b, r2);
    }
}

proof fn lemma_links_keep_running(steps: Seq<Step>, max: usize, states: Seq<ExecutionState>, i: int)
    requires
        states.len() >= 1,
        running_clean(states[0]),
        forall|j: int| 0 <= j < states.len() - 1 ==> run_link(steps, max, #[trigger] states[j], states[j + 1]),
        0 <= i < states.len(),
    ensures
        running_clean(states[i]),
    decreases i,
{
    if i > 0 {
        lemma_links_keep_running(steps, max, states, i - 1);
        lemma_link_keeps_running(steps, max, states[i - 1], states[i]);
    }
}

/// A whole run: started as `begin` leaves it (running, with no error and no reason), carried
/// on through the turns of the run loop `states`, stopped at `stopped` and ended by `finish`.
/// A run that ends without error is completed with no error and no suspension reason, or
/// suspended with a reason and no error; a run that ends with an error is failed and records
/// the error's text at the step it reached.
pub proof fn law_whole_run_status(
    steps: Seq<Step>,
    max: usize,
    states: Seq<ExecutionState>,
    stopped: ExecutionState,
    outcome: Result<(), ReadyError>,
    end: ExecutionState,
)
    requires
        states.len() >= 1,
        running_clean(states[0]),
        forall|j: int| 0 <= j < states.len() - 1 ==> run_link(steps, max, #[trigger] states[j], states[j + 1]),
        run_stop(steps, max, states.last(), stopped, outcome),
        finish_effect(stopped, end, outcome),
    ensures
        outcome is Ok ==> (end.status == ExecutionStatus::Completed && end.error is None && end.suspension_reason is None)
            || suspended_clean(end),
        match outcome {
            Err(e) => {
                &&& end.status == ExecutionStatus::Failed
                &&& end.error matches Some(x) && x.step_index == stopped.current_step_index && x.step_type is None
                    && x.exception_type@ == error_text(e) && x.message@ == error_text(e)
            },
            Ok(_) => true,
        },
{
    lemma_links_keep_running(steps, max, states, states.len() - 1);
    lemma_stop_is_clean(steps, max, states.last(), stopped, outcome);
    law_finish_run_status(stopped, end, outcome);
}

} // verus!
