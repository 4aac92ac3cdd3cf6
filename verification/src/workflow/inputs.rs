//! Inputs given before a run: `NAME=VALUE` assignments, their check against the plan's
//! prefillable inputs, and the listing of those inputs.

use vstd::prelude::*;
use vstd::string::*;

use crate::error::ReadyError;
use crate::plan::queries::{prefillable_spec, prefillable_view};
use crate::plan::AbstractPlan;
use crate::text::{join_spec, join_strings, str_chars, string_from_chars, string_of, strings_view, trim, trim_spec, first_index, lemma_first_index, lemma_strings_view_push};

verus! {

broadcast use vstd::std_specs::vec::group_vec_axioms;

/// The position of the first `=` in a text.
pub open spec fn equals_index(s: Seq<char>) -> Option<int> {
    first_index(s, '=')
}

/// An input assignment split at its first `=`: the trimmed name and the raw value text; an
/// assignment without `=`, or with an empty name, is refused.
pub open spec fn assignment_spec(input: Seq<char>) -> Result<(Seq<char>, Seq<char>), Seq<char>> {
    match equals_index(input) {
        None => Err("Invalid --input '"@ + input + "'. Expected NAME=VALUE."@),
        Some(i) => {
            let name = trim_spec(input.take(i));
            if name.len() == 0 {
                Err("Invalid --input '"@ + input + "'. Input name cannot be empty."@)
            } else {
                Ok((name, input.skip(i + 1)))
            }
        },
    }
}

/// Splits an input assignment `NAME=VALUE` into its trimmed name and its value text.
pub fn split_input_assignment(input: &str) -> (r: Result<(String, String), ReadyError>)
    ensures
        match (r, assignment_spec(input@)) {
            (Ok((n, v)), Ok((sn, sv))) => n@ == sn && v@ == sv,
            (Err(ReadyError::Io(m)), Err(sm)) => m@ == sm,
            _ => false,
        },
{
    let cs = str_chars(input);
    let mut i: usize = 0;
    while i < cs.len() && cs[i] != '='
        invariant
            i <= cs@.len(),
            cs@ == input@,
            forall|k: int| 0 <= k < i ==> cs@[k] != '=',
        decreases cs@.len() - i,
    {
        i += 1;
    }
    proof {
        lemma_first_index(cs@, '=');
    }
    if i == cs.len() {
        assert(equals_index(input@) is None) by {
            if let Some(j) = first_index(cs@, '=') {
                assert(cs@[j] == '=');
            }
        }
        let mut m = String::from_str("Invalid --input '");
        m.append(input);
        m.append("'. Expected NAME=VALUE.");
        return Err(ReadyError::Io(m));
    }
    assert(equals_index(input@) == Some(i as int)) by {
        let j = first_index(cs@, '=')->Some_0;
        assert(cs@[j] == '=');
        assert(j >= i);
    }
    let raw_name = string_from_chars(&cs, 0, i);
    let name = trim(raw_name.as_str());
    if name.unicode_len() == 0 {
        let mut m = String::from_str("Invalid --input '");
        m.append(input);
        m.append("'. Input name cannot be empty.");
        return Err(ReadyError::Io(m));
    }
    let value = string_from_chars(&cs, i + 1, cs.len());
    assert(cs@.take(i as int) == cs@.subrange(0, i as int));
    assert(cs@.skip(i + 1) =~= cs@.subrange(i + 1, cs@.len() as int));
    Ok((name, value))
}

/// The first given name that is not a prefillable input of the plan.
pub open spec fn first_unknown_input(names: Seq<Seq<char>>, known: Seq<Seq<char>>) -> Option<Seq<char>>
    decreases names.len(),
{
    if names.len() == 0 {
        None
    } else if !known.contains(names[0]) {
        Some(names[0])
    } else {
        first_unknown_input(names.drop_first(), known)
    }
}

/// The variable names of the plan's prefillable inputs, in order.
pub open spec fn prefillable_names(plan: AbstractPlan) -> Seq<Seq<char>> {
    prefillable_spec(plan.steps@).map_values(|p: (Seq<char>, Seq<char>)| p.0)
}

/// The message for an input the plan does not accept.
pub open spec fn unknown_input_msg(name: Seq<char>, known: Seq<Seq<char>>) -> Seq<char> {
    "Unknown prefillable input '"@ + name + "'. Available prefillable inputs: "@
        + (if known.len() == 0 { "none"@ } else { join_spec(known, ", "@) }) + "."@
}

/// Checks that every given input name is a prefillable input of the plan; the first one that is
/// not is reported with the names that are.
#[verifier::loop_isolation(false)]
pub fn validate_prefilled_inputs(plan: &AbstractPlan, names: &Vec<String>) -> (r: Result<(), ReadyError>)
    ensures
        match first_unknown_input(strings_view(names@), prefillable_names(*plan)) {
            None => r is Ok,
            Some(n) => r matches Err(ReadyError::Io(m)) && m@ == unknown_input_msg(n, prefillable_names(*plan)),
        },
{
    let inputs = plan.prefillable_inputs();
    let ghost known = prefillable_names(*plan);
    let mut available: Vec<String> = Vec::new();
    let mut k: usize = 0;
    while k < inputs.len()
        invariant
            k <= inputs@.len(),
            prefillable_view(inputs@) == prefillable_spec(plan.steps@),
            known == prefillable_names(*plan),
            strings_view(available@) == known.take(k as int),
        decreases inputs@.len() - k,
    {
        let v = string_of(inputs[k].variable_name.as_str());
        assert(prefillable_view(inputs@)[k as int].0 == inputs@[k as int].variable_name@);
        proof {
            lemma_strings_view_push(available@, v);
        }
        available.push(v);
        k += 1;
        assert(strings_view(available@) =~= known.take(k as int));
    }
    assert(known.take(k as int) =~= known);
    let ghost ns = strings_view(names@);
    let mut i: usize = 0;
    assert(ns.skip(0) =~= ns);
    while i < names.len()
        invariant
            i <= names@.len(),
            ns == strings_view(names@),
            strings_view(available@) == known,
            first_unknown_input(ns, known) == first_unknown_input(ns.skip(i as int), known),
        decreases names@.len() - i,
    {
        assert(ns.skip(i as int).drop_first() =~= ns.skip(i + 1));
        assert(ns.skip(i as int)[0] == ns[i as int]);
        let mut found = false;
        let mut j: usize = 0;
        while j < available.len()
            invariant
                j <= available@.len(),
                i < names@.len(),
                ns == strings_view(names@),
                strings_view(available@) == known,
                found == (exists|q: int| 0 <= q < j && known[q] == ns[i as int]),
            decreases available@.len() - j,
        {
            assert(known[j as int] == available@[j as int]@);
            assert(ns[i as int] == names@[i as int]@);
            if crate::text::str_eq(available[j].as_str(), names[i].as_str()) {
                found = true;
            }
            j += 1;
        }
        if !found {
            assert(!known.contains(ns[i as int])) by {
                if known.contains(ns[i as int]) {
                    let q = choose|q: int| 0 <= q < known.len() && known[q] == ns[i as int];
                    assert(0 <= q < j && known[q] == ns[i as int]);
                }
            }
            assert(ns[i as int] == names@[i as int]@);
            let mut m = String::from_str("Unknown prefillable input '");
            m.append(names[i].as_str());
            m.append("'. Available prefillable inputs: ");
            if available.len() == 0 {
                m.append("none");
            } else {
                let joined = join_strings(&available, ", ");
                m.append(joined.as_str());
            }
            m.append(".");
            assert(first_unknown_input(ns.skip(i as int), known) == Some(ns[i as int]));
            assert(m@ =~= unknown_input_msg(ns[i as int], known));
            return Err(ReadyError::Io(m));
        }
        assert(known.contains(ns[i as int])) by {
            let q = choose|q: int| 0 <= q < j && known[q] == ns[i as int];
            assert(known[q] == ns[i as int]);
        }
        i += 1;
    }
    assert(ns.skip(i as int).len() == 0);
    Ok(())
}

/// The listing line of one prefillable input, given as `(variable, prompt)`.
pub open spec fn input_line(p: (Seq<char>, Seq<char>)) -> Seq<char> {
    "  --input "@ + p.0 + "=<value>  # "@ + p.1
}

/// The listing of the plan's prefillable inputs: one line each, or `  (none)`.
pub open spec fn input_lines_spec(plan: AbstractPlan) -> Seq<Seq<char>> {
    let ps = prefillable_spec(plan.steps@);
    if ps.len() == 0 {
        seq!["  (none)"@]
    } else {
        ps.map_values(|p: (Seq<char>, Seq<char>)| input_line(p))
    }
}

/// The listing of the plan's prefillable inputs.
pub fn prefillable_input_lines(plan: &AbstractPlan) -> (r: Vec<String>)
    ensures
        strings_view(r@) == input_lines_spec(*plan),
{
    let inputs = plan.prefillable_inputs();
    let mut lines: Vec<String> = Vec::new();
    if inputs.len() == 0 {
        lines.push(String::from_str("  (none)"));
        assert(strings_view(lines@) =~= seq!["  (none)"@]);
        return lines;
    }
    let ghost ps = prefillable_spec(plan.steps@);
    let mut i: usize = 0;
    while i < inputs.len()
        invariant
            i <= inputs@.len(),
            prefillable_view(inputs@) == ps,
            ps == prefillable_spec(plan.steps@),
            strings_view(lines@) == ps.map_values(|p: (Seq<char>, Seq<char>)| input_line(p)).take(i as int),
        decreases inputs@.len() - i,
    {
        let mut line = String::from_str("  --input ");
        line.append(inputs[i].variable_name.as_str());
        line.append("=<value>  # ");
        line.append(inputs[i].prompt.as_str());
        assert(ps[i as int] == (inputs@[i as int].variable_name@, inputs@[i as int].prompt@));
        proof {
            lemma_strings_view_push(lines@, line);
        }
        lines.push(line);
        i += 1;
        assert(strings_view(lines@) =~= ps.map_values(|p: (Seq<char>, Seq<char>)| input_line(p)).take(i as int));
    }
    assert(ps.map_values(|p: (Seq<char>, Seq<char>)| input_line(p)).take(i as int) =~= ps.map_values(
        |p: (Seq<char>, Seq<char>)| input_line(p),
    ));
    lines
}

} // verus!
