# ready

An agent system that turns a Standard Operating Procedure into a plan and runs it. A
language model writes the plan as restricted Python; the plan code is parsed into a small
plan language (assignments, tool calls, `if`/`elif`/`else`, `for`, `while`, `break`, user
interaction), validated against the available tools, and executed step by step by an
interpreter that can suspend for user input and resume.

## Layout

- `src/` is the library, verified with Verus:
  - `plan/`: the plan model, its queries (prefillable inputs, referenced tools).
  - `planning/`: the Python front end (`syntax.rs` calls `rustpython-parser` and converts
    its tree; `parser/` lowers it into a plan) and the validator.
  - `execution/`: expression evaluation, variable scopes, navigation of nested steps, and
    the interpreter's step machine (`run_step`, `finish_tool_step`, `accept_input`).
  - `tools/`: tool descriptions and prompt stubs, the tool index, built-in tool requests,
    shell command rendering and output parsing, and process tools (plans used as tools).
  - `workflow/`: prompts and decisions of the planner, inputs given on the command line,
    and the seeding and questioning of runs.
  - `llm/`: request bodies, endpoints and reply reading for OpenAI-compatible APIs.
  - `laws.rs`: properties that relate several operations.
- `app/` is the command line around the library: HTTP, processes, files, async run loops,
  logging, and the serializable copies of the library's types.
- `tests/` runs the library on concrete values.

## Arithmetic

Integer arithmetic is exact and checked against the `i64` range. Anything that would need
floating point is refused with the evaluation error "Floating-point arithmetic is not
supported": `/`, a float operand, a negative power, an integer operand beyond the `i64`
range, and ordering comparisons that involve a float. Ordering comparisons between integers
compare the `f64` values the integers round to, so integers beyond 2^53 that round to the
same `f64` compare equal.
