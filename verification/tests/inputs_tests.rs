use ready::error::ReadyError;
use ready::plan::{AbstractPlan, Step};
use ready::workflow::inputs::{prefillable_input_lines, split_input_assignment, validate_prefilled_inputs};

fn plan(steps: Vec<Step>) -> AbstractPlan {
    AbstractPlan { name: "p".to_string(), description: String::new(), steps, code: String::new() }
}

fn ask(prompt: &str, var: &str) -> Step {
    Step::UserInteractionStep { prompt: prompt.to_string(), output_variable: Some(var.to_string()) }
}

fn io_message(error: ReadyError) -> String {
    match error {
        ReadyError::Io(message) => message,
        other => panic!("expected an input error, got {other:?}"),
    }
}

#[test]
fn input_assignments_split_at_the_first_equals_sign() {
    assert_eq!(split_input_assignment(" name = a=b").unwrap(), ("name".to_string(), " a=b".to_string()));
    assert_eq!(split_input_assignment("x=").unwrap(), ("x".to_string(), String::new()));
    assert_eq!(io_message(split_input_assignment("novalue").unwrap_err()), "Invalid --input 'novalue'. Expected NAME=VALUE.");
    assert_eq!(
        io_message(split_input_assignment("  =3").unwrap_err()),
        "Invalid --input '  =3'. Input name cannot be empty."
    );
}

#[test]
fn unknown_prefilled_inputs_are_reported_with_the_known_ones() {
    let p = plan(vec![ask("Channel?", "channel"), ask("Date?", "date")]);
    assert!(validate_prefilled_inputs(&p, &vec!["date".to_string(), "channel".to_string()]).is_ok());
    assert_eq!(
        io_message(validate_prefilled_inputs(&p, &vec!["date".to_string(), "user".to_string()]).unwrap_err()),
        "Unknown prefillable input 'user'. Available prefillable inputs: channel, date."
    );
    assert_eq!(
        io_message(validate_prefilled_inputs(&plan(vec![]), &vec!["x".to_string()]).unwrap_err()),
        "Unknown prefillable input 'x'. Available prefillable inputs: none."
    );
}

#[test]
fn prefillable_inputs_are_listed_as_command_line_options() {
    assert_eq!(prefillable_input_lines(&plan(vec![])), vec!["  (none)".to_string()]);
    assert_eq!(
        prefillable_input_lines(&plan(vec![ask("Channel?", "channel")])),
        vec!["  --input channel=<value>  # Channel?".to_string()]
    );
}
