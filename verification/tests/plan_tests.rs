use ready::plan::{AbstractPlan, BranchKind, ConditionalBranch, Expression, LiteralValue, PrefillableInput, Step};

fn lit(value: bool) -> Expression {
    Expression::Literal { value: LiteralValue::Bool(value) }
}

fn plan(steps: Vec<Step>) -> AbstractPlan {
    AbstractPlan { name: "test".to_string(), description: String::new(), code: String::new(), steps }
}

#[test]
fn prefillable_inputs_returns_only_top_level_user_interactions_with_output_and_prompt() {
    let plan = plan(vec![
        Step::UserInteractionStep {
            prompt: "What is your name?".to_string(),
            output_variable: Some("name".to_string()),
        },
        Step::UserInteractionStep {
            prompt: String::new(),
            output_variable: Some("empty_prompt".to_string()),
        },
        Step::UserInteractionStep {
            prompt: "Acknowledge".to_string(),
            output_variable: None,
        },
        Step::SwitchStep {
            branches: vec![ConditionalBranch {
                kind: BranchKind::If,
                condition: Some(lit(true)),
                steps: vec![Step::UserInteractionStep {
                    prompt: "Nested".to_string(),
                    output_variable: Some("nested".to_string()),
                }],
            }],
        },
    ]);

    assert_eq!(
        plan.prefillable_inputs(),
        vec![PrefillableInput {
            variable_name: "name".to_string(),
            prompt: "What is your name?".to_string(),
        }]
    );
}

#[test]
fn collect_tool_ids_collects_unique_ids_recursively() {
    let plan = plan(vec![
        Step::ToolStep {
            tool_id: "top".to_string(),
            arguments: vec![],
            output_variable: None,
        },
        Step::SwitchStep {
            branches: vec![
                ConditionalBranch {
                    kind: BranchKind::If,
                    condition: Some(lit(true)),
                    steps: vec![
                        Step::ToolStep {
                            tool_id: "shared".to_string(),
                            arguments: vec![],
                            output_variable: None,
                        },
                        Step::ToolStep {
                            tool_id: "branch".to_string(),
                            arguments: vec![],
                            output_variable: None,
                        },
                    ],
                },
                ConditionalBranch {
                    kind: BranchKind::Else,
                    condition: None,
                    steps: vec![Step::ToolStep {
                        tool_id: "shared".to_string(),
                        arguments: vec![],
                        output_variable: None,
                    }],
                },
            ],
        },
        Step::LoopStep {
            iterable_variable: "items".to_string(),
            item_variable: "item".to_string(),
            body: vec![
                Step::ToolStep {
                    tool_id: "loop".to_string(),
                    arguments: vec![],
                    output_variable: None,
                },
                Step::ToolStep {
                    tool_id: "shared".to_string(),
                    arguments: vec![],
                    output_variable: None,
                },
            ],
        },
        Step::WhileStep {
            condition: lit(true),
            body: vec![Step::ToolStep {
                tool_id: "while".to_string(),
                arguments: vec![],
                output_variable: None,
            }],
        },
    ]);

    assert_eq!(
        plan.collect_tool_ids(),
        vec![
            "branch".to_string(),
            "loop".to_string(),
            "shared".to_string(),
            "top".to_string(),
            "while".to_string(),
        ]
    );
}

#[test]
fn collect_tool_ids_of_empty_plan_is_empty() {
    assert_eq!(plan(vec![]).collect_tool_ids(), Vec::<String>::new());
}
