use ready::plan::{AbstractPlan, Accessor, BranchKind, ComparisonOperator, ConditionalBranch, Expression, LiteralValue, Step};
use ready::plan_format::{format_expression, format_plan};

fn j(text: &str) -> serde_json::Value {
    serde_json::from_str(text).expect("valid JSON")
}

fn literal(value: serde_json::Value) -> LiteralValue {
    match value {
        serde_json::Value::Null => LiteralValue::Null,
        serde_json::Value::Bool(b) => LiteralValue::Bool(b),
        serde_json::Value::Number(n) => match n.as_i64() {
            Some(i) => LiteralValue::Integer(i),
            None => LiteralValue::Float(n.to_string()),
        },
        serde_json::Value::String(s) => LiteralValue::String(s),
        serde_json::Value::Array(items) => LiteralValue::Array(items.into_iter().map(literal).collect()),
        serde_json::Value::Object(map) => LiteralValue::Object(map.into_iter().map(|(k, v)| (k, literal(v))).collect()),
    }
}

#[test]
fn formats_assign_step() {
    let plan = AbstractPlan {
        name: "demo".to_string(),
        description: String::new(),
        code: String::new(),
        steps: vec![Step::AssignStep {
            target: "x".to_string(),
            value: Expression::Literal {
                value: literal(j(r#""hello""#)),
            },
        }],
    };

    assert!(format_plan(&plan).contains("x = \"hello\""));
}

#[test]
fn formats_tool_step_with_output() {
    let plan = AbstractPlan {
        name: "demo".to_string(),
        description: String::new(),
        code: String::new(),
        steps: vec![Step::ToolStep {
            tool_id: "fetch".to_string(),
            arguments: vec![Expression::AccessPath {
                variable_name: "url".to_string(),
                accessors: Vec::new(),
            }],
            output_variable: Some("result".to_string()),
        }],
    };

    assert!(format_plan(&plan).contains("result = fetch(url)"));
}

#[test]
fn formats_tool_step_without_output() {
    let plan = AbstractPlan {
        name: "demo".to_string(),
        description: String::new(),
        code: String::new(),
        steps: vec![Step::ToolStep {
            tool_id: "send".to_string(),
            arguments: vec![Expression::AccessPath {
                variable_name: "message".to_string(),
                accessors: Vec::new(),
            }],
            output_variable: None,
        }],
    };

    assert!(format_plan(&plan).contains("send(message)"));
}

#[test]
fn formats_switch_step_with_branches() {
    let plan = AbstractPlan {
        name: "demo".to_string(),
        description: String::new(),
        code: String::new(),
        steps: vec![Step::SwitchStep {
            branches: vec![
                ConditionalBranch {
                    kind: BranchKind::If,
                    condition: Some(Expression::AccessPath {
                        variable_name: "active".to_string(),
                        accessors: Vec::new(),
                    }),
                    steps: vec![Step::ToolStep {
                        tool_id: "run".to_string(),
                        arguments: Vec::new(),
                        output_variable: None,
                    }],
                },
                ConditionalBranch {
                    kind: BranchKind::Else,
                    condition: None,
                    steps: vec![Step::ToolStep {
                        tool_id: "stop".to_string(),
                        arguments: Vec::new(),
                        output_variable: None,
                    }],
                },
            ],
        }],
    };

    let formatted = format_plan(&plan);
    assert!(formatted.contains("if active:"));
    assert!(formatted.contains("else:"));
    assert!(formatted.contains("run()"));
    assert!(formatted.contains("stop()"));
}

#[test]
fn formats_loop_step() {
    let plan = AbstractPlan {
        name: "demo".to_string(),
        description: String::new(),
        code: String::new(),
        steps: vec![Step::LoopStep {
            iterable_variable: "items".to_string(),
            item_variable: "item".to_string(),
            body: vec![Step::ToolStep {
                tool_id: "process".to_string(),
                arguments: vec![Expression::AccessPath {
                    variable_name: "item".to_string(),
                    accessors: Vec::new(),
                }],
                output_variable: None,
            }],
        }],
    };

    let formatted = format_plan(&plan);
    assert!(formatted.contains("for item in items:"));
    assert!(formatted.contains("process(item)"));
}

#[test]
fn formats_while_step() {
    let plan = AbstractPlan {
        name: "demo".to_string(),
        description: String::new(),
        code: String::new(),
        steps: vec![Step::WhileStep {
            condition: Expression::AccessPath {
                variable_name: "running".to_string(),
                accessors: Vec::new(),
            },
            body: vec![Step::ToolStep {
                tool_id: "tick".to_string(),
                arguments: Vec::new(),
                output_variable: None,
            }],
        }],
    };

    let formatted = format_plan(&plan);
    assert!(formatted.contains("while running:"));
    assert!(formatted.contains("tick()"));
}

#[test]
fn format_expression_formats_access_paths_with_attribute_and_index_access() {
    let expr = Expression::AccessPath {
        variable_name: "file".to_string(),
        accessors: vec![
            Accessor::Attribute("metadata".to_string()),
            Accessor::Key("url".to_string()),
        ],
    };

    assert_eq!(format_expression(&expr), "file.metadata[\"url\"]");
}

#[test]
fn format_plan_renders_assign_tool_switch_loop_while_and_user_interaction() {
    let plan = AbstractPlan {
        name: "demo".to_string(),
        description: "Summarize recent standups.".to_string(),
        steps: vec![
            Step::AssignStep {
                target: "last_summary_date".to_string(),
                value: Expression::Literal {
                    value: literal(j(r#""""#)),
                },
            },
            Step::LoopStep {
                iterable_variable: "files".to_string(),
                item_variable: "file".to_string(),
                body: vec![Step::SwitchStep {
                    branches: vec![ConditionalBranch {
                        kind: BranchKind::If,
                        condition: Some(Expression::Comparison {
                            operator: ComparisonOperator::GreaterThan,
                            left: Box::new(Expression::AccessPath {
                                variable_name: "file".to_string(),
                                accessors: Vec::new(),
                            }),
                            right: Box::new(Expression::AccessPath {
                                variable_name: "last_summary_date".to_string(),
                                accessors: Vec::new(),
                            }),
                        }),
                        steps: vec![Step::ToolStep {
                            tool_id: "post_summary".to_string(),
                            arguments: vec![Expression::AccessPath {
                                variable_name: "file".to_string(),
                                accessors: Vec::new(),
                            }],
                            output_variable: None,
                        }],
                    }],
                }],
            },
            Step::WhileStep {
                condition: Expression::AccessPath {
                    variable_name: "running".to_string(),
                    accessors: Vec::new(),
                },
                body: vec![Step::ToolStep {
                    tool_id: "tick".to_string(),
                    arguments: Vec::new(),
                    output_variable: None,
                }],
            },
            Step::UserInteractionStep {
                prompt: "Confirm?".to_string(),
                output_variable: Some("confirmation".to_string()),
            },
        ],
        code: "def main():\n    for file in files:\n        post_summary(file)".to_string(),
    };

    let formatted = format_plan(&plan);

    assert!(formatted.contains("Plan: demo"));
    assert!(formatted.contains("Summarize recent standups."));
    assert!(formatted.contains("--- Steps ---"));
    assert!(formatted.contains("last_summary_date = \"\""));
    assert!(formatted.contains("for file in files:"));
    assert!(formatted.contains("if file > last_summary_date:"));
    assert!(formatted.contains("post_summary(file)"));
    assert!(formatted.contains("while running:"));
    assert!(formatted.contains("tick()"));
    assert!(formatted.contains("confirmation = collect_user_input(\"Confirm?\")"));
    assert!(formatted.contains("--- Code ---"));
    assert!(formatted.contains("def main():"));
}

#[test]
fn format_expression_writes_operators_and_literals() {
    let expr = Expression::Boolean {
        operator: ready::plan::BooleanOperator::And,
        operands: vec![
            Expression::Comparison {
                operator: ComparisonOperator::NotIn,
                left: Box::new(Expression::Literal { value: LiteralValue::String("a".to_string()) }),
                right: Box::new(Expression::AccessPath { variable_name: "xs".to_string(), accessors: vec![Accessor::Index(0)] }),
            },
            Expression::Not { operand: Box::new(Expression::Literal { value: LiteralValue::Null }) },
        ],
    };
    assert_eq!(format_expression(&expr), "\"a\" not in xs[0] and not null");
}
