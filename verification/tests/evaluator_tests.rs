use ready::error::ReadyError;
use ready::execution::evaluator::{evaluate_comparison, evaluate_expression};
use ready::execution::scope::Variables;
use ready::json::{JsonMember, JsonNumber, JsonValue};
use ready::plan::{Accessor, BinaryOperator, BooleanOperator, ComparisonOperator, Expression, LiteralValue, UnaryOperator};

fn to_json(v: serde_json::Value) -> JsonValue {
    match v {
        serde_json::Value::Null => JsonValue::Null,
        serde_json::Value::Bool(b) => JsonValue::Bool(b),
        serde_json::Value::Number(n) => {
            if let Some(u) = n.as_u64() {
                JsonValue::Number(JsonNumber::PosInt(u))
            } else if let Some(i) = n.as_i64() {
                JsonValue::Number(JsonNumber::NegInt(i))
            } else {
                JsonValue::Number(JsonNumber::Float(n.to_string()))
            }
        }
        serde_json::Value::String(s) => JsonValue::String(s),
        serde_json::Value::Array(items) => JsonValue::Array(items.into_iter().map(to_json).collect()),
        serde_json::Value::Object(map) => JsonValue::Object(
            map.into_iter().map(|(key, value)| JsonMember { key, value: to_json(value) }).collect(),
        ),
    }
}

fn to_literal(v: serde_json::Value) -> LiteralValue {
    match v {
        serde_json::Value::Null => LiteralValue::Null,
        serde_json::Value::Bool(b) => LiteralValue::Bool(b),
        serde_json::Value::Number(n) => {
            if let Some(i) = n.as_i64() {
                LiteralValue::Integer(i)
            } else {
                LiteralValue::Float(n.to_string())
            }
        }
        serde_json::Value::String(s) => LiteralValue::String(s),
        serde_json::Value::Array(items) => LiteralValue::Array(items.into_iter().map(to_literal).collect()),
        serde_json::Value::Object(map) => {
            LiteralValue::Object(map.into_iter().map(|(k, v)| (k, to_literal(v))).collect())
        }
    }
}

fn j(text: &str) -> serde_json::Value {
    serde_json::from_str(text).expect("valid JSON")
}

fn scope(entries: &[(&str, serde_json::Value)]) -> Variables {
    let mut vars = Variables::new();
    for (key, value) in entries {
        vars.insert(key.to_string(), to_json(value.clone()));
    }
    vars
}

fn access(variable_name: &str) -> Expression {
    Expression::AccessPath { variable_name: variable_name.to_string(), accessors: Vec::new() }
}

fn literal(value: serde_json::Value) -> Expression {
    Expression::Literal { value: to_literal(value) }
}

fn eval(expr: &Expression, variables: &[(&str, serde_json::Value)]) -> JsonValue {
    evaluate_expression(expr, &scope(variables)).expect("expression should evaluate")
}

fn eval_err(expr: &Expression, variables: &[(&str, serde_json::Value)]) -> ReadyError {
    evaluate_expression(expr, &scope(variables)).expect_err("expression should fail")
}

fn cmp(operator: ComparisonOperator, left: serde_json::Value, right: serde_json::Value) -> Expression {
    Expression::Comparison { operator, left: Box::new(literal(left)), right: Box::new(literal(right)) }
}

fn boolean(operator: BooleanOperator, values: Vec<serde_json::Value>) -> Expression {
    Expression::Boolean { operator, operands: values.into_iter().map(literal).collect() }
}

fn not(value: serde_json::Value) -> Expression {
    Expression::Not { operand: Box::new(literal(value)) }
}

fn binary(operator: BinaryOperator, left: serde_json::Value, right: serde_json::Value) -> Expression {
    Expression::BinaryExpression { operator, left: Box::new(literal(left)), right: Box::new(literal(right)) }
}

#[test]
fn access_path_returns_value_from_scope_across_supported_json_types() {
    let cases = vec![
        ("greeting", j("\"hello\"")),
        ("count", j("42")),
        ("empty", serde_json::Value::Null),
        ("items", j("[1, 2, 3]")),
        ("data", j("{\"key\": \"val\"}")),
    ];

    for (name, value) in cases {
        assert_eq!(eval(&access(name), &[(name, value.clone())]), to_json(value));
    }
}

#[test]
fn undefined_variable_raises_for_missing_reference() {
    let error = eval_err(&access("missing"), &[]);
    assert!(matches!(error, ReadyError::Evaluation(message) if message.contains("Undefined variable: 'missing'")));
}

#[test]
fn literal_returns_value_across_supported_json_types() {
    let cases = vec![j("\"world\""), j("99"), j("3.14"), j("true"), serde_json::Value::Null];

    for value in cases {
        assert_eq!(eval(&literal(value.clone()), &[]), to_json(value));
    }
}

#[test]
fn literal_does_not_consult_variables() {
    assert_eq!(eval(&literal(j("\"fixed\"")), &[("fixed", j("\"overridden\""))]), to_json(j("\"fixed\"")));
}

#[test]
fn concat_expression_combines_literal_and_variable() {
    let expr = Expression::ConcatExpression { parts: vec![literal(j("\"Hello \"")), access("name")] };
    assert_eq!(eval(&expr, &[("name", j("\"Bob\""))]), to_json(j("\"Hello Bob\"")));
}

#[test]
fn binary_expression_addition() {
    assert_eq!(eval(&binary(BinaryOperator::Add, j("10"), j("3")), &[]), to_json(j("13")));
}

#[test]
fn binary_expression_exponentiation() {
    assert_eq!(eval(&binary(BinaryOperator::Power, j("2"), j("3")), &[]), to_json(j("8")));
}

#[test]
fn unary_expression_negation() {
    let expr = Expression::UnaryExpression { operator: UnaryOperator::Minus, operand: Box::new(literal(j("5"))) };
    assert_eq!(eval(&expr, &[]), to_json(j("-5")));
}

#[test]
fn binary_expression_modulo() {
    assert_eq!(eval(&binary(BinaryOperator::Modulo, j("10"), j("3")), &[]), to_json(j("1")));
}

#[test]
fn comparison_operators_follow_expected_truth_table() {
    let cases = vec![
        (ComparisonOperator::Equal, j("1"), j("1"), j("true")),
        (ComparisonOperator::Equal, j("1"), j("2"), j("false")),
        (ComparisonOperator::NotEqual, j("1"), j("2"), j("true")),
        (ComparisonOperator::NotEqual, j("1"), j("1"), j("false")),
        (ComparisonOperator::LessThan, j("1"), j("2"), j("true")),
        (ComparisonOperator::LessThan, j("2"), j("1"), j("false")),
        (ComparisonOperator::GreaterThan, j("2"), j("1"), j("true")),
        (ComparisonOperator::GreaterThan, j("1"), j("2"), j("false")),
        (ComparisonOperator::LessThanOrEqual, j("1"), j("1"), j("true")),
        (ComparisonOperator::LessThanOrEqual, j("2"), j("1"), j("false")),
        (ComparisonOperator::GreaterThanOrEqual, j("1"), j("1"), j("true")),
        (ComparisonOperator::GreaterThanOrEqual, j("1"), j("2"), j("false")),
        (ComparisonOperator::In, j("\"a\""), j("[\"a\", \"b\"]"), j("true")),
        (ComparisonOperator::In, j("\"c\""), j("[\"a\", \"b\"]"), j("false")),
        (ComparisonOperator::NotIn, j("\"c\""), j("[\"a\", \"b\"]"), j("true")),
        (ComparisonOperator::NotIn, j("\"a\""), j("[\"a\", \"b\"]"), j("false")),
        (ComparisonOperator::Is, serde_json::Value::Null, serde_json::Value::Null, j("true")),
        (ComparisonOperator::IsNot, serde_json::Value::Null, serde_json::Value::Null, j("false")),
    ];

    for (operator, left, right, expected) in cases {
        assert_eq!(eval(&cmp(operator, left, right), &[]), to_json(expected));
    }
}

#[test]
fn comparison_variable_vs_variable() {
    let expr = Expression::Comparison {
        operator: ComparisonOperator::Equal,
        left: Box::new(access("a")),
        right: Box::new(access("b")),
    };
    assert_eq!(eval(&expr, &[("a", j("5")), ("b", j("5"))]), JsonValue::Bool(true));
    assert_eq!(eval(&expr, &[("a", j("5")), ("b", j("6"))]), JsonValue::Bool(false));
}

#[test]
fn comparison_variable_vs_literal() {
    let expr = Expression::Comparison {
        operator: ComparisonOperator::GreaterThan,
        left: Box::new(access("score")),
        right: Box::new(literal(j("50"))),
    };
    assert_eq!(eval(&expr, &[("score", j("75"))]), JsonValue::Bool(true));
    assert_eq!(eval(&expr, &[("score", j("25"))]), JsonValue::Bool(false));
}

#[test]
fn boolean_operators_follow_expected_truth_table() {
    let cases = vec![
        (boolean(BooleanOperator::And, vec![j("true"), j("true")]), true),
        (boolean(BooleanOperator::And, vec![j("true"), j("false")]), false),
        (boolean(BooleanOperator::And, vec![j("false"), j("true")]), false),
        (boolean(BooleanOperator::Or, vec![j("true"), j("false")]), true),
        (boolean(BooleanOperator::Or, vec![j("false"), j("true")]), true),
        (boolean(BooleanOperator::Or, vec![j("false"), j("false")]), false),
    ];

    for (expr, expected) in cases {
        assert_eq!(eval(&expr, &[]), JsonValue::Bool(expected));
    }
}

#[test]
fn not_coerces_values_using_truthiness_rules() {
    let cases = vec![
        (j("true"), false),
        (j("false"), true),
        (j("1"), false),
        (j("0"), true),
        (j("\"non-empty\""), false),
        (j("\"\""), true),
    ];

    for (value, expected) in cases {
        assert_eq!(eval(&not(value), &[]), JsonValue::Bool(expected));
    }
}

#[test]
fn nested_comparison_inside_boolean_and() {
    let expr = Expression::Boolean {
        operator: BooleanOperator::And,
        operands: vec![
            Expression::Comparison {
                operator: ComparisonOperator::GreaterThan,
                left: Box::new(access("x")),
                right: Box::new(literal(j("0"))),
            },
            Expression::Comparison {
                operator: ComparisonOperator::LessThan,
                left: Box::new(access("y")),
                right: Box::new(literal(j("10"))),
            },
        ],
    };
    assert_eq!(eval(&expr, &[("x", j("5")), ("y", j("3"))]), JsonValue::Bool(true));
    assert_eq!(eval(&expr, &[("x", j("-1")), ("y", j("3"))]), JsonValue::Bool(false));
}

#[test]
fn nested_not_around_comparison() {
    let expr = Expression::Not {
        operand: Box::new(Expression::Comparison {
            operator: ComparisonOperator::Equal,
            left: Box::new(access("x")),
            right: Box::new(literal(j("0"))),
        }),
    };
    assert_eq!(eval(&expr, &[("x", j("0"))]), JsonValue::Bool(false));
    assert_eq!(eval(&expr, &[("x", j("1"))]), JsonValue::Bool(true));
}

#[test]
fn attribute_on_object() {
    let expr = Expression::AccessPath { variable_name: "pt".to_string(), accessors: vec![Accessor::Attribute("x".to_string())] };
    assert_eq!(eval(&expr, &[("pt", j("{\"x\": 3, \"y\": 7}"))]), to_json(j("3")));
}

#[test]
fn index_on_list() {
    let expr = Expression::AccessPath { variable_name: "items".to_string(), accessors: vec![Accessor::Index(1)] };
    assert_eq!(eval(&expr, &[("items", j("[10, 20, 30]"))]), to_json(j("20")));
}

#[test]
fn string_key_on_dict() {
    let expr = Expression::AccessPath { variable_name: "data".to_string(), accessors: vec![Accessor::Key("name".to_string())] };
    assert_eq!(eval(&expr, &[("data", j("{\"name\": \"Alice\"}"))]), to_json(j("\"Alice\"")));
}

#[test]
fn chained_access() {
    let expr = Expression::AccessPath {
        variable_name: "data".to_string(),
        accessors: vec![Accessor::Key("points".to_string()), Accessor::Index(0), Accessor::Attribute("y".to_string())],
    };
    assert_eq!(
        eval(&expr, &[("data", j("{\"points\": [{\"x\": 1, \"y\": 2}, {\"x\": 3, \"y\": 4}]}"))]),
        to_json(j("2"))
    );
}

#[test]
fn undefined_base_raises() {
    let expr = Expression::AccessPath { variable_name: "missing".to_string(), accessors: vec![Accessor::Attribute("x".to_string())] };
    let error = eval_err(&expr, &[]);
    assert!(matches!(error, ReadyError::Evaluation(message) if message.contains("Undefined variable: 'missing'")));
}

#[test]
fn bad_attribute_raises() {
    let expr = Expression::AccessPath { variable_name: "pt".to_string(), accessors: vec![Accessor::Attribute("z".to_string())] };
    let error = eval_err(&expr, &[("pt", j("{\"x\": 1, \"y\": 2}"))]);
    assert!(matches!(error, ReadyError::Evaluation(message) if message.contains("Attribute 'z' not found")));
}

#[test]
fn bad_index_raises() {
    let expr = Expression::AccessPath { variable_name: "items".to_string(), accessors: vec![Accessor::Index(99)] };
    let error = eval_err(&expr, &[("items", j("[1, 2, 3]"))]);
    assert!(matches!(error, ReadyError::Evaluation(message) if message.contains("Array index out of range: 99")));
}

#[test]
fn condition_with_attribute() {
    let expr = Expression::AccessPath { variable_name: "pt".to_string(), accessors: vec![Accessor::Attribute("x".to_string())] };
    assert_eq!(eval(&expr, &[("pt", j("{\"x\": 5, \"y\": 0}"))]), to_json(j("5")));
}

#[test]
fn condition_with_subscript() {
    let expr = Expression::AccessPath { variable_name: "flags".to_string(), accessors: vec![Accessor::Key("active".to_string())] };
    assert_eq!(eval(&expr, &[("flags", j("{\"active\": true}"))]), JsonValue::Bool(true));
}

#[test]
fn comparison_with_accessed_value() {
    let expr = Expression::Comparison {
        operator: ComparisonOperator::GreaterThan,
        left: Box::new(Expression::AccessPath { variable_name: "pt".to_string(), accessors: vec![Accessor::Attribute("x".to_string())] }),
        right: Box::new(literal(j("5"))),
    };
    assert_eq!(eval(&expr, &[("pt", j("{\"x\": 10, \"y\": 0}"))]), JsonValue::Bool(true));
}

#[test]
fn integer_arithmetic_is_exact_and_reports_overflow_and_zero_division() {
    assert_eq!(eval(&binary(BinaryOperator::Subtract, j("3"), j("10")), &[]), to_json(j("-7")));
    assert_eq!(eval(&binary(BinaryOperator::Multiply, j("-4"), j("6")), &[]), to_json(j("-24")));
    assert_eq!(eval(&binary(BinaryOperator::FloorDivide, j("-7"), j("2")), &[]), to_json(j("-3")));
    assert_eq!(eval(&binary(BinaryOperator::Modulo, j("-7"), j("2")), &[]), to_json(j("-1")));
    let overflow = eval_err(&binary(BinaryOperator::Multiply, j("9223372036854775807"), j("2")), &[]);
    assert!(matches!(overflow, ReadyError::Evaluation(m) if m == "Integer overflow"));
    let zero = eval_err(&binary(BinaryOperator::FloorDivide, j("1"), j("0")), &[]);
    assert!(matches!(zero, ReadyError::Evaluation(m) if m == "Division by zero"));
}

#[test]
fn non_numeric_operand_is_reported_with_its_type() {
    let error = eval_err(&binary(BinaryOperator::Add, j("\"a\""), j("1")), &[]);
    assert!(matches!(error, ReadyError::Evaluation(m) if m == "Expected numeric value, got string"));
}

#[test]
fn dict_and_array_expressions_build_values() {
    let expr = Expression::DictExpression {
        entries: vec![("b".to_string(), access("x")), ("a".to_string(), literal(j("1")))],
    };
    assert_eq!(eval(&expr, &[("x", j("true"))]), to_json(j("{\"a\": 1, \"b\": true}")));
    let arr = Expression::ArrayExpression { elements: vec![access("x"), literal(j("\"s\""))] };
    assert_eq!(eval(&arr, &[("x", j("2"))]), to_json(j("[2, \"s\"]")));
}

#[test]
fn concat_renders_non_strings_as_json() {
    let expr = Expression::ConcatExpression { parts: vec![literal(j("\"n=\"")), access("n"), access("o")] };
    assert_eq!(eval(&expr, &[("n", j("3")), ("o", j("{\"k\": [1, null]}"))]), to_json(j("\"n=3{\\\"k\\\":[1,null]}\"")));
}

#[test]
fn membership_in_objects_and_strings() {
    assert_eq!(eval(&cmp(ComparisonOperator::In, j("\"k\""), j("{\"k\": 1}")), &[]), JsonValue::Bool(true));
    assert_eq!(eval(&cmp(ComparisonOperator::In, j("\"ell\""), j("\"hello\"")), &[]), JsonValue::Bool(true));
    let error = eval_err(&cmp(ComparisonOperator::In, j("1"), j("5")), &[]);
    assert!(matches!(error, ReadyError::Evaluation(m) if m == "Operator 'in' not supported for number"));
}

#[test]
fn large_integers_are_ordered_by_their_f64_values() {
    let big = JsonValue::Number(JsonNumber::PosInt(9_007_199_254_740_993));
    let near = JsonValue::Number(JsonNumber::PosInt(9_007_199_254_740_992));
    assert_eq!(evaluate_comparison(&ComparisonOperator::LessThan, &near, &big).unwrap(), false);
    assert_eq!(evaluate_comparison(&ComparisonOperator::LessThanOrEqual, &big, &near).unwrap(), true);
    let max = JsonValue::Number(JsonNumber::PosInt(u64::MAX));
    let below = JsonValue::Number(JsonNumber::PosInt(u64::MAX - 1000));
    assert_eq!(evaluate_comparison(&ComparisonOperator::GreaterThan, &max, &below).unwrap(), false);
    let small = JsonValue::Number(JsonNumber::NegInt(-3));
    let three = JsonValue::Number(JsonNumber::PosInt(3));
    assert_eq!(evaluate_comparison(&ComparisonOperator::LessThan, &small, &three).unwrap(), true);
    let odd = JsonValue::Number(JsonNumber::NegInt(-9_007_199_254_740_995));
    let even = JsonValue::Number(JsonNumber::NegInt(-9_007_199_254_740_996));
    assert_eq!(evaluate_comparison(&ComparisonOperator::GreaterThanOrEqual, &even, &odd).unwrap(), true);
    assert_eq!(evaluate_comparison(&ComparisonOperator::LessThan, &even, &odd).unwrap(), false);
}
