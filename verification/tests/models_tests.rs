use ready::tools::models::{
    generate_prompt_stubs, render_class_stub, FieldDescription, ToolArgumentDescription, ToolDescription,
    ToolReturnDescription,
};

fn field(name: &str, value_type: &str) -> FieldDescription {
    FieldDescription {
        name: name.to_string(),
        description: String::new(),
        value_type: value_type.to_string(),
        fields: Vec::new(),
    }
}

fn described_field(name: &str, value_type: &str, description: &str) -> FieldDescription {
    FieldDescription {
        name: name.to_string(),
        description: description.to_string(),
        value_type: value_type.to_string(),
        fields: Vec::new(),
    }
}

fn make_tool(tool_id: &str, return_type: Option<&str>, fields: Vec<FieldDescription>) -> ToolDescription {
    ToolDescription {
        id: tool_id.to_string(),
        description: String::new(),
        arguments: Vec::new(),
        returns: ToolReturnDescription {
            name: None,
            description: String::new(),
            value_type: return_type.map(str::to_string),
            fields,
        },
    }
}

#[test]
fn render_class_stub_basic() {
    let stub = render_class_stub("MyType", &[field("id", "str"), field("score", "float")]);

    assert_eq!(stub, "class MyType:\n    id: str\n    score: float");
}

#[test]
fn render_class_stub_with_descriptions() {
    let stub = render_class_stub(
        "Item",
        &[described_field("name", "str", "The name"), described_field("count", "int", "How many")],
    );

    assert!(stub.contains("# The name"));
    assert!(stub.contains("# How many"));
    assert!(stub.contains("name: str  # The name"));
    assert!(stub.contains("count: int  # How many"));
}

#[test]
fn generate_prompt_stubs_deduplicates_class() {
    let tool1 = make_tool("tool1", Some("Shared"), vec![field("x", "int")]);
    let tool2 = make_tool("tool2", Some("Shared"), vec![field("x", "int")]);

    let result = generate_prompt_stubs(&[tool1, tool2]);

    assert_eq!(result.matches("class Shared:").count(), 1);
}

#[test]
fn generate_prompt_stubs_no_fields_no_class() {
    let tool = ToolDescription {
        id: "get_name".to_string(),
        description: String::new(),
        arguments: Vec::new(),
        returns: ToolReturnDescription {
            name: None,
            description: String::new(),
            value_type: Some("str".to_string()),
            fields: Vec::new(),
        },
    };

    let result = generate_prompt_stubs(&[tool]);

    assert!(!result.contains("class "));
    assert!(result.contains("def get_name"));
}

#[test]
fn generate_prompt_stubs_classes_before_functions() {
    let tool = make_tool("get_item", Some("Item"), vec![field("val", "int")]);

    let result = generate_prompt_stubs(&[tool]);

    let class_pos = result.find("class Item:").expect("class stub should exist");
    let func_pos = result.find("def get_item").expect("function stub should exist");
    assert!(class_pos < func_pos);
}

#[test]
fn generate_prompt_stubs_nested_types_in_dependency_order() {
    let tool = make_tool(
        "get_outer",
        Some("Outer"),
        vec![FieldDescription {
            name: "child".to_string(),
            description: String::new(),
            value_type: "Inner".to_string(),
            fields: vec![field("v", "int")],
        }],
    );

    let result = generate_prompt_stubs(&[tool]);

    let inner_pos = result.find("class Inner:").expect("inner class should exist");
    let outer_pos = result.find("class Outer:").expect("outer class should exist");
    assert!(inner_pos < outer_pos);
}

#[test]
fn to_python_stub_unchanged_for_simple_tools() {
    let tool = ToolDescription {
        id: "summarize".to_string(),
        description: "Summarize a message.".to_string(),
        arguments: Vec::new(),
        returns: ToolReturnDescription {
            name: None,
            description: String::new(),
            value_type: Some("str".to_string()),
            fields: Vec::new(),
        },
    };

    assert_eq!(tool.to_python_stub(), "def summarize() -> str:\n    \"\"\"Summarize a message.\"\"\"\n    ...");
}

#[test]
fn to_python_stub_renders_arguments_with_defaults() {
    let tool = ToolDescription {
        id: "search".to_string(),
        description: String::new(),
        arguments: vec![
            ToolArgumentDescription {
                name: "query".to_string(),
                description: String::new(),
                value_type: "str".to_string(),
                default: None,
            },
            ToolArgumentDescription {
                name: "limit".to_string(),
                description: String::new(),
                value_type: "int".to_string(),
                default: Some("10".to_string()),
            },
        ],
        returns: ToolReturnDescription { name: None, description: String::new(), value_type: None, fields: Vec::new() },
    };
    assert_eq!(tool.to_python_stub(), "def search(query: str, limit: int = 10) -> Any:\n    ...");
}

#[test]
fn class_stub_uses_list_element_type() {
    let returns = ToolReturnDescription {
        name: None,
        description: String::new(),
        value_type: Some("list[Row]".to_string()),
        fields: vec![field("id", "int")],
    };
    assert_eq!(returns.to_class_stub(), Some("class Row:\n    id: int".to_string()));
    let plain = ToolReturnDescription { name: None, description: String::new(), value_type: Some("Row".to_string()), fields: Vec::new() };
    assert_eq!(plain.to_class_stub(), None);
}

#[test]
fn prompt_stubs_are_separated_by_blank_lines() {
    let a = make_tool("a", None, Vec::new());
    let b = make_tool("b", Some("B"), vec![field("x", "int")]);
    assert_eq!(
        generate_prompt_stubs(&[a, b]),
        "class B:\n    x: int\n\ndef a() -> Any:\n    ...\n\ndef b() -> B:\n    ..."
    );
}

#[test]
fn nested_class_is_named_by_the_innermost_element_type() {
    let mut grid = field("grid", "list[list[Cell]]");
    grid.fields = vec![field("value", "int")];
    let tool = make_tool("board", Some("Board"), vec![grid]);
    let result = generate_prompt_stubs(&[tool]);
    assert!(result.contains("class Cell:"), "{result}");
    assert!(!result.contains("class list[Cell]"), "{result}");
}
