use ready::error::ReadyError;
use ready::tools::registry::ToolIndex;

fn ids(names: &[&str]) -> Vec<String> {
    names.iter().map(|n| n.to_string()).collect()
}

#[test]
fn empty_registry_returns_no_tools() {
    let index = ToolIndex::new();
    assert!(index.entries.is_empty());
    assert!(!index.has_tool("anything"));
}

#[test]
fn duplicate_tool_registration_returns_error() {
    let mut index = ToolIndex::new();
    assert_eq!(index.register_module(&ids(&["tool_x"])).unwrap(), 0);
    let error = index.register_module(&ids(&["tool_x"])).expect_err("duplicate tool registration should fail");
    assert!(matches!(error, ReadyError::DuplicateTool(tool_id) if tool_id == "tool_x"));
    assert_eq!(index.lookup("tool_x"), Some(0));
    assert_eq!(index.module_count, 1);
}

#[test]
fn has_tool_reflects_registered_ids() {
    let mut index = ToolIndex::new();
    index.register_module(&ids(&["tool_a", "tool_b"])).unwrap();
    assert!(index.has_tool("tool_a"));
    assert!(index.has_tool("tool_b"));
    assert!(!index.has_tool("tool_c"));
}

#[test]
fn tools_route_to_the_module_that_registered_them() {
    let mut index = ToolIndex::new();
    assert_eq!(index.register_module(&ids(&["tool_a1"])).unwrap(), 0);
    assert_eq!(index.register_module(&ids(&["tool_b1", "tool_b2"])).unwrap(), 1);
    assert_eq!(index.lookup("tool_a1"), Some(0));
    assert_eq!(index.lookup("tool_b2"), Some(1));
    assert_eq!(index.lookup("nonexistent"), None);
}

#[test]
fn a_rejected_module_keeps_the_tools_bound_before_its_duplicate() {
    let mut index = ToolIndex::new();
    index.register_module(&ids(&["shared"])).unwrap();
    let error = index.register_module(&ids(&["fresh", "shared", "later"])).unwrap_err();
    assert!(matches!(error, ReadyError::DuplicateTool(tool_id) if tool_id == "shared"));
    assert_eq!(index.lookup("fresh"), Some(1));
    assert_eq!(index.lookup("later"), None);
    assert_eq!(index.module_count, 1);
}
