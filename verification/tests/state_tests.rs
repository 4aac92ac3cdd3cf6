use ready::execution::state::InstructionPointer;

#[test]
fn new_starts_at_zero() {
    assert_eq!(InstructionPointer::new().path, vec![0]);
}

#[test]
fn depth_matches_path_length() {
    assert_eq!(InstructionPointer::new().depth(), 1);
}

#[test]
fn advance_increments_current_index() {
    let mut ip = InstructionPointer::new();
    ip.advance();
    assert_eq!(ip.path, vec![1]);
}

#[test]
fn descend_appends_zero() {
    let mut ip = InstructionPointer::new();
    ip.advance();
    ip.descend();
    assert_eq!(ip.path, vec![1, 0]);
}

#[test]
fn snapshot_returns_current_path_copy() {
    let mut ip = InstructionPointer::new();
    ip.advance();
    ip.descend();
    ip.advance();
    assert_eq!(ip.snapshot(), vec![1, 1]);
}

#[test]
fn ascend_pops_child_and_advances_parent() {
    let mut ip = InstructionPointer::new();
    ip.advance();
    ip.descend();
    ip.advance();
    ip.ascend();
    assert_eq!(ip.path, vec![2]);
}

#[test]
fn from_path_rejects_an_empty_path() {
    assert!(InstructionPointer::from_path(Vec::new()).is_err());
    assert_eq!(InstructionPointer::from_path(vec![3, 1]).unwrap().path, vec![3, 1]);
}

#[test]
fn descending_then_ascending_equals_advancing() {
    let mut a = InstructionPointer::from_path(vec![4, 2]).unwrap();
    a.descend();
    a.ascend();
    let mut b = InstructionPointer::from_path(vec![4, 2]).unwrap();
    b.advance();
    assert_eq!(a.path, b.path);
}
