use exercises::global_stack::GlobalStack;

#[test]
fn clones_share_one_stack() {
    let stack = GlobalStack::new();
    stack.push(42);
    let other = stack.clone();
    other.push(43);
    assert_eq!(stack.len(), 2);
    assert_eq!(stack.pop(), Some(43));
    assert_eq!(other.pop(), Some(42));
    assert_eq!(stack.pop(), None);
    assert_eq!(other.len(), 0);
}
