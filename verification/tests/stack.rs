use tardi::consts::{MAX_OUTPUT, MAX_STACK, MachineWord};
use tardi::stack::Stack;

#[test]
fn overflow_wraps() {
    let mut stack = Stack::<MachineWord, MAX_STACK>::default();
    // Push five more elements that the stack can store.
    for i in 0..(MAX_STACK + 5) {
        stack.push(i as MachineWord);
    }
    for i in (5..(MAX_STACK + 5)).rev() {
        assert_eq!(i as MachineWord, stack.pop());
    }
}

#[test]
fn underflow_returns_default() {
    let mut stack = Stack::<MachineWord, MAX_STACK>::default();
    stack.push(1 as MachineWord);
    assert_eq!(1 as MachineWord, stack.pop());
    for _ in 0..(2 * MAX_STACK) {
        assert_eq!(MachineWord::default(), stack.pop());
    }
}

#[test]
fn push_pop_peek() {
    let mut stack = Stack::<MachineWord, MAX_STACK>::default();
    stack.push(1 as MachineWord);
    stack.push(2 as MachineWord);
    assert_eq!(2 as MachineWord, stack.peek());
    assert_eq!(1 as MachineWord, stack.peek_at(1));
    assert_eq!(2 as MachineWord, stack.pop());
    assert_eq!(1 as MachineWord, stack.pop());
    assert_eq!(MachineWord::default(), stack.pop());
}

#[test]
fn len() {
    let mut stack = Stack::<MachineWord, MAX_STACK>::default();
    assert_eq!(0, stack.len());
    stack.push(MachineWord::default());
    assert_eq!(1, stack.len());
    let _ = stack.peek();
    assert_eq!(1, stack.len());
    let _ = stack.pop();
    assert_eq!(0, stack.len());
    // Poping from empty does not change len.
    let _ = stack.pop();
    assert_eq!(0, stack.len());
    for _ in 0..MAX_STACK {
        stack.push(MachineWord::default());
    }
    assert_eq!(MAX_STACK, stack.len());
    stack.push(MachineWord::default());
    // Overflowing does not increase above max length.
    assert_eq!(MAX_STACK, stack.len());
    let _ = stack.pop();
    assert_eq!(MAX_STACK - 1, stack.len());
}

#[test]
fn stack_keeps_most_recent_values_in_order() {
    let mut stack = Stack::<MachineWord, MAX_OUTPUT>::default();
    for i in 0..40 {
        stack.push(i);
    }
    let expected: Vec<MachineWord> = (24..40).collect();
    assert_eq!(expected, stack.to_vec());
}

#[test]
fn stack_pop_undoes_push_below_capacity() {
    let mut stack = Stack::<MachineWord, 4>::default();
    stack.push(7);
    stack.push(8);
    let before = stack.to_vec();
    stack.push(9);
    assert_eq!(9, stack.peek());
    assert_eq!(9, stack.pop());
    assert_eq!(before, stack.to_vec());
}

#[test]
fn stack_peek_at_past_depth_is_default() {
    let mut stack = Stack::<MachineWord, 4>::default();
    for v in [1, 2, 3, 4, 5, 6] {
        stack.push(v);
    }
    assert_eq!(vec![3, 4, 5, 6], stack.to_vec());
    assert_eq!(6, stack.peek_at(0));
    assert_eq!(3, stack.peek_at(3));
    assert_eq!(0, stack.peek_at(4));
    let copy = stack.clone();
    assert_eq!(stack.to_vec(), copy.to_vec());
}
