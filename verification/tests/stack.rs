use evm::evm::EvmError;
use evm::stack::Stack;
use evm::word::Word;

fn create_stack() -> Stack {
    Stack::new()
}

#[test]
fn test_create_stack() {
    assert_eq!(create_stack().len(), 0);
}

#[test]
fn test_push_item_to_stack() {
    let mut new_stack = create_stack();
    let _ = new_stack.push(Word::from_u64(0x9222));
    let _ = new_stack.push(Word::from_u64(0x87222));
    assert_eq!(new_stack.len(), 2);
}

#[test]
fn test_should_fail_if_stack_overflow() {
    let mut new_stack = create_stack();
    for _ in 0..=1024 {
        let res = new_stack.push(Word::from_u64(0x9222));
        if res.is_err() {
            assert_eq!(res.unwrap_err(), EvmError::StackOverflow);
        }
    }
}

#[test]
fn test_pop_item_from_stack() {
    let mut new_stack = create_stack();
    let _ = new_stack.push(Word::from_u64(0x9222));
    let _ = new_stack.push(Word::from_u64(0x87222));
    let _ = new_stack.pop();
    assert_eq!(new_stack.peek(0).unwrap(), Word::from_u64(0x9222));
    assert_eq!(new_stack.len(), 1);
}

#[test]
fn test_should_fail_if_stack_underflow() {
    let mut new_stack = create_stack();
    let _ = new_stack.push(Word::from_u64(0x9222));
    let _ = new_stack.push(Word::from_u64(0x87222));
    for _ in 0..5 {
        let res = new_stack.pop();
        if res.is_err() {
            assert_eq!(res.unwrap_err(), EvmError::StackUnderflow);
        }
    }
}

#[test]
fn test_swap_exchanges_top_with_nth() {
    let mut s = create_stack();
    let _ = s.push(Word::from_u64(1));
    let _ = s.push(Word::from_u64(2));
    let _ = s.push(Word::from_u64(3));
    s.swap(2).unwrap();
    assert_eq!(s.peek(0).unwrap(), Word::from_u64(1));
    assert_eq!(s.peek(2).unwrap(), Word::from_u64(3));
    assert_eq!(s.swap(3).unwrap_err(), EvmError::StackUnderflow);
}
