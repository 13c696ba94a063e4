use evm::evm::{Address, EvmError, EVM};
use evm::state::State;
use evm::word::Word;

fn init_evm() -> EVM {
    EVM::new(Address::zero(), vec![], 1000, Word::zero(), vec![])
}

#[test]
fn test_simple_add() {
    let mut my_evm = init_evm();
    let program = [0x60, 0x42, 0x60, 0xFF, 0x01];
    // 0x60 opcode -> PUSH1 -> push the next 1 byte onto the stack
    // 0x42 -> 66
    // 0xFF -> 255
    // 0x01 opcode -> ADD

    // load program
    my_evm.program = program.to_vec();
    let output = my_evm.run();
    assert!(output.is_ok());
    assert_eq!(my_evm.stack.len(), 1);
    assert_eq!(my_evm.stack.peek(0).unwrap(), Word::from_u64(321));
    assert_eq!(my_evm.pc, 5);
}

#[test]
fn test_memory_store_load() {
    let mut my_evm = init_evm();
    let program = vec![
        0x60, 0xFF, // PUSH1 0xFF
        0x60, 0x00, // PUSH1 0x00
        0x52, // MSTORE
        0x60, 0x00, // PUSH1 0x00
        0x51, // MLOAD
    ];
    // load program
    my_evm.program = program;
    let output = my_evm.run();
    assert!(output.is_ok());
    assert_eq!(my_evm.stack.peek(0).unwrap(), Word::from_u64(0xFF));
    assert_eq!(my_evm.pc, 8);
}

#[test]
fn test_storage_persistence() {
    let mut my_evm = init_evm();
    let program = vec![
        0x60, 0x69, // PUSH1 0X69
        0x60, 0x01, // PUSH1 0X01
        0x55,
    ]; // SSTORE
    // load bytecode
    my_evm.program = program;
    // increase gas
    my_evm.gas = 30000;

    let output = my_evm.run();
    assert!(output.is_ok());
    let key = Word::from_u64(0x01);
    let value = Word::from_u64(0x69);
    let retrieved_val = my_evm.storage.load(key);
    assert_eq!(retrieved_val.1, value);
}

#[test]
fn test_out_of_gas() {
    let mut my_evm = init_evm();
    let program = vec![
        0x60, 0x69, // PUSH1 0X69
        0x60, 0x01, // PUSH1 0X01
        0x55,
    ]; // SSTORE
    // load bytecode
    my_evm.program = program;
    let output = my_evm.run();
    assert!(output.is_err());
    assert_eq!(output, Err(EvmError::OutOfGas));
}

#[test]
fn test_stack_underflow() {
    let mut my_evm = init_evm();
    let program = vec![
        0x50, // POP on an empty stack
    ];
    // load bytecode
    my_evm.program = program;
    let output = my_evm.run();
    assert!(output.is_err());
    assert_eq!(output, Err(EvmError::StackUnderflow));
}

#[test]
fn test_stack_overflow() {
    let mut my_evm = init_evm();
    let mut program = Vec::new();
    for _ in 0..1025 {
        program.push(0x60); // PUSH1
        program.push(0x00); // 0
    }
    // load bytecode
    my_evm.program = program;
    // since each PUSH1 costs 3 gas, we need to upgrade gas to 1025 * 3
    my_evm.gas = 1025 * 3;
    let output = my_evm.run();
    assert!(output.is_err());
    assert_eq!(output, Err(EvmError::StackOverflow));
}

#[test]
fn test_state() {
    let _ = State::new(Address::zero(), vec![], 1000, Word::zero(), vec![]);
}

#[test]
fn test_reset_rewinds_everything_mutable() {
    let mut my_evm = init_evm();
    my_evm.program = vec![0x60, 0x01, 0x60, 0x02, 0x01];
    my_evm.run().unwrap();
    assert_eq!(my_evm.stack.len(), 1);
    let gas_left = my_evm.gas;
    my_evm.reset();
    assert_eq!(my_evm.pc, 0);
    assert_eq!(my_evm.stack.len(), 0);
    assert_eq!(my_evm.memory.memory.len(), 0);
    assert_eq!(my_evm.gas, gas_left);
    assert_eq!(my_evm.program, vec![0x60, 0x01, 0x60, 0x02, 0x01]);
}

#[test]
fn test_step_runs_one_opcode_then_reports_halt() {
    let mut my_evm = init_evm();
    my_evm.program = vec![0x60, 0x2A, 0x00];
    assert_eq!(my_evm.step().unwrap(), true);
    assert_eq!(my_evm.pc, 2);
    assert_eq!(my_evm.stack.len(), 1);
    assert_eq!(my_evm.step().unwrap(), true); // STOP executes
    assert_eq!(my_evm.step().unwrap(), false); // machine has halted
    assert!(my_evm.stop_flag);
    assert!(!my_evm.revert_flag);
}
