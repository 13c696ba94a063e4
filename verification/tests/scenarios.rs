use evm::evm::{Address, EvmError, EVM};
use evm::helpers::get_supported_opcode_name;
use evm::word::Word;

fn machine(program: Vec<u8>, gas: u64) -> EVM {
    EVM::new(Address::zero(), program, gas, Word::zero(), vec![])
}

fn word_max() -> Word {
    Word { l0: u64::MAX, l1: u64::MAX, l2: u64::MAX, l3: u64::MAX }
}

fn word_from_u256(u: alloy_primitives::U256) -> Word {
    let l = u.into_limbs();
    Word { l0: l[0], l1: l[1], l2: l[2], l3: l[3] }
}

// Simple add uses exactly 9 gas and halts by falling off the end.
#[test]
fn test_simple_add_gas() {
    let mut vm = machine(vec![0x60, 0x42, 0x60, 0xFF, 0x01], 1000);
    vm.run().unwrap();
    assert_eq!(vm.gas, 1000 - 9);
    assert!(!vm.stop_flag);
    assert!(!vm.revert_flag);
}

// The stored word sits big-endian in the first memory word: 0xFF at byte
// 31, zeros elsewhere.
#[test]
fn test_memory_word_layout() {
    let mut vm = machine(vec![0x60, 0xFF, 0x60, 0x00, 0x52, 0x60, 0x00, 0x51], 1000);
    vm.run().unwrap();
    assert_eq!(vm.memory.memory.len(), 32);
    for i in 0..31 {
        assert_eq!(vm.memory.memory[i], 0);
    }
    assert_eq!(vm.memory.memory[31], 0xFF);
    assert_eq!(vm.pc, 8);
}

// PUSH32 then POP: stack as before, 5 gas, program counter at 34.
#[test]
fn test_push32_then_pop() {
    let mut program = vec![0x7F];
    for i in 0..32 {
        program.push(i as u8);
    }
    program.push(0x50);
    let mut vm = machine(program, 1000);
    vm.run().unwrap();
    assert_eq!(vm.stack.len(), 0);
    assert_eq!(vm.gas, 1000 - 5);
    assert_eq!(vm.pc, 34);
}

// A PUSH that runs out of program bytes pads the value with zeros on the
// right.
#[test]
fn test_push_pads_missing_bytes() {
    let mut vm = machine(vec![0x61, 0x12], 1000);
    vm.run().unwrap();
    assert_eq!(vm.stack.peek(0).unwrap(), Word::from_u64(0x1200));
    assert_eq!(vm.pc, 3);
}

// The countdown loop runs to its STOP with no error; the counter that was
// tested down to zero is left behind on the stack.
#[test]
fn test_countdown_loop() {
    let program = vec![
        0x60, 0x05, 0x5B, 0x80, 0x15, 0x60, 0x0F, 0x57, 0x60, 0x01, 0x90, 0x03, 0x60, 0x02,
        0x56, 0x5B, 0x00,
    ];
    let mut vm = machine(program, 1000);
    vm.run().unwrap();
    assert!(vm.stop_flag);
    assert!(!vm.revert_flag);
    assert_eq!(vm.stack.len(), 1);
    assert_eq!(vm.stack.peek(0).unwrap(), Word::zero());
}

// A jump to a 0x00 byte is refused: it is not a JUMPDEST.
#[test]
fn test_bad_jump() {
    let mut vm = machine(vec![0x60, 0x03, 0x56, 0x00, 0x00], 1000);
    let output = vm.run();
    assert_eq!(
        output,
        Err(EvmError::BadJumpDestination {
            dest: 3,
            reason: "Not a JUMPDEST opcode".to_string()
        })
    );
}

// A jump past the end of the program is refused with the other wording.
#[test]
fn test_jump_out_of_bounds() {
    let mut vm = machine(vec![0x60, 0x10, 0x56], 1000);
    let output = vm.run();
    assert_eq!(
        output,
        Err(EvmError::BadJumpDestination { dest: 16, reason: "Out of bound".to_string() })
    );
}

// The core validates a jump target only by its byte value: a 0x5B inside a
// PUSH immediate passes.
#[test]
fn test_jump_into_push_immediate_passes() {
    let mut vm = machine(vec![0x60, 0x04, 0x56, 0x60, 0x5B, 0x00], 1000);
    vm.run().unwrap();
    assert!(vm.stop_flag);
}

// JUMPI falls through on a zero condition without validating the target.
#[test]
fn test_jumpi_zero_condition_falls_through() {
    let mut vm = machine(vec![0x60, 0x00, 0x60, 0x63, 0x57, 0x00], 1000);
    vm.run().unwrap();
    assert!(vm.stop_flag);
    assert_eq!(vm.stack.len(), 0);
}

// An unknown byte surfaces as UnknownOpcode with its hex name.
#[test]
fn test_unknown_opcode() {
    let mut vm = machine(vec![0xFE], 1000);
    let output = vm.run();
    assert_eq!(output, Err(EvmError::UnknownOpcode { opcode: "0xfe".to_string() }));
}

// The recognized-but-unwired data copy opcodes trap the same way.
#[test]
fn test_unimplemented_calldataload_traps() {
    let mut vm = machine(vec![0x35], 1000);
    let output = vm.run();
    assert_eq!(output, Err(EvmError::UnknownOpcode { opcode: "0x35".to_string() }));
}

// REVERT halts cleanly, sets both flags, and hands back the memory range.
#[test]
fn test_revert_returns_data() {
    let program = vec![
        0x60, 0xFF, 0x60, 0x00, 0x52, // MSTORE 0xFF at 0
        0x60, 0x20, 0x60, 0x00, 0xFD, // REVERT offset 0 size 32
    ];
    let mut vm = machine(program, 1000);
    vm.run().unwrap();
    assert!(vm.stop_flag);
    assert!(vm.revert_flag);
    assert_eq!(vm.return_data.len(), 32);
    assert_eq!(vm.return_data[31], 0xFF);
    assert_eq!(vm.return_data[0], 0);
}

// SSTORE prices: cold fill costs 2100 + 20000, rewriting the same value
// warm costs 100.
#[test]
fn test_sstore_gas_schedule() {
    let program = vec![
        0x60, 0x01, 0x60, 0x01, 0x55, // SSTORE 1 -> 1 (cold, zero to nonzero)
        0x60, 0x01, 0x60, 0x01, 0x55, // SSTORE 1 -> 1 again (warm, unchanged)
    ];
    let mut vm = machine(program, 30000);
    vm.run().unwrap();
    assert_eq!(30000 - vm.gas, 6 + 2100 + 20000 + 6 + 100);
}

// SSTORE then SLOAD reads the stored value back.
#[test]
fn test_sload_after_sstore() {
    let program = vec![0x60, 0x69, 0x60, 0x01, 0x55, 0x60, 0x01, 0x54];
    let mut vm = machine(program, 30000);
    vm.run().unwrap();
    assert_eq!(vm.stack.peek(0).unwrap(), Word::from_u64(0x69));
}

// TSTORE then TLOAD reads the transient value back, at a flat price.
#[test]
fn test_tstore_then_tload() {
    let program = vec![0x60, 0x69, 0x60, 0x01, 0x5D, 0x60, 0x01, 0x5C];
    let mut vm = machine(program, 1000);
    vm.run().unwrap();
    assert_eq!(vm.stack.peek(0).unwrap(), Word::from_u64(0x69));
    assert_eq!(1000 - vm.gas, 3 + 3 + 100 + 3 + 100);
}

// LOG1 records its topic and the memory payload.
#[test]
fn test_log_records_topics_and_data() {
    let program = vec![
        0x60, 0xFF, 0x60, 0x00, 0x52, // MSTORE 0xFF at 0
        0x60, 0xAA, // topic
        0x60, 0x20, // size 32
        0x60, 0x00, // offset 0
        0xA1, // LOG1
    ];
    let mut vm = machine(program, 10000);
    vm.run().unwrap();
    assert_eq!(vm.logs.len(), 1);
    assert_eq!(vm.logs[0].topics.len(), 1);
    assert_eq!(vm.logs[0].topics[0], Word::from_u64(0xAA));
    assert_eq!(vm.logs[0].data.len(), 32);
    assert_eq!(vm.logs[0].data[31], 0xFF);
}

// SHA3 hashes the memory range with the real Keccak-256.
#[test]
fn test_sha3_matches_keccak() {
    // Hash of the empty range.
    let mut vm = machine(vec![0x60, 0x00, 0x60, 0x00, 0x20], 1000);
    vm.run().unwrap();
    let expected = word_from_u256(alloy_primitives::keccak256([]).into());
    assert_eq!(vm.stack.peek(0).unwrap(), expected);

    // Hash of one 32-byte word holding 0xFF in its last byte.
    let program = vec![
        0x60, 0xFF, 0x60, 0x00, 0x52, // MSTORE
        0x60, 0x20, 0x60, 0x00, 0x20, // SHA3 offset 0 size 32
    ];
    let mut vm2 = machine(program, 1000);
    vm2.run().unwrap();
    let mut buf = [0u8; 32];
    buf[31] = 0xFF;
    let expected2 = word_from_u256(alloy_primitives::keccak256(buf).into());
    assert_eq!(vm2.stack.peek(0).unwrap(), expected2);
}

// Shifts of 256 or more wipe SHL and SHR, and SAR of a negative value
// leaves all ones.
#[test]
fn test_shift_saturation() {
    // value 1 shifted left by 0x100
    let mut vm = machine(vec![0x60, 0x01, 0x61, 0x01, 0x00, 0x1B], 1000);
    vm.run().unwrap();
    assert_eq!(vm.stack.peek(0).unwrap(), Word::zero());

    // SAR: NOT(0) = -1, shifted right arithmetically by 0x12C
    let mut vm2 = machine(vec![0x60, 0x00, 0x19, 0x61, 0x01, 0x2C, 0x1D], 1000);
    vm2.run().unwrap();
    assert_eq!(vm2.stack.peek(0).unwrap(), word_max());
}

// Small shifts move bits as multiplication and division by powers of two.
#[test]
fn test_small_shifts() {
    // 0xFF00 >> 8 == 0xFF
    let mut vm = machine(vec![0x61, 0xFF, 0x00, 0x60, 0x08, 0x1C], 1000);
    vm.run().unwrap();
    assert_eq!(vm.stack.peek(0).unwrap(), Word::from_u64(0xFF));

    // 1 << 4 == 16
    let mut vm2 = machine(vec![0x60, 0x01, 0x60, 0x04, 0x1B], 1000);
    vm2.run().unwrap();
    assert_eq!(vm2.stack.peek(0).unwrap(), Word::from_u64(16));
}

// BYTE picks from the most significant end.
#[test]
fn test_byte_opcode() {
    // BYTE(30, 0xFF00) == 0xFF
    let mut vm = machine(vec![0x61, 0xFF, 0x00, 0x60, 0x1E, 0x1A], 1000);
    vm.run().unwrap();
    assert_eq!(vm.stack.peek(0).unwrap(), Word::from_u64(0xFF));

    // BYTE(32, x) == 0
    let mut vm2 = machine(vec![0x60, 0x77, 0x60, 0x20, 0x1A], 1000);
    vm2.run().unwrap();
    assert_eq!(vm2.stack.peek(0).unwrap(), Word::zero());
}

// SIGNEXTEND(0, 0xFF) spreads the sign over the whole word.
#[test]
fn test_signextend_spreads_sign() {
    let mut vm = machine(vec![0x60, 0xFF, 0x60, 0x00, 0x0B], 1000);
    vm.run().unwrap();
    assert_eq!(vm.stack.peek(0).unwrap(), word_max());

    // SIGNEXTEND(0, 0x7F) keeps a positive byte as it is.
    let mut vm2 = machine(vec![0x60, 0x7F, 0x60, 0x00, 0x0B], 1000);
    vm2.run().unwrap();
    assert_eq!(vm2.stack.peek(0).unwrap(), Word::from_u64(0x7F));
}

// MSTORE8 writes one byte and still grows by a whole word.
#[test]
fn test_mstore8() {
    let mut vm = machine(vec![0x60, 0xFF, 0x60, 0x01, 0x53], 1000);
    vm.run().unwrap();
    assert_eq!(vm.memory.memory.len(), 32);
    assert_eq!(vm.memory.memory[1], 0xFF);
    assert_eq!(vm.memory.memory[0], 0);
}

// Signed and unsigned comparisons disagree on a negative word.
#[test]
fn test_signed_vs_unsigned_compare() {
    // SLT(-1, 0) == 1
    let mut vm = machine(vec![0x60, 0x00, 0x60, 0x00, 0x19, 0x12], 1000);
    vm.run().unwrap();
    assert_eq!(vm.stack.peek(0).unwrap(), Word::one());

    // LT(-1 as unsigned, 0) == 0
    let mut vm2 = machine(vec![0x60, 0x00, 0x60, 0x00, 0x19, 0x10], 1000);
    vm2.run().unwrap();
    assert_eq!(vm2.stack.peek(0).unwrap(), Word::zero());
}

// DUP and SWAP reach the advertised depths.
#[test]
fn test_dup_and_swap() {
    let mut vm = machine(vec![0x60, 0x01, 0x60, 0x02, 0x81], 1000); // DUP2
    vm.run().unwrap();
    assert_eq!(vm.stack.len(), 3);
    assert_eq!(vm.stack.peek(0).unwrap(), Word::from_u64(1));

    let mut vm2 = machine(vec![0x60, 0x01, 0x60, 0x02, 0x90], 1000); // SWAP1
    vm2.run().unwrap();
    assert_eq!(vm2.stack.peek(0).unwrap(), Word::from_u64(1));
    assert_eq!(vm2.stack.peek(1).unwrap(), Word::from_u64(2));
}

// The environment stubs push what the machine was built with.
#[test]
fn test_environment_opcodes() {
    let mut sender = [0u8; 20];
    sender[19] = 0x42;
    let mut vm = EVM::new(
        Address::from_bytes(sender),
        vec![0x30, 0x36, 0x38, 0x58, 0x3A, 0x34],
        1000,
        Word::from_u64(77),
        vec![1, 2, 3],
    );
    vm.run().unwrap();
    // ADDRESS, CALLDATASIZE, CODESIZE, PC, GASPRICE, CALLVALUE
    assert_eq!(vm.stack.peek(5).unwrap(), Word::from_u64(0x42));
    assert_eq!(vm.stack.peek(4).unwrap(), Word::from_u64(3));
    assert_eq!(vm.stack.peek(3).unwrap(), Word::from_u64(6));
    assert_eq!(vm.stack.peek(2).unwrap(), Word::from_u64(3));
    assert_eq!(vm.stack.peek(1).unwrap(), Word::zero());
    assert_eq!(vm.stack.peek(0).unwrap(), Word::from_u64(77));
}

// BALANCE pushes the stub constant.
#[test]
fn test_balance_stub() {
    let mut vm = machine(vec![0x60, 0x00, 0x31], 5000);
    vm.run().unwrap();
    assert_eq!(vm.stack.peek(0).unwrap(), Word::from_u64(9999999));
}

// The disassembler names every opcode family.
#[test]
fn test_opcode_names() {
    assert_eq!(get_supported_opcode_name(0x00), "STOP");
    assert_eq!(get_supported_opcode_name(0x01), "ADD");
    assert_eq!(get_supported_opcode_name(0x0B), "SIGNEXTEND");
    assert_eq!(get_supported_opcode_name(0x5A), "GAS");
    assert_eq!(get_supported_opcode_name(0x60), "PUSH1");
    assert_eq!(get_supported_opcode_name(0x7F), "PUSH32");
    assert_eq!(get_supported_opcode_name(0x80), "DUP1");
    assert_eq!(get_supported_opcode_name(0x8F), "DUP16");
    assert_eq!(get_supported_opcode_name(0x90), "SWAP1");
    assert_eq!(get_supported_opcode_name(0x9F), "SWAP16");
    assert_eq!(get_supported_opcode_name(0xA0), "LOG0");
    assert_eq!(get_supported_opcode_name(0xA4), "LOG4");
    assert_eq!(get_supported_opcode_name(0x59), "MSIZE");
    assert_eq!(get_supported_opcode_name(0xF0), "CREATE");
    assert_eq!(get_supported_opcode_name(0xF1), "CALL");
    assert_eq!(get_supported_opcode_name(0xF3), "RETURN");
    assert_eq!(get_supported_opcode_name(0xF4), "DELEGATECALL");
    assert_eq!(get_supported_opcode_name(0xF5), "CREATE2");
    assert_eq!(get_supported_opcode_name(0xFA), "STATICCALL");
    assert_eq!(get_supported_opcode_name(0xFD), "REVERT");
    assert_eq!(get_supported_opcode_name(0xFE), "INVALID");
    assert_eq!(get_supported_opcode_name(0xFF), "SELFDESTRUCT");
    assert_eq!(get_supported_opcode_name(0x4A), "UNKNOWN(0x4a)");
    assert_eq!(get_supported_opcode_name(0xF2), "UNKNOWN(0xf2)");
}

// A longer program that crosses every component: arithmetic feeding
// memory, memory feeding storage, and loads feeding arithmetic again.
#[test]
fn test_math_memory_storage_tour() {
    let program = vec![
        0x60, 0x0A, 0x60, 0x14, 0x01, // 10 + 20
        0x60, 0x00, 0x52, // MSTORE at 0
        0x60, 0x1E, 0x60, 0x01, 0x55, // SSTORE 1 <- 30
        0x60, 0x00, 0x51, // MLOAD 0 -> 30
        0x60, 0x01, 0x01, // + 1 -> 31
        0x60, 0x20, 0x52, // MSTORE at 32
        0x60, 0x01, 0x54, // SLOAD 1 -> 30
        0x60, 0x02, 0x02, // * 2 -> 60
        0x60, 0x02, 0x55, // SSTORE 2 <- 60
        0x00, // STOP
    ];
    let mut vm = machine(program, 50000);
    vm.run().unwrap();
    assert!(vm.stop_flag);
    assert_eq!(vm.stack.len(), 0);
    assert_eq!(vm.memory.memory.len(), 64);
    assert_eq!(vm.memory.memory[31], 30);
    assert_eq!(vm.memory.memory[63], 31);
    assert_eq!(vm.storage.peek(&Word::one()).1, Word::from_u64(30));
    assert_eq!(vm.storage.peek(&Word::from_u64(2)).1, Word::from_u64(60));
}
