use evm::evm::EvmError;
use evm::memory::Memory;

fn init_memory() -> Memory {
    Memory::new()
}

#[test]
fn test_memory_init() {
    let mem = init_memory();
    assert_eq!(mem.memory.len(), 0)
}

// Memory grows in whole 32-byte words, so four bytes still claim one word.
#[test]
fn test_store() {
    let mut mem = init_memory();
    mem.store(0, &[0x01, 0x02, 0x03, 0x04]);
    assert_eq!(mem.memory.len(), 32);
}

#[test]
fn test_access() {
    let mut mem = init_memory();
    mem.store(0, &[0x01, 0x02, 0x03, 0x04]);
}

#[test]
fn test_access_success() {
    let mut mem = init_memory();
    mem.store(0, &[0x01, 0x02, 0x03, 0x04]);
    let result = mem.access(1, 3);
    assert!(result.is_ok());
    assert_eq!(result.unwrap(), &[0x02, 0x03, 0x04]);
}

// A range that runs past the word-aligned length is refused.
#[test]
fn test_access_failure() {
    let mut mem = init_memory();
    mem.store(0, &[0x01, 0x02, 0x03, 0x04]);
    let result = mem.access(1, 32);
    assert!(result.is_err());
    let expected_error = EvmError::MemoryOutOfBounds { offset: 1, size: 32, max: 32 };
    assert_eq!(result.unwrap_err(), expected_error)
}

#[test]
fn test_load() {
    let mut mem = init_memory();
    mem.store(0, &[0x01, 0x02, 0x03, 0x04]);
    assert_eq!(
        mem.load(0).0,
        [
            1, 2, 3, 4, 0, 0, 0, 0, 0, 0, 0, 0, 0, 0, 0, 0, 0, 0, 0, 0, 0, 0, 0, 0, 0, 0, 0, 0,
            0, 0, 0, 0
        ]
    );
}

#[test]
fn test_load_from_offset_1() {
    let mut mem = init_memory();
    mem.store(0, &[0x01, 0x02, 0x03, 0x04]);
    assert_eq!(
        mem.load(1).0,
        [
            2, 3, 4, 0, 0, 0, 0, 0, 0, 0, 0, 0, 0, 0, 0, 0, 0, 0, 0, 0, 0, 0, 0, 0, 0, 0, 0, 0,
            0, 0, 0, 0
        ]
    );
}

#[test]
fn test_load_from_offset_2() {
    let mut mem = init_memory();
    mem.store(0, &[0x01, 0x02, 0x03, 0x04]);
    assert_eq!(
        mem.load(3).0,
        [
            4, 0, 0, 0, 0, 0, 0, 0, 0, 0, 0, 0, 0, 0, 0, 0, 0, 0, 0, 0, 0, 0, 0, 0, 0, 0, 0, 0,
            0, 0, 0, 0
        ]
    );
}

// The gas curve over whole memories: 3·w + w²/512.
#[test]
fn test_memory_gas_curve() {
    assert_eq!(Memory::calculate_memory_gas(0), 0);
    assert_eq!(Memory::calculate_memory_gas(1), 3);
    assert_eq!(Memory::calculate_memory_gas(32), 98);
    assert_eq!(Memory::calculate_memory_gas(1024), 5120);
}

// Expanding from empty to one word costs 3; growing further pays only the
// difference of the curve.
#[test]
fn test_expansion_cost_is_difference() {
    let mut mem = init_memory();
    assert_eq!(mem.ensure_capacity(0, 32), 3);
    assert_eq!(mem.memory.len(), 32);
    assert_eq!(mem.ensure_capacity(0, 32), 0);
    assert_eq!(mem.ensure_capacity(0, 64), 3);
    assert_eq!(mem.memory.len(), 64);
}
