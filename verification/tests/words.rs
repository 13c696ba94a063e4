use evm::evm::{Address, EVM};
use evm::opcodes::comparisons;
use evm::opcodes::logic;
use evm::opcodes::math;
use evm::word::Word;

fn machine_with_stack(values: &[Word]) -> EVM {
    let mut vm = EVM::new(Address::zero(), vec![], 1_000_000, Word::zero(), vec![]);
    for v in values {
        vm.stack.push(*v).unwrap();
    }
    vm
}

fn word_max() -> Word {
    Word { l0: u64::MAX, l1: u64::MAX, l2: u64::MAX, l3: u64::MAX }
}

fn word_smin() -> Word {
    Word { l0: 0, l1: 0, l2: 0, l3: 0x8000_0000_0000_0000 }
}

#[test]
fn test_size_in_bytes() {
    assert_eq!(math::size_in_bytes(&Word::from_u64(12345)), 2);
    assert_eq!(math::size_in_bytes(&Word::zero()), 0);
}

// ADD(a, b) == ADD(b, a), also across the wrapping boundary.
#[test]
fn test_add_commutes() {
    let mut vm = machine_with_stack(&[Word::from_u64(5), Word::from_u64(3)]);
    math::add(&mut vm).unwrap();
    let one_way = vm.stack.peek(0).unwrap();

    let mut vm2 = machine_with_stack(&[Word::from_u64(3), Word::from_u64(5)]);
    math::add(&mut vm2).unwrap();
    assert_eq!(one_way, vm2.stack.peek(0).unwrap());
    assert_eq!(one_way, Word::from_u64(8));

    let mut vm3 = machine_with_stack(&[Word::from_u64(2), word_max()]);
    math::add(&mut vm3).unwrap();
    let mut vm4 = machine_with_stack(&[word_max(), Word::from_u64(2)]);
    math::add(&mut vm4).unwrap();
    assert_eq!(vm3.stack.peek(0).unwrap(), vm4.stack.peek(0).unwrap());
    assert_eq!(vm3.stack.peek(0).unwrap(), Word::from_u64(1));
}

// ADD(a, SUB(0, a)) == 0.
#[test]
fn test_add_additive_inverse() {
    let mut vm = machine_with_stack(&[Word::from_u64(0x42), Word::zero()]);
    math::sub(&mut vm).unwrap(); // 0 - 0x42
    vm.stack.push(Word::from_u64(0x42)).unwrap();
    math::add(&mut vm).unwrap();
    assert_eq!(vm.stack.peek(0).unwrap(), Word::zero());
}

// ISZERO(ISZERO(x)) is one exactly when x is nonzero.
#[test]
fn test_iszero_twice() {
    let mut vm = machine_with_stack(&[Word::from_u64(5)]);
    comparisons::is_zero(&mut vm).unwrap();
    comparisons::is_zero(&mut vm).unwrap();
    assert_eq!(vm.stack.peek(0).unwrap(), Word::one());

    let mut vm2 = machine_with_stack(&[Word::zero()]);
    comparisons::is_zero(&mut vm2).unwrap();
    comparisons::is_zero(&mut vm2).unwrap();
    assert_eq!(vm2.stack.peek(0).unwrap(), Word::zero());
}

// NOT(NOT(x)) == x.
#[test]
fn test_not_twice() {
    let x = Word { l0: 0x1234, l1: 0xFFFF_0000_0000_0001, l2: 7, l3: 0x8000_0000_0000_0000 };
    let mut vm = machine_with_stack(&[x]);
    logic::not(&mut vm).unwrap();
    assert_ne!(vm.stack.peek(0).unwrap(), x);
    logic::not(&mut vm).unwrap();
    assert_eq!(vm.stack.peek(0).unwrap(), x);
}

// Division and remainder by zero give zero in every form.
#[test]
fn test_division_by_zero_gives_zero() {
    let x = Word::from_u64(1234);

    let mut vm = machine_with_stack(&[Word::zero(), x]);
    math::div(&mut vm).unwrap();
    assert_eq!(vm.stack.peek(0).unwrap(), Word::zero());

    let mut vm = machine_with_stack(&[Word::zero(), x]);
    math::sdiv(&mut vm).unwrap();
    assert_eq!(vm.stack.peek(0).unwrap(), Word::zero());

    let mut vm = machine_with_stack(&[Word::zero(), x]);
    math::vm_mod(&mut vm).unwrap();
    assert_eq!(vm.stack.peek(0).unwrap(), Word::zero());

    let mut vm = machine_with_stack(&[Word::zero(), x]);
    math::smod(&mut vm).unwrap();
    assert_eq!(vm.stack.peek(0).unwrap(), Word::zero());

    let mut vm = machine_with_stack(&[Word::zero(), x, x]);
    math::add_mod(&mut vm).unwrap();
    assert_eq!(vm.stack.peek(0).unwrap(), Word::zero());

    let mut vm = machine_with_stack(&[Word::zero(), x, x]);
    math::mul_mod(&mut vm).unwrap();
    assert_eq!(vm.stack.peek(0).unwrap(), Word::zero());
}

// SDIV(SMIN, -1) wraps back to SMIN.
#[test]
fn test_sdiv_min_by_minus_one() {
    let mut vm = machine_with_stack(&[word_max(), word_smin()]);
    math::sdiv(&mut vm).unwrap();
    assert_eq!(vm.stack.peek(0).unwrap(), word_smin());
}

fn negated(n: u64) -> Word {
    let mut vm = machine_with_stack(&[Word::from_u64(n), Word::zero()]);
    math::sub(&mut vm).unwrap();
    vm.stack.pop().unwrap()
}

// Plain signed division truncates toward zero: (-7) / 2 == -3.
#[test]
fn test_sdiv_truncates_toward_zero() {
    let mut vm = machine_with_stack(&[Word::from_u64(2), negated(7)]);
    math::sdiv(&mut vm).unwrap();
    assert_eq!(vm.stack.peek(0).unwrap(), negated(3));
}

// SMOD follows the dividend's sign: (-7) % 2 == -1.
#[test]
fn test_smod_sign_follows_dividend() {
    let mut vm = machine_with_stack(&[Word::from_u64(2), negated(7)]);
    math::smod(&mut vm).unwrap();
    assert_eq!(vm.stack.peek(0).unwrap(), word_max()); // -1
}

// EXP: value, and gas priced by the exponent's byte length.
#[test]
fn test_exp_value_and_gas() {
    let mut vm = machine_with_stack(&[Word::from_u64(10), Word::from_u64(2)]);
    let gas_before = vm.gas;
    math::exp(&mut vm).unwrap();
    assert_eq!(vm.stack.peek(0).unwrap(), Word::from_u64(1024));
    assert_eq!(gas_before - vm.gas, 10 + 50);
}

// MULMOD keeps the wrapped product before reducing.
#[test]
fn test_mulmod_wraps_first() {
    // (2^255 * 2) mod 100 == (2^256 mod 2^256) mod 100 == 0
    let mut vm = machine_with_stack(&[Word::from_u64(100), Word::from_u64(2), word_smin()]);
    math::mul_mod(&mut vm).unwrap();
    assert_eq!(vm.stack.peek(0).unwrap(), Word::zero());
}
