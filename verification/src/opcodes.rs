//! Opcode bytes and the handlers, one module per family.

use vstd::prelude::*;

pub mod bit;
pub mod comparisons;
pub mod contract;
pub mod dup;
pub mod environment;
pub mod jump;
pub mod log;
pub mod logic;
pub mod math;
pub mod memory;
pub mod misc;
pub mod pop;
pub mod push;
pub mod stop;
pub mod storage;
pub mod swap;
pub mod transient;

verus! {

pub const STOP: u8 = 0x00;

pub const ADD: u8 = 0x01;

pub const MUL: u8 = 0x02;

pub const SUB: u8 = 0x03;

pub const DIV: u8 = 0x04;

pub const SDIV: u8 = 0x05;

pub const MOD: u8 = 0x06;

pub const SMOD: u8 = 0x07;

pub const ADDMOD: u8 = 0x08;

pub const MULMOD: u8 = 0x09;

pub const EXP: u8 = 0x0A;

pub const SIGNEXTEND: u8 = 0x0B;

pub const LT: u8 = 0x10;

pub const GT: u8 = 0x11;

pub const SLT: u8 = 0x12;

pub const SGT: u8 = 0x13;

pub const EQ: u8 = 0x14;

pub const ISZERO: u8 = 0x15;

pub const AND: u8 = 0x16;

pub const OR: u8 = 0x17;

pub const XOR: u8 = 0x18;

pub const NOT: u8 = 0x19;

pub const BYTE: u8 = 0x1A;

pub const SHL: u8 = 0x1B;

pub const SHR: u8 = 0x1C;

pub const SAR: u8 = 0x1D;

pub const SHA3: u8 = 0x20;

pub const ADDRESS: u8 = 0x30;

pub const BALANCE: u8 = 0x31;

pub const ORIGIN: u8 = 0x32;

pub const CALLVALUE: u8 = 0x34;

pub const CALLDATALOAD: u8 = 0x35;

pub const CALLDATASIZE: u8 = 0x36;

pub const CALLDATACOPY: u8 = 0x37;

pub const CODESIZE: u8 = 0x38;

pub const CODECOPY: u8 = 0x39;

pub const GASPRICE: u8 = 0x3A;

pub const EXTCODECOPY: u8 = 0x3C;

pub const RETURNDATASIZE: u8 = 0x3D;

pub const RETURNDATACOPY: u8 = 0x3E;

pub const EXTCODEHASH: u8 = 0x3F;

pub const POP: u8 = 0x50;

pub const MLOAD: u8 = 0x51;

pub const MSTORE: u8 = 0x52;

pub const MSTORE8: u8 = 0x53;

pub const SLOAD: u8 = 0x54;

pub const SSTORE: u8 = 0x55;

pub const JUMP: u8 = 0x56;

pub const JUMPI: u8 = 0x57;

pub const PC: u8 = 0x58;

pub const JUMPDEST: u8 = 0x5B;

pub const TLOAD: u8 = 0x5C;

pub const TSTORE: u8 = 0x5D;

pub const PUSH1: u8 = 0x60;

pub const PUSH32: u8 = 0x7F;

pub const DUP1: u8 = 0x80;

pub const DUP16: u8 = 0x8F;

pub const SWAP1: u8 = 0x90;

pub const SWAP16: u8 = 0x9F;

pub const LOG0: u8 = 0xA0;

pub const LOG4: u8 = 0xA4;

pub const REVERT: u8 = 0xFD;

} // verus!
