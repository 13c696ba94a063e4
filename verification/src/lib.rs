//! Core of a stack-based virtual machine that executes EVM bytecode.
//!
//! The machine keeps a bounded operand stack of 256-bit words, a byte
//! memory that grows in 32-byte words, a persistent key/value storage with
//! cold/warm access tracking, a transient storage, and an event log.  A
//! dispatcher reads one opcode at a time and drives the handlers until the
//! program halts, reverts, falls off the end, or fails with a typed error.

pub mod evm;
pub mod helpers;
pub mod laws;
pub mod opcodes;
pub mod memory;
pub mod stack;
pub mod state;
pub mod storage;
pub mod word;
