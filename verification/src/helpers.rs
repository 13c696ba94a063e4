//! Display names for opcodes, and small string builders.

use vstd::prelude::*;

verus! {

use vstd::string::StringExecFns;

/// The spelling of a hex digit.
pub open spec fn hex_digit_seq(n: nat) -> Seq<char> {
    if n == 0 {
        "0"@
    } else if n == 1 {
        "1"@
    } else if n == 2 {
        "2"@
    } else if n == 3 {
        "3"@
    } else if n == 4 {
        "4"@
    } else if n == 5 {
        "5"@
    } else if n == 6 {
        "6"@
    } else if n == 7 {
        "7"@
    } else if n == 8 {
        "8"@
    } else if n == 9 {
        "9"@
    } else if n == 10 {
        "a"@
    } else if n == 11 {
        "b"@
    } else if n == 12 {
        "c"@
    } else if n == 13 {
        "d"@
    } else if n == 14 {
        "e"@
    } else {
        "f"@
    }
}

/// How a byte is written: `0x` and two hex digits.
pub open spec fn hex_byte_seq(op: u8) -> Seq<char> {
    "0x"@ + hex_digit_seq(op as nat / 16) + hex_digit_seq(op as nat % 16)
}

/// One hex digit as text.
fn hex_digit_str(n: u8) -> (r: &'static str)
    requires
        n < 16,
    ensures
        r@ == hex_digit_seq(n as nat),
{
    match n {
        0 => "0",
        1 => "1",
        2 => "2",
        3 => "3",
        4 => "4",
        5 => "5",
        6 => "6",
        7 => "7",
        8 => "8",
        9 => "9",
        10 => "a",
        11 => "b",
        12 => "c",
        13 => "d",
        14 => "e",
        _ => "f",
    }
}

/// A byte written as `0xNN`.
pub fn hex_byte_string(op: u8) -> (r: String)
    ensures
        r@ == hex_byte_seq(op),
{
    let mut s = String::from_str("0x");
    s.append(hex_digit_str(op / 16));
    s.append(hex_digit_str(op % 16));
    s
}

/// The spelling of a small count, one through thirty-two.
pub open spec fn small_count_seq(n: nat) -> Seq<char> {
    if n == 0 {
        "0"@
    } else if n == 1 {
        "1"@
    } else if n == 2 {
        "2"@
    } else if n == 3 {
        "3"@
    } else if n == 4 {
        "4"@
    } else if n == 5 {
        "5"@
    } else if n == 6 {
        "6"@
    } else if n == 7 {
        "7"@
    } else if n == 8 {
        "8"@
    } else if n == 9 {
        "9"@
    } else if n == 10 {
        "10"@
    } else if n == 11 {
        "11"@
    } else if n == 12 {
        "12"@
    } else if n == 13 {
        "13"@
    } else if n == 14 {
        "14"@
    } else if n == 15 {
        "15"@
    } else if n == 16 {
        "16"@
    } else if n == 17 {
        "17"@
    } else if n == 18 {
        "18"@
    } else if n == 19 {
        "19"@
    } else if n == 20 {
        "20"@
    } else if n == 21 {
        "21"@
    } else if n == 22 {
        "22"@
    } else if n == 23 {
        "23"@
    } else if n == 24 {
        "24"@
    } else if n == 25 {
        "25"@
    } else if n == 26 {
        "26"@
    } else if n == 27 {
        "27"@
    } else if n == 28 {
        "28"@
    } else if n == 29 {
        "29"@
    } else if n == 30 {
        "30"@
    } else if n == 31 {
        "31"@
    } else {
        "32"@
    }
}

/// A small count as text.
fn small_count_str(n: u8) -> (r: &'static str)
    requires
        n <= 32,
    ensures
        r@ == small_count_seq(n as nat),
{
    match n {
        0 => "0",
        1 => "1",
        2 => "2",
        3 => "3",
        4 => "4",
        5 => "5",
        6 => "6",
        7 => "7",
        8 => "8",
        9 => "9",
        10 => "10",
        11 => "11",
        12 => "12",
        13 => "13",
        14 => "14",
        15 => "15",
        16 => "16",
        17 => "17",
        18 => "18",
        19 => "19",
        20 => "20",
        21 => "21",
        22 => "22",
        23 => "23",
        24 => "24",
        25 => "25",
        26 => "26",
        27 => "27",
        28 => "28",
        29 => "29",
        30 => "30",
        31 => "31",
        _ => "32",
    }
}

/// The display name of an opcode byte.
pub open spec fn opcode_name_seq(op: u8) -> Seq<char> {
    if op == 0x00 {
        "STOP"@
    } else if op == 0x01 {
        "ADD"@
    } else if op == 0x02 {
        "MUL"@
    } else if op == 0x03 {
        "SUB"@
    } else if op == 0x04 {
        "DIV"@
    } else if op == 0x05 {
        "SDIV"@
    } else if op == 0x06 {
        "MOD"@
    } else if op == 0x07 {
        "SMOD"@
    } else if op == 0x08 {
        "ADDMOD"@
    } else if op == 0x09 {
        "MULMOD"@
    } else if op == 0x0A {
        "EXP"@
    } else if op == 0x0B {
        "SIGNEXTEND"@
    } else if op == 0x10 {
        "LT"@
    } else if op == 0x11 {
        "GT"@
    } else if op == 0x12 {
        "SLT"@
    } else if op == 0x13 {
        "SGT"@
    } else if op == 0x14 {
        "EQ"@
    } else if op == 0x15 {
        "ISZERO"@
    } else if op == 0x16 {
        "AND"@
    } else if op == 0x17 {
        "OR"@
    } else if op == 0x18 {
        "XOR"@
    } else if op == 0x19 {
        "NOT"@
    } else if op == 0x1A {
        "BYTE"@
    } else if op == 0x1B {
        "SHL"@
    } else if op == 0x1C {
        "SHR"@
    } else if op == 0x1D {
        "SAR"@
    } else if op == 0x20 {
        "SHA3"@
    } else if op == 0x30 {
        "ADDRESS"@
    } else if op == 0x31 {
        "BALANCE"@
    } else if op == 0x32 {
        "ORIGIN"@
    } else if op == 0x33 {
        "CALLER"@
    } else if op == 0x34 {
        "CALLVALUE"@
    } else if op == 0x35 {
        "CALLDATALOAD"@
    } else if op == 0x36 {
        "CALLDATASIZE"@
    } else if op == 0x37 {
        "CALLDATACOPY"@
    } else if op == 0x38 {
        "CODESIZE"@
    } else if op == 0x39 {
        "CODECOPY"@
    } else if op == 0x3A {
        "GASPRICE"@
    } else if op == 0x3B {
        "EXTCODESIZE"@
    } else if op == 0x3C {
        "EXTCODECOPY"@
    } else if op == 0x3D {
        "RETURNDATASIZE"@
    } else if op == 0x3E {
        "RETURNDATACOPY"@
    } else if op == 0x3F {
        "EXTCODEHASH"@
    } else if op == 0x50 {
        "POP"@
    } else if op == 0x51 {
        "MLOAD"@
    } else if op == 0x52 {
        "MSTORE"@
    } else if op == 0x53 {
        "MSTORE8"@
    } else if op == 0x54 {
        "SLOAD"@
    } else if op == 0x55 {
        "SSTORE"@
    } else if op == 0x56 {
        "JUMP"@
    } else if op == 0x57 {
        "JUMPI"@
    } else if op == 0x58 {
        "PC"@
    } else if op == 0x59 {
        "MSIZE"@
    } else if op == 0x5A {
        "GAS"@
    } else if op == 0x5B {
        "JUMPDEST"@
    } else if op == 0x5C {
        "TLOAD"@
    } else if op == 0x5D {
        "TSTORE"@
    } else if 0x60 <= op && op <= 0x7F {
        "PUSH"@ + small_count_seq((op - 0x60 + 1) as nat)
    } else if 0x80 <= op && op <= 0x8F {
        "DUP"@ + small_count_seq((op - 0x80 + 1) as nat)
    } else if 0x90 <= op && op <= 0x9F {
        "SWAP"@ + small_count_seq((op - 0x90 + 1) as nat)
    } else if 0xA0 <= op && op <= 0xA4 {
        "LOG"@ + small_count_seq((op - 0xA0) as nat)
    } else if op == 0xF0 {
        "CREATE"@
    } else if op == 0xF1 {
        "CALL"@
    } else if op == 0xF3 {
        "RETURN"@
    } else if op == 0xF4 {
        "DELEGATECALL"@
    } else if op == 0xF5 {
        "CREATE2"@
    } else if op == 0xFA {
        "STATICCALL"@
    } else if op == 0xFD {
        "REVERT"@
    } else if op == 0xFE {
        "INVALID"@
    } else if op == 0xFF {
        "SELFDESTRUCT"@
    } else {
        "UNKNOWN("@ + hex_byte_seq(op) + ")"@
    }
}

/// The display name of an opcode, `UNKNOWN(0xNN)` for one that has none.
pub fn get_supported_opcode_name(op: u8) -> (r: String)
    ensures
        r@ == opcode_name_seq(op),
{
    if op == 0x00 {
        String::from_str("STOP")
    } else if op == 0x01 {
        String::from_str("ADD")
    } else if op == 0x02 {
        String::from_str("MUL")
    } else if op == 0x03 {
        String::from_str("SUB")
    } else if op == 0x04 {
        String::from_str("DIV")
    } else if op == 0x05 {
        String::from_str("SDIV")
    } else if op == 0x06 {
        String::from_str("MOD")
    } else if op == 0x07 {
        String::from_str("SMOD")
    } else if op == 0x08 {
        String::from_str("ADDMOD")
    } else if op == 0x09 {
        String::from_str("MULMOD")
    } else if op == 0x0A {
        String::from_str("EXP")
    } else if op == 0x0B {
        String::from_str("SIGNEXTEND")
    } else if op == 0x10 {
        String::from_str("LT")
    } else if op == 0x11 {
        String::from_str("GT")
    } else if op == 0x12 {
        String::from_str("SLT")
    } else if op == 0x13 {
        String::from_str("SGT")
    } else if op == 0x14 {
        String::from_str("EQ")
    } else if op == 0x15 {
        String::from_str("ISZERO")
    } else if op == 0x16 {
        String::from_str("AND")
    } else if op == 0x17 {
        String::from_str("OR")
    } else if op == 0x18 {
        String::from_str("XOR")
    } else if op == 0x19 {
        String::from_str("NOT")
    } else if op == 0x1A {
        String::from_str("BYTE")
    } else if op == 0x1B {
        String::from_str("SHL")
    } else if op == 0x1C {
        String::from_str("SHR")
    } else if op == 0x1D {
        String::from_str("SAR")
    } else if op == 0x20 {
        String::from_str("SHA3")
    } else if op == 0x30 {
        String::from_str("ADDRESS")
    } else if op == 0x31 {
        String::from_str("BALANCE")
    } else if op == 0x32 {
        String::from_str("ORIGIN")
    } else if op == 0x33 {
        String::from_str("CALLER")
    } else if op == 0x34 {
        String::from_str("CALLVALUE")
    } else if op == 0x35 {
        String::from_str("CALLDATALOAD")
    } else if op == 0x36 {
        String::from_str("CALLDATASIZE")
    } else if op == 0x37 {
        String::from_str("CALLDATACOPY")
    } else if op == 0x38 {
        String::from_str("CODESIZE")
    } else if op == 0x39 {
        String::from_str("CODECOPY")
    } else if op == 0x3A {
        String::from_str("GASPRICE")
    } else if op == 0x3B {
        String::from_str("EXTCODESIZE")
    } else if op == 0x3C {
        String::from_str("EXTCODECOPY")
    } else if op == 0x3D {
        String::from_str("RETURNDATASIZE")
    } else if op == 0x3E {
        String::from_str("RETURNDATACOPY")
    } else if op == 0x3F {
        String::from_str("EXTCODEHASH")
    } else if op == 0x50 {
        String::from_str("POP")
    } else if op == 0x51 {
        String::from_str("MLOAD")
    } else if op == 0x52 {
        String::from_str("MSTORE")
    } else if op == 0x53 {
        String::from_str("MSTORE8")
    } else if op == 0x54 {
        String::from_str("SLOAD")
    } else if op == 0x55 {
        String::from_str("SSTORE")
    } else if op == 0x56 {
        String::from_str("JUMP")
    } else if op == 0x57 {
        String::from_str("JUMPI")
    } else if op == 0x58 {
        String::from_str("PC")
    } else if op == 0x59 {
        String::from_str("MSIZE")
    } else if op == 0x5A {
        String::from_str("GAS")
    } else if op == 0x5B {
        String::from_str("JUMPDEST")
    } else if op == 0x5C {
        String::from_str("TLOAD")
    } else if op == 0x5D {
        String::from_str("TSTORE")
    } else if 0x60 <= op && op <= 0x7F {
        let mut s = String::from_str("PUSH");
        s.append(small_count_str(op - 0x60 + 1));
        s
    } else if 0x80 <= op && op <= 0x8F {
        let mut s = String::from_str("DUP");
        s.append(small_count_str(op - 0x80 + 1));
        s
    } else if 0x90 <= op && op <= 0x9F {
        let mut s = String::from_str("SWAP");
        s.append(small_count_str(op - 0x90 + 1));
        s
    } else if 0xA0 <= op && op <= 0xA4 {
        let mut s = String::from_str("LOG");
        s.append(small_count_str(op - 0xA0));
        s
    } else if op == 0xF0 {
        String::from_str("CREATE")
    } else if op == 0xF1 {
        String::from_str("CALL")
    } else if op == 0xF3 {
        String::from_str("RETURN")
    } else if op == 0xF4 {
        String::from_str("DELEGATECALL")
    } else if op == 0xF5 {
        String::from_str("CREATE2")
    } else if op == 0xFA {
        String::from_str("STATICCALL")
    } else if op == 0xFD {
        String::from_str("REVERT")
    } else if op == 0xFE {
        String::from_str("INVALID")
    } else if op == 0xFF {
        String::from_str("SELFDESTRUCT")
    } else {
        let mut s = String::from_str("UNKNOWN(");
        let hex = hex_byte_string(op);
        s.append(hex.as_str());
        s.append(")");
        s
    }
}

} // verus!
