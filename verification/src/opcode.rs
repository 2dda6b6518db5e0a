//! The fixed numeric encoding of instructions and the static gas table.
use vstd::prelude::*;

verus! {

// Halting
pub const STOP: u8 = 0x00;
// Arithmetic
pub const ADD: u8 = 0x01;
pub const MUL: u8 = 0x02;
pub const SUB: u8 = 0x03;
pub const DIV: u8 = 0x04;
pub const SDIV: u8 = 0x05;
pub const MOD: u8 = 0x06;
pub const SMOD: u8 = 0x07;
pub const ADDMOD: u8 = 0x08;
pub const MULMOD: u8 = 0x09;
pub const EXP: u8 = 0x0A;
// Comparisons and bitwise logic
pub const LT: u8 = 0x10;
pub const GT: u8 = 0x11;
pub const SLT: u8 = 0x12;
pub const SGT: u8 = 0x13;
pub const EQ: u8 = 0x14;
pub const ISZERO: u8 = 0x15;
pub const AND: u8 = 0x16;
pub const OR: u8 = 0x17;
pub const XOR: u8 = 0x18;
pub const NOT: u8 = 0x19;
pub const BYTE: u8 = 0x1A;
pub const SHL: u8 = 0x1B;
pub const SHR: u8 = 0x1C;
pub const SAR: u8 = 0x1D;
// Hashing
pub const SHA3: u8 = 0x20;
// Calldata
pub const CALLDATALOAD: u8 = 0x35;
pub const CALLDATASIZE: u8 = 0x36;
// Reserved: encoded in the catalog, not yet executed
pub const CALLDATACOPY: u8 = 0x37;
// Block observables
pub const COINBASE: u8 = 0x41;
pub const TIMESTAMP: u8 = 0x42;
pub const NUMBER: u8 = 0x43;
pub const DIFFICULTY: u8 = 0x44;
pub const GASLIMIT: u8 = 0x45;
pub const BASEFEE: u8 = 0x48;
// Stack, memory and control flow
pub const POP: u8 = 0x50;
pub const MLOAD: u8 = 0x51;
pub const MSTORE: u8 = 0x52;
pub const MSTORE8: u8 = 0x53;
pub const JUMP: u8 = 0x56;
pub const JUMPI: u8 = 0x57;
pub const PC: u8 = 0x58;
pub const MSIZE: u8 = 0x59;
pub const GAS: u8 = 0x5A;
pub const JUMPDEST: u8 = 0x5B;
// Pushes, duplications and swaps: sixteen consecutive codes each
pub const PUSH1: u8 = 0x60;
pub const PUSH16: u8 = 0x6F;
pub const DUP1: u8 = 0x80;
pub const DUP16: u8 = 0x8F;
pub const SWAP1: u8 = 0x90;
pub const SWAP16: u8 = 0x9F;
// Returning
pub const RETURN: u8 = 0xF3;

/// The static gas cost of each recognized opcode. Opcodes outside the
/// table cost nothing but still execute.
pub open spec fn gas_cost(key: u8) -> usize {
    if key == POP || key == PC || key == GAS || key == CALLDATASIZE || key == MSIZE {
        2
    } else if (PUSH1 <= key && key <= PUSH16) || (DUP1 <= key && key <= DUP16) || (SWAP1 <= key
        && key <= SWAP16) || key == ADD || key == SUB || key == EQ || key == ISZERO || key == AND
        || key == OR || key == XOR || key == NOT || key == GT || key == LT || key == SGT || key
        == SLT || key == SHL || key == SHR || key == SAR || key == CALLDATALOAD {
        3
    } else if key == MUL || key == DIV || key == SDIV || key == MOD || key == SMOD {
        5
    } else if key == JUMP || key == ADDMOD || key == MULMOD {
        8
    } else if key == JUMPI {
        10
    } else {
        0
    }
}

/// Fetches the static gas cost of an opcode.
pub fn gas_fetch(key: u8) -> (r: usize)
    ensures
        r == gas_cost(key),
{
    if key == POP || key == PC || key == GAS || key == CALLDATASIZE || key == MSIZE {
        2
    } else if (PUSH1 <= key && key <= PUSH16) || (DUP1 <= key && key <= DUP16) || (SWAP1 <= key
        && key <= SWAP16) || key == ADD || key == SUB || key == EQ || key == ISZERO || key == AND
        || key == OR || key == XOR || key == NOT || key == GT || key == LT || key == SGT || key
        == SLT || key == SHL || key == SHR || key == SAR || key == CALLDATALOAD {
        3
    } else if key == MUL || key == DIV || key == SDIV || key == MOD || key == SMOD {
        5
    } else if key == JUMP || key == ADDMOD || key == MULMOD {
        8
    } else if key == JUMPI {
        10
    } else {
        0
    }
}

} // verus!
