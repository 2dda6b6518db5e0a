//! Core of a stack-based bytecode interpreter compatible with the Ethereum
//! Virtual Machine instruction set: 256-bit big-endian words, a bounded
//! operand stack, auto-extending byte memory, gas accounting, and the
//! fetch-decode-dispatch loop.
pub mod arith;
pub mod execution;
pub mod laws;
pub mod memory;
pub mod opcode;
pub mod stack;
pub mod state;
pub mod status;
pub mod word;
