//! The machine's parts exercised directly: stack bounds, memory growth,
//! calldata windows, gas accounting and the gas table.
use evm_core::execution::ExecutionContext;
use evm_core::memory::Memory;
use evm_core::opcode;
use evm_core::stack::Stack;
use evm_core::state::Block;
use evm_core::status::StatusCode;
use evm_core::word::U256BE;

fn word(v: usize) -> U256BE {
    U256BE::from_usize(v)
}

#[test]
fn stack_overflows_at_capacity() {
    let mut stack = Stack::init();
    for i in 0..1024 {
        assert_eq!(stack.push(word(i)), Ok(()));
    }
    assert_eq!(stack.len(), 1024);
    assert_eq!(stack.push(word(9999)), Err(StatusCode::StackOverflow));
    assert_eq!(stack.len(), 1024);
}

#[test]
fn stack_pop_on_empty_underflows() {
    let mut stack = Stack::init();
    assert_eq!(stack.pop().unwrap_err(), StatusCode::StackUnderflow);
}

#[test]
fn stack_peek_indexes_from_the_top() {
    let mut stack = Stack::init();
    stack.push(word(10)).unwrap();
    stack.push(word(20)).unwrap();
    stack.push(word(30)).unwrap();
    assert_eq!(stack.peek(0).unwrap().as_slice(), word(30).as_slice());
    assert_eq!(stack.peek(2).unwrap().as_slice(), word(10).as_slice());
    assert_eq!(stack.peek(3).unwrap_err(), StatusCode::ArgOutOfRange);
}

#[test]
fn stack_push_to_replaces_below_the_top() {
    let mut stack = Stack::init();
    stack.push(word(10)).unwrap();
    stack.push(word(20)).unwrap();
    assert_eq!(stack.push_to(1, word(99)), Ok(()));
    assert_eq!(stack.peek(1).unwrap().as_slice(), word(99).as_slice());
    assert_eq!(stack.peek(0).unwrap().as_slice(), word(20).as_slice());
    assert_eq!(stack.push_to(2, word(5)), Err(StatusCode::ArgOutOfRange));
    assert_eq!(stack.len(), 2);
}

#[test]
fn stack_peek_full_lists_bottom_first() {
    let mut stack = Stack::init();
    stack.push(word(1)).unwrap();
    stack.push(word(2)).unwrap();
    let all = stack.peek_full();
    assert_eq!(all.len(), 2);
    assert_eq!(all[0].as_slice(), word(1).as_slice());
    assert_eq!(all[1].as_slice(), word(2).as_slice());
}

#[test]
fn memory_starts_empty_and_grows_aligned() {
    let mut mem = Memory::init();
    assert_eq!(mem.len(), 0);
    mem.store(1, word(7)).unwrap();
    // Covering [1, 33) needs 64 aligned bytes.
    assert_eq!(mem.len(), 64);
    assert_eq!(mem.len() % 32, 0);
}

#[test]
fn memory_store_then_load_roundtrip() {
    let mut mem = Memory::init();
    mem.store(5, word(0xdead)).unwrap();
    let loaded = mem.load(5).unwrap();
    assert_eq!(loaded, word(0xdead).as_slice().to_vec());
}

#[test]
fn memory_load_extends_and_zero_fills() {
    let mut mem = Memory::init();
    let loaded = mem.load(40).unwrap();
    assert_eq!(loaded, vec![0u8; 32]);
    assert_eq!(mem.len(), 96);
}

#[test]
fn memory_store_byte_touches_one_byte() {
    let mut mem = Memory::init();
    mem.store(0, word(0x1111)).unwrap();
    mem.store_byte(31, 0x99).unwrap();
    let loaded = mem.load(0).unwrap();
    let mut expected = word(0x1111).as_slice();
    expected[31] = 0x99;
    assert_eq!(loaded, expected.to_vec());
    assert_eq!(mem.len(), 32);
}

#[test]
fn memory_load_range_reads_written_bytes() {
    let mut mem = Memory::init();
    mem.store(0, word(0x0a0b)).unwrap();
    let bytes = mem.load_range(30, 2).unwrap();
    assert_eq!(bytes, vec![0x0a, 0x0b]);
    let empty = mem.load_range(1000, 0).unwrap();
    assert_eq!(empty, Vec::<u8>::new());
    assert_eq!(mem.len(), 32);
}

#[test]
fn memory_load_full_shows_everything() {
    let mut mem = Memory::init();
    mem.store_byte(0, 5).unwrap();
    let all = mem.load_full();
    assert_eq!(all.len(), 32);
    assert_eq!(all[0], 5);
}

#[test]
fn calldata_load_window_and_no_growth() {
    let code = hex::decode("00").unwrap();
    let mut ctx = ExecutionContext::init(code, Stack::init(), Memory::init(), 10);
    ctx.set_calldata(vec![0xaa, 0xbb]);
    let window = ctx.calldata_load(1).unwrap();
    assert_eq!(window.len(), 32);
    assert_eq!(window[0], 0xbb);
    assert!(window[1..].iter().all(|&b| b == 0));
    assert_eq!(ctx.calldata.len(), 2);
}

#[test]
fn sub_gas_exact_and_over() {
    let mut ctx = ExecutionContext::init(Vec::new(), Stack::init(), Memory::init(), 10);
    assert_eq!(ctx.sub_gas(10), Ok(()));
    assert_eq!(ctx.gas_limit, 0);
    assert_eq!(ctx.sub_gas(1), Err(StatusCode::OutOfGas));
    assert_eq!(ctx.gas_limit, 0);
}

#[test]
fn pc_jump_bounds() {
    let code = hex::decode("5b5b5b").unwrap();
    let mut ctx = ExecutionContext::init(code, Stack::init(), Memory::init(), 10);
    assert_eq!(ctx.pc_jump(2), Ok(()));
    assert_eq!(ctx.pc, 2);
    assert_eq!(ctx.pc_jump(3), Err(StatusCode::BadJumpDest));
    assert_eq!(ctx.pc, 2);
}

#[test]
fn pc_increment_clamps_to_code_end() {
    let code = hex::decode("6001").unwrap();
    let mut ctx = ExecutionContext::init(code, Stack::init(), Memory::init(), 10);
    ctx.pc_increment(100);
    assert_eq!(ctx.pc, 2);
}

#[test]
fn read_code_at_and_past_the_end() {
    let code = hex::decode("6001").unwrap();
    let ctx = ExecutionContext::init(code, Stack::init(), Memory::init(), 10);
    assert_eq!(ctx.read_code(0), Ok(0x60));
    assert_eq!(ctx.read_code(1), Ok(0x01));
    assert_eq!(ctx.read_code(2), Err(StatusCode::Completion));
}

#[test]
fn stack_step_push_advances_counter() {
    let code = hex::decode("600100").unwrap();
    let mut ctx = ExecutionContext::init(code, Stack::init(), Memory::init(), 10);
    assert_eq!(ctx.stack_step_push(word(7)), Ok(()));
    assert_eq!(ctx.pc, 1);
    assert_eq!(ctx.stack.len(), 1);
}

#[test]
fn gas_table_values() {
    assert_eq!(opcode::gas_fetch(opcode::POP), 2);
    assert_eq!(opcode::gas_fetch(opcode::PC), 2);
    assert_eq!(opcode::gas_fetch(opcode::GAS), 2);
    assert_eq!(opcode::gas_fetch(opcode::CALLDATASIZE), 2);
    assert_eq!(opcode::gas_fetch(opcode::MSIZE), 2);
    assert_eq!(opcode::gas_fetch(opcode::PUSH1), 3);
    assert_eq!(opcode::gas_fetch(opcode::PUSH16), 3);
    assert_eq!(opcode::gas_fetch(opcode::DUP1), 3);
    assert_eq!(opcode::gas_fetch(opcode::SWAP16), 3);
    assert_eq!(opcode::gas_fetch(opcode::ADD), 3);
    assert_eq!(opcode::gas_fetch(opcode::SUB), 3);
    assert_eq!(opcode::gas_fetch(opcode::EQ), 3);
    assert_eq!(opcode::gas_fetch(opcode::ISZERO), 3);
    assert_eq!(opcode::gas_fetch(opcode::AND), 3);
    assert_eq!(opcode::gas_fetch(opcode::XOR), 3);
    assert_eq!(opcode::gas_fetch(opcode::NOT), 3);
    assert_eq!(opcode::gas_fetch(opcode::CALLDATALOAD), 3);
    assert_eq!(opcode::gas_fetch(opcode::SHL), 3);
    assert_eq!(opcode::gas_fetch(opcode::MUL), 5);
    assert_eq!(opcode::gas_fetch(opcode::DIV), 5);
    assert_eq!(opcode::gas_fetch(opcode::SDIV), 5);
    assert_eq!(opcode::gas_fetch(opcode::MOD), 5);
    assert_eq!(opcode::gas_fetch(opcode::SMOD), 5);
    assert_eq!(opcode::gas_fetch(opcode::JUMP), 8);
    assert_eq!(opcode::gas_fetch(opcode::ADDMOD), 8);
    assert_eq!(opcode::gas_fetch(opcode::MULMOD), 8);
    assert_eq!(opcode::gas_fetch(opcode::JUMPI), 10);
    assert_eq!(opcode::gas_fetch(opcode::STOP), 0);
    assert_eq!(opcode::gas_fetch(opcode::RETURN), 0);
    assert_eq!(opcode::gas_fetch(opcode::JUMPDEST), 0);
    assert_eq!(opcode::gas_fetch(opcode::SHA3), 0);
    assert_eq!(opcode::gas_fetch(opcode::EXP), 0);
    assert_eq!(opcode::gas_fetch(0xfe), 0);
}

#[test]
fn block_default_values() {
    let block = Block::default();
    assert_eq!(block.blocknumber, 1);
    assert_eq!(block.basegas, 21000);
    assert_eq!(block.gaslimit, 8000000);
    assert_eq!(block.difficulty, 6);
    assert_eq!(block.nonce, 7);
    assert_eq!(block.timestamp.as_slice(), U256BE::from_u8(8).as_slice());
    assert_eq!(
        block.coinbase.to_u256_be().as_slice(),
        U256BE::from_u8(4).as_slice(),
    );
}

#[test]
fn dup_then_pop_leaves_stack_unchanged() {
    // DUP2 then POP on a two-word stack.
    let code = hex::decode("600a600b8150").unwrap();
    let mut ctx = ExecutionContext::init(code, Stack::init(), Memory::init(), 100);
    let r = ctx.run();
    assert_eq!(r, Err(StatusCode::Completion));
    assert_eq!(ctx.stack.len(), 2);
    assert_eq!(ctx.stack.peek(0).unwrap().as_slice(), word(0x0b).as_slice());
    assert_eq!(ctx.stack.peek(1).unwrap().as_slice(), word(0x0a).as_slice());
}

#[test]
fn swap_twice_leaves_stack_unchanged() {
    // SWAP1 twice on a two-word stack.
    let code = hex::decode("600a600b9090").unwrap();
    let mut ctx = ExecutionContext::init(code, Stack::init(), Memory::init(), 100);
    let r = ctx.run();
    assert_eq!(r, Err(StatusCode::Completion));
    assert_eq!(ctx.stack.peek(0).unwrap().as_slice(), word(0x0b).as_slice());
    assert_eq!(ctx.stack.peek(1).unwrap().as_slice(), word(0x0a).as_slice());
}

#[test]
fn swap_exchanges_top_with_nth() {
    // SWAP1 once.
    let code = hex::decode("600a600b90").unwrap();
    let mut ctx = ExecutionContext::init(code, Stack::init(), Memory::init(), 100);
    let r = ctx.run();
    assert_eq!(r, Err(StatusCode::Completion));
    assert_eq!(ctx.stack.peek(0).unwrap().as_slice(), word(0x0a).as_slice());
    assert_eq!(ctx.stack.peek(1).unwrap().as_slice(), word(0x0b).as_slice());
}

#[test]
fn dup_without_enough_operands_fails() {
    // DUP2 with one word on the stack.
    let code = hex::decode("600a81").unwrap();
    let mut ctx = ExecutionContext::init(code, Stack::init(), Memory::init(), 100);
    assert_eq!(ctx.run(), Err(StatusCode::ArgOutOfRange));
}

#[test]
fn pop_on_empty_stack_underflows() {
    let code = hex::decode("50").unwrap();
    let mut ctx = ExecutionContext::init(code, Stack::init(), Memory::init(), 100);
    assert_eq!(ctx.run(), Err(StatusCode::StackUnderflow));
}
