//! End-to-end programs run through the dispatch loop.
use evm_core::execution::ExecutionContext;
use evm_core::memory::Memory;
use evm_core::stack::Stack;
use evm_core::status::StatusCode;
use evm_core::word::U256BE;

fn run_code(code_hex: &str, gas: usize) -> (Result<(), StatusCode>, ExecutionContext) {
    let code = hex::decode(code_hex).unwrap();
    let mut ctx = ExecutionContext::init(code, Stack::init(), Memory::init(), gas);
    let r = ctx.run();
    (r, ctx)
}

fn top(ctx: &ExecutionContext) -> U256BE {
    ctx.stack.peek(0).unwrap()
}

fn word(v: usize) -> U256BE {
    U256BE::from_usize(v)
}

#[test]
fn push_push_add() {
    let (r, ctx) = run_code("6004600301", 100);
    assert_eq!(r, Err(StatusCode::Completion));
    assert_eq!(top(&ctx).as_slice(), word(7).as_slice());
}

#[test]
fn add_dup_mul() {
    let (r, ctx) = run_code("60036002018002", 100);
    assert_eq!(r, Err(StatusCode::Completion));
    assert_eq!(top(&ctx).as_slice(), word(25).as_slice());
}

#[test]
fn return_low_byte_of_stored_word() {
    let (r, ctx) = run_code("600160005260016000f3", 100);
    assert_eq!(r, Err(StatusCode::Completion));
    assert_eq!(ctx.returndata, vec![0x00u8]);
}

#[test]
fn return_offset_31_gives_stored_byte() {
    let (r, ctx) = run_code("60016000526001601ff3", 100);
    assert_eq!(r, Err(StatusCode::Completion));
    assert_eq!(ctx.returndata, vec![0x01u8]);
}

#[test]
fn return_from_untouched_memory() {
    let (r, ctx) = run_code("60016000f3", 100);
    assert_eq!(r, Err(StatusCode::Completion));
    assert_eq!(ctx.returndata, vec![0x00u8]);
}

#[test]
fn div_by_zero_then_jumpi_not_taken() {
    // DIV of 1 by 0 leaves 0; JUMPI with condition 0 steps on to the end.
    let (r, ctx) = run_code("6000600104600057", 100);
    assert_eq!(r, Err(StatusCode::Completion));
    assert_eq!(ctx.stack.len(), 0);
}

#[test]
fn jumpi_needs_two_operands() {
    // After DIV a single word remains, so JUMPI underflows the stack.
    let (r, _) = run_code("600160000457", 100);
    assert_eq!(r, Err(StatusCode::StackUnderflow));
}

#[test]
fn jump_loop_runs_out_of_gas() {
    let (r, _) = run_code("5b600056", 100);
    assert_eq!(r, Err(StatusCode::OutOfGas));
}

#[test]
fn mod_eq_iszero_chain() {
    let (r, ctx) = run_code("600260030660001415", 100);
    assert_eq!(r, Err(StatusCode::Completion));
    assert_eq!(top(&ctx).as_slice(), word(1).as_slice());
}

#[test]
fn push_past_end_zero_fills_tail() {
    let (r, ctx) = run_code("61ab", 100);
    assert_eq!(r, Err(StatusCode::Completion));
    assert_eq!(top(&ctx).as_slice(), word(0xab00).as_slice());
}

#[test]
fn jump_to_code_length_is_bad() {
    let (r, _) = run_code("600356", 100);
    assert_eq!(r, Err(StatusCode::BadJumpDest));
}

#[test]
fn jump_past_code_length_is_bad() {
    let (r, _) = run_code("60ff56", 100);
    assert_eq!(r, Err(StatusCode::BadJumpDest));
}

#[test]
fn jump_to_valid_index_executes_there() {
    // PUSH1 3, JUMP lands on the JUMPDEST at index 3 and completes.
    let (r, ctx) = run_code("6003565b", 100);
    assert_eq!(r, Err(StatusCode::Completion));
    assert_eq!(ctx.stack.len(), 0);
}

#[test]
fn gas_exactly_equal_to_cost_leaves_zero() {
    let (r, ctx) = run_code("6001", 3);
    assert_eq!(r, Err(StatusCode::Completion));
    assert_eq!(ctx.gas_limit, 0);
}

#[test]
fn gas_one_short_of_cost_runs_out() {
    let (r, _) = run_code("6001", 2);
    assert_eq!(r, Err(StatusCode::OutOfGas));
}

#[test]
fn mstore_then_mload_roundtrip() {
    let (r, ctx) = run_code("604260005260005159", 100);
    assert_eq!(r, Err(StatusCode::Completion));
    // MSIZE on top, the loaded word below it.
    assert_eq!(top(&ctx).as_slice(), word(32).as_slice());
    assert_eq!(ctx.stack.peek(1).unwrap().as_slice(), word(0x42).as_slice());
}

#[test]
fn mstore8_writes_one_byte() {
    // Store 0xVVVV at offset 0 as a single byte, then load the word.
    let (r, ctx) = run_code("61aabb60005360005100", 100);
    assert_eq!(r, Err(StatusCode::Completion));
    let mut expected = [0u8; 32];
    expected[0] = 0xbb;
    assert_eq!(top(&ctx).as_slice(), expected);
    assert_eq!(ctx.memory.len(), 32);
}

#[test]
fn calldataload_zero_fills_and_size_is_kept() {
    let code = hex::decode("60003536").unwrap();
    let mut ctx = ExecutionContext::init(code, Stack::init(), Memory::init(), 100);
    ctx.set_calldata(vec![1u8, 2, 3]);
    let r = ctx.run();
    assert_eq!(r, Err(StatusCode::Completion));
    // CALLDATASIZE on top: loading past the end did not grow it.
    assert_eq!(top(&ctx).as_slice(), word(3).as_slice());
    let mut expected = [0u8; 32];
    expected[0] = 1;
    expected[1] = 2;
    expected[2] = 3;
    assert_eq!(ctx.stack.peek(1).unwrap().as_slice(), expected);
}

#[test]
fn calldataload_with_empty_calldata_is_zero() {
    let (r, ctx) = run_code("600035", 100);
    assert_eq!(r, Err(StatusCode::Completion));
    assert_eq!(top(&ctx).as_slice(), [0u8; 32]);
}

#[test]
fn undefined_opcode_halts() {
    let (r, _) = run_code("fe", 100);
    assert_eq!(r, Err(StatusCode::UndefinedInstruction));
}

#[test]
fn empty_code_completes_at_once() {
    let (r, ctx) = run_code("", 100);
    assert_eq!(r, Err(StatusCode::Completion));
    assert_eq!(ctx.gas_limit, 100);
}

#[test]
fn mulmod_uses_unbounded_intermediate() {
    // (2^255 * 4) mod 7 == 4; a wrapped product would give 0 instead.
    let (r, ctx) = run_code("60076004600160ff1b09", 100);
    assert_eq!(r, Err(StatusCode::Completion));
    assert_eq!(top(&ctx).as_slice(), word(4).as_slice());
}

#[test]
fn addmod_uses_unbounded_intermediate() {
    // With a = 2^256 - 1: (a + a) mod 3 == 0; a wrapped sum would give 2.
    let (r, ctx) = run_code("60036000198008", 100);
    assert_eq!(r, Err(StatusCode::Completion));
    assert_eq!(top(&ctx).as_slice(), [0u8; 32]);
}

#[test]
fn addmod_by_zero_is_zero() {
    let (r, ctx) = run_code("60006002600308", 100);
    assert_eq!(r, Err(StatusCode::Completion));
    assert_eq!(top(&ctx).as_slice(), [0u8; 32]);
}

#[test]
fn sha3_of_one_zero_byte() {
    // Keccak-256 of the single byte 0x00, read from auto-extended memory.
    let (r, ctx) = run_code("6001600020", 100);
    assert_eq!(r, Err(StatusCode::Completion));
    let expected = hex::decode("bc36789e7a1e281436464229828f817d6612f7b477d66591ff96a9e064bcc98a")
        .unwrap();
    assert_eq!(top(&ctx).as_slice().to_vec(), expected);
}

#[test]
fn sha3_of_empty_range() {
    // Keccak-256 of the empty byte string.
    let (r, ctx) = run_code("6000600020", 100);
    assert_eq!(r, Err(StatusCode::Completion));
    let expected = hex::decode("c5d2460186f7233c927e7db2dcc703c0e500b653ca82273b7bfad8045d85a470")
        .unwrap();
    assert_eq!(top(&ctx).as_slice().to_vec(), expected);
}

#[test]
fn pc_and_gas_observables() {
    // PUSH1 0 POP PC: the counter at the PC opcode is 3.
    let (r, ctx) = run_code("60005058", 100);
    assert_eq!(r, Err(StatusCode::Completion));
    assert_eq!(top(&ctx).as_slice(), word(3).as_slice());
    // GAS pushes what remains before its own charge: 100 - 3 - 2 = 95.
    let (r2, ctx2) = run_code("6000505a", 100);
    assert_eq!(r2, Err(StatusCode::Completion));
    assert_eq!(top(&ctx2).as_slice(), word(95).as_slice());
}

#[test]
fn block_observables() {
    // NUMBER, DIFFICULTY, GASLIMIT, BASEFEE, TIMESTAMP, COINBASE.
    let (r, ctx) = run_code("434445484241", 100);
    assert_eq!(r, Err(StatusCode::Completion));
    assert_eq!(top(&ctx).as_slice(), word(4).as_slice());
    assert_eq!(ctx.stack.peek(1).unwrap().as_slice(), word(8).as_slice());
    assert_eq!(ctx.stack.peek(2).unwrap().as_slice(), word(21000).as_slice());
    assert_eq!(ctx.stack.peek(3).unwrap().as_slice(), word(8000000).as_slice());
    assert_eq!(ctx.stack.peek(4).unwrap().as_slice(), word(6).as_slice());
    assert_eq!(ctx.stack.peek(5).unwrap().as_slice(), word(1).as_slice());
}

#[test]
fn stop_halts_without_touching_stack() {
    let (r, ctx) = run_code("6007600800", 100);
    assert_eq!(r, Err(StatusCode::Completion));
    assert_eq!(ctx.stack.len(), 2);
    assert!(ctx.stopped);
}
