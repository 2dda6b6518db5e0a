//! Word-level operations: conversions, bitwise logic, comparisons, and
//! the signed and shifting operations carried by the wide-integer
//! library.
use evm_core::execution::ExecutionContext;
use evm_core::memory::Memory;
use evm_core::stack::Stack;
use evm_core::status::StatusCode;
use evm_core::word::U256BE;

fn run_code(code_hex: &str, gas: usize) -> (Result<(), StatusCode>, ExecutionContext) {
    let code = hex::decode(code_hex).unwrap();
    let mut ctx = ExecutionContext::init(code, Stack::init(), Memory::init(), gas);
    let r = ctx.run();
    (r, ctx)
}

fn top(ctx: &ExecutionContext) -> U256BE {
    ctx.stack.peek(0).unwrap()
}

fn word(v: usize) -> U256BE {
    U256BE::from_usize(v)
}

/// The word for -v in two's complement.
fn neg_word(v: u8) -> U256BE {
    let mut bytes = [0xffu8; 32];
    bytes[31] = 0u8.wrapping_sub(v);
    U256BE(bytes)
}

#[test]
fn from_u8_and_from_usize_agree() {
    assert_eq!(U256BE::from_u8(42).as_slice(), word(42).as_slice());
    let mut expected = [0u8; 32];
    expected[31] = 42;
    assert_eq!(U256BE::from_u8(42).as_slice(), expected);
}

#[test]
fn from_usize_big_endian_layout() {
    let w = word(0x0102030405060708);
    let mut expected = [0u8; 32];
    expected[24] = 1;
    expected[25] = 2;
    expected[26] = 3;
    expected[27] = 4;
    expected[28] = 5;
    expected[29] = 6;
    expected[30] = 7;
    expected[31] = 8;
    assert_eq!(w.as_slice(), expected);
}

#[test]
fn to_usize_truncates_to_low_bytes() {
    let mut bytes = [0u8; 32];
    bytes[0] = 0xff;
    bytes[23] = 0xff;
    bytes[30] = 0x12;
    bytes[31] = 0x34;
    let w = U256BE::from_slice(&bytes);
    assert_eq!(w.to_usize(), 0x1234);
}

#[test]
fn to_u32_takes_last_four_bytes() {
    let w = word(0x0102030405060708);
    assert_eq!(w.to_u32(), 0x05060708);
}

#[test]
fn from_slice_left_pads_with_zero() {
    let w = U256BE::from_slice(&[0xaa, 0xbb]);
    let mut expected = [0u8; 32];
    expected[30] = 0xaa;
    expected[31] = 0xbb;
    assert_eq!(w.as_slice(), expected);
}

#[test]
fn try_from_slice_rejects_long_slices() {
    let long = [0u8; 33];
    assert_eq!(
        U256BE::try_from_slice(&long).unwrap_err(),
        StatusCode::ArgOutOfRange,
    );
    let short = U256BE::try_from_slice(&[0x7f]).unwrap();
    assert_eq!(short.as_slice(), word(0x7f).as_slice());
}

#[test]
fn push_pop_roundtrip() {
    // For any word: push then pop returns it and restores the stack.
    let mut stack = Stack::init();
    let w = word(123456);
    assert_eq!(stack.push(w), Ok(()));
    let back = stack.pop().unwrap();
    assert_eq!(back.as_slice(), w.as_slice());
    assert_eq!(stack.len(), 0);
}

#[test]
fn eq_and_uint_eq() {
    let a = word(7);
    let b = word(9);
    assert!(a.eq(a));
    assert!(!a.eq(b));
    assert_eq!(a.uint_eq(a).as_slice(), word(1).as_slice());
    assert_eq!(a.uint_eq(b).as_slice(), word(0).as_slice());
}

#[test]
fn iszero_values() {
    assert!(U256BE::zero().is_zero());
    assert!(!word(5).is_zero());
    assert_eq!(U256BE::zero().uint_is_zero().as_slice(), word(1).as_slice());
    assert_eq!(word(5).uint_is_zero().as_slice(), word(0).as_slice());
}

#[test]
fn bitwise_not_and_or_xor() {
    let a = word(0b1100);
    let b = word(0b1010);
    assert_eq!(a.and(b).as_slice(), word(0b1000).as_slice());
    assert_eq!(a.or(b).as_slice(), word(0b1110).as_slice());
    assert_eq!(a.xor(b).as_slice(), word(0b0110).as_slice());
    assert_eq!(a.not().not().as_slice(), a.as_slice());
    assert_eq!(a.and(a).as_slice(), a.as_slice());
    assert_eq!(a.xor(a).as_slice(), word(0).as_slice());
}

#[test]
fn unsigned_comparisons() {
    let a = word(3);
    let b = word(5);
    assert_eq!(a.lt(b).as_slice(), word(1).as_slice());
    assert_eq!(a.gt(b).as_slice(), word(0).as_slice());
    assert_eq!(b.gt(a).as_slice(), word(1).as_slice());
    assert_eq!(a.lt(a).as_slice(), word(0).as_slice());
    // A word with a high byte set is larger than any small word.
    let big = U256BE::from_slice(&[1, 0, 0, 0, 0, 0, 0, 0, 0]);
    assert_eq!(b.lt(big).as_slice(), word(1).as_slice());
}

#[test]
fn signed_comparisons() {
    let minus_one = neg_word(1);
    let one = word(1);
    assert_eq!(minus_one.slt(one).as_slice(), word(1).as_slice());
    assert_eq!(minus_one.sgt(one).as_slice(), word(0).as_slice());
    assert_eq!(one.sgt(minus_one).as_slice(), word(1).as_slice());
    // Unsigned, the same bit patterns order the other way round.
    assert_eq!(minus_one.lt(one).as_slice(), word(0).as_slice());
}

#[test]
fn shifts_small_amounts() {
    let one = word(1);
    assert_eq!(one.shl(word(7)).as_slice(), word(128).as_slice());
    assert_eq!(word(128).shr(word(7)).as_slice(), word(1).as_slice());
}

#[test]
fn shifts_at_or_past_256_saturate() {
    let v = word(0x1234);
    let mut big_shift = [0u8; 32];
    big_shift[30] = 1;  // 256
    let s = U256BE(big_shift);
    assert_eq!(v.shl(s).as_slice(), [0u8; 32]);
    assert_eq!(v.shr(s).as_slice(), [0u8; 32]);
    assert_eq!(neg_word(1).sar(s).as_slice(), [0xffu8; 32]);
    assert_eq!(v.sar(s).as_slice(), [0u8; 32]);
}

#[test]
fn sar_keeps_the_sign() {
    let minus_eight = neg_word(8);
    assert_eq!(minus_eight.sar(word(2)).as_slice(), neg_word(2).as_slice());
    assert_eq!(word(8).sar(word(2)).as_slice(), word(2).as_slice());
}

#[test]
fn u160_widens_back_to_word() {
    let w = word(0x1234);
    let short: evm_core::word::U160 = w.to_u160();
    let widened: U256BE = short.to_u256_be();
    assert_eq!(widened.as_slice(), w.as_slice());
}

#[test]
fn sdiv_truncates_toward_zero() {
    // -4 / 2 == -2 through the executor.
    let (r, ctx) = run_code("6002600460000305", 100);
    assert_eq!(r, Err(StatusCode::Completion));
    assert_eq!(top(&ctx).as_slice(), neg_word(2).as_slice());
}

#[test]
fn smod_takes_dividend_sign() {
    // -5 % 3 == -2 through the executor.
    let (r, ctx) = run_code("6003600560000307", 100);
    assert_eq!(r, Err(StatusCode::Completion));
    assert_eq!(top(&ctx).as_slice(), neg_word(2).as_slice());
}

#[test]
fn sdiv_of_minimum_by_minus_one_wraps() {
    // PUSH -1, then 1 << 255, then SDIV: the minimum wraps to itself.
    let (r, ctx) = run_code("600019600160ff1b05", 100);
    assert_eq!(r, Err(StatusCode::Completion));
    let mut expected = [0u8; 32];
    expected[0] = 0x80;
    assert_eq!(top(&ctx).as_slice(), expected);
}

#[test]
fn sdiv_by_zero_is_zero() {
    let (r, ctx) = run_code("6000600505", 100);
    assert_eq!(r, Err(StatusCode::Completion));
    assert_eq!(top(&ctx).as_slice(), [0u8; 32]);
}

#[test]
fn smod_by_zero_is_zero() {
    let (r, ctx) = run_code("6000600507", 100);
    assert_eq!(r, Err(StatusCode::Completion));
    assert_eq!(top(&ctx).as_slice(), [0u8; 32]);
}

#[test]
fn div_by_zero_is_zero() {
    let (r, ctx) = run_code("6000600504", 100);
    assert_eq!(r, Err(StatusCode::Completion));
    assert_eq!(top(&ctx).as_slice(), [0u8; 32]);
}

#[test]
fn mod_by_zero_is_zero() {
    let (r, ctx) = run_code("6000600506", 100);
    assert_eq!(r, Err(StatusCode::Completion));
    assert_eq!(top(&ctx).as_slice(), [0u8; 32]);
}

#[test]
fn div_mul_mod_reassembles_dividend() {
    // For a = 17, b = 5: MUL(DIV(a, b), b) + MOD(a, b) == a.
    // The program computes DIV(17,5)=3, MUL(3,5)=15, MOD(17,5)=2, ADD.
    let (r, ctx) = run_code("6005601104600502600560110601", 100);
    assert_eq!(r, Err(StatusCode::Completion));
    assert_eq!(top(&ctx).as_slice(), word(17).as_slice());
}

#[test]
fn add_wraps_on_word_modulus() {
    // (2^256 - 1) + 2 == 1.
    let (r, ctx) = run_code("600260001901", 100);
    assert_eq!(r, Err(StatusCode::Completion));
    assert_eq!(top(&ctx).as_slice(), word(1).as_slice());
}

#[test]
fn sub_wraps_below_zero() {
    // 0 - 1 == 2^256 - 1.
    let (r, ctx) = run_code("6001600003", 100);
    assert_eq!(r, Err(StatusCode::Completion));
    assert_eq!(top(&ctx).as_slice(), [0xffu8; 32]);
}

#[test]
fn exp_small_values() {
    // 3^5 == 243.
    let (r, ctx) = run_code("600560030a", 100);
    assert_eq!(r, Err(StatusCode::Completion));
    assert_eq!(top(&ctx).as_slice(), word(243).as_slice());
}

#[test]
fn byte_picks_most_significant_first() {
    // BYTE(31, 0x42) is the lowest byte.
    let (r, ctx) = run_code("6042601f1a", 100);
    assert_eq!(r, Err(StatusCode::Completion));
    assert_eq!(top(&ctx).as_slice(), word(0x42).as_slice());
    // BYTE(32, x) is zero.
    let (r2, ctx2) = run_code("604260201a", 100);
    assert_eq!(r2, Err(StatusCode::Completion));
    assert_eq!(top(&ctx2).as_slice(), [0u8; 32]);
}

#[test]
fn comparison_opcodes() {
    // LT: 1 < 2.
    let (r, ctx) = run_code("6002600110", 100);
    assert_eq!(r, Err(StatusCode::Completion));
    assert_eq!(top(&ctx).as_slice(), word(1).as_slice());
    // GT: 1 > 2 is false.
    let (r2, ctx2) = run_code("6002600111", 100);
    assert_eq!(r2, Err(StatusCode::Completion));
    assert_eq!(top(&ctx2).as_slice(), word(0).as_slice());
    // SLT: -1 < 1 signed.
    let (r3, ctx3) = run_code("600160001912", 100);
    assert_eq!(r3, Err(StatusCode::Completion));
    assert_eq!(top(&ctx3).as_slice(), word(1).as_slice());
}
