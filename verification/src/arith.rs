//! 256-bit arithmetic for the executor. The wrapping operations are
//! carried out by the `ethnum` wide-integer library behind trusted
//! wrappers whose contracts state the result over the word's value;
//! everything around them is verified.
use vstd::prelude::*;

use crate::word::{be_lt, be_val, be_sval, bool_word, pow256, zeros, U256BE};
use crate::word::{lemma_be_val_zeros, lemma_pow256_pos};

verus! {

broadcast use vstd::array::group_array_axioms;

/// The modulus of 256-bit words.
pub open spec fn word_mod() -> nat {
    pow256(32)
}

/// Division truncated toward zero, as two's-complement hardware does it.
pub open spec fn sdiv_trunc(a: int, b: int) -> int {
    let q = vstd::math::abs(a) as int / vstd::math::abs(b) as int;
    if (a < 0) == (b < 0) {
        q
    } else {
        -q
    }
}

/// Remainder of truncated division: it carries the dividend's sign.
pub open spec fn srem_trunc(a: int, b: int) -> int {
    a - b * sdiv_trunc(a, b)
}

/// The smallest signed word value, -2^255.
pub open spec fn lowest_signed() -> int {
    -(pow256(31) * 128)
}

/// Relies on ethnum::U256::wrapping_add: 256-bit addition wrapping on
/// 2^256, on big-endian bytes.
#[verifier::external_body]
pub(crate) fn u256_add(a: &U256BE, b: &U256BE) -> (r: U256BE)
    ensures
        r@.len() == 32,
        be_val(r@) == (be_val(a@) + be_val(b@)) % word_mod(),
{
    U256BE(ethnum::U256::from_be_bytes(a.0).wrapping_add(ethnum::U256::from_be_bytes(b.0))
        .to_be_bytes())
}

/// Relies on ethnum::U256::wrapping_sub: 256-bit subtraction wrapping on
/// 2^256, on big-endian bytes.
#[verifier::external_body]
pub(crate) fn u256_sub(a: &U256BE, b: &U256BE) -> (r: U256BE)
    ensures
        r@.len() == 32,
        be_val(r@) == (word_mod() + be_val(a@) - be_val(b@)) % (word_mod() as int),
{
    U256BE(ethnum::U256::from_be_bytes(a.0).wrapping_sub(ethnum::U256::from_be_bytes(b.0))
        .to_be_bytes())
}

/// Relies on ethnum::U256::wrapping_mul: 256-bit multiplication wrapping
/// on 2^256, on big-endian bytes.
#[verifier::external_body]
pub(crate) fn u256_mul(a: &U256BE, b: &U256BE) -> (r: U256BE)
    ensures
        r@.len() == 32,
        be_val(r@) == (be_val(a@) * be_val(b@)) % word_mod(),
{
    U256BE(ethnum::U256::from_be_bytes(a.0).wrapping_mul(ethnum::U256::from_be_bytes(b.0))
        .to_be_bytes())
}

/// Relies on ethnum::U256::wrapping_div: plain 256-bit division, which
/// panics on a zero divisor and so is never called with one.
#[verifier::external_body]
pub(crate) fn u256_div(a: &U256BE, b: &U256BE) -> (r: U256BE)
    requires
        be_val(b@) != 0,
    ensures
        r@.len() == 32,
        be_val(r@) == be_val(a@) / be_val(b@),
{
    U256BE(ethnum::U256::from_be_bytes(a.0).wrapping_div(ethnum::U256::from_be_bytes(b.0))
        .to_be_bytes())
}

/// Relies on ethnum::U256::wrapping_rem: plain 256-bit remainder, which
/// panics on a zero divisor and so is never called with one.
#[verifier::external_body]
pub(crate) fn u256_rem(a: &U256BE, b: &U256BE) -> (r: U256BE)
    requires
        be_val(b@) != 0,
    ensures
        r@.len() == 32,
        be_val(r@) == be_val(a@) % be_val(b@),
{
    U256BE(ethnum::U256::from_be_bytes(a.0).wrapping_rem(ethnum::U256::from_be_bytes(b.0))
        .to_be_bytes())
}

/// Relies on ethnum::U256::wrapping_pow: 256-bit exponentiation by a
/// 32-bit exponent, wrapping on 2^256.
#[verifier::external_body]
pub(crate) fn u256_pow(a: &U256BE, e: u32) -> (r: U256BE)
    ensures
        r@.len() == 32,
        be_val(r@) == vstd::arithmetic::power::pow(be_val(a@) as int, e as nat) % (
        word_mod() as int),
{
    U256BE(ethnum::U256::from_be_bytes(a.0).wrapping_pow(e).to_be_bytes())
}

/// Relies on ethnum::U256::wrapping_shl: a left shift below 256 multiplies
/// by the power of two and wraps on 2^256.
#[verifier::external_body]
pub(crate) fn u256_shl(a: &U256BE, sh: u32) -> (r: U256BE)
    requires
        sh < 256,
    ensures
        r@.len() == 32,
        be_val(r@) == (be_val(a@) * vstd::arithmetic::power2::pow2(sh as nat)) % word_mod(),
{
    U256BE(ethnum::U256::from_be_bytes(a.0).wrapping_shl(sh).to_be_bytes())
}

/// Relies on ethnum::U256::wrapping_shr: a logical right shift below 256
/// divides by the power of two.
#[verifier::external_body]
pub(crate) fn u256_shr(a: &U256BE, sh: u32) -> (r: U256BE)
    requires
        sh < 256,
    ensures
        r@.len() == 32,
        be_val(r@) == be_val(a@) / vstd::arithmetic::power2::pow2(sh as nat),
{
    U256BE(ethnum::U256::from_be_bytes(a.0).wrapping_shr(sh).to_be_bytes())
}

/// Relies on ethnum::I256::wrapping_div: two's-complement division
/// truncated toward zero; the minimum value divided by minus one wraps to
/// itself. Panics on a zero divisor and so is never called with one.
#[verifier::external_body]
pub(crate) fn i256_div(a: &U256BE, b: &U256BE) -> (r: U256BE)
    requires
        be_val(b@) != 0,
    ensures
        r@.len() == 32,
        be_sval(a@) == lowest_signed() && be_sval(b@) == -1 ==> r@ == a@,
        !(be_sval(a@) == lowest_signed() && be_sval(b@) == -1) ==> be_sval(r@) == sdiv_trunc(
            be_sval(a@),
            be_sval(b@),
        ),
{
    U256BE(ethnum::I256::from_be_bytes(a.0).wrapping_div(ethnum::I256::from_be_bytes(b.0))
        .to_be_bytes())
}

/// Relies on ethnum::I256::wrapping_rem: the remainder of truncated
/// two's-complement division, with the dividend's sign; the minimum value
/// by minus one gives zero. Panics on a zero divisor and so is never
/// called with one.
#[verifier::external_body]
pub(crate) fn i256_rem(a: &U256BE, b: &U256BE) -> (r: U256BE)
    requires
        be_val(b@) != 0,
    ensures
        r@.len() == 32,
        be_sval(a@) == lowest_signed() && be_sval(b@) == -1 ==> be_val(r@) == 0,
        !(be_sval(a@) == lowest_signed() && be_sval(b@) == -1) ==> be_sval(r@) == srem_trunc(
            be_sval(a@),
            be_sval(b@),
        ),
{
    U256BE(ethnum::I256::from_be_bytes(a.0).wrapping_rem(ethnum::I256::from_be_bytes(b.0))
        .to_be_bytes())
}

/// Relies on ethnum::I256::wrapping_shr: an arithmetic right shift below
/// 256, which floors the quotient by the power of two.
#[verifier::external_body]
pub(crate) fn i256_sar(a: &U256BE, sh: u32) -> (r: U256BE)
    requires
        sh < 256,
    ensures
        r@.len() == 32,
        be_sval(r@) == be_sval(a@) / (vstd::arithmetic::power2::pow2(sh as nat) as int),
{
    U256BE(ethnum::I256::from_be_bytes(a.0).wrapping_shr(sh).to_be_bytes())
}

/// Relies on ethnum::I256's ordering: two's-complement comparison of the
/// big-endian bytes.
#[verifier::external_body]
pub(crate) fn i256_lt(a: &U256BE, b: &U256BE) -> (r: bool)
    ensures
        r == (be_sval(a@) < be_sval(b@)),
{
    ethnum::I256::from_be_bytes(a.0) < ethnum::I256::from_be_bytes(b.0)
}

impl U256BE {
    /// Signed greater-than as a word: 1 when `self > value` read as
    /// two's complement, else 0.
    pub fn sgt(self, value: U256BE) -> (r: Self)
        ensures
            r@ == bool_word(be_sval(self@) > be_sval(value@)),
    {
        if i256_lt(&value, &self) {
            U256BE::from_u8(1)
        } else {
            U256BE::zero()
        }
    }

    /// Signed less-than as a word: 1 when `self < value` read as two's
    /// complement, else 0.
    pub fn slt(self, value: U256BE) -> (r: Self)
        ensures
            r@ == bool_word(be_sval(self@) < be_sval(value@)),
    {
        if i256_lt(&self, &value) {
            U256BE::from_u8(1)
        } else {
            U256BE::zero()
        }
    }

    /// Left shift: the amount is the argument's low 32 bits; amounts of
    /// 256 or more shift everything out and leave zero.
    pub fn shl(self, value: U256BE) -> (r: Self)
        ensures
            ({
                let amt = be_val(value@.skip(28));
                &&& amt >= 256 ==> be_val(r@) == 0
                &&& amt < 256 ==> be_val(r@) == (be_val(self@) * vstd::arithmetic::power2::pow2(
                    amt,
                )) % word_mod()
            }),
    {
        let amt = value.to_u32();
        if amt >= 256 {
            U256BE::zero()
        } else {
            u256_shl(&self, amt)
        }
    }

    /// Logical right shift: the amount is the argument's low 32 bits;
    /// amounts of 256 or more leave zero.
    pub fn shr(self, value: U256BE) -> (r: Self)
        ensures
            ({
                let amt = be_val(value@.skip(28));
                &&& amt >= 256 ==> be_val(r@) == 0
                &&& amt < 256 ==> be_val(r@) == be_val(self@) / vstd::arithmetic::power2::pow2(amt)
            }),
    {
        let amt = value.to_u32();
        if amt >= 256 {
            U256BE::zero()
        } else {
            u256_shr(&self, amt)
        }
    }

    /// Arithmetic right shift: the amount is the argument's low 32 bits;
    /// amounts of 256 or more leave the sign spread over the whole word.
    pub fn sar(self, value: U256BE) -> (r: Self)
        ensures
            ({
                let amt = be_val(value@.skip(28));
                &&& amt >= 256 && be_sval(self@) < 0 ==> be_sval(r@) == -1
                &&& amt >= 256 && be_sval(self@) >= 0 ==> be_val(r@) == 0
                &&& amt < 256 ==> be_sval(r@) == be_sval(self@) / (
                vstd::arithmetic::power2::pow2(amt) as int)
            }),
    {
        let amt = value.to_u32();
        if amt >= 256 {
            if i256_lt(&self, &U256BE::zero()) {
                let ones = U256BE([0xFFu8; 32]);
                proof {
                    lemma_be_val_ones(ones@);
                    lemma_pow256_pos(31);
                    lemma_be_val_zeros(zeros(32));
                }
                ones
            } else {
                proof {
                    lemma_be_val_zeros(zeros(32));
                }
                U256BE::zero()
            }
        } else {
            i256_sar(&self, amt)
        }
    }
}

/// Remainder after one subtraction: values below twice the modulus reduce
/// in a single step.
proof fn lemma_mod_one_subtraction(x: int, m: int)
    requires
        m > 0,
        m <= x < 2 * m,
    ensures
        x % m == x - m,
{
    vstd::arithmetic::div_mod::lemma_mod_sub_multiples_vanish(x, m);
    vstd::arithmetic::div_mod::lemma_small_mod((x - m) as nat, m as nat);
}

/// Addition modulo an arbitrary nonzero word, with the intermediate sum
/// taken in unbounded precision: no wrap on 2^256 shows in the result.
pub(crate) fn u256_addmod(a: &U256BE, b: &U256BE, n: &U256BE) -> (r: U256BE)
    requires
        be_val(n@) != 0,
    ensures
        r@.len() == 32,
        be_val(r@) == (be_val(a@) + be_val(b@)) % be_val(n@),
{
    let ghost av = be_val(a@);
    let ghost bv = be_val(b@);
    let ghost nv = be_val(n@) as int;
    proof {
        crate::word::lemma_be_val_bound(a@);
        crate::word::lemma_be_val_bound(b@);
        crate::word::lemma_be_val_bound(n@);
        vstd::arithmetic::div_mod::lemma_add_mod_noop(av as int, bv as int, nv);
        vstd::arithmetic::div_mod::lemma_mod_bound(av as int, nv);
        vstd::arithmetic::div_mod::lemma_mod_bound(bv as int, nv);
    }
    let t = u256_rem(a, n);
    let u = u256_rem(b, n);
    let ghost tv = be_val(t@) as int;
    let ghost uv = be_val(u@) as int;
    let ghost p = word_mod() as int;
    let s = u256_add(&t, &u);
    if be_lt(&s.0, &t.0) {
        // The 256-bit sum wrapped, so the modulus exceeds 2^255; adding
        // the wrap's complement of the modulus undoes the wrap and
        // subtracts the modulus in one step.
        proof {
            if tv + uv < p {
                vstd::arithmetic::div_mod::lemma_small_mod((tv + uv) as nat, p as nat);
            } else {
                lemma_mod_one_subtraction(tv + uv, p);
            }
            assert(tv + uv >= p);
            vstd::arithmetic::div_mod::lemma_small_mod((p - nv) as nat, p as nat);
        }
        let w = u256_sub(&U256BE::zero(), n);
        let r = u256_add(&w, &s);
        proof {
            lemma_mod_one_subtraction(tv + uv, p);
            assert(be_val(w@) + be_val(s@) == tv + uv - nv);
            vstd::arithmetic::div_mod::lemma_small_mod((tv + uv - nv) as nat, p as nat);
            lemma_mod_one_subtraction(tv + uv, nv);
            assert(be_val(r@) == tv + uv - nv);
            assert((tv + uv) % nv == tv + uv - nv);
            assert((av + bv) as int % nv == (tv + uv) % nv);
            assert(be_val(r@) == (av + bv) % be_val(n@));
        }
        r
    } else {
        proof {
            if tv + uv >= p {
                lemma_mod_one_subtraction(tv + uv, p);
                assert(be_val(s@) == tv + uv - p);
                assert(be_val(s@) < tv);
                assert(false);
            }
            vstd::arithmetic::div_mod::lemma_small_mod((tv + uv) as nat, p as nat);
        }
        if be_lt(&s.0, &n.0) {
            proof {
                vstd::arithmetic::div_mod::lemma_small_mod((tv + uv) as nat, nv as nat);
                assert(be_val(s@) == (av + bv) % be_val(n@));
            }
            s
        } else {
            let r = u256_sub(&s, n);
            proof {
                lemma_mod_one_subtraction(tv + uv, nv);
                vstd::arithmetic::div_mod::lemma_mod_add_multiples_vanish(tv + uv - nv, p);
                vstd::arithmetic::div_mod::lemma_small_mod((tv + uv - nv) as nat, p as nat);
                assert(be_val(r@) == (av + bv) % be_val(n@));
            }
            r
        }
    }
}

/// One double-and-add step of modular multiplication: the accumulator for
/// `av * q` becomes the accumulator for `av * (2q + bit)`.
fn mulmod_bit_step(
    cur: &U256BE,
    base: &U256BE,
    bit: bool,
    n: &U256BE,
    Ghost(av): Ghost<nat>,
    Ghost(q): Ghost<nat>,
) -> (r: U256BE)
    requires
        be_val(n@) != 0,
        be_val(cur@) == (av * q) % be_val(n@),
        be_val(base@) == av % be_val(n@),
    ensures
        r@.len() == 32,
        be_val(r@) == (av * (2 * q + (if bit {
            1nat
        } else {
            0nat
        }))) % be_val(n@),
{
    let ghost nv = be_val(n@) as int;
    let doubled = u256_addmod(cur, cur, n);
    proof {
        let c = (av * q) % be_val(n@);
        vstd::arithmetic::div_mod::lemma_add_mod_noop(
            (av * q) as int,
            (av * q) as int,
            nv,
        );
        assert(av * (2 * q) == (av * q) + (av * q)) by (nonlinear_arith);
    }
    if bit {
        let r = u256_addmod(&doubled, base, n);
        proof {
            vstd::arithmetic::div_mod::lemma_add_mod_noop((av * (2 * q)) as int, av as int, nv);
            assert(av * (2 * q + 1) == av * (2 * q) + av) by (nonlinear_arith);
        }
        r
    } else {
        doubled
    }
}

/// Folds one byte of the multiplier into the accumulator: eight
/// double-and-add steps, most significant bit first.
fn mulmod_byte_step(
    res: &U256BE,
    base: &U256BE,
    byte: u8,
    n: &U256BE,
    Ghost(av): Ghost<nat>,
    Ghost(p): Ghost<nat>,
) -> (r: U256BE)
    requires
        be_val(n@) != 0,
        be_val(res@) == (av * p) % be_val(n@),
        be_val(base@) == av % be_val(n@),
    ensures
        r@.len() == 32,
        be_val(r@) == (av * (p * 256 + byte as nat)) % be_val(n@),
{
    let b7: u8 = (byte >> 7) & 1;
    let b6: u8 = (byte >> 6) & 1;
    let b5: u8 = (byte >> 5) & 1;
    let b4: u8 = (byte >> 4) & 1;
    let b3: u8 = (byte >> 3) & 1;
    let b2: u8 = (byte >> 2) & 1;
    let b1: u8 = (byte >> 1) & 1;
    let b0: u8 = byte & 1;
    proof {
        assert(byte == 128 * ((byte >> 7) & 1) + 64 * ((byte >> 6) & 1) + 32 * ((byte >> 5) & 1)
            + 16 * ((byte >> 4) & 1) + 8 * ((byte >> 3) & 1) + 4 * ((byte >> 2) & 1) + 2 * ((byte
            >> 1) & 1) + (byte & 1)) by (bit_vector);
        assert(((byte >> 7) & 1) < 2 && ((byte >> 6) & 1) < 2 && ((byte >> 5) & 1) < 2 && ((byte
            >> 4) & 1) < 2 && ((byte >> 3) & 1) < 2 && ((byte >> 2) & 1) < 2 && ((byte >> 1) & 1)
            < 2 && (byte & 1) < 2) by (bit_vector);
    }
    let ghost q7 = 2 * p + b7 as nat;
    let ghost q6 = 2 * q7 + b6 as nat;
    let ghost q5 = 2 * q6 + b5 as nat;
    let ghost q4 = 2 * q5 + b4 as nat;
    let ghost q3 = 2 * q4 + b3 as nat;
    let ghost q2 = 2 * q3 + b2 as nat;
    let ghost q1 = 2 * q2 + b1 as nat;
    let ghost q0 = 2 * q1 + b0 as nat;
    let r = mulmod_bit_step(res, base, b7 == 1, n, Ghost(av), Ghost(p));
    let r = mulmod_bit_step(&r, base, b6 == 1, n, Ghost(av), Ghost(q7));
    let r = mulmod_bit_step(&r, base, b5 == 1, n, Ghost(av), Ghost(q6));
    let r = mulmod_bit_step(&r, base, b4 == 1, n, Ghost(av), Ghost(q5));
    let r = mulmod_bit_step(&r, base, b3 == 1, n, Ghost(av), Ghost(q4));
    let r = mulmod_bit_step(&r, base, b2 == 1, n, Ghost(av), Ghost(q3));
    let r = mulmod_bit_step(&r, base, b1 == 1, n, Ghost(av), Ghost(q2));
    let r = mulmod_bit_step(&r, base, b0 == 1, n, Ghost(av), Ghost(q1));
    proof {
        assert(q0 == p * 256 + byte);
    }
    r
}

/// Multiplication modulo an arbitrary nonzero word, with the product taken
/// in unbounded precision: no wrap on 2^256 shows in the result.
pub(crate) fn u256_mulmod(a: &U256BE, b: &U256BE, n: &U256BE) -> (r: U256BE)
    requires
        be_val(n@) != 0,
    ensures
        r@.len() == 32,
        be_val(r@) == (be_val(a@) * be_val(b@)) % be_val(n@),
{
    let ghost av = be_val(a@);
    let ghost nv = be_val(n@);
    let base = u256_rem(a, n);
    let mut res = U256BE::zero();
    proof {
        assert(b@.take(0) =~= Seq::<u8>::empty());
        assert(av * be_val(b@.take(0)) == 0) by (nonlinear_arith)
            requires
                be_val(b@.take(0)) == 0,
        ;
        vstd::arithmetic::div_mod::lemma_small_mod(0, nv);
    }
    let mut i: usize = 0;
    while i < 32
        invariant
            0 <= i <= 32,
            b@.len() == 32,
            be_val(n@) == nv,
            nv != 0,
            av == be_val(a@),
            be_val(base@) == av % nv,
            res@.len() == 32,
            be_val(res@) == (av * be_val(b@.take(i as int))) % nv,
        decreases 32 - i,
    {
        let ghost p = be_val(b@.take(i as int));
        res = mulmod_byte_step(&res, &base, b.0[i], n, Ghost(av), Ghost(p));
        i += 1;
        proof {
            assert(b@.take(i as int).drop_last() =~= b@.take(i - 1));
            assert(be_val(b@.take(i as int)) == p * 256 + b@[i - 1]);
        }
    }
    proof {
        assert(b@.take(32) =~= b@);
    }
    res
}

/// A word of all-one bytes holds the largest value.
pub proof fn lemma_be_val_ones(s: Seq<u8>)
    requires
        forall|i: int| 0 <= i < s.len() ==> s[i] == 0xFFu8,
    ensures
        be_val(s) == pow256(s.len()) - 1,
    decreases s.len(),
{
    if s.len() > 0 {
        lemma_be_val_ones(s.drop_last());
    }
}

} // verus!
