//! Algebraic and round-trip laws of the machine, proved over the same
//! spec functions that the executable contracts use.
use vstd::prelude::*;

use crate::execution::{
    dispatch_trace, dup_transition, loop_step, pop_transition, swap_transition, swapped,
    ExecutionContext,
};
use crate::memory::{ceil32, lemma_ceil32_bounds, mem_grown, mem_written};
use crate::stack::STACK_CAPACITY;
use crate::status::StatusCode;
use crate::word::{
    be_val, bool_word, lemma_be_val_injective, lemma_be_val_zeros, pow256, seq_and, seq_not,
    seq_xor, zeros, U256BE,
};

verus! {

broadcast use vstd::array::group_array_axioms;

/// The 0-or-1 word holds exactly the truth value it encodes: the word for
/// a true test has value 1, the word for a false one has value 0.
pub proof fn lemma_bool_word_value(b: bool)
    ensures
        be_val(bool_word(b)) == (if b {
            1nat
        } else {
            0nat
        }),
        bool_word(b).len() == 32,
{
    if b {
        assert(bool_word(b).drop_last() =~= zeros(31));
        lemma_be_val_zeros(zeros(31));
    } else {
        lemma_be_val_zeros(zeros(32));
    }
}

/// Pushing a word and popping it gives the word back and restores the
/// stack, for any stack with room: the views `Stack::push` and
/// `Stack::pop` promise compose to the identity.
pub proof fn lemma_push_then_pop(s: Seq<U256BE>, w: U256BE)
    requires
        s.len() < STACK_CAPACITY,
    ensures
        s.push(w).last() == w,
        s.push(w).drop_last() == s,
{
    assert(s.push(w).drop_last() =~= s);
}

/// Equality as a word is reflexive and always 0 or 1: EQ(a, a) is 1, and
/// EQ(a, b) has no third value. Byte equality is the same test as value
/// equality, since a 32-byte word determines its value and back.
pub proof fn lemma_eq_word(a: U256BE, b: U256BE)
    ensures
        a@ == b@ ==> be_val(bool_word(a@ == b@)) == 1,
        be_val(bool_word(a@ == b@)) == 0 || be_val(bool_word(a@ == b@)) == 1,
        (a@ == b@) <==> (be_val(a@) == be_val(b@)),
{
    lemma_bool_word_value(a@ == b@);
    if be_val(a@) == be_val(b@) {
        lemma_be_val_injective(a@, b@);
    }
}

/// The zero test as a word: ISZERO of the zero word is 1, and ISZERO of
/// any other word is 0.
pub proof fn lemma_iszero_word(a: U256BE)
    ensures
        be_val(a@) == 0 ==> be_val(bool_word(be_val(a@) == 0)) == 1,
        be_val(a@) != 0 ==> be_val(bool_word(be_val(a@) == 0)) == 0,
{
    lemma_bool_word_value(be_val(a@) == 0);
}

/// For a nonzero divisor, multiplying the quotient back and adding the
/// remainder returns the dividend, modulo 2^256: over the values that the
/// DIV, MUL, MOD and ADD contracts assign, MUL(DIV(a, b), b) + MOD(a, b)
/// is a again.
pub proof fn lemma_div_mul_mod_identity(a: nat, b: nat)
    requires
        b != 0,
        a < pow256(32),
    ensures
        (((a / b) * b) % pow256(32) + a % b) % pow256(32) == a,
{
    vstd::arithmetic::div_mod::lemma_fundamental_div_mod(a as int, b as int);
    vstd::arithmetic::div_mod::lemma_mod_bound(a as int, b as int);
    assert(b * (a / b) == (a / b) * b) by (nonlinear_arith);
    assert((a / b) * b <= a);
    vstd::arithmetic::div_mod::lemma_small_mod(((a / b) * b) as nat, pow256(32));
    vstd::arithmetic::div_mod::lemma_small_mod(a, pow256(32));
}

/// Bitwise involution and idempotence: NOT undoes NOT, AND of a word with
/// itself is the word, and XOR of a word with itself is zero.
pub proof fn lemma_bitwise_laws(a: Seq<u8>)
    ensures
        seq_not(seq_not(a)) == a,
        seq_and(a, a) == a,
        seq_xor(a, a) == zeros(a.len()),
{
    assert forall|i: int| 0 <= i < a.len() implies seq_not(seq_not(a))[i] == a[i] by {
        let x = a[i];
        assert(!(!x) == x) by (bit_vector);
    }
    assert forall|i: int| 0 <= i < a.len() implies seq_and(a, a)[i] == a[i] by {
        let x = a[i];
        assert(x & x == x) by (bit_vector);
    }
    assert forall|i: int| 0 <= i < a.len() implies seq_xor(a, a)[i] == 0u8 by {
        let x = a[i];
        assert(x ^ x == 0u8) by (bit_vector);
    }
    assert(seq_not(seq_not(a)) =~= a);
    assert(seq_and(a, a) =~= a);
    assert(seq_xor(a, a) =~= zeros(a.len()));
}

/// DUPn followed by POP leaves the stack as it was, for every n from 1 to
/// 16 and every stack deep enough with room to push: stated over the
/// executor's own transitions.
pub proof fn lemma_dup_then_pop(
    pre: ExecutionContext,
    mid: ExecutionContext,
    post: ExecutionContext,
    r1: Result<(), StatusCode>,
    r2: Result<(), StatusCode>,
    n: nat,
)
    requires
        1 <= n <= 16,
        n <= pre.stack@.len() < STACK_CAPACITY,
        dup_transition(pre, mid, r1, n),
        pop_transition(mid, post, r2),
    ensures
        r1 == Ok::<(), StatusCode>(()),
        r2 == Ok::<(), StatusCode>(()),
        post.stack@ == pre.stack@,
{
    assert(mid.stack@.drop_last() =~= pre.stack@);
}

/// SWAPn applied twice leaves the stack as it was, for every n from 1 to
/// 16 and every stack deeper than n: stated over the executor's own
/// transition.
pub proof fn lemma_swap_twice(
    pre: ExecutionContext,
    mid: ExecutionContext,
    post: ExecutionContext,
    r1: Result<(), StatusCode>,
    r2: Result<(), StatusCode>,
    n: nat,
)
    requires
        1 <= n <= 16,
        n < pre.stack@.len(),
        swap_transition(pre, mid, r1, n),
        swap_transition(mid, post, r2, n),
    ensures
        r1 == Ok::<(), StatusCode>(()),
        r2 == Ok::<(), StatusCode>(()),
        post.stack@ == pre.stack@,
{
    assert(post.stack@ =~= pre.stack@) by {
        assert(swapped(swapped(pre.stack@, n), n) =~= pre.stack@);
    }
}

/// A frame whose counter stands at or past the end of its code can only
/// halt with `Completion`, unchanged: no completed dispatch pass leaves
/// such a state, so any run of the dispatch loop from it is the empty
/// chain closed by the completing fetch.
pub proof fn lemma_halt_at_code_end(
    tr: Seq<ExecutionContext>,
    post: ExecutionContext,
    st: StatusCode,
)
    requires
        dispatch_trace(tr),
        tr.len() >= 1,
        tr[0].pc >= tr[0].code@.len(),
        loop_step(tr.last(), post, Some(st)),
    ensures
        st == StatusCode::Completion,
        post == tr[0],
{
    if tr.len() >= 2 {
        assert(loop_step(tr[0], tr[1], Option::None));
        assert(false);
    }
    assert(tr.last() == tr[0]);
}

/// Storing a word and loading at the same offset yields the stored word
/// again, and the store leaves the memory at least `offset + 32` long,
/// rounded up to a multiple of 32: stated over the spec functions of
/// `Memory::store` and `Memory::load`.
pub proof fn lemma_store_then_load(m: Seq<u8>, offset: nat, w: Seq<u8>)
    requires
        m.len() % 32 == 0,
        w.len() == 32,
    ensures
        ({
            let m2 = mem_written(m, offset, w);
            &&& m2.subrange(offset as int, (offset + 32) as int) == w
            &&& mem_grown(m2, offset + 32) == m2
            &&& m2.len() >= offset + 32
            &&& m2.len() % 32 == 0
        }),
{
    let g = mem_grown(m, offset + 32);
    lemma_ceil32_bounds(offset + 32);
    if offset + 32 > m.len() {
        assert(g.len() == ceil32(offset + 32));
    }
    let m2 = mem_written(m, offset, w);
    assert(m2.len() == g.len());
    assert(m2.subrange(offset as int, (offset + 32) as int) =~= w);
    assert(mem_grown(m2, offset + 32) == m2);
}

} // verus!
