//! The execution frame: program counter, code, stack, memory, gas budget,
//! calldata and returndata, and the handlers for every opcode. Each
//! handler's contract states the exact transition it makes.
use vstd::prelude::*;

use crate::arith::{
    i256_div, i256_rem, lowest_signed, sdiv_trunc, srem_trunc, u256_add, u256_addmod, u256_div,
    u256_mul, u256_mulmod, u256_pow, u256_rem, u256_sub, word_mod,
};
use crate::memory::{ceil32, mem_grown, mem_written, Memory};
use crate::opcode::{
    gas_cost, gas_fetch, ADD, ADDMOD, AND, BASEFEE, BYTE, CALLDATALOAD, CALLDATASIZE, COINBASE,
    DIFFICULTY, DIV, DUP1, DUP16, EQ, EXP, GAS, GASLIMIT, GT, ISZERO, JUMP, JUMPDEST, JUMPI, LT,
    MLOAD, MOD, MSIZE, MSTORE, MSTORE8, MUL, MULMOD, NOT, NUMBER, OR, PC, POP, PUSH1, PUSH16,
    RETURN, SAR, SDIV, SGT, SHA3, SHL, SHR, SLT, SMOD, STOP, SUB, SWAP1, SWAP16, TIMESTAMP, XOR,
};
use crate::stack::{Stack, STACK_CAPACITY};
use crate::state::{default_block, Block};
use crate::status::StatusCode;
use crate::word::{be_sval, be_val, bool_word, seq_and, seq_not, seq_or, seq_xor, usize_of, zeros};
use crate::word::U256BE;

verus! {

broadcast use vstd::array::group_array_axioms;

/// The unsigned value of a word on the stack.
pub open spec fn wv(w: U256BE) -> nat {
    be_val(w@)
}

/// The two's-complement value of a word on the stack.
pub open spec fn sv(w: U256BE) -> int {
    be_sval(w@)
}

/// The EVM execution context: one non-reentrant frame.
pub struct ExecutionContext {
    pub code: Vec<u8>,
    pub stack: Stack,
    pub memory: Memory,
    pub pc: usize,
    pub gas_limit: usize,
    pub stopped: bool,
    pub calldata: Vec<u8>,
    pub returndata: Vec<u8>,
    pub block: Block,
}

/// The invariants that hold at every loop boundary: the stack within its
/// capacity, memory 32-byte aligned, and the program counter inside the
/// code or just past its end. The gas budget needs no clause of its own:
/// it is an unsigned machine integer, so it can never fall below zero.
pub open spec fn ctx_wf(ctx: ExecutionContext) -> bool {
    &&& ctx.stack.wf()
    &&& ctx.memory.wf()
    &&& ctx.pc <= ctx.code@.len()
}

/// Everything but the stack and the program counter is as it was.
pub open spec fn frame_stable(pre: ExecutionContext, post: ExecutionContext) -> bool {
    &&& post.code@ == pre.code@
    &&& post.memory@ == pre.memory@
    &&& post.gas_limit == pre.gas_limit
    &&& post.stopped == pre.stopped
    &&& post.calldata@ == pre.calldata@
    &&& post.returndata@ == pre.returndata@
    &&& post.block == pre.block
}

/// Everything but the gas budget is as it was.
pub open spec fn gas_only_change(pre: ExecutionContext, post: ExecutionContext) -> bool {
    &&& post.code@ == pre.code@
    &&& post.stack@ == pre.stack@
    &&& post.memory@ == pre.memory@
    &&& post.pc == pre.pc
    &&& post.stopped == pre.stopped
    &&& post.calldata@ == pre.calldata@
    &&& post.returndata@ == pre.returndata@
    &&& post.block == pre.block
}

/// Nothing observable changed at all.
pub open spec fn machine_stable(pre: ExecutionContext, post: ExecutionContext) -> bool {
    &&& frame_stable(pre, post)
    &&& post.stack@ == pre.stack@
    &&& post.pc == pre.pc
}

/// The program counter advanced by `k`, clamped to the end of the code.
pub open spec fn pc_next(pre: ExecutionContext, k: nat) -> nat {
    if pre.pc + k <= pre.code@.len() {
        (pre.pc + k) as nat
    } else {
        pre.code@.len()
    }
}

/// A handler met too few operands: the pops it made emptied the stack and
/// it failed with `StackUnderflow` before touching anything else.
pub open spec fn underflowed(pre: ExecutionContext, post: ExecutionContext, r: Result<
    (),
    StatusCode,
>) -> bool {
    &&& r == Err::<(), StatusCode>(StatusCode::StackUnderflow)
    &&& frame_stable(pre, post)
    &&& post.stack@ == Seq::<U256BE>::empty()
    &&& post.pc == pre.pc
}

/// The shared shape of every operation that pops two words and pushes one:
/// the rest of the stack keeps its order and the program counter moves one
/// byte on.
pub open spec fn binop_frame(pre: ExecutionContext, post: ExecutionContext, r: Result<
    (),
    StatusCode,
>) -> bool {
    &&& r == Ok::<(), StatusCode>(())
    &&& frame_stable(pre, post)
    &&& pre.stack@.len() >= 2
    &&& post.stack@.len() == pre.stack@.len() - 1
    &&& post.stack@.drop_last() == pre.stack@.drop_last().drop_last()
    &&& post.stack@.last()@.len() == 32
    &&& post.pc == pc_next(pre, 1)
}

/// As `binop_frame`, for operations that pop three words.
pub open spec fn triop_frame(pre: ExecutionContext, post: ExecutionContext, r: Result<
    (),
    StatusCode,
>) -> bool {
    &&& r == Ok::<(), StatusCode>(())
    &&& frame_stable(pre, post)
    &&& pre.stack@.len() >= 3
    &&& post.stack@.len() == pre.stack@.len() - 2
    &&& post.stack@.drop_last() == pre.stack@.drop_last().drop_last().drop_last()
    &&& post.stack@.last()@.len() == 32
    &&& post.pc == pc_next(pre, 1)
}

/// As `binop_frame`, for operations that pop one word.
pub open spec fn unop_frame(pre: ExecutionContext, post: ExecutionContext, r: Result<
    (),
    StatusCode,
>) -> bool {
    &&& r == Ok::<(), StatusCode>(())
    &&& frame_stable(pre, post)
    &&& pre.stack@.len() >= 1
    &&& post.stack@.len() == pre.stack@.len()
    &&& post.stack@.drop_last() == pre.stack@.drop_last()
    &&& post.stack@.last()@.len() == 32
    &&& post.pc == pc_next(pre, 1)
}

/// The first word popped by a handler: the top of the stack.
pub open spec fn arg1(pre: ExecutionContext) -> U256BE {
    pre.stack@[pre.stack@.len() - 1]
}

/// The second word popped by a handler.
pub open spec fn arg2(pre: ExecutionContext) -> U256BE {
    pre.stack@[pre.stack@.len() - 2]
}

/// The third word popped by a handler.
pub open spec fn arg3(pre: ExecutionContext) -> U256BE {
    pre.stack@[pre.stack@.len() - 3]
}

/// The immediate bytes a push reads: the `n` code bytes after the opcode,
/// with the bytes past the end of the code taken as zero.
pub open spec fn push_imm(code: Seq<u8>, pc: nat, n: nat) -> Seq<u8> {
    Seq::new(
        n,
        |i: int|
            if pc + 1 + i < code.len() {
                code[pc + 1 + i]
            } else {
                0u8
            },
    )
}

/// The stack after SWAPn: the top and the word `n` below it exchanged.
pub open spec fn swapped(s: Seq<U256BE>, n: nat) -> Seq<U256BE> {
    s.update(s.len() - 1, s[s.len() - 1 - n]).update(s.len() - 1 - n, s[s.len() - 1])
}

/// The byte CALLDATALOAD sees at index `j`: zero past the end.
pub open spec fn cd_byte(cd: Seq<u8>, j: int) -> u8 {
    if 0 <= j < cd.len() {
        cd[j]
    } else {
        0u8
    }
}

/// PUSHn: the immediate bytes become a right-aligned word on the stack.
pub open spec fn push_transition(
    pre: ExecutionContext,
    post: ExecutionContext,
    r: Result<(), StatusCode>,
    n: nat,
) -> bool {
    if pre.stack@.len() == STACK_CAPACITY {
        r == Err::<(), StatusCode>(StatusCode::StackOverflow) && machine_stable(pre, post)
    } else {
        &&& r == Ok::<(), StatusCode>(())
        &&& frame_stable(pre, post)
        &&& post.stack@.len() == pre.stack@.len() + 1
        &&& post.stack@.drop_last() == pre.stack@
        &&& post.stack@.last()@ == zeros((32 - n) as nat) + push_imm(pre.code@, pre.pc as nat, n)
        &&& post.pc == pc_next(pre, n + 1)
    }
}

/// POP: the top word is discarded.
pub open spec fn pop_transition(
    pre: ExecutionContext,
    post: ExecutionContext,
    r: Result<(), StatusCode>,
) -> bool {
    if pre.stack@.len() == 0 {
        underflowed(pre, post, r)
    } else {
        &&& r == Ok::<(), StatusCode>(())
        &&& frame_stable(pre, post)
        &&& post.stack@ == pre.stack@.drop_last()
        &&& post.pc == pc_next(pre, 1)
    }
}

/// DUPn: the word `n` from the top appears again on top.
pub open spec fn dup_transition(
    pre: ExecutionContext,
    post: ExecutionContext,
    r: Result<(), StatusCode>,
    n: nat,
) -> bool {
    if pre.stack@.len() < n {
        r == Err::<(), StatusCode>(StatusCode::ArgOutOfRange) && machine_stable(pre, post)
    } else if pre.stack@.len() == STACK_CAPACITY {
        r == Err::<(), StatusCode>(StatusCode::StackOverflow) && machine_stable(pre, post)
    } else {
        &&& r == Ok::<(), StatusCode>(())
        &&& frame_stable(pre, post)
        &&& post.stack@ == pre.stack@.push(pre.stack@[pre.stack@.len() - n])
        &&& post.pc == pc_next(pre, 1)
    }
}

/// SWAPn: the top and the word `n` below it change places.
pub open spec fn swap_transition(
    pre: ExecutionContext,
    post: ExecutionContext,
    r: Result<(), StatusCode>,
    n: nat,
) -> bool {
    if pre.stack@.len() < n + 1 {
        r == Err::<(), StatusCode>(StatusCode::ArgOutOfRange) && machine_stable(pre, post)
    } else {
        &&& r == Ok::<(), StatusCode>(())
        &&& frame_stable(pre, post)
        &&& post.stack@ == swapped(pre.stack@, n)
        &&& post.pc == pc_next(pre, 1)
    }
}

impl ExecutionContext {
    /// A fresh frame at the start of the given code, with empty calldata
    /// and the fixed sample block context.
    pub fn init(code: Vec<u8>, stack: Stack, memory: Memory, gas_limit: usize) -> (r: Self)
        requires
            stack.wf(),
            memory.wf(),
        ensures
            ctx_wf(r),
            r.code@ == code@,
            r.stack@ == stack@,
            r.memory@ == memory@,
            r.pc == 0,
            r.gas_limit == gas_limit,
            r.stopped == false,
            r.calldata@ == Seq::<u8>::empty(),
            r.returndata@ == Seq::<u8>::empty(),
            default_block(r.block),
    {
        ExecutionContext {
            code,
            stack,
            memory,
            pc: 0,
            gas_limit,
            stopped: false,
            calldata: Vec::new(),
            returndata: Vec::new(),
            block: Block::default(),
        }
    }

    /// Replaces the frame's calldata before execution starts.
    pub fn set_calldata(&mut self, data: Vec<u8>)
        ensures
            final(self).calldata@ == data@,
            final(self).code@ == old(self).code@,
            final(self).stack@ == old(self).stack@,
            final(self).memory@ == old(self).memory@,
            final(self).pc == old(self).pc,
            final(self).gas_limit == old(self).gas_limit,
            final(self).stopped == old(self).stopped,
            final(self).returndata@ == old(self).returndata@,
            final(self).block == old(self).block,
    {
        self.calldata = data;
    }

    /// Loads the 32-byte calldata window at `offset`. Bytes past the end
    /// of the calldata read as zero; the calldata itself never changes,
    /// and neither does its reported size.
    pub fn calldata_load(&mut self, offset: usize) -> (r: Result<Vec<u8>, StatusCode>)
        ensures
            *final(self) == *old(self),
            r is Ok,
            r->Ok_0@.len() == 32,
            forall|i: int|
                0 <= i < 32 ==> r->Ok_0@[i] == cd_byte(old(self).calldata@, offset + i),
    {
        let len = self.calldata.len();
        let mut ret: Vec<u8> = Vec::new();
        let mut i: usize = 0;
        while i < 32
            invariant
                0 <= i <= 32,
                len == self.calldata@.len(),
                *self == *old(self),
                ret@.len() == i,
                forall|j: int| 0 <= j < i ==> ret@[j] == cd_byte(self.calldata@, offset + j),
            decreases 32 - i,
        {
            if offset < len && i < len - offset {
                ret.push(self.calldata[offset + i]);
            } else {
                ret.push(0u8);
            }
            i += 1;
        }
        Ok(ret)
    }

    /// Deducts `by` from the remaining gas. A charge above the remaining
    /// budget fails with `OutOfGas` and leaves the budget alone; a charge
    /// exactly equal to it succeeds and leaves zero.
    pub fn sub_gas(&mut self, by: usize) -> (r: Result<(), StatusCode>)
        ensures
            by > old(self).gas_limit ==> r == Err::<(), StatusCode>(StatusCode::OutOfGas)
                && *final(self) == *old(self),
            by <= old(self).gas_limit ==> r == Ok::<(), StatusCode>(())
                && final(self).gas_limit == old(self).gas_limit - by
                && gas_only_change(*old(self), *final(self)),
    {
        if by > self.gas_limit {
            return Err(StatusCode::OutOfGas);
        }
        self.gas_limit = self.gas_limit - by;
        Ok(())
    }

    /// Halts execution: the stopped flag ends the dispatch loop.
    pub fn stop(&mut self)
        ensures
            final(self).stopped == true,
            final(self).code@ == old(self).code@,
            final(self).stack@ == old(self).stack@,
            final(self).memory@ == old(self).memory@,
            final(self).pc == old(self).pc,
            final(self).gas_limit == old(self).gas_limit,
            final(self).calldata@ == old(self).calldata@,
            final(self).returndata@ == old(self).returndata@,
            final(self).block == old(self).block,
    {
        self.stopped = true;
    }

    /// Sets the program counter to `dest`. A destination at or past the
    /// end of the code fails with `BadJumpDest`.
    pub fn pc_jump(&mut self, dest: usize) -> (r: Result<(), StatusCode>)
        ensures
            dest >= old(self).code@.len() ==> r == Err::<(), StatusCode>(StatusCode::BadJumpDest)
                && *final(self) == *old(self),
            dest < old(self).code@.len() ==> r == Ok::<(), StatusCode>(()) && final(self).pc == dest
                && frame_stable(*old(self), *final(self)) && final(self).stack@ == old(
                self,
            ).stack@,
    {
        if dest >= self.code.len() {
            return Err(StatusCode::BadJumpDest);
        }
        self.pc = dest;
        Ok(())
    }

    /// Moves the program counter `val` bytes on, stopping at the end of
    /// the code: a counter at the end means completion on the next fetch.
    pub fn pc_increment(&mut self, val: usize)
        requires
            old(self).pc <= old(self).code@.len(),
        ensures
            final(self).pc == pc_next(*old(self), val as nat),
            frame_stable(*old(self), *final(self)),
            final(self).stack@ == old(self).stack@,
    {
        let len = self.code.len();
        if val >= len - self.pc {
            self.pc = len;
        } else {
            self.pc = self.pc + val;
        }
    }

    /// Pushes a word and steps past the current opcode: the tail of most
    /// handlers. A full stack fails with `StackOverflow` and leaves the
    /// counter alone.
    pub fn stack_step_push(&mut self, val: U256BE) -> (r: Result<(), StatusCode>)
        requires
            ctx_wf(*old(self)),
        ensures
            ctx_wf(*final(self)),
            old(self).stack@.len() == STACK_CAPACITY ==> r == Err::<(), StatusCode>(
                StatusCode::StackOverflow,
            ) && machine_stable(*old(self), *final(self)),
            old(self).stack@.len() < STACK_CAPACITY ==> r == Ok::<(), StatusCode>(())
                && final(self).stack@ == old(self).stack@.push(val)
                && final(self).pc == pc_next(*old(self), 1)
                && frame_stable(*old(self), *final(self)),
    {
        match self.stack.push(val) {
            Ok(_) => {},
            Err(e) => {
                return Err(e);
            },
        }
        self.pc_increment(1);
        Ok(())
    }

    /// Reads the code byte `offset` past the program counter. A read past
    /// the end of the code signals `Completion`.
    pub fn read_code(&self, offset: usize) -> (r: Result<u8, StatusCode>)
        ensures
            self.pc + offset < self.code@.len() ==> r == Ok::<u8, StatusCode>(
                self.code@[self.pc + offset],
            ),
            self.pc + offset >= self.code@.len() ==> r == Err::<u8, StatusCode>(
                StatusCode::Completion,
            ),
    {
        let len = self.code.len();
        if self.pc >= len || offset >= len - self.pc {
            return Err(StatusCode::Completion);
        }
        Ok(self.code[self.pc + offset])
    }

    /// PUSHn: reads the next `n` code bytes as a big-endian word, missing
    /// bytes taken as zero, and pushes it.
    fn op_push(&mut self, n: usize) -> (r: Result<(), StatusCode>)
        requires
            ctx_wf(*old(self)),
            1 <= n <= 16,
        ensures
            ctx_wf(*final(self)),
            push_transition(*old(self), *final(self), r, n as nat),
    {
        let ghost pre = *self;
        let len = self.code.len();
        let mut imm: Vec<u8> = Vec::new();
        let mut i: usize = 0;
        while i < n
            invariant
                0 <= i <= n <= 16,
                *self == pre,
                len == self.code@.len(),
                self.pc <= len,
                imm@.len() == i,
                forall|j: int|
                    0 <= j < i ==> imm@[j] == push_imm(self.code@, self.pc as nat, n as nat)[j],
            decreases n - i,
        {
            if self.pc < len && i < len - self.pc - 1 {
                imm.push(self.code[self.pc + 1 + i]);
            } else {
                imm.push(0u8);
            }
            i += 1;
        }
        proof {
            assert(imm@ =~= push_imm(self.code@, self.pc as nat, n as nat));
        }
        let w = U256BE::from_slice(imm.as_slice());
        match self.stack.push(w) {
            Ok(_) => {},
            Err(e) => {
                return Err(e);
            },
        }
        self.pc_increment(n + 1);
        proof {
            assert(self.stack@.drop_last() =~= old(self).stack@);
        }
        Ok(())
    }

    /// POP: discards the top of the stack.
    fn op_pop(&mut self) -> (r: Result<(), StatusCode>)
        requires
            ctx_wf(*old(self)),
        ensures
            ctx_wf(*final(self)),
            pop_transition(*old(self), *final(self), r),
    {
        match self.stack.pop() {
            Ok(_) => {},
            Err(e) => {
                proof {
                    assert(self.stack@ =~= Seq::<U256BE>::empty());
                }
                return Err(e);
            },
        }
        self.pc_increment(1);
        Ok(())
    }

    /// DUPn: pushes a copy of the word `n` from the top.
    fn op_dup(&mut self, n: usize) -> (r: Result<(), StatusCode>)
        requires
            ctx_wf(*old(self)),
            1 <= n <= 16,
        ensures
            ctx_wf(*final(self)),
            dup_transition(*old(self), *final(self), r, n as nat),
    {
        let v = match self.stack.peek(n - 1) {
            Ok(v) => v,
            Err(e) => {
                return Err(e);
            },
        };
        let r = self.stack_step_push(v);
        proof {
            if old(self).stack@.len() < STACK_CAPACITY {
                assert(self.stack@.drop_last() =~= old(self).stack@);
            }
        }
        r
    }

    /// SWAPn: exchanges the top with the word `n` below it.
    fn op_swap(&mut self, n: usize) -> (r: Result<(), StatusCode>)
        requires
            ctx_wf(*old(self)),
            1 <= n <= 16,
        ensures
            ctx_wf(*final(self)),
            swap_transition(*old(self), *final(self), r, n as nat),
    {
        let top = match self.stack.peek(0) {
            Ok(v) => v,
            Err(e) => {
                return Err(e);
            },
        };
        let swp = match self.stack.peek(n) {
            Ok(v) => v,
            Err(e) => {
                return Err(e);
            },
        };
        let _ = self.stack.push_to(0, swp);
        let _ = self.stack.push_to(n, top);
        self.pc_increment(1);
        proof {
            assert(self.stack@ =~= swapped(old(self).stack@, n as nat));
        }
        Ok(())
    }
}

/// ADD: the wrapped sum of the top two words.
pub open spec fn add_transition(
    pre: ExecutionContext,
    post: ExecutionContext,
    r: Result<(), StatusCode>,
) -> bool {
    if pre.stack@.len() < 2 {
        underflowed(pre, post, r)
    } else {
        &&& binop_frame(pre, post, r)
        &&& wv(post.stack@.last()) == (wv(arg1(pre)) + wv(arg2(pre))) % word_mod()
    }
}

/// SUB: the wrapped difference, first popped minus second popped.
pub open spec fn sub_transition(
    pre: ExecutionContext,
    post: ExecutionContext,
    r: Result<(), StatusCode>,
) -> bool {
    if pre.stack@.len() < 2 {
        underflowed(pre, post, r)
    } else {
        &&& binop_frame(pre, post, r)
        &&& wv(post.stack@.last()) == (word_mod() + wv(arg1(pre)) - wv(arg2(pre))) % (
        word_mod() as int)
    }
}

/// MUL: the wrapped product of the top two words.
pub open spec fn mul_transition(
    pre: ExecutionContext,
    post: ExecutionContext,
    r: Result<(), StatusCode>,
) -> bool {
    if pre.stack@.len() < 2 {
        underflowed(pre, post, r)
    } else {
        &&& binop_frame(pre, post, r)
        &&& wv(post.stack@.last()) == (wv(arg1(pre)) * wv(arg2(pre))) % word_mod()
    }
}

/// DIV: unsigned quotient, first popped over second; zero divisor gives
/// zero.
pub open spec fn div_transition(
    pre: ExecutionContext,
    post: ExecutionContext,
    r: Result<(), StatusCode>,
) -> bool {
    if pre.stack@.len() < 2 {
        underflowed(pre, post, r)
    } else {
        &&& binop_frame(pre, post, r)
        &&& wv(arg2(pre)) == 0 ==> wv(post.stack@.last()) == 0
        &&& wv(arg2(pre)) != 0 ==> wv(post.stack@.last()) == wv(arg1(pre)) / wv(arg2(pre))
    }
}

/// MOD: unsigned remainder, first popped by second; zero divisor gives
/// zero.
pub open spec fn mod_transition(
    pre: ExecutionContext,
    post: ExecutionContext,
    r: Result<(), StatusCode>,
) -> bool {
    if pre.stack@.len() < 2 {
        underflowed(pre, post, r)
    } else {
        &&& binop_frame(pre, post, r)
        &&& wv(arg2(pre)) == 0 ==> wv(post.stack@.last()) == 0
        &&& wv(arg2(pre)) != 0 ==> wv(post.stack@.last()) == wv(arg1(pre)) % wv(arg2(pre))
    }
}

/// SDIV: two's-complement quotient truncated toward zero; zero divisor
/// gives zero and the smallest value by minus one wraps to itself.
pub open spec fn sdiv_transition(
    pre: ExecutionContext,
    post: ExecutionContext,
    r: Result<(), StatusCode>,
) -> bool {
    if pre.stack@.len() < 2 {
        underflowed(pre, post, r)
    } else {
        &&& binop_frame(pre, post, r)
        &&& wv(arg2(pre)) == 0 ==> wv(post.stack@.last()) == 0
        &&& wv(arg2(pre)) != 0 && sv(arg1(pre)) == lowest_signed() && sv(arg2(pre)) == -1
            ==> post.stack@.last()@ == arg1(pre)@
        &&& wv(arg2(pre)) != 0 && !(sv(arg1(pre)) == lowest_signed() && sv(arg2(pre)) == -1)
            ==> sv(post.stack@.last()) == sdiv_trunc(sv(arg1(pre)), sv(arg2(pre)))
    }
}

/// SMOD: remainder of truncated two's-complement division; zero divisor
/// gives zero.
pub open spec fn smod_transition(
    pre: ExecutionContext,
    post: ExecutionContext,
    r: Result<(), StatusCode>,
) -> bool {
    if pre.stack@.len() < 2 {
        underflowed(pre, post, r)
    } else {
        &&& binop_frame(pre, post, r)
        &&& wv(arg2(pre)) == 0 ==> wv(post.stack@.last()) == 0
        &&& wv(arg2(pre)) != 0 && sv(arg1(pre)) == lowest_signed() && sv(arg2(pre)) == -1
            ==> wv(post.stack@.last()) == 0
        &&& wv(arg2(pre)) != 0 && !(sv(arg1(pre)) == lowest_signed() && sv(arg2(pre)) == -1)
            ==> sv(post.stack@.last()) == srem_trunc(sv(arg1(pre)), sv(arg2(pre)))
    }
}

/// ADDMOD: the sum of the first two pops, in unbounded precision, modulo
/// the third; a zero modulus gives zero.
pub open spec fn addmod_transition(
    pre: ExecutionContext,
    post: ExecutionContext,
    r: Result<(), StatusCode>,
) -> bool {
    if pre.stack@.len() < 3 {
        underflowed(pre, post, r)
    } else {
        &&& triop_frame(pre, post, r)
        &&& wv(arg3(pre)) == 0 ==> wv(post.stack@.last()) == 0
        &&& wv(arg3(pre)) != 0 ==> wv(post.stack@.last()) == (wv(arg1(pre)) + wv(arg2(pre))) % wv(
            arg3(pre),
        )
    }
}

/// MULMOD: the product of the first two pops, in unbounded precision,
/// modulo the third; a zero modulus gives zero.
pub open spec fn mulmod_transition(
    pre: ExecutionContext,
    post: ExecutionContext,
    r: Result<(), StatusCode>,
) -> bool {
    if pre.stack@.len() < 3 {
        underflowed(pre, post, r)
    } else {
        &&& triop_frame(pre, post, r)
        &&& wv(arg3(pre)) == 0 ==> wv(post.stack@.last()) == 0
        &&& wv(arg3(pre)) != 0 ==> wv(post.stack@.last()) == (wv(arg1(pre)) * wv(arg2(pre))) % wv(
            arg3(pre),
        )
    }
}

/// EXP: the first pop raised to the second pop's low 32 bits, wrapped.
pub open spec fn exp_transition(
    pre: ExecutionContext,
    post: ExecutionContext,
    r: Result<(), StatusCode>,
) -> bool {
    if pre.stack@.len() < 2 {
        underflowed(pre, post, r)
    } else {
        &&& binop_frame(pre, post, r)
        &&& wv(post.stack@.last()) == vstd::arithmetic::power::pow(
            wv(arg1(pre)) as int,
            be_val(arg2(pre)@.skip(28)),
        ) % (word_mod() as int)
    }
}

/// LT and GT: unsigned comparison of the two pops as a 0-or-1 word.
pub open spec fn ucmp_transition(
    pre: ExecutionContext,
    post: ExecutionContext,
    r: Result<(), StatusCode>,
    gt: bool,
) -> bool {
    if pre.stack@.len() < 2 {
        underflowed(pre, post, r)
    } else {
        &&& binop_frame(pre, post, r)
        &&& post.stack@.last()@ == bool_word(
            if gt {
                wv(arg1(pre)) > wv(arg2(pre))
            } else {
                wv(arg1(pre)) < wv(arg2(pre))
            },
        )
    }
}

/// SLT and SGT: two's-complement comparison of the two pops as a 0-or-1
/// word.
pub open spec fn scmp_transition(
    pre: ExecutionContext,
    post: ExecutionContext,
    r: Result<(), StatusCode>,
    gt: bool,
) -> bool {
    if pre.stack@.len() < 2 {
        underflowed(pre, post, r)
    } else {
        &&& binop_frame(pre, post, r)
        &&& post.stack@.last()@ == bool_word(
            if gt {
                sv(arg1(pre)) > sv(arg2(pre))
            } else {
                sv(arg1(pre)) < sv(arg2(pre))
            },
        )
    }
}

/// EQ: byte equality of the two pops as a 0-or-1 word.
pub open spec fn eq_transition(
    pre: ExecutionContext,
    post: ExecutionContext,
    r: Result<(), StatusCode>,
) -> bool {
    if pre.stack@.len() < 2 {
        underflowed(pre, post, r)
    } else {
        &&& binop_frame(pre, post, r)
        &&& post.stack@.last()@ == bool_word(arg1(pre)@ == arg2(pre)@)
    }
}

/// ISZERO: the zero test of the top word as a 0-or-1 word.
pub open spec fn iszero_transition(
    pre: ExecutionContext,
    post: ExecutionContext,
    r: Result<(), StatusCode>,
) -> bool {
    if pre.stack@.len() < 1 {
        underflowed(pre, post, r)
    } else {
        &&& unop_frame(pre, post, r)
        &&& post.stack@.last()@ == bool_word(wv(arg1(pre)) == 0)
    }
}

/// AND, OR and XOR: the per-byte bitwise combination of the two pops.
pub open spec fn bitop_transition(
    pre: ExecutionContext,
    post: ExecutionContext,
    r: Result<(), StatusCode>,
    out: Seq<u8>,
) -> bool {
    if pre.stack@.len() < 2 {
        underflowed(pre, post, r)
    } else {
        &&& binop_frame(pre, post, r)
        &&& post.stack@.last()@ == out
    }
}

/// NOT: the per-byte complement of the top word.
pub open spec fn not_transition(
    pre: ExecutionContext,
    post: ExecutionContext,
    r: Result<(), StatusCode>,
) -> bool {
    if pre.stack@.len() < 1 {
        underflowed(pre, post, r)
    } else {
        &&& unop_frame(pre, post, r)
        &&& post.stack@.last()@ == seq_not(arg1(pre)@)
    }
}

/// BYTE: the n-th most significant byte of the second pop, where n is the
/// first pop; zero when n is 32 or more.
pub open spec fn byte_transition(
    pre: ExecutionContext,
    post: ExecutionContext,
    r: Result<(), StatusCode>,
) -> bool {
    if pre.stack@.len() < 2 {
        underflowed(pre, post, r)
    } else {
        let idx = usize_of(arg1(pre)@);
        &&& binop_frame(pre, post, r)
        &&& idx >= 32 ==> post.stack@.last()@ == zeros(32)
        &&& idx < 32 ==> post.stack@.last()@ == zeros(31).push(arg2(pre)@[idx as int])
    }
}

/// SHL: the second pop shifted left by the first pop's low 32 bits;
/// amounts of 256 or more leave zero.
pub open spec fn shl_transition(
    pre: ExecutionContext,
    post: ExecutionContext,
    r: Result<(), StatusCode>,
) -> bool {
    if pre.stack@.len() < 2 {
        underflowed(pre, post, r)
    } else {
        let amt = be_val(arg1(pre)@.skip(28));
        &&& binop_frame(pre, post, r)
        &&& amt >= 256 ==> wv(post.stack@.last()) == 0
        &&& amt < 256 ==> wv(post.stack@.last()) == (wv(arg2(pre))
            * vstd::arithmetic::power2::pow2(amt)) % word_mod()
    }
}

/// SHR: the second pop shifted right logically by the first pop's low 32
/// bits; amounts of 256 or more leave zero.
pub open spec fn shr_transition(
    pre: ExecutionContext,
    post: ExecutionContext,
    r: Result<(), StatusCode>,
) -> bool {
    if pre.stack@.len() < 2 {
        underflowed(pre, post, r)
    } else {
        let amt = be_val(arg1(pre)@.skip(28));
        &&& binop_frame(pre, post, r)
        &&& amt >= 256 ==> wv(post.stack@.last()) == 0
        &&& amt < 256 ==> wv(post.stack@.last()) == wv(arg2(pre))
            / vstd::arithmetic::power2::pow2(amt)
    }
}

/// SAR: the second pop shifted right arithmetically by the first pop's
/// low 32 bits; amounts of 256 or more spread the sign over the word.
pub open spec fn sar_transition(
    pre: ExecutionContext,
    post: ExecutionContext,
    r: Result<(), StatusCode>,
) -> bool {
    if pre.stack@.len() < 2 {
        underflowed(pre, post, r)
    } else {
        let amt = be_val(arg1(pre)@.skip(28));
        &&& binop_frame(pre, post, r)
        &&& amt >= 256 && sv(arg2(pre)) < 0 ==> sv(post.stack@.last()) == -1
        &&& amt >= 256 && sv(arg2(pre)) >= 0 ==> wv(post.stack@.last()) == 0
        &&& amt < 256 ==> sv(post.stack@.last()) == sv(arg2(pre)) / (
        vstd::arithmetic::power2::pow2(amt) as int)
    }
}

impl ExecutionContext {
    /// Pops one operand, emptying the stack on underflow.
    fn pop1(&mut self) -> (r: Result<U256BE, StatusCode>)
        ensures
            frame_stable(*old(self), *final(self)),
            final(self).pc == old(self).pc,
            old(self).stack@.len() < 1 ==> r == Err::<U256BE, StatusCode>(
                StatusCode::StackUnderflow,
            ) && final(self).stack@ == Seq::<U256BE>::empty(),
            old(self).stack@.len() >= 1 ==> r == Ok::<U256BE, StatusCode>(arg1(*old(self)))
                && final(self).stack@ == old(self).stack@.drop_last(),
    {
        self.stack.pop()
    }

    /// Pops two operands in order, emptying the stack on underflow.
    fn pop2(&mut self) -> (r: Result<(U256BE, U256BE), StatusCode>)
        ensures
            frame_stable(*old(self), *final(self)),
            final(self).pc == old(self).pc,
            old(self).stack@.len() < 2 ==> r == Err::<(U256BE, U256BE), StatusCode>(
                StatusCode::StackUnderflow,
            ) && final(self).stack@ == Seq::<U256BE>::empty(),
            old(self).stack@.len() >= 2 ==> r == Ok::<(U256BE, U256BE), StatusCode>(
                (arg1(*old(self)), arg2(*old(self))),
            ) && final(self).stack@ == old(self).stack@.drop_last().drop_last(),
    {
        let a = match self.stack.pop() {
            Ok(v) => v,
            Err(e) => {
                proof {
                    assert(self.stack@ =~= Seq::<U256BE>::empty());
                }
                return Err(e);
            },
        };
        let b = match self.stack.pop() {
            Ok(v) => v,
            Err(e) => {
                proof {
                    assert(self.stack@ =~= Seq::<U256BE>::empty());
                }
                return Err(e);
            },
        };
        Ok((a, b))
    }

    /// Pops three operands in order, emptying the stack on underflow.
    fn pop3(&mut self) -> (r: Result<(U256BE, U256BE, U256BE), StatusCode>)
        ensures
            frame_stable(*old(self), *final(self)),
            final(self).pc == old(self).pc,
            old(self).stack@.len() < 3 ==> r == Err::<(U256BE, U256BE, U256BE), StatusCode>(
                StatusCode::StackUnderflow,
            ) && final(self).stack@ == Seq::<U256BE>::empty(),
            old(self).stack@.len() >= 3 ==> r == Ok::<(U256BE, U256BE, U256BE), StatusCode>(
                (arg1(*old(self)), arg2(*old(self)), arg3(*old(self))),
            ) && final(self).stack@ == old(self).stack@.drop_last().drop_last().drop_last(),
    {
        let ab = match self.pop2() {
            Ok(v) => v,
            Err(e) => {
                return Err(e);
            },
        };
        let c = match self.stack.pop() {
            Ok(v) => v,
            Err(e) => {
                proof {
                    assert(self.stack@ =~= Seq::<U256BE>::empty());
                }
                return Err(e);
            },
        };
        Ok((ab.0, ab.1, c))
    }

    /// Pushes an operation's result and steps on; only called when room
    /// is certain.
    fn push_result(&mut self, val: U256BE) -> (r: Result<(), StatusCode>)
        requires
            ctx_wf(*old(self)),
            old(self).stack@.len() < STACK_CAPACITY,
        ensures
            ctx_wf(*final(self)),
            r == Ok::<(), StatusCode>(()),
            frame_stable(*old(self), *final(self)),
            final(self).stack@ == old(self).stack@.push(val),
            final(self).stack@.drop_last() == old(self).stack@,
            final(self).stack@.last() == val,
            final(self).pc == pc_next(*old(self), 1),
    {
        let r = self.stack_step_push(val);
        proof {
            assert(self.stack@.drop_last() =~= old(self).stack@);
        }
        r
    }

    /// ADD: pops two, pushes their wrapped sum.
    fn op_add(&mut self) -> (r: Result<(), StatusCode>)
        requires
            ctx_wf(*old(self)),
        ensures
            ctx_wf(*final(self)),
            add_transition(*old(self), *final(self), r),
    {
        let (a, b) = match self.pop2() {
            Ok(v) => v,
            Err(e) => {
                return Err(e);
            },
        };
        self.push_result(u256_add(&a, &b))
    }

    /// SUB: pops two, pushes their wrapped difference.
    fn op_sub(&mut self) -> (r: Result<(), StatusCode>)
        requires
            ctx_wf(*old(self)),
        ensures
            ctx_wf(*final(self)),
            sub_transition(*old(self), *final(self), r),
    {
        let (a, b) = match self.pop2() {
            Ok(v) => v,
            Err(e) => {
                return Err(e);
            },
        };
        self.push_result(u256_sub(&a, &b))
    }

    /// MUL: pops two, pushes their wrapped product.
    fn op_mul(&mut self) -> (r: Result<(), StatusCode>)
        requires
            ctx_wf(*old(self)),
        ensures
            ctx_wf(*final(self)),
            mul_transition(*old(self), *final(self), r),
    {
        let (a, b) = match self.pop2() {
            Ok(v) => v,
            Err(e) => {
                return Err(e);
            },
        };
        self.push_result(u256_mul(&a, &b))
    }

    /// DIV: pops two, pushes the quotient; zero divisor pushes zero.
    fn op_div(&mut self) -> (r: Result<(), StatusCode>)
        requires
            ctx_wf(*old(self)),
        ensures
            ctx_wf(*final(self)),
            div_transition(*old(self), *final(self), r),
    {
        let (a, b) = match self.pop2() {
            Ok(v) => v,
            Err(e) => {
                return Err(e);
            },
        };
        if b.is_zero() {
            self.push_result(U256BE::zero())
        } else {
            self.push_result(u256_div(&a, &b))
        }
    }

    /// MOD: pops two, pushes the remainder; zero divisor pushes zero.
    fn op_mod(&mut self) -> (r: Result<(), StatusCode>)
        requires
            ctx_wf(*old(self)),
        ensures
            ctx_wf(*final(self)),
            mod_transition(*old(self), *final(self), r),
    {
        let (a, b) = match self.pop2() {
            Ok(v) => v,
            Err(e) => {
                return Err(e);
            },
        };
        if b.is_zero() {
            self.push_result(U256BE::zero())
        } else {
            self.push_result(u256_rem(&a, &b))
        }
    }

    /// SDIV: pops two, pushes the signed quotient; zero divisor pushes
    /// zero.
    fn op_sdiv(&mut self) -> (r: Result<(), StatusCode>)
        requires
            ctx_wf(*old(self)),
        ensures
            ctx_wf(*final(self)),
            sdiv_transition(*old(self), *final(self), r),
    {
        let (a, b) = match self.pop2() {
            Ok(v) => v,
            Err(e) => {
                return Err(e);
            },
        };
        if b.is_zero() {
            self.push_result(U256BE::zero())
        } else {
            self.push_result(i256_div(&a, &b))
        }
    }

    /// SMOD: pops two, pushes the signed remainder; zero divisor pushes
    /// zero.
    fn op_smod(&mut self) -> (r: Result<(), StatusCode>)
        requires
            ctx_wf(*old(self)),
        ensures
            ctx_wf(*final(self)),
            smod_transition(*old(self), *final(self), r),
    {
        let (a, b) = match self.pop2() {
            Ok(v) => v,
            Err(e) => {
                return Err(e);
            },
        };
        if b.is_zero() {
            self.push_result(U256BE::zero())
        } else {
            self.push_result(i256_rem(&a, &b))
        }
    }

    /// ADDMOD: pops three, pushes the unwrapped sum of the first two
    /// modulo the third; a zero modulus pushes zero.
    fn op_addmod(&mut self) -> (r: Result<(), StatusCode>)
        requires
            ctx_wf(*old(self)),
        ensures
            ctx_wf(*final(self)),
            addmod_transition(*old(self), *final(self), r),
    {
        let (a, b, n) = match self.pop3() {
            Ok(v) => v,
            Err(e) => {
                return Err(e);
            },
        };
        if n.is_zero() {
            self.push_result(U256BE::zero())
        } else {
            self.push_result(u256_addmod(&a, &b, &n))
        }
    }

    /// MULMOD: pops three, pushes the unwrapped product of the first two
    /// modulo the third; a zero modulus pushes zero.
    fn op_mulmod(&mut self) -> (r: Result<(), StatusCode>)
        requires
            ctx_wf(*old(self)),
        ensures
            ctx_wf(*final(self)),
            mulmod_transition(*old(self), *final(self), r),
    {
        let (a, b, n) = match self.pop3() {
            Ok(v) => v,
            Err(e) => {
                return Err(e);
            },
        };
        if n.is_zero() {
            self.push_result(U256BE::zero())
        } else {
            self.push_result(u256_mulmod(&a, &b, &n))
        }
    }

    /// EXP: pops base then exponent, pushes the wrapped power; the
    /// exponent is the second pop's low 32 bits.
    fn op_exp(&mut self) -> (r: Result<(), StatusCode>)
        requires
            ctx_wf(*old(self)),
        ensures
            ctx_wf(*final(self)),
            exp_transition(*old(self), *final(self), r),
    {
        let (a, b) = match self.pop2() {
            Ok(v) => v,
            Err(e) => {
                return Err(e);
            },
        };
        let e = b.to_u32();
        self.push_result(u256_pow(&a, e))
    }

    /// LT: pops two, pushes 1 when the first is below the second.
    fn op_lt(&mut self) -> (r: Result<(), StatusCode>)
        requires
            ctx_wf(*old(self)),
        ensures
            ctx_wf(*final(self)),
            ucmp_transition(*old(self), *final(self), r, false),
    {
        let (a, b) = match self.pop2() {
            Ok(v) => v,
            Err(e) => {
                return Err(e);
            },
        };
        self.push_result(a.lt(b))
    }

    /// GT: pops two, pushes 1 when the first is above the second.
    fn op_gt(&mut self) -> (r: Result<(), StatusCode>)
        requires
            ctx_wf(*old(self)),
        ensures
            ctx_wf(*final(self)),
            ucmp_transition(*old(self), *final(self), r, true),
    {
        let (a, b) = match self.pop2() {
            Ok(v) => v,
            Err(e) => {
                return Err(e);
            },
        };
        self.push_result(a.gt(b))
    }

    /// SLT: pops two, pushes 1 when the first is below the second, read
    /// as two's complement.
    fn op_slt(&mut self) -> (r: Result<(), StatusCode>)
        requires
            ctx_wf(*old(self)),
        ensures
            ctx_wf(*final(self)),
            scmp_transition(*old(self), *final(self), r, false),
    {
        let (a, b) = match self.pop2() {
            Ok(v) => v,
            Err(e) => {
                return Err(e);
            },
        };
        self.push_result(a.slt(b))
    }

    /// SGT: pops two, pushes 1 when the first is above the second, read
    /// as two's complement.
    fn op_sgt(&mut self) -> (r: Result<(), StatusCode>)
        requires
            ctx_wf(*old(self)),
        ensures
            ctx_wf(*final(self)),
            scmp_transition(*old(self), *final(self), r, true),
    {
        let (a, b) = match self.pop2() {
            Ok(v) => v,
            Err(e) => {
                return Err(e);
            },
        };
        self.push_result(a.sgt(b))
    }

    /// EQ: pops two, pushes 1 when they hold the same bytes.
    fn op_eq(&mut self) -> (r: Result<(), StatusCode>)
        requires
            ctx_wf(*old(self)),
        ensures
            ctx_wf(*final(self)),
            eq_transition(*old(self), *final(self), r),
    {
        let (a, b) = match self.pop2() {
            Ok(v) => v,
            Err(e) => {
                return Err(e);
            },
        };
        self.push_result(a.uint_eq(b))
    }

    /// ISZERO: pops one, pushes 1 when its value is zero.
    fn op_iszero(&mut self) -> (r: Result<(), StatusCode>)
        requires
            ctx_wf(*old(self)),
        ensures
            ctx_wf(*final(self)),
            iszero_transition(*old(self), *final(self), r),
    {
        let a = match self.pop1() {
            Ok(v) => v,
            Err(e) => {
                return Err(e);
            },
        };
        self.push_result(a.uint_is_zero())
    }

    /// AND: pops two, pushes their bitwise conjunction.
    fn op_and(&mut self) -> (r: Result<(), StatusCode>)
        requires
            ctx_wf(*old(self)),
        ensures
            ctx_wf(*final(self)),
            bitop_transition(
                *old(self),
                *final(self),
                r,
                seq_and(arg1(*old(self))@, arg2(*old(self))@),
            ),
    {
        let (a, b) = match self.pop2() {
            Ok(v) => v,
            Err(e) => {
                return Err(e);
            },
        };
        self.push_result(a.and(b))
    }

    /// OR: pops two, pushes their bitwise disjunction.
    fn op_or(&mut self) -> (r: Result<(), StatusCode>)
        requires
            ctx_wf(*old(self)),
        ensures
            ctx_wf(*final(self)),
            bitop_transition(
                *old(self),
                *final(self),
                r,
                seq_or(arg1(*old(self))@, arg2(*old(self))@),
            ),
    {
        let (a, b) = match self.pop2() {
            Ok(v) => v,
            Err(e) => {
                return Err(e);
            },
        };
        self.push_result(a.or(b))
    }

    /// XOR: pops two, pushes their bitwise exclusive or.
    fn op_xor(&mut self) -> (r: Result<(), StatusCode>)
        requires
            ctx_wf(*old(self)),
        ensures
            ctx_wf(*final(self)),
            bitop_transition(
                *old(self),
                *final(self),
                r,
                seq_xor(arg1(*old(self))@, arg2(*old(self))@),
            ),
    {
        let (a, b) = match self.pop2() {
            Ok(v) => v,
            Err(e) => {
                return Err(e);
            },
        };
        self.push_result(a.xor(b))
    }

    /// NOT: pops one, pushes its bitwise complement.
    fn op_not(&mut self) -> (r: Result<(), StatusCode>)
        requires
            ctx_wf(*old(self)),
        ensures
            ctx_wf(*final(self)),
            not_transition(*old(self), *final(self), r),
    {
        let a = match self.pop1() {
            Ok(v) => v,
            Err(e) => {
                return Err(e);
            },
        };
        self.push_result(a.not())
    }

    /// BYTE: pops an index then a word, pushes the indexed byte of the
    /// word; an index of 32 or more pushes zero.
    fn op_byte(&mut self) -> (r: Result<(), StatusCode>)
        requires
            ctx_wf(*old(self)),
        ensures
            ctx_wf(*final(self)),
            byte_transition(*old(self), *final(self), r),
    {
        let (a, b) = match self.pop2() {
            Ok(v) => v,
            Err(e) => {
                return Err(e);
            },
        };
        let nth = a.to_usize();
        let val = b.as_slice();
        if nth >= 32 {
            self.push_result(U256BE::zero())
        } else {
            self.push_result(U256BE::from_u8(val[nth]))
        }
    }

    /// SHL: pops the shift amount then the value, pushes the shifted
    /// value.
    fn op_shl(&mut self) -> (r: Result<(), StatusCode>)
        requires
            ctx_wf(*old(self)),
        ensures
            ctx_wf(*final(self)),
            shl_transition(*old(self), *final(self), r),
    {
        let (s, v) = match self.pop2() {
            Ok(v) => v,
            Err(e) => {
                return Err(e);
            },
        };
        self.push_result(v.shl(s))
    }

    /// SHR: pops the shift amount then the value, pushes the shifted
    /// value.
    fn op_shr(&mut self) -> (r: Result<(), StatusCode>)
        requires
            ctx_wf(*old(self)),
        ensures
            ctx_wf(*final(self)),
            shr_transition(*old(self), *final(self), r),
    {
        let (s, v) = match self.pop2() {
            Ok(v) => v,
            Err(e) => {
                return Err(e);
            },
        };
        self.push_result(v.shr(s))
    }

    /// SAR: pops the shift amount then the value, pushes the value
    /// shifted with its sign kept.
    fn op_sar(&mut self) -> (r: Result<(), StatusCode>)
        requires
            ctx_wf(*old(self)),
        ensures
            ctx_wf(*final(self)),
            sar_transition(*old(self), *final(self), r),
    {
        let (s, v) = match self.pop2() {
            Ok(v) => v,
            Err(e) => {
                return Err(e);
            },
        };
        self.push_result(v.sar(s))
    }
}

/// Everything but the memory, the stack and the program counter is as it
/// was.
pub open spec fn mem_frame_stable(pre: ExecutionContext, post: ExecutionContext) -> bool {
    &&& post.code@ == pre.code@
    &&& post.gas_limit == pre.gas_limit
    &&& post.stopped == pre.stopped
    &&& post.calldata@ == pre.calldata@
    &&& post.returndata@ == pre.returndata@
    &&& post.block == pre.block
}

/// The digest Keccak-256 assigns to a byte sequence: a name for the
/// outside hash's result, fixed by its input alone.
pub uninterp spec fn keccak256_of(data: Seq<u8>) -> Seq<u8>;

/// Relies on sha3::Keccak256: the 32-byte Keccak-256 digest of the input,
/// a function of the input bytes alone.
#[verifier::external_body]
fn keccak256(data: &[u8]) -> (r: Vec<u8>)
    ensures
        r@ == keccak256_of(data@),
        r@.len() == 32,
{
    let mut hasher = <sha3::Keccak256 as sha3::digest::Digest>::new();
    <sha3::Keccak256 as sha3::digest::Digest>::update(&mut hasher, data);
    <sha3::Keccak256 as sha3::digest::Digest>::finalize(hasher).to_vec()
}

/// A push of a machine scalar: MSIZE, CALLDATASIZE, PC, GAS and the
/// numeric block observables.
pub open spec fn push_scalar_transition(
    pre: ExecutionContext,
    post: ExecutionContext,
    r: Result<(), StatusCode>,
    v: nat,
) -> bool {
    if pre.stack@.len() == STACK_CAPACITY {
        r == Err::<(), StatusCode>(StatusCode::StackOverflow) && machine_stable(pre, post)
    } else {
        &&& r == Ok::<(), StatusCode>(())
        &&& frame_stable(pre, post)
        &&& post.stack@.len() == pre.stack@.len() + 1
        &&& post.stack@.drop_last() == pre.stack@
        &&& post.stack@.last()@.len() == 32
        &&& wv(post.stack@.last()) == v
        &&& post.pc == pc_next(pre, 1)
    }
}

/// A push of a word with known bytes: TIMESTAMP and COINBASE.
pub open spec fn push_word_transition(
    pre: ExecutionContext,
    post: ExecutionContext,
    r: Result<(), StatusCode>,
    out: Seq<u8>,
) -> bool {
    if pre.stack@.len() == STACK_CAPACITY {
        r == Err::<(), StatusCode>(StatusCode::StackOverflow) && machine_stable(pre, post)
    } else {
        &&& r == Ok::<(), StatusCode>(())
        &&& frame_stable(pre, post)
        &&& post.stack@.len() == pre.stack@.len() + 1
        &&& post.stack@.drop_last() == pre.stack@
        &&& post.stack@.last()@ == out
        &&& post.pc == pc_next(pre, 1)
    }
}

/// MLOAD: pops an offset and pushes the 32 bytes there, extending memory
/// so the read is in bounds.
pub open spec fn mload_transition(
    pre: ExecutionContext,
    post: ExecutionContext,
    r: Result<(), StatusCode>,
) -> bool {
    if pre.stack@.len() < 1 {
        underflowed(pre, post, r)
    } else {
        let off = usize_of(arg1(pre)@);
        if ceil32((off + 32) as nat) > usize::MAX {
            &&& r == Err::<(), StatusCode>(StatusCode::InvalidMemoryAccess)
            &&& frame_stable(pre, post)
            &&& post.stack@ == pre.stack@.drop_last()
            &&& post.pc == pre.pc
        } else {
            &&& r == Ok::<(), StatusCode>(())
            &&& mem_frame_stable(pre, post)
            &&& post.memory@ == mem_grown(pre.memory@, (off + 32) as nat)
            &&& post.stack@.len() == pre.stack@.len()
            &&& post.stack@.drop_last() == pre.stack@.drop_last()
            &&& post.stack@.last()@ == post.memory@.subrange(off as int, (off + 32) as int)
            &&& post.pc == pc_next(pre, 1)
        }
    }
}

/// MSTORE: pops an offset then a word and writes the word's 32 bytes
/// there, extending memory so the write is in bounds.
pub open spec fn mstore_transition(
    pre: ExecutionContext,
    post: ExecutionContext,
    r: Result<(), StatusCode>,
) -> bool {
    if pre.stack@.len() < 2 {
        underflowed(pre, post, r)
    } else {
        let off = usize_of(arg1(pre)@);
        if ceil32((off + 32) as nat) > usize::MAX {
            &&& r == Err::<(), StatusCode>(StatusCode::InvalidMemoryAccess)
            &&& frame_stable(pre, post)
            &&& post.stack@ == pre.stack@.drop_last().drop_last()
            &&& post.pc == pre.pc
        } else {
            &&& r == Ok::<(), StatusCode>(())
            &&& mem_frame_stable(pre, post)
            &&& post.memory@ == mem_written(pre.memory@, off, arg2(pre)@)
            &&& post.stack@ == pre.stack@.drop_last().drop_last()
            &&& post.pc == pc_next(pre, 1)
        }
    }
}

/// MSTORE8: pops an offset then a word and writes the word's lowest byte
/// there, extending memory so the write is in bounds.
pub open spec fn mstore8_transition(
    pre: ExecutionContext,
    post: ExecutionContext,
    r: Result<(), StatusCode>,
) -> bool {
    if pre.stack@.len() < 2 {
        underflowed(pre, post, r)
    } else {
        let off = usize_of(arg1(pre)@);
        if ceil32((off + 1) as nat) > usize::MAX {
            &&& r == Err::<(), StatusCode>(StatusCode::InvalidMemoryAccess)
            &&& frame_stable(pre, post)
            &&& post.stack@ == pre.stack@.drop_last().drop_last()
            &&& post.pc == pre.pc
        } else {
            &&& r == Ok::<(), StatusCode>(())
            &&& mem_frame_stable(pre, post)
            &&& post.memory@ == mem_written(pre.memory@, off, seq![arg2(pre)@[31]])
            &&& post.stack@ == pre.stack@.drop_last().drop_last()
            &&& post.pc == pc_next(pre, 1)
        }
    }
}

/// SHA3: pops an offset then a length and pushes the Keccak-256 digest of
/// that memory range, extending memory so the read is in bounds.
pub open spec fn sha3_transition(
    pre: ExecutionContext,
    post: ExecutionContext,
    r: Result<(), StatusCode>,
) -> bool {
    if pre.stack@.len() < 2 {
        underflowed(pre, post, r)
    } else {
        let off = usize_of(arg1(pre)@);
        let ln = usize_of(arg2(pre)@);
        if ln > 0 && ceil32((off + ln) as nat) > usize::MAX {
            &&& r == Err::<(), StatusCode>(StatusCode::InvalidMemoryAccess)
            &&& frame_stable(pre, post)
            &&& post.stack@ == pre.stack@.drop_last().drop_last()
            &&& post.pc == pre.pc
        } else {
            &&& r == Ok::<(), StatusCode>(())
            &&& mem_frame_stable(pre, post)
            &&& post.memory@ == (if ln == 0 {
                pre.memory@
            } else {
                mem_grown(pre.memory@, (off + ln) as nat)
            })
            &&& post.stack@.len() == pre.stack@.len() - 1
            &&& post.stack@.drop_last() == pre.stack@.drop_last().drop_last()
            &&& post.stack@.last()@ == keccak256_of(
                if ln == 0 {
                    Seq::<u8>::empty()
                } else {
                    post.memory@.subrange(off as int, (off + ln) as int)
                },
            )
            &&& post.pc == pc_next(pre, 1)
        }
    }
}

/// CALLDATALOAD: pops an offset and pushes the 32-byte calldata window
/// there, zero-filled past the end; the calldata itself never grows.
pub open spec fn calldataload_transition(
    pre: ExecutionContext,
    post: ExecutionContext,
    r: Result<(), StatusCode>,
) -> bool {
    if pre.stack@.len() < 1 {
        underflowed(pre, post, r)
    } else {
        &&& unop_frame(pre, post, r)
        &&& post.stack@.last()@ == Seq::new(
            32,
            |i: int| cd_byte(pre.calldata@, usize_of(arg1(pre)@) + i),
        )
    }
}

/// JUMP: pops a destination; inside the code the counter moves there, at
/// or past its end the jump fails with `BadJumpDest`.
pub open spec fn jump_transition(
    pre: ExecutionContext,
    post: ExecutionContext,
    r: Result<(), StatusCode>,
) -> bool {
    if pre.stack@.len() < 1 {
        underflowed(pre, post, r)
    } else {
        let dest = usize_of(arg1(pre)@);
        if dest >= pre.code@.len() {
            &&& r == Err::<(), StatusCode>(StatusCode::BadJumpDest)
            &&& frame_stable(pre, post)
            &&& post.stack@ == pre.stack@.drop_last()
            &&& post.pc == pre.pc
        } else {
            &&& r == Ok::<(), StatusCode>(())
            &&& frame_stable(pre, post)
            &&& post.stack@ == pre.stack@.drop_last()
            &&& post.pc == dest
        }
    }
}

/// JUMPI: pops a destination then a condition; a nonzero condition jumps
/// as JUMP does, a zero one steps on.
pub open spec fn jumpi_transition(
    pre: ExecutionContext,
    post: ExecutionContext,
    r: Result<(), StatusCode>,
) -> bool {
    if pre.stack@.len() < 2 {
        underflowed(pre, post, r)
    } else {
        let dest = usize_of(arg1(pre)@);
        if wv(arg2(pre)) == 0 {
            &&& r == Ok::<(), StatusCode>(())
            &&& frame_stable(pre, post)
            &&& post.stack@ == pre.stack@.drop_last().drop_last()
            &&& post.pc == pc_next(pre, 1)
        } else if dest >= pre.code@.len() {
            &&& r == Err::<(), StatusCode>(StatusCode::BadJumpDest)
            &&& frame_stable(pre, post)
            &&& post.stack@ == pre.stack@.drop_last().drop_last()
            &&& post.pc == pre.pc
        } else {
            &&& r == Ok::<(), StatusCode>(())
            &&& frame_stable(pre, post)
            &&& post.stack@ == pre.stack@.drop_last().drop_last()
            &&& post.pc == dest
        }
    }
}

/// JUMPDEST: a marker with no effect; the counter steps on.
pub open spec fn jumpdest_transition(
    pre: ExecutionContext,
    post: ExecutionContext,
    r: Result<(), StatusCode>,
) -> bool {
    &&& r == Ok::<(), StatusCode>(())
    &&& frame_stable(pre, post)
    &&& post.stack@ == pre.stack@
    &&& post.pc == pc_next(pre, 1)
}

/// STOP: sets the stopped flag and signals completion; nothing else
/// changes.
pub open spec fn stop_transition(
    pre: ExecutionContext,
    post: ExecutionContext,
    r: Result<(), StatusCode>,
) -> bool {
    &&& r == Err::<(), StatusCode>(StatusCode::Completion)
    &&& post.stopped == true
    &&& post.code@ == pre.code@
    &&& post.stack@ == pre.stack@
    &&& post.memory@ == pre.memory@
    &&& post.pc == pre.pc
    &&& post.gas_limit == pre.gas_limit
    &&& post.calldata@ == pre.calldata@
    &&& post.returndata@ == pre.returndata@
    &&& post.block == pre.block
}

/// RETURN: pops an offset then a length, copies that memory range into
/// the returndata, sets the stopped flag and signals completion.
pub open spec fn return_transition(
    pre: ExecutionContext,
    post: ExecutionContext,
    r: Result<(), StatusCode>,
) -> bool {
    if pre.stack@.len() < 2 {
        underflowed(pre, post, r)
    } else {
        let off = usize_of(arg1(pre)@);
        let ln = usize_of(arg2(pre)@);
        if ln > 0 && ceil32((off + ln) as nat) > usize::MAX {
            &&& r == Err::<(), StatusCode>(StatusCode::InvalidMemoryAccess)
            &&& frame_stable(pre, post)
            &&& post.stack@ == pre.stack@.drop_last().drop_last()
            &&& post.pc == pre.pc
        } else {
            &&& r == Err::<(), StatusCode>(StatusCode::Completion)
            &&& post.stopped == true
            &&& post.memory@ == (if ln == 0 {
                pre.memory@
            } else {
                mem_grown(pre.memory@, (off + ln) as nat)
            })
            &&& post.returndata@ == (if ln == 0 {
                Seq::<u8>::empty()
            } else {
                post.memory@.subrange(off as int, (off + ln) as int)
            })
            &&& post.stack@ == pre.stack@.drop_last().drop_last()
            &&& post.pc == pre.pc
            &&& post.code@ == pre.code@
            &&& post.gas_limit == pre.gas_limit
            &&& post.calldata@ == pre.calldata@
            &&& post.block == pre.block
        }
    }
}

impl ExecutionContext {
    /// MLOAD: pops an offset, pushes the 32 bytes of memory there.
    fn op_mload(&mut self) -> (r: Result<(), StatusCode>)
        requires
            ctx_wf(*old(self)),
        ensures
            ctx_wf(*final(self)),
            mload_transition(*old(self), *final(self), r),
    {
        let a = match self.pop1() {
            Ok(v) => v,
            Err(e) => {
                return Err(e);
            },
        };
        let offset = a.to_usize();
        let loaded = match self.memory.load(offset) {
            Ok(v) => v,
            Err(e) => {
                return Err(e);
            },
        };
        let w = U256BE::from_slice(loaded.as_slice());
        proof {
            assert(w@ =~= loaded@);
        }
        self.push_result(w)
    }

    /// MSTORE: pops an offset then a word, writes the word to memory.
    fn op_mstore(&mut self) -> (r: Result<(), StatusCode>)
        requires
            ctx_wf(*old(self)),
        ensures
            ctx_wf(*final(self)),
            mstore_transition(*old(self), *final(self), r),
    {
        let (a, value) = match self.pop2() {
            Ok(v) => v,
            Err(e) => {
                return Err(e);
            },
        };
        let offset = a.to_usize();
        match self.memory.store(offset, value) {
            Ok(_) => {},
            Err(e) => {
                return Err(e);
            },
        }
        self.pc_increment(1);
        Ok(())
    }

    /// MSTORE8: pops an offset then a word, writes the word's lowest byte.
    fn op_mstore8(&mut self) -> (r: Result<(), StatusCode>)
        requires
            ctx_wf(*old(self)),
        ensures
            ctx_wf(*final(self)),
            mstore8_transition(*old(self), *final(self), r),
    {
        let (a, value) = match self.pop2() {
            Ok(v) => v,
            Err(e) => {
                return Err(e);
            },
        };
        let offset = a.to_usize();
        match self.memory.store_byte(offset, value.0[31]) {
            Ok(_) => {},
            Err(e) => {
                return Err(e);
            },
        }
        self.pc_increment(1);
        Ok(())
    }

    /// SHA3: pops an offset then a length, pushes the Keccak-256 digest
    /// of that memory range.
    fn op_sha3(&mut self) -> (r: Result<(), StatusCode>)
        requires
            ctx_wf(*old(self)),
        ensures
            ctx_wf(*final(self)),
            sha3_transition(*old(self), *final(self), r),
    {
        let (a, b) = match self.pop2() {
            Ok(v) => v,
            Err(e) => {
                return Err(e);
            },
        };
        let offset = a.to_usize();
        let length = b.to_usize();
        let region = match self.memory.load_range(offset, length) {
            Ok(v) => v,
            Err(e) => {
                return Err(e);
            },
        };
        let digest = keccak256(region.as_slice());
        let w = U256BE::from_slice(digest.as_slice());
        proof {
            assert(w@ =~= digest@);
        }
        self.push_result(w)
    }

    /// MSIZE: pushes the current memory length.
    fn op_msize(&mut self) -> (r: Result<(), StatusCode>)
        requires
            ctx_wf(*old(self)),
        ensures
            ctx_wf(*final(self)),
            push_scalar_transition(*old(self), *final(self), r, old(self).memory@.len()),
    {
        let memlen = self.memory.len();
        let r = self.stack_step_push(U256BE::from_usize(memlen));
        proof {
            if old(self).stack@.len() < STACK_CAPACITY {
                assert(self.stack@.drop_last() =~= old(self).stack@);
            }
        }
        r
    }

    /// CALLDATALOAD: pops an offset, pushes the 32-byte calldata window
    /// there.
    fn op_calldataload(&mut self) -> (r: Result<(), StatusCode>)
        requires
            ctx_wf(*old(self)),
        ensures
            ctx_wf(*final(self)),
            calldataload_transition(*old(self), *final(self), r),
    {
        let a = match self.pop1() {
            Ok(v) => v,
            Err(e) => {
                return Err(e);
            },
        };
        let offset = a.to_usize();
        let loaded = match self.calldata_load(offset) {
            Ok(v) => v,
            Err(e) => {
                return Err(e);
            },
        };
        let w = U256BE::from_slice(loaded.as_slice());
        proof {
            assert(w@ =~= loaded@);
            assert(loaded@ =~= Seq::new(
                32,
                |i: int| cd_byte(old(self).calldata@, usize_of(arg1(*old(self))@) + i),
            ));
        }
        self.push_result(w)
    }

    /// CALLDATASIZE: pushes the calldata's length.
    fn op_calldatasize(&mut self) -> (r: Result<(), StatusCode>)
        requires
            ctx_wf(*old(self)),
        ensures
            ctx_wf(*final(self)),
            push_scalar_transition(*old(self), *final(self), r, old(self).calldata@.len()),
    {
        let len = self.calldata.len();
        let r = self.stack_step_push(U256BE::from_usize(len));
        proof {
            if old(self).stack@.len() < STACK_CAPACITY {
                assert(self.stack@.drop_last() =~= old(self).stack@);
            }
        }
        r
    }

    /// JUMP: pops a destination and moves the counter there.
    fn op_jump(&mut self) -> (r: Result<(), StatusCode>)
        requires
            ctx_wf(*old(self)),
        ensures
            ctx_wf(*final(self)),
            jump_transition(*old(self), *final(self), r),
    {
        let dest = match self.pop1() {
            Ok(v) => v,
            Err(e) => {
                return Err(e);
            },
        };
        self.pc_jump(dest.to_usize())
    }

    /// JUMPI: pops a destination then a condition and jumps when the
    /// condition is nonzero.
    fn op_jumpi(&mut self) -> (r: Result<(), StatusCode>)
        requires
            ctx_wf(*old(self)),
        ensures
            ctx_wf(*final(self)),
            jumpi_transition(*old(self), *final(self), r),
    {
        let (dest, cond) = match self.pop2() {
            Ok(v) => v,
            Err(e) => {
                return Err(e);
            },
        };
        if cond.is_zero() {
            self.pc_increment(1);
            Ok(())
        } else {
            self.pc_jump(dest.to_usize())
        }
    }

    /// JUMPDEST: a valid jump target; does nothing but step on.
    fn op_jumpdest(&mut self) -> (r: Result<(), StatusCode>)
        requires
            ctx_wf(*old(self)),
        ensures
            ctx_wf(*final(self)),
            jumpdest_transition(*old(self), *final(self), r),
    {
        self.pc_increment(1);
        Ok(())
    }

    /// PC: pushes the current program counter.
    fn op_pc(&mut self) -> (r: Result<(), StatusCode>)
        requires
            ctx_wf(*old(self)),
        ensures
            ctx_wf(*final(self)),
            push_scalar_transition(*old(self), *final(self), r, old(self).pc as nat),
    {
        let pc = self.pc;
        let r = self.stack_step_push(U256BE::from_usize(pc));
        proof {
            if old(self).stack@.len() < STACK_CAPACITY {
                assert(self.stack@.drop_last() =~= old(self).stack@);
            }
        }
        r
    }

    /// GAS: pushes the remaining gas budget.
    fn op_gas(&mut self) -> (r: Result<(), StatusCode>)
        requires
            ctx_wf(*old(self)),
        ensures
            ctx_wf(*final(self)),
            push_scalar_transition(*old(self), *final(self), r, old(self).gas_limit as nat),
    {
        let gas = self.gas_limit;
        let r = self.stack_step_push(U256BE::from_usize(gas));
        proof {
            if old(self).stack@.len() < STACK_CAPACITY {
                assert(self.stack@.drop_last() =~= old(self).stack@);
            }
        }
        r
    }

    /// GASLIMIT: pushes the block's gas limit.
    fn op_gaslimit(&mut self) -> (r: Result<(), StatusCode>)
        requires
            ctx_wf(*old(self)),
        ensures
            ctx_wf(*final(self)),
            push_scalar_transition(*old(self), *final(self), r, old(self).block.gaslimit as nat),
    {
        let v = self.block.gaslimit;
        let r = self.stack_step_push(U256BE::from_usize(v));
        proof {
            if old(self).stack@.len() < STACK_CAPACITY {
                assert(self.stack@.drop_last() =~= old(self).stack@);
            }
        }
        r
    }

    /// BASEFEE: pushes the block's base gas fee.
    fn op_basefee(&mut self) -> (r: Result<(), StatusCode>)
        requires
            ctx_wf(*old(self)),
        ensures
            ctx_wf(*final(self)),
            push_scalar_transition(*old(self), *final(self), r, old(self).block.basegas as nat),
    {
        let v = self.block.basegas;
        let r = self.stack_step_push(U256BE::from_usize(v));
        proof {
            if old(self).stack@.len() < STACK_CAPACITY {
                assert(self.stack@.drop_last() =~= old(self).stack@);
            }
        }
        r
    }

    /// NUMBER: pushes the block number.
    fn op_number(&mut self) -> (r: Result<(), StatusCode>)
        requires
            ctx_wf(*old(self)),
        ensures
            ctx_wf(*final(self)),
            push_scalar_transition(
                *old(self),
                *final(self),
                r,
                old(self).block.blocknumber as nat,
            ),
    {
        let v = self.block.blocknumber;
        let r = self.stack_step_push(U256BE::from_usize(v));
        proof {
            if old(self).stack@.len() < STACK_CAPACITY {
                assert(self.stack@.drop_last() =~= old(self).stack@);
            }
        }
        r
    }

    /// DIFFICULTY: pushes the block's difficulty.
    fn op_difficulty(&mut self) -> (r: Result<(), StatusCode>)
        requires
            ctx_wf(*old(self)),
        ensures
            ctx_wf(*final(self)),
            push_scalar_transition(*old(self), *final(self), r, old(self).block.difficulty as nat),
    {
        let v = self.block.difficulty;
        let r = self.stack_step_push(U256BE::from_usize(v));
        proof {
            if old(self).stack@.len() < STACK_CAPACITY {
                assert(self.stack@.drop_last() =~= old(self).stack@);
            }
        }
        r
    }

    /// TIMESTAMP: pushes the block's timestamp word.
    fn op_timestamp(&mut self) -> (r: Result<(), StatusCode>)
        requires
            ctx_wf(*old(self)),
        ensures
            ctx_wf(*final(self)),
            push_word_transition(*old(self), *final(self), r, old(self).block.timestamp@),
    {
        let v = self.block.timestamp;
        let r = self.stack_step_push(v);
        proof {
            if old(self).stack@.len() < STACK_CAPACITY {
                assert(self.stack@.drop_last() =~= old(self).stack@);
            }
        }
        r
    }

    /// COINBASE: pushes the block's coinbase address, widened to a word.
    fn op_coinbase(&mut self) -> (r: Result<(), StatusCode>)
        requires
            ctx_wf(*old(self)),
        ensures
            ctx_wf(*final(self)),
            push_word_transition(
                *old(self),
                *final(self),
                r,
                zeros(12) + old(self).block.coinbase@,
            ),
    {
        let v = self.block.coinbase;
        let r = self.stack_step_push(v.to_u256_be());
        proof {
            if old(self).stack@.len() < STACK_CAPACITY {
                assert(self.stack@.drop_last() =~= old(self).stack@);
            }
        }
        r
    }

    /// STOP: halts the frame with a normal completion.
    fn op_stop(&mut self) -> (r: Result<(), StatusCode>)
        requires
            ctx_wf(*old(self)),
        ensures
            ctx_wf(*final(self)),
            stop_transition(*old(self), *final(self), r),
    {
        self.stop();
        Err(StatusCode::Completion)
    }

    /// RETURN: pops an offset then a length, hands that memory range back
    /// as returndata, and halts with a normal completion.
    fn op_return(&mut self) -> (r: Result<(), StatusCode>)
        requires
            ctx_wf(*old(self)),
        ensures
            ctx_wf(*final(self)),
            return_transition(*old(self), *final(self), r),
    {
        let (a, b) = match self.pop2() {
            Ok(v) => v,
            Err(e) => {
                return Err(e);
            },
        };
        let offset = a.to_usize();
        let length = b.to_usize();
        let region = match self.memory.load_range(offset, length) {
            Ok(v) => v,
            Err(e) => {
                return Err(e);
            },
        };
        self.returndata = region;
        self.stop();
        Err(StatusCode::Completion)
    }
}

/// The opcodes this executor has a handler for; any other byte halts the
/// frame with `UndefinedInstruction`.
pub open spec fn recognized(op: u8) -> bool {
    ||| (PUSH1 <= op && op <= PUSH16)
    ||| (DUP1 <= op && op <= DUP16)
    ||| (SWAP1 <= op && op <= SWAP16)
    ||| op == POP
    ||| op == ADD
    ||| op == SUB
    ||| op == MUL
    ||| op == DIV
    ||| op == MOD
    ||| op == SDIV
    ||| op == SMOD
    ||| op == ADDMOD
    ||| op == MULMOD
    ||| op == EXP
    ||| op == LT
    ||| op == GT
    ||| op == SLT
    ||| op == SGT
    ||| op == EQ
    ||| op == ISZERO
    ||| op == AND
    ||| op == OR
    ||| op == XOR
    ||| op == NOT
    ||| op == BYTE
    ||| op == SHL
    ||| op == SHR
    ||| op == SAR
    ||| op == SHA3
    ||| op == MLOAD
    ||| op == MSTORE
    ||| op == MSTORE8
    ||| op == MSIZE
    ||| op == CALLDATALOAD
    ||| op == CALLDATASIZE
    ||| op == JUMP
    ||| op == JUMPI
    ||| op == JUMPDEST
    ||| op == PC
    ||| op == GAS
    ||| op == GASLIMIT
    ||| op == BASEFEE
    ||| op == COINBASE
    ||| op == TIMESTAMP
    ||| op == NUMBER
    ||| op == DIFFICULTY
    ||| op == STOP
    ||| op == RETURN
}

/// The transition a single opcode makes: for each opcode the exact effect
/// on the frame and the exact result, and for an unrecognized byte the
/// `UndefinedInstruction` halt with nothing touched. This is the ensures
/// of `exec`, gathered into one relation so the dispatch loop's own
/// contract can iterate it.
pub open spec fn op_transition(
    pre: ExecutionContext,
    post: ExecutionContext,
    r: Result<(), StatusCode>,
    op: u8,
) -> bool {
    if PUSH1 <= op && op <= PUSH16 {
        push_transition(pre, post, r, (op - PUSH1 + 1) as nat)
    } else if DUP1 <= op && op <= DUP16 {
        dup_transition(pre, post, r, (op - DUP1 + 1) as nat)
    } else if SWAP1 <= op && op <= SWAP16 {
        swap_transition(pre, post, r, (op - SWAP1 + 1) as nat)
    } else if op == POP {
        pop_transition(pre, post, r)
    } else if op == ADD {
        add_transition(pre, post, r)
    } else if op == SUB {
        sub_transition(pre, post, r)
    } else if op == MUL {
        mul_transition(pre, post, r)
    } else if op == DIV {
        div_transition(pre, post, r)
    } else if op == MOD {
        mod_transition(pre, post, r)
    } else if op == SDIV {
        sdiv_transition(pre, post, r)
    } else if op == SMOD {
        smod_transition(pre, post, r)
    } else if op == ADDMOD {
        addmod_transition(pre, post, r)
    } else if op == MULMOD {
        mulmod_transition(pre, post, r)
    } else if op == EXP {
        exp_transition(pre, post, r)
    } else if op == LT {
        ucmp_transition(pre, post, r, false)
    } else if op == GT {
        ucmp_transition(pre, post, r, true)
    } else if op == SLT {
        scmp_transition(pre, post, r, false)
    } else if op == SGT {
        scmp_transition(pre, post, r, true)
    } else if op == EQ {
        eq_transition(pre, post, r)
    } else if op == ISZERO {
        iszero_transition(pre, post, r)
    } else if op == AND {
        bitop_transition(pre, post, r, seq_and(arg1(pre)@, arg2(pre)@))
    } else if op == OR {
        bitop_transition(pre, post, r, seq_or(arg1(pre)@, arg2(pre)@))
    } else if op == XOR {
        bitop_transition(pre, post, r, seq_xor(arg1(pre)@, arg2(pre)@))
    } else if op == NOT {
        not_transition(pre, post, r)
    } else if op == BYTE {
        byte_transition(pre, post, r)
    } else if op == SHL {
        shl_transition(pre, post, r)
    } else if op == SHR {
        shr_transition(pre, post, r)
    } else if op == SAR {
        sar_transition(pre, post, r)
    } else if op == SHA3 {
        sha3_transition(pre, post, r)
    } else if op == MLOAD {
        mload_transition(pre, post, r)
    } else if op == MSTORE {
        mstore_transition(pre, post, r)
    } else if op == MSTORE8 {
        mstore8_transition(pre, post, r)
    } else if op == MSIZE {
        push_scalar_transition(pre, post, r, pre.memory@.len())
    } else if op == CALLDATALOAD {
        calldataload_transition(pre, post, r)
    } else if op == CALLDATASIZE {
        push_scalar_transition(pre, post, r, pre.calldata@.len())
    } else if op == JUMP {
        jump_transition(pre, post, r)
    } else if op == JUMPI {
        jumpi_transition(pre, post, r)
    } else if op == JUMPDEST {
        jumpdest_transition(pre, post, r)
    } else if op == PC {
        push_scalar_transition(pre, post, r, pre.pc as nat)
    } else if op == GAS {
        push_scalar_transition(pre, post, r, pre.gas_limit as nat)
    } else if op == GASLIMIT {
        push_scalar_transition(pre, post, r, pre.block.gaslimit as nat)
    } else if op == BASEFEE {
        push_scalar_transition(pre, post, r, pre.block.basegas as nat)
    } else if op == COINBASE {
        push_word_transition(pre, post, r, zeros(12) + pre.block.coinbase@)
    } else if op == TIMESTAMP {
        push_word_transition(pre, post, r, pre.block.timestamp@)
    } else if op == NUMBER {
        push_scalar_transition(pre, post, r, pre.block.blocknumber as nat)
    } else if op == DIFFICULTY {
        push_scalar_transition(pre, post, r, pre.block.difficulty as nat)
    } else if op == STOP {
        stop_transition(pre, post, r)
    } else if op == RETURN {
        return_transition(pre, post, r)
    } else {
        &&& r == Err::<(), StatusCode>(StatusCode::UndefinedInstruction)
        &&& machine_stable(pre, post)
    }
}

/// The static gas charge after a handler succeeded: the cost fits the
/// budget and only the budget changes.
pub open spec fn gas_charge(mid: ExecutionContext, post: ExecutionContext, cost: nat) -> bool {
    &&& cost <= mid.gas_limit
    &&& post.gas_limit == mid.gas_limit - cost
    &&& gas_only_change(mid, post)
}

/// One pass of the dispatch loop from `pre`, per the per-iteration
/// algorithm: a fetch at or past the end of the code halts with
/// `Completion`; otherwise the fetched opcode's handler runs, and on
/// success its static gas is charged. `halt` is `None` when the pass
/// completed and the loop goes on, and carries the first terminal status
/// when the pass ended the frame: a handler's own status supersedes the
/// charge (which is then never made), and a charge above the remaining
/// budget halts with `OutOfGas` after the handler's effects stand.
pub open spec fn loop_step(
    pre: ExecutionContext,
    post: ExecutionContext,
    halt: Option<StatusCode>,
) -> bool {
    if pre.pc >= pre.code@.len() {
        &&& halt == Some(StatusCode::Completion)
        &&& post == pre
    } else {
        let op = pre.code@[pre.pc as int];
        match halt {
            Option::None => exists|mid: ExecutionContext|
                #[trigger] op_transition(pre, mid, Ok::<(), StatusCode>(()), op) && gas_charge(
                    mid,
                    post,
                    gas_cost(op) as nat,
                ),
            Option::Some(st) => {
                ||| op_transition(pre, post, Err::<(), StatusCode>(st), op)
                ||| (st == StatusCode::OutOfGas && exists|mid: ExecutionContext|
                    #[trigger] op_transition(pre, mid, Ok::<(), StatusCode>(()), op) && gas_cost(op)
                        > mid.gas_limit && post == mid)
            },
        }
    }
}

/// A run of completed dispatch passes: consecutive states linked by
/// `loop_step` with no halt.
pub open spec fn dispatch_trace(tr: Seq<ExecutionContext>) -> bool {
    forall|i: int| #![trigger tr[i]]
        0 <= i && i + 1 < tr.len() ==> loop_step(tr[i], tr[i + 1], Option::None)
}

impl ExecutionContext {
    /// Executes one opcode: dispatches to its handler, and promises
    /// exactly that opcode's transition, `op_transition`. The gas budget
    /// is untouched here; the caller charges it afterwards.
    pub fn exec(&mut self, opcode: u8) -> (r: Result<(), StatusCode>)
        requires
            ctx_wf(*old(self)),
        ensures
            ctx_wf(*final(self)),
            final(self).code@ == old(self).code@,
            final(self).gas_limit == old(self).gas_limit,
            final(self).block == old(self).block,
            r is Ok ==> final(self).stopped == old(self).stopped,
            r is Ok && gas_cost(opcode) == 0 && old(self).pc < old(self).code@.len()
                ==> final(self).pc > old(self).pc,
            op_transition(*old(self), *final(self), r, opcode),
    {
        if PUSH1 <= opcode && opcode <= PUSH16 {
            self.op_push((opcode - PUSH1 + 1) as usize)
        } else if DUP1 <= opcode && opcode <= DUP16 {
            self.op_dup((opcode - DUP1 + 1) as usize)
        } else if SWAP1 <= opcode && opcode <= SWAP16 {
            self.op_swap((opcode - SWAP1 + 1) as usize)
        } else if opcode == POP {
            self.op_pop()
        } else if opcode == ADD {
            self.op_add()
        } else if opcode == SUB {
            self.op_sub()
        } else if opcode == MUL {
            self.op_mul()
        } else if opcode == DIV {
            self.op_div()
        } else if opcode == MOD {
            self.op_mod()
        } else if opcode == SDIV {
            self.op_sdiv()
        } else if opcode == SMOD {
            self.op_smod()
        } else if opcode == ADDMOD {
            self.op_addmod()
        } else if opcode == MULMOD {
            self.op_mulmod()
        } else if opcode == EXP {
            self.op_exp()
        } else if opcode == LT {
            self.op_lt()
        } else if opcode == GT {
            self.op_gt()
        } else if opcode == SLT {
            self.op_slt()
        } else if opcode == SGT {
            self.op_sgt()
        } else if opcode == EQ {
            self.op_eq()
        } else if opcode == ISZERO {
            self.op_iszero()
        } else if opcode == AND {
            self.op_and()
        } else if opcode == OR {
            self.op_or()
        } else if opcode == XOR {
            self.op_xor()
        } else if opcode == NOT {
            self.op_not()
        } else if opcode == BYTE {
            self.op_byte()
        } else if opcode == SHL {
            self.op_shl()
        } else if opcode == SHR {
            self.op_shr()
        } else if opcode == SAR {
            self.op_sar()
        } else if opcode == SHA3 {
            self.op_sha3()
        } else if opcode == MLOAD {
            self.op_mload()
        } else if opcode == MSTORE {
            self.op_mstore()
        } else if opcode == MSTORE8 {
            self.op_mstore8()
        } else if opcode == MSIZE {
            self.op_msize()
        } else if opcode == CALLDATALOAD {
            self.op_calldataload()
        } else if opcode == CALLDATASIZE {
            self.op_calldatasize()
        } else if opcode == JUMP {
            self.op_jump()
        } else if opcode == JUMPI {
            self.op_jumpi()
        } else if opcode == JUMPDEST {
            self.op_jumpdest()
        } else if opcode == PC {
            self.op_pc()
        } else if opcode == GAS {
            self.op_gas()
        } else if opcode == GASLIMIT {
            self.op_gaslimit()
        } else if opcode == BASEFEE {
            self.op_basefee()
        } else if opcode == COINBASE {
            self.op_coinbase()
        } else if opcode == TIMESTAMP {
            self.op_timestamp()
        } else if opcode == NUMBER {
            self.op_number()
        } else if opcode == DIFFICULTY {
            self.op_difficulty()
        } else if opcode == STOP {
            self.op_stop()
        } else if opcode == RETURN {
            self.op_return()
        } else {
            Err(StatusCode::UndefinedInstruction)
        }
    }

    /// The dispatch loop: fetch the byte at the counter, execute its
    /// handler, then charge the opcode's static gas. It terminates
    /// because every charged opcode shrinks the budget and every free one
    /// moves the counter toward the end of the code. The result is the
    /// first terminal status, `Completion` included, as an `Err`: the
    /// contract exhibits the whole run as a chain of completed dispatch
    /// passes from the entry state, closed by the pass that produced the
    /// terminal status and the final state.
    pub fn run(&mut self) -> (r: Result<(), StatusCode>)
        requires
            ctx_wf(*old(self)),
            old(self).stopped == false,
        ensures
            ctx_wf(*final(self)),
            final(self).code@ == old(self).code@,
            final(self).calldata@ == old(self).calldata@,
            final(self).gas_limit <= old(self).gas_limit,
            final(self).block == old(self).block,
            r is Err,
            exists|tr: Seq<ExecutionContext>|
                {
                    &&& #[trigger] dispatch_trace(tr)
                    &&& tr.len() >= 1
                    &&& tr[0] == *old(self)
                    &&& loop_step(tr.last(), *final(self), Some(r->Err_0))
                },
            final(self).stopped ==> r == Err::<(), StatusCode>(StatusCode::Completion),
            r == Err::<(), StatusCode>(StatusCode::Completion) ==> final(self).stopped
                || final(self).pc == final(self).code@.len(),
            r != Err::<(), StatusCode>(StatusCode::Completion) ==> final(self).stopped == false
                && final(self).returndata@ == old(self).returndata@,
    {
        let ghost mut tr: Seq<ExecutionContext> = seq![*old(self)];
        while !self.stopped
            invariant
                ctx_wf(*self),
                self.stopped == false,
                self.code@ == old(self).code@,
                self.calldata@ == old(self).calldata@,
                self.returndata@ == old(self).returndata@,
                self.gas_limit <= old(self).gas_limit,
                self.block == old(self).block,
                tr.len() >= 1,
                tr[0] == *old(self),
                dispatch_trace(tr),
                tr.last() == *self,
            decreases self.gas_limit, self.code@.len() - self.pc,
        {
            let ghost pre_iter = *self;
            let opcode = match self.read_code(0) {
                Ok(v) => v,
                Err(e) => {
                    proof {
                        assert(loop_step(tr.last(), *self, Some(e)));
                    }
                    return Err(e);
                },
            };
            let ghost op = pre_iter.code@[pre_iter.pc as int];
            match self.exec(opcode) {
                Ok(_) => {},
                Err(e) => {
                    proof {
                        assert(op_transition(pre_iter, *self, Err::<(), StatusCode>(e), op));
                        assert(loop_step(tr.last(), *self, Some(e)));
                    }
                    return Err(e);
                },
            }
            let ghost mid_state = *self;
            let cost = gas_fetch(opcode);
            match self.sub_gas(cost) {
                Ok(_) => {},
                Err(e) => {
                    proof {
                        assert(op_transition(pre_iter, mid_state, Ok::<(), StatusCode>(()), op));
                        assert(gas_cost(op) > mid_state.gas_limit);
                        assert(loop_step(tr.last(), *self, Some(e)));
                    }
                    return Err(e);
                },
            }
            proof {
                assert(op_transition(pre_iter, mid_state, Ok::<(), StatusCode>(()), op));
                assert(gas_charge(mid_state, *self, gas_cost(op) as nat));
                assert(loop_step(pre_iter, *self, Option::None));
                let old_tr = tr;
                tr = tr.push(*self);
                assert forall|i: int| 0 <= i && i + 1 < tr.len() implies #[trigger] loop_step(
                    tr[i],
                    tr[i + 1],
                    Option::None,
                ) by {
                    if i + 1 < tr.len() - 1 {
                        assert(loop_step(old_tr[i], old_tr[i + 1], Option::None));
                        assert(tr[i] == old_tr[i]);
                        assert(tr[i + 1] == old_tr[i + 1]);
                    } else {
                        assert(tr[i] == old_tr.last());
                        assert(tr[i + 1] == *self);
                    }
                }
            }
        }
        Ok(())
    }
}

} // verus!
