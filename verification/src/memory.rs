//! Auto-extending, byte-addressed linear memory. Growth is always to a
//! 32-byte boundary, with zero fill; loads extend memory so the read is in
//! bounds.
use vstd::prelude::*;

use crate::status::StatusCode;
use crate::word::{zeros, U256BE};

verus! {

/// The smallest multiple of 32 at or above `n`.
pub open spec fn ceil32(n: nat) -> nat {
    if n % 32 == 0 {
        n
    } else {
        (n / 32 + 1) * 32
    }
}

/// Memory after the smallest 32-byte-aligned zero extension that brings
/// `end` into bounds; memory already covering `end` is left alone.
pub open spec fn mem_grown(m: Seq<u8>, end: nat) -> Seq<u8> {
    if end <= m.len() {
        m
    } else {
        m + zeros((ceil32(end) - m.len()) as nat)
    }
}

/// Memory after `bytes` are written at `offset`, extending first so the
/// whole range is in bounds.
pub open spec fn mem_written(m: Seq<u8>, offset: nat, bytes: Seq<u8>) -> Seq<u8> {
    let g = mem_grown(m, offset + bytes.len());
    g.subrange(0, offset as int) + bytes + g.subrange((offset + bytes.len()) as int, g.len() as int)
}

pub proof fn lemma_ceil32_bounds(n: nat)
    ensures
        n <= ceil32(n) < n + 32,
        ceil32(n) % 32 == 0,
{
    if n % 32 != 0 {
        vstd::arithmetic::div_mod::lemma_fundamental_div_mod(n as int, 32);
        vstd::arithmetic::div_mod::lemma_mod_division_less_than_divisor(n as int, 32);
        vstd::arithmetic::div_mod::lemma_mod_multiples_basic(n as int / 32 + 1, 32);
    }
}

/// A byte memory whose observable length is kept a multiple of 32.
pub struct Memory {
    pub storage: Vec<u8>,
}

impl View for Memory {
    type V = Seq<u8>;

    open spec fn view(&self) -> Seq<u8> {
        self.storage@
    }
}

impl Memory {
    /// The length stays 32-byte aligned after every operation.
    pub open spec fn wf(&self) -> bool {
        self@.len() % 32 == 0
    }

    /// An empty memory.
    pub fn init() -> (r: Self)
        ensures
            r@ == Seq::<u8>::empty(),
            r.wf(),
    {
        Memory { storage: Vec::new() }
    }

    /// Extends the backing bytes with zeros, to a 32-byte boundary, so
    /// that `end` is covered.
    fn grow(&mut self, end: usize)
        requires
            old(self).wf(),
            ceil32(end as nat) <= usize::MAX,
        ensures
            final(self).wf(),
            final(self)@ == mem_grown(old(self)@, end as nat),
            final(self)@.len() >= end,
    {
        proof {
            lemma_ceil32_bounds(end as nat);
        }
        let len = self.storage.len();
        if end <= len {
            return ;
        }
        let rem = end % 32;
        let aligned: usize = if rem == 0 {
            end
        } else {
            proof {
                vstd::arithmetic::div_mod::lemma_fundamental_div_mod(end as int, 32);
            }
            end - rem + 32
        };
        assert(aligned == ceil32(end as nat));
        self.storage.resize(aligned, 0u8);
        proof {
            assert forall|i: int| len <= i < aligned implies self@[i] == 0u8 by {
                assert(vstd::pervasive::cloned(0u8, self@[i]));
            }
            assert(self@ =~= old(self)@ + zeros((ceil32(end as nat) - len) as nat));
        }
    }

    /// Loads the 32 bytes at `offset`, extending memory first so the read
    /// is in bounds. A range that cannot fit the address space fails with
    /// `InvalidMemoryAccess`.
    pub fn load(&mut self, offset: usize) -> (r: Result<Vec<u8>, StatusCode>)
        requires
            old(self).wf(),
        ensures
            final(self).wf(),
            ceil32((offset + 32) as nat) > usize::MAX ==> r == Err::<Vec<u8>, StatusCode>(
                StatusCode::InvalidMemoryAccess,
            ) && final(self)@ == old(self)@,
            ceil32((offset + 32) as nat) <= usize::MAX ==> {
                &&& final(self)@ == mem_grown(old(self)@, (offset + 32) as nat)
                &&& r is Ok
                &&& r->Ok_0@ == final(self)@.subrange(offset as int, offset + 32)
            },
    {
        self.load_range(offset, 32)
    }

    /// Loads `length` bytes at `offset`, extending memory first so the
    /// read is in bounds. An empty range reads nothing and changes
    /// nothing; a range that cannot fit the address space fails with
    /// `InvalidMemoryAccess`.
    pub fn load_range(&mut self, offset: usize, length: usize) -> (r: Result<Vec<u8>, StatusCode>)
        requires
            old(self).wf(),
        ensures
            final(self).wf(),
            length == 0 ==> r is Ok && final(self)@ == old(self)@ && r->Ok_0@ == Seq::<
                u8,
            >::empty(),
            length > 0 && ceil32((offset + length) as nat) > usize::MAX ==> r == Err::<Vec<u8>, StatusCode>(
                StatusCode::InvalidMemoryAccess,
            ) && final(self)@ == old(self)@,
            length > 0 && ceil32((offset + length) as nat) <= usize::MAX ==> {
                &&& final(self)@ == mem_grown(old(self)@, (offset + length) as nat)
                &&& r is Ok
                &&& r->Ok_0@ == final(self)@.subrange(offset as int, offset + length)
            },
    {
        proof {
            lemma_ceil32_bounds((offset + length) as nat);
        }
        if length == 0 {
            return Ok(Vec::new());
        }
        if offset > usize::MAX - length {
            return Err(StatusCode::InvalidMemoryAccess);
        }
        let end = offset + length;
        let rem = end % 32;
        if rem != 0 && end - rem > usize::MAX - 32 {
            proof {
                vstd::arithmetic::div_mod::lemma_fundamental_div_mod(end as int, 32);
            }
            return Err(StatusCode::InvalidMemoryAccess);
        }
        proof {
            vstd::arithmetic::div_mod::lemma_fundamental_div_mod(end as int, 32);
        }
        self.grow(end);
        let mut ret: Vec<u8> = Vec::new();
        let mut i: usize = 0;
        while i < length
            invariant
                0 <= i <= length,
                offset + length <= usize::MAX,
                offset + length <= self@.len(),
                ret@ == self@.subrange(offset as int, offset + i),
            decreases length - i,
        {
            let ghost pre = ret@;
            ret.push(self.storage[offset + i]);
            i += 1;
            proof {
                assert(ret@ =~= self@.subrange(offset as int, offset + i));
            }
        }
        Ok(ret)
    }

    /// Stores the 32 big-endian bytes of a word at `offset`, extending
    /// memory first so the write is in bounds. A range that cannot fit
    /// the address space fails with `InvalidMemoryAccess`.
    pub fn store(&mut self, offset: usize, value: U256BE) -> (r: Result<(), StatusCode>)
        requires
            old(self).wf(),
        ensures
            final(self).wf(),
            ceil32((offset + 32) as nat) > usize::MAX ==> r == Err::<(), StatusCode>(
                StatusCode::InvalidMemoryAccess,
            ) && final(self)@ == old(self)@,
            ceil32((offset + 32) as nat) <= usize::MAX ==> r == Ok::<(), StatusCode>(()) && final(self)@
                == mem_written(old(self)@, offset as nat, value@),
    {
        let bytes = value.as_slice();
        self.store_bytes(offset, &bytes)
    }

    /// Stores a single byte at `offset`, extending memory first so the
    /// write is in bounds. A range that cannot fit the address space
    /// fails with `InvalidMemoryAccess`.
    pub fn store_byte(&mut self, offset: usize, value: u8) -> (r: Result<(), StatusCode>)
        requires
            old(self).wf(),
        ensures
            final(self).wf(),
            ceil32((offset + 1) as nat) > usize::MAX ==> r == Err::<(), StatusCode>(
                StatusCode::InvalidMemoryAccess,
            ) && final(self)@ == old(self)@,
            ceil32((offset + 1) as nat) <= usize::MAX ==> r == Ok::<(), StatusCode>(()) && final(self)@
                == mem_written(old(self)@, offset as nat, seq![value]),
    {
        let bytes = [value];
        proof {
            assert(bytes@ =~= seq![value]);
        }
        self.store_bytes(offset, &bytes)
    }

    /// Writes all of `bytes` at `offset` after growing memory to cover
    /// the range.
    fn store_bytes(&mut self, offset: usize, bytes: &[u8]) -> (r: Result<(), StatusCode>)
        requires
            old(self).wf(),
            bytes@.len() >= 1,
        ensures
            final(self).wf(),
            ceil32((offset + bytes@.len()) as nat) > usize::MAX ==> r == Err::<(), StatusCode>(
                StatusCode::InvalidMemoryAccess,
            ) && final(self)@ == old(self)@,
            ceil32((offset + bytes@.len()) as nat) <= usize::MAX ==> r == Ok::<(), StatusCode>(())
                && final(self)@ == mem_written(old(self)@, offset as nat, bytes@),
    {
        let length = bytes.len();
        proof {
            lemma_ceil32_bounds((offset + length) as nat);
        }
        if offset > usize::MAX - length {
            return Err(StatusCode::InvalidMemoryAccess);
        }
        let end = offset + length;
        let rem = end % 32;
        if rem != 0 && end - rem > usize::MAX - 32 {
            proof {
                vstd::arithmetic::div_mod::lemma_fundamental_div_mod(end as int, 32);
            }
            return Err(StatusCode::InvalidMemoryAccess);
        }
        proof {
            vstd::arithmetic::div_mod::lemma_fundamental_div_mod(end as int, 32);
        }
        self.grow(end);
        let ghost grown = self@;
        let mut i: usize = 0;
        while i < length
            invariant
                0 <= i <= length,
                offset + length <= usize::MAX,
                offset + length <= self@.len(),
                length == bytes@.len(),
                self@.len() == grown.len(),
                forall|j: int| 0 <= j < i ==> self@[offset + j] == bytes@[j],
                forall|j: int| 0 <= j < self@.len() && !(offset <= j < offset + i) ==> self@[j]
                    == grown[j],
            decreases length - i,
        {
            self.storage[offset + i] = bytes[i];
            i += 1;
        }
        proof {
            assert(self@ =~= grown.subrange(0, offset as int) + bytes@ + grown.subrange(
                offset + length,
                grown.len() as int,
            ));
        }
        Ok(())
    }

    /// The whole memory as bytes.
    pub fn load_full(&self) -> (r: &Vec<u8>)
        ensures
            r@ == self@,
    {
        &self.storage
    }

    /// The current, 32-byte-aligned length.
    pub fn len(&self) -> (r: usize)
        ensures
            r == self@.len(),
    {
        self.storage.len()
    }
}

} // verus!
