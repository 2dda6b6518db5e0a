//! The bounded operand stack: at most 1024 words, the top pushed last.
use vstd::prelude::*;

use crate::status::StatusCode;
use crate::word::U256BE;

verus! {

/// Capacity of the operand stack.
pub const STACK_CAPACITY: usize = 1024;

/// A bounded stack of 256-bit words. Its view is the sequence of words
/// from bottom to top; the length never exceeds the capacity.
pub struct Stack {
    pub storage: Vec<U256BE>,
}

impl View for Stack {
    type V = Seq<U256BE>;

    open spec fn view(&self) -> Seq<U256BE> {
        self.storage@
    }
}

impl Stack {
    /// The stack never holds more than its capacity of words.
    pub open spec fn wf(&self) -> bool {
        self@.len() <= STACK_CAPACITY
    }

    /// An empty stack.
    pub fn init() -> (r: Self)
        ensures
            r@ == Seq::<U256BE>::empty(),
            r.wf(),
    {
        Stack { storage: Vec::new() }
    }

    /// Pushes a word on top; a full stack fails with `StackOverflow` and
    /// stays as it was.
    pub fn push(&mut self, value: U256BE) -> (r: Result<(), StatusCode>)
        requires
            old(self).wf(),
        ensures
            final(self).wf(),
            old(self)@.len() == STACK_CAPACITY ==> r == Err::<(), StatusCode>(
                StatusCode::StackOverflow,
            ) && final(self)@ == old(self)@,
            old(self)@.len() < STACK_CAPACITY ==> r == Ok::<(), StatusCode>(()) && final(self)@
                == old(self)@.push(value),
    {
        if self.storage.len() == STACK_CAPACITY {
            return Err(StatusCode::StackOverflow);
        }
        self.storage.push(value);
        Ok(())
    }

    /// Pops the top word; an empty stack fails with `StackUnderflow`.
    pub fn pop(&mut self) -> (r: Result<U256BE, StatusCode>)
        ensures
            old(self)@.len() == 0 ==> r == Err::<U256BE, StatusCode>(StatusCode::StackUnderflow)
                && final(self)@ == old(self)@,
            old(self)@.len() > 0 ==> r == Ok::<U256BE, StatusCode>(old(self)@.last())
                && final(self)@ == old(self)@.drop_last(),
    {
        match self.storage.pop() {
            Some(n) => Ok(n),
            None => Err(StatusCode::StackUnderflow),
        }
    }

    /// Replaces the word `idx` positions below the top; an index outside
    /// the stack fails with `ArgOutOfRange`.
    pub fn push_to(&mut self, idx: usize, value: U256BE) -> (r: Result<(), StatusCode>)
        ensures
            idx >= old(self)@.len() ==> r == Err::<(), StatusCode>(StatusCode::ArgOutOfRange)
                && final(self)@ == old(self)@,
            idx < old(self)@.len() ==> r == Ok::<(), StatusCode>(())
                && final(self)@ == old(self)@.update(old(self)@.len() - 1 - idx, value),
    {
        let n = self.storage.len();
        if idx >= n {
            return Err(StatusCode::ArgOutOfRange);
        }
        self.storage[n - 1 - idx] = value;
        Ok(())
    }

    /// Reads the word `idx` positions below the top without removing it;
    /// an index outside the stack fails with `ArgOutOfRange`.
    pub fn peek(&self, idx: usize) -> (r: Result<U256BE, StatusCode>)
        ensures
            idx >= self@.len() ==> r == Err::<U256BE, StatusCode>(StatusCode::ArgOutOfRange),
            idx < self@.len() ==> r == Ok::<U256BE, StatusCode>(self@[self@.len() - 1 - idx]),
    {
        let n = self.storage.len();
        if idx >= n {
            return Err(StatusCode::ArgOutOfRange);
        }
        Ok(self.storage[n - 1 - idx])
    }

    /// The number of words held.
    pub fn len(&self) -> (r: usize)
        ensures
            r == self@.len(),
    {
        self.storage.len()
    }

    /// The whole stack, bottom first.
    pub fn peek_full(&self) -> (r: &Vec<U256BE>)
        ensures
            r@ == self@,
    {
        &self.storage
    }
}

} // verus!
