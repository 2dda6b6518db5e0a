//! The immutable block context: environmental values that the
//! block-observing opcodes expose.
use vstd::prelude::*;

use crate::word::{be_val, lemma_be_val_zeros, zeros, U160, U256BE};

verus! {

/// Block-level observables. Only the first six fields are visible through
/// opcodes; the rest are carried for future expansion.
pub struct Block {
    pub blocknumber: usize,
    pub basegas: usize,
    pub gaslimit: usize,
    pub difficulty: usize,
    pub nonce: usize,
    pub coinbase: U160,
    pub timestamp: U256BE,
    pub mixhash: U256BE,
    pub parenthash: U256BE,
    pub transactions: U256BE,
    pub stateroot: U256BE,
}

/// The fixed sample values that `Block::default` fills in, field by field.
pub open spec fn default_block(b: Block) -> bool {
    &&& b.blocknumber == 1
    &&& b.basegas == 21000
    &&& b.gaslimit == 8000000
    &&& b.difficulty == 6
    &&& b.nonce == 7
    &&& be_val(b.coinbase@) == 4
    &&& be_val(b.timestamp@) == 8
    &&& be_val(b.mixhash@) == 2
    &&& be_val(b.parenthash@) == 3
    &&& be_val(b.transactions@) == 9
    &&& be_val(b.stateroot@) == 5
}

impl Block {
    /// A block context filled with fixed sample values.
    pub fn default() -> (r: Self)
        ensures
            default_block(r),
    {
        let coinbase = U256BE::from_u8(4).to_u160();
        proof {
            assert(coinbase@ =~= zeros(19).push(4u8));
            assert(coinbase@.drop_last() =~= zeros(19));
            lemma_be_val_zeros(coinbase@.drop_last());
        }
        Block {
            blocknumber: 1,
            basegas: 21000,
            gaslimit: 8000000,
            difficulty: 6,
            timestamp: U256BE::from_u8(8),
            nonce: 7,
            coinbase,
            mixhash: U256BE::from_u8(2),
            parenthash: U256BE::from_u8(3),
            transactions: U256BE::from_u8(9),
            stateroot: U256BE::from_u8(5),
        }
    }
}

} // verus!
