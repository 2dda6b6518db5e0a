//! 256-bit unsigned words stored big-endian as 32 bytes, with the
//! mathematical value of a byte sequence as their specification.
use vstd::prelude::*;

verus! {

broadcast use vstd::array::group_array_axioms;

/// 256^n, the weight of a byte `n` positions above the least significant one.
pub open spec fn pow256(n: nat) -> nat
    decreases n,
{
    if n == 0 {
        1
    } else {
        256 * pow256((n - 1) as nat)
    }
}

/// The unsigned value of a big-endian byte sequence.
pub open spec fn be_val(s: Seq<u8>) -> nat
    decreases s.len(),
{
    if s.len() == 0 {
        0nat
    } else {
        (be_val(s.drop_last()) * 256 + s.last()) as nat
    }
}

/// The value of a 32-byte word read as two's complement.
pub open spec fn be_sval(s: Seq<u8>) -> int {
    if be_val(s) < pow256(31) * 128 {
        be_val(s) as int
    } else {
        be_val(s) - pow256(32)
    }
}

/// A sequence of `n` zero bytes.
pub open spec fn zeros(n: nat) -> Seq<u8> {
    Seq::new(n, |i: int| 0u8)
}

/// The canonical 32-byte word for a truth value: 1 for true, 0 for false.
pub open spec fn bool_word(b: bool) -> Seq<u8> {
    if b {
        zeros(31).push(1u8)
    } else {
        zeros(32)
    }
}

pub proof fn lemma_pow256_pos(n: nat)
    ensures
        pow256(n) >= 1,
    decreases n,
{
    if n > 0 {
        lemma_pow256_pos((n - 1) as nat);
    }
}

pub proof fn lemma_be_val_bound(s: Seq<u8>)
    ensures
        be_val(s) < pow256(s.len()),
    decreases s.len(),
{
    if s.len() > 0 {
        lemma_be_val_bound(s.drop_last());
    }
}

pub proof fn lemma_be_val_zeros(s: Seq<u8>)
    requires
        forall|i: int| 0 <= i < s.len() ==> s[i] == 0u8,
    ensures
        be_val(s) == 0,
    decreases s.len(),
{
    if s.len() > 0 {
        lemma_be_val_zeros(s.drop_last());
    }
}

pub proof fn lemma_be_val_zero_iff(s: Seq<u8>)
    ensures
        be_val(s) == 0 <==> (forall|i: int| 0 <= i < s.len() ==> s[i] == 0u8),
    decreases s.len(),
{
    if s.len() > 0 {
        lemma_be_val_zero_iff(s.drop_last());
        if be_val(s) == 0 {
            assert(s.last() == 0u8);
            assert forall|i: int| 0 <= i < s.len() implies s[i] == 0u8 by {
                if i < s.len() - 1 {
                    assert(s.drop_last()[i] == 0u8);
                }
            }
        } else if forall|i: int| 0 <= i < s.len() ==> s[i] == 0u8 {
            assert forall|i: int| 0 <= i < s.drop_last().len() implies s.drop_last()[i] == 0u8 by {
                assert(s.drop_last()[i] == s[i]);
            }
        }
    }
}

/// The value of a concatenation: the left part is shifted past the right.
pub proof fn lemma_be_val_append(a: Seq<u8>, b: Seq<u8>)
    ensures
        be_val(a + b) == be_val(a) * pow256(b.len()) + be_val(b),
    decreases b.len(),
{
    if b.len() == 0 {
        assert(a + b =~= a);
        assert(be_val(a + b) == be_val(a));
        assert(pow256(0) == 1);
        assert(be_val(b) == 0);
        assert(be_val(a) * pow256(b.len()) == be_val(a)) by (nonlinear_arith)
            requires
                pow256(b.len()) == 1,
        ;
    } else {
        lemma_be_val_append(a, b.drop_last());
        assert((a + b).drop_last() =~= a + b.drop_last());
        assert((a + b).last() == b.last());
        let x = be_val(a);
        let p = pow256((b.len() - 1) as nat);
        let y = be_val(b.drop_last());
        let l = b.last();
        assert(be_val(a + b) == (x * p + y) * 256 + l) by {
            assert(be_val(a + b) == be_val((a + b).drop_last()) * 256 + (a + b).last());
        }
        assert((x * p + y) * 256 + l == x * (256 * p) + (y * 256 + l)) by (nonlinear_arith);
        assert(pow256(b.len()) == 256 * p);
        assert(be_val(b) == y * 256 + l);
        assert(x * pow256(b.len()) == x * (256 * p)) by (nonlinear_arith)
            requires
                pow256(b.len()) == 256 * p,
        ;
        assert(be_val(a + b) == x * (256 * p) + (y * 256 + l));
        assert(be_val(a + b) == x * pow256(b.len()) + be_val(b));
    }
}

/// Splitting a sequence at `k`: the high `k` bytes carry weight
/// `pow256(len - k)`.
pub proof fn lemma_be_val_split(s: Seq<u8>, k: int)
    requires
        0 <= k <= s.len(),
    ensures
        be_val(s) == be_val(s.take(k)) * pow256((s.len() - k) as nat) + be_val(s.skip(k)),
{
    assert(s =~= s.take(k) + s.skip(k));
    lemma_be_val_append(s.take(k), s.skip(k));
}

/// Big-endian order: with equal lengths, an equal prefix and a smaller byte
/// at the first difference give a smaller value.
pub proof fn lemma_be_val_prefix_lt(a: Seq<u8>, b: Seq<u8>, i: int)
    requires
        a.len() == b.len(),
        0 <= i < a.len(),
        forall|j: int| 0 <= j < i ==> a[j] == b[j],
        a[i] < b[i],
    ensures
        be_val(a) < be_val(b),
{
    let n = a.len() as int;
    lemma_be_val_split(a, i + 1);
    lemma_be_val_split(b, i + 1);
    assert(a.take(i + 1).drop_last() =~= b.take(i + 1).drop_last());
    assert(a.take(i + 1).last() == a[i]);
    assert(b.take(i + 1).last() == b[i]);
    assert(be_val(a.take(i + 1)) + 1 <= be_val(b.take(i + 1)));
    lemma_be_val_bound(a.skip(i + 1));
    let p = pow256((n - i - 1) as nat);
    assert(be_val(a.take(i + 1)) * p + p <= be_val(b.take(i + 1)) * p) by (nonlinear_arith)
        requires
            be_val(a.take(i + 1)) + 1 <= be_val(b.take(i + 1)),
            p >= 0,
    ;
}

/// Equal lengths and equal values force equal bytes.
pub proof fn lemma_be_val_injective(a: Seq<u8>, b: Seq<u8>)
    requires
        a.len() == b.len(),
        be_val(a) == be_val(b),
    ensures
        a =~= b,
{
    if exists|j: int| 0 <= j < a.len() && a[j] != b[j] {
        let w = choose|j: int| 0 <= j < a.len() && a[j] != b[j];
        lemma_first_difference(a, b, w);
        let i = first_difference(a, b);
        if a[i] < b[i] {
            lemma_be_val_prefix_lt(a, b, i);
        } else {
            lemma_be_val_prefix_lt(b, a, i);
        }
        assert(false);
    }
}

/// The least index at which two sequences of equal length differ.
spec fn first_difference(a: Seq<u8>, b: Seq<u8>) -> int {
    choose|i: int|
        0 <= i < a.len() && a[i] != b[i] && (forall|j: int| 0 <= j < i ==> a[j] == b[j])
}

/// A byte sequence read as a 32-byte word: per-byte complement.
pub open spec fn seq_not(s: Seq<u8>) -> Seq<u8> {
    Seq::new(s.len(), |i: int| !s[i])
}

/// Per-byte conjunction of two equally long byte sequences.
pub open spec fn seq_and(a: Seq<u8>, b: Seq<u8>) -> Seq<u8> {
    Seq::new(a.len(), |i: int| a[i] & b[i])
}

/// Per-byte disjunction of two equally long byte sequences.
pub open spec fn seq_or(a: Seq<u8>, b: Seq<u8>) -> Seq<u8> {
    Seq::new(a.len(), |i: int| a[i] | b[i])
}

/// Per-byte exclusive or of two equally long byte sequences.
pub open spec fn seq_xor(a: Seq<u8>, b: Seq<u8>) -> Seq<u8> {
    Seq::new(a.len(), |i: int| a[i] ^ b[i])
}

proof fn lemma_first_difference(a: Seq<u8>, b: Seq<u8>, w: int)
    requires
        a.len() == b.len(),
        0 <= w < a.len(),
        a[w] != b[w],
    ensures
        ({
            let i = first_difference(a, b);
            &&& 0 <= i < a.len()
            &&& a[i] != b[i]
            &&& forall|j: int| 0 <= j < i ==> a[j] == b[j]
        }),
    decreases w,
{
    if forall|j: int| 0 <= j < w ==> a[j] == b[j] {
        assert(0 <= w < a.len() && a[w] != b[w] && (forall|j: int| 0 <= j < w ==> a[j] == b[j]));
    } else {
        let w2 = choose|j: int| 0 <= j < w && a[j] != b[j];
        lemma_first_difference(a, b, w2);
    }
}

/// Small powers of 256, spelled out for use at concrete widths.
pub proof fn lemma_pow256_values()
    ensures
        pow256(1) == 0x100,
        pow256(2) == 0x1_0000,
        pow256(3) == 0x100_0000,
        pow256(4) == 0x1_0000_0000,
        pow256(8) == 0x1_0000_0000_0000_0000,
{
    assert(pow256(1) == 256 * pow256(0));
    assert(pow256(2) == 256 * pow256(1));
    assert(pow256(3) == 256 * pow256(2));
    assert(pow256(4) == 256 * pow256(3));
    assert(pow256(5) == 256 * pow256(4));
    assert(pow256(6) == 256 * pow256(5));
    assert(pow256(7) == 256 * pow256(6));
    assert(pow256(8) == 256 * pow256(7));
}

/// The word value truncated to the machine's address width: the executor
/// reads memory offsets, jump targets and similar scalars this way.
pub open spec fn usize_of(s: Seq<u8>) -> nat {
    if usize::MAX == 0xFFFF_FFFF {
        be_val(s.skip(28))
    } else {
        be_val(s.skip(24))
    }
}

#[derive(Clone, Copy, Debug)]
/// A 256-bit unsigned value stored big-endian as 32 bytes.
pub struct U256BE(pub [u8; 32]);

impl View for U256BE {
    type V = Seq<u8>;

    open spec fn view(&self) -> Seq<u8> {
        self.0@
    }
}

impl U256BE {
    /// The word as its 32 raw bytes, most significant first.
    pub fn as_slice(self) -> (r: [u8; 32])
        ensures
            r@ == self@,
    {
        self.0
    }

    /// The all-zero word.
    pub fn zero() -> (r: Self)
        ensures
            r@ == zeros(32),
            be_val(r@) == 0,
    {
        let ret = U256BE([0u8; 32]);
        proof {
            assert(ret@ =~= zeros(32));
            lemma_be_val_zeros(ret@);
        }
        ret
    }

    /// The word whose value is the given byte.
    pub fn from_u8(value: u8) -> (r: Self)
        ensures
            r@ == zeros(31).push(value),
            be_val(r@) == value,
    {
        let mut ret = [0u8; 32];
        ret[31] = value;
        proof {
            assert(ret@ =~= zeros(31).push(value));
            assert(ret@.drop_last() =~= zeros(31));
            lemma_be_val_zeros(ret@.drop_last());
        }
        U256BE(ret)
    }

    /// Construction from a byte slice of at most 32 bytes: the bytes are
    /// right-aligned and the rest is left-padded with zero.
    pub fn from_slice(slice: &[u8]) -> (r: Self)
        requires
            slice@.len() <= 32,
        ensures
            r@ == zeros((32 - slice@.len()) as nat) + slice@,
            be_val(r@) == be_val(slice@),
    {
        let n = slice.len();
        let mut ret = [0u8; 32];
        let mut i: usize = 0;
        while i < n
            invariant
                0 <= i <= n <= 32,
                n == slice@.len(),
                ret@.len() == 32,
                forall|j: int| 0 <= j < 32 - n ==> ret@[j] == 0u8,
                forall|j: int| 0 <= j < i ==> ret@[32 - n + j] == slice@[j],
            decreases n - i,
        {
            ret[32 - n + i] = slice[i];
            i += 1;
        }
        proof {
            assert(ret@ =~= zeros((32 - n) as nat) + slice@);
            lemma_be_val_append(zeros((32 - n) as nat), slice@);
            lemma_be_val_zeros(zeros((32 - n) as nat));
        }
        U256BE(ret)
    }

    /// Construction from a byte slice of any length: a slice longer than
    /// 32 bytes fails with `ArgOutOfRange`, a shorter one is right-aligned
    /// and left-padded with zero.
    pub fn try_from_slice(slice: &[u8]) -> (r: Result<Self, crate::status::StatusCode>)
        ensures
            slice@.len() > 32 ==> r == Err::<Self, crate::status::StatusCode>(
                crate::status::StatusCode::ArgOutOfRange,
            ),
            slice@.len() <= 32 ==> {
                &&& r is Ok
                &&& r->Ok_0@ == zeros((32 - slice@.len()) as nat) + slice@
                &&& be_val(r->Ok_0@) == be_val(slice@)
            },
    {
        if slice.len() > 32 {
            return Err(crate::status::StatusCode::ArgOutOfRange);
        }
        Ok(U256BE::from_slice(slice))
    }

    /// The word whose value is the given machine integer.
    pub fn from_usize(value: usize) -> (r: Self)
        ensures
            be_val(r@) == value,
    {
        let mut ret = [0u8; 32];
        let mut v: usize = value;
        let mut k: usize = 0;
        proof {
            lemma_pow256_values();
            assert(ret@.subrange(32, 32) =~= Seq::<u8>::empty());
            assert(be_val(Seq::<u8>::empty()) == 0);
            assert(pow256(0nat) == 1);
            assert(v * pow256(0nat) == v) by (nonlinear_arith)
                requires
                    pow256(0nat) == 1,
            ;
        }
        while k < 8
            invariant
                0 <= k <= 8,
                ret@.len() == 32,
                value == v * pow256(k as nat) + be_val(ret@.subrange(32 - k, 32)),
                v < pow256((8 - k) as nat),
                forall|j: int| 0 <= j < 32 - k ==> ret@[j] == 0u8,
            decreases 8 - k,
        {
            let d: u8 = (v % 256) as u8;
            proof {
                vstd::arithmetic::div_mod::lemma_fundamental_div_mod(v as int, 256);
            }
            let ghost old_ret = ret@;
            let ghost old_v = v as nat;
            ret[31 - k] = d;
            v = v / 256;
            k = k + 1;
            proof {
                let suf = old_ret.subrange(32 - (k - 1), 32);
                let nsuf = ret@.subrange(32 - k as int, 32);
                assert(nsuf =~= seq![d] + suf);
                lemma_be_val_append(seq![d], suf);
                assert(seq![d].drop_last() =~= Seq::<u8>::empty());
                assert(be_val(Seq::<u8>::empty()) == 0);
                assert(be_val(seq![d]) == d);
                assert(old_v * pow256((k - 1) as nat) == (v * 256 + d) * pow256((k - 1) as nat));
                assert((v * 256 + d) * pow256((k - 1) as nat) == v * pow256(k as nat) + d * pow256(
                    (k - 1) as nat,
                )) by (nonlinear_arith)
                    requires
                        pow256(k as nat) == 256 * pow256((k - 1) as nat),
                ;
                assert(v < pow256((8 - k) as nat)) by (nonlinear_arith)
                    requires
                        old_v < pow256((8 - k + 1) as nat),
                        pow256((8 - k + 1) as nat) == 256 * pow256((8 - k) as nat),
                        v == old_v / 256,
                ;
            }
        }
        proof {
            assert(ret@ =~= zeros(24) + ret@.subrange(24, 32));
            lemma_be_val_append(zeros(24), ret@.subrange(24, 32));
            lemma_be_val_zeros(zeros(24));
        }
        U256BE(ret)
    }

    /// The word truncated to a machine integer: only the lowest bytes that
    /// fit the address width are kept.
    pub fn to_usize(self) -> (r: usize)
        ensures
            r == usize_of(self@),
    {
        let start: usize = if usize::MAX == 0xFFFF_FFFF {
            28
        } else {
            24
        };
        proof {
            lemma_pow256_values();
            assert(self@.subrange(start as int, start as int) =~= Seq::<u8>::empty());
        }
        let mut r: usize = 0;
        let mut i: usize = start;
        while i < 32
            invariant
                start <= i <= 32,
                start == 28 || start == 24,
                start == 24 ==> usize::MAX >= 0xFFFF_FFFF_FFFF_FFFF,
                self@.len() == 32,
                r == be_val(self@.subrange(start as int, i as int)),
                r < pow256((i - start) as nat),
                pow256(4) == 0x1_0000_0000,
                pow256(8) == 0x1_0000_0000_0000_0000,
            decreases 32 - i,
        {
            let ghost pre = self@.subrange(start as int, i as int);
            proof {
                assert(pow256(((i + 1) - start) as nat) == 256 * pow256((i - start) as nat));
                if start == 28 {
                    lemma_pow256_increases(((i + 1) - start) as nat, 4);
                } else {
                    lemma_pow256_increases(((i + 1) - start) as nat, 8);
                }
                assert(self@.subrange(start as int, i + 1).drop_last() =~= pre);
            }
            r = r * 256 + (self.0[i] as usize);
            i += 1;
        }
        proof {
            assert(self@.subrange(start as int, 32) =~= self@.skip(start as int));
        }
        r
    }

    /// The lowest four bytes of the word as a 32-bit integer.
    pub fn to_u32(self) -> (r: u32)
        ensures
            r == be_val(self@.skip(28)),
    {
        proof {
            lemma_pow256_values();
            assert(self@.subrange(28, 28) =~= Seq::<u8>::empty());
        }
        let mut r: u32 = 0;
        let mut i: usize = 28;
        while i < 32
            invariant
                28 <= i <= 32,
                self@.len() == 32,
                r == be_val(self@.subrange(28, i as int)),
                r < pow256((i - 28) as nat),
                pow256(4) == 0x1_0000_0000,
            decreases 32 - i,
        {
            let ghost pre = self@.subrange(28, i as int);
            proof {
                assert(pow256((i + 1 - 28) as nat) == 256 * pow256((i - 28) as nat));
                lemma_pow256_increases((i + 1 - 28) as nat, 4);
                assert(self@.subrange(28, i + 1).drop_last() =~= pre);
            }
            r = r * 256 + (self.0[i] as u32);
            i += 1;
        }
        proof {
            assert(self@.subrange(28, 32) =~= self@.skip(28));
        }
        r
    }

    /// The lowest twenty bytes of the word as a 160-bit address.
    pub fn to_u160(self) -> (r: U160)
        ensures
            r@ == self@.skip(12),
    {
        let mut ret = [0u8; 20];
        let mut i: usize = 0;
        while i < 20
            invariant
                0 <= i <= 20,
                ret@.len() == 20,
                self@.len() == 32,
                forall|j: int| 0 <= j < i ==> ret@[j] == self@[12 + j],
            decreases 20 - i,
        {
            ret[i] = self.0[12 + i];
            i += 1;
        }
        proof {
            assert(ret@ =~= self@.skip(12));
        }
        U160(ret)
    }

    /// Bitwise complement.
    pub fn not(self) -> (r: Self)
        ensures
            r@ == seq_not(self@),
    {
        let mut ret = [0u8; 32];
        let mut i: usize = 0;
        while i < 32
            invariant
                0 <= i <= 32,
                ret@.len() == 32,
                self@.len() == 32,
                forall|j: int| 0 <= j < i ==> ret@[j] == !self@[j],
            decreases 32 - i,
        {
            ret[i] = !self.0[i];
            i += 1;
        }
        proof {
            assert(ret@ =~= seq_not(self@));
        }
        U256BE(ret)
    }

    /// Bitwise conjunction.
    pub fn and(self, value: U256BE) -> (r: Self)
        ensures
            r@ == seq_and(self@, value@),
    {
        let mut ret = [0u8; 32];
        let mut i: usize = 0;
        while i < 32
            invariant
                0 <= i <= 32,
                ret@.len() == 32,
                self@.len() == 32,
                value@.len() == 32,
                forall|j: int| 0 <= j < i ==> ret@[j] == (self@[j] & value@[j]),
            decreases 32 - i,
        {
            ret[i] = self.0[i] & value.0[i];
            i += 1;
        }
        proof {
            assert(ret@ =~= seq_and(self@, value@));
        }
        U256BE(ret)
    }

    /// Bitwise disjunction.
    pub fn or(self, value: U256BE) -> (r: Self)
        ensures
            r@ == seq_or(self@, value@),
    {
        let mut ret = [0u8; 32];
        let mut i: usize = 0;
        while i < 32
            invariant
                0 <= i <= 32,
                ret@.len() == 32,
                self@.len() == 32,
                value@.len() == 32,
                forall|j: int| 0 <= j < i ==> ret@[j] == (self@[j] | value@[j]),
            decreases 32 - i,
        {
            ret[i] = self.0[i] | value.0[i];
            i += 1;
        }
        proof {
            assert(ret@ =~= seq_or(self@, value@));
        }
        U256BE(ret)
    }

    /// Bitwise exclusive or.
    pub fn xor(self, value: U256BE) -> (r: Self)
        ensures
            r@ == seq_xor(self@, value@),
    {
        let mut ret = [0u8; 32];
        let mut i: usize = 0;
        while i < 32
            invariant
                0 <= i <= 32,
                ret@.len() == 32,
                self@.len() == 32,
                value@.len() == 32,
                forall|j: int| 0 <= j < i ==> ret@[j] == (self@[j] ^ value@[j]),
            decreases 32 - i,
        {
            ret[i] = self.0[i] ^ value.0[i];
            i += 1;
        }
        proof {
            assert(ret@ =~= seq_xor(self@, value@));
        }
        U256BE(ret)
    }

    /// Whether the two words hold the same bytes.
    pub fn eq(self, value: U256BE) -> (r: bool)
        ensures
            r == (self@ == value@),
    {
        let mut i: usize = 0;
        while i < 32
            invariant
                0 <= i <= 32,
                self@.len() == 32,
                value@.len() == 32,
                forall|j: int| 0 <= j < i ==> self@[j] == value@[j],
            decreases 32 - i,
        {
            if self.0[i] != value.0[i] {
                return false;
            }
            i += 1;
        }
        proof {
            assert(self@ =~= value@);
        }
        true
    }

    /// Equality as a word: 1 when the operands are equal, else 0.
    pub fn uint_eq(self, value: U256BE) -> (r: Self)
        ensures
            r@ == bool_word(self@ == value@),
    {
        if self.eq(value) {
            U256BE::from_u8(1)
        } else {
            U256BE::zero()
        }
    }

    /// Whether the word's value is zero.
    pub fn is_zero(self) -> (r: bool)
        ensures
            r == (be_val(self@) == 0),
    {
        let mut i: usize = 0;
        while i < 32
            invariant
                0 <= i <= 32,
                self@.len() == 32,
                forall|j: int| 0 <= j < i ==> self@[j] == 0u8,
            decreases 32 - i,
        {
            if self.0[i] != 0 {
                proof {
                    lemma_be_val_zero_iff(self@);
                }
                return false;
            }
            i += 1;
        }
        proof {
            lemma_be_val_zero_iff(self@);
        }
        true
    }

    /// The zero test as a word: 1 when the value is zero, else 0.
    pub fn uint_is_zero(self) -> (r: Self)
        ensures
            r@ == bool_word(be_val(self@) == 0),
    {
        if self.is_zero() {
            U256BE::from_u8(1)
        } else {
            U256BE::zero()
        }
    }

    /// Unsigned greater-than as a word: 1 when `self > value`, else 0.
    pub fn gt(self, value: U256BE) -> (r: Self)
        ensures
            r@ == bool_word(be_val(self@) > be_val(value@)),
    {
        if be_lt(&value.0, &self.0) {
            U256BE::from_u8(1)
        } else {
            U256BE::zero()
        }
    }

    /// Unsigned less-than as a word: 1 when `self < value`, else 0.
    pub fn lt(self, value: U256BE) -> (r: Self)
        ensures
            r@ == bool_word(be_val(self@) < be_val(value@)),
    {
        if be_lt(&self.0, &value.0) {
            U256BE::from_u8(1)
        } else {
            U256BE::zero()
        }
    }
}

/// Strict unsigned order of two big-endian byte arrays.
pub(crate) fn be_lt(a: &[u8; 32], b: &[u8; 32]) -> (r: bool)
    ensures
        r == (be_val(a@) < be_val(b@)),
{
    let mut i: usize = 0;
    while i < 32
        invariant
            0 <= i <= 32,
            a@.len() == 32,
            b@.len() == 32,
            forall|j: int| 0 <= j < i ==> a@[j] == b@[j],
        decreases 32 - i,
    {
        if a[i] < b[i] {
            proof {
                lemma_be_val_prefix_lt(a@, b@, i as int);
            }
            return true;
        }
        if a[i] > b[i] {
            proof {
                lemma_be_val_prefix_lt(b@, a@, i as int);
            }
            return false;
        }
        i += 1;
    }
    proof {
        assert(a@ =~= b@);
    }
    false
}

/// Larger powers never fall below smaller ones.
pub proof fn lemma_pow256_increases(m: nat, n: nat)
    requires
        m <= n,
    ensures
        pow256(m) <= pow256(n),
    decreases n,
{
    if m < n {
        lemma_pow256_increases(m, (n - 1) as nat);
        lemma_pow256_pos((n - 1) as nat);
    }
}

#[derive(Clone, Copy, Debug)]
/// A 160-bit address stored big-endian as 20 bytes.
pub struct U160(pub [u8; 20]);

impl View for U160 {
    type V = Seq<u8>;

    open spec fn view(&self) -> Seq<u8> {
        self.0@
    }
}

impl U160 {
    /// The address widened to a word: twelve zero bytes in front.
    pub fn to_u256_be(self) -> (r: U256BE)
        ensures
            r@ == zeros(12) + self@,
            be_val(r@) == be_val(self@),
    {
        U256BE::from_slice(&self.0)
    }
}

} // verus!
