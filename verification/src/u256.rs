//! 256-bit unsigned integers.
use vstd::prelude::*;

use crate::bytes::{
    be_bytes, be_value, le_bytes, le_value, lemma_be_bytes_of_value, lemma_be_value_reverse,
    lemma_le_value_concat, minimal_be, pow256, trim_leading_zeros,
};

verus! {

/// Two to the power 64.
pub open spec fn limb_base() -> nat {
    0x1_0000_0000_0000_0000nat
}

/// Two to the power 256.
pub open spec fn u256_bound() -> nat {
    0x1_0000_0000_0000_0000_0000_0000_0000_0000_0000_0000_0000_0000_0000_0000_0000_0000nat
}

/// A 256-bit unsigned integer: four 64-bit limbs, the least significant first.
#[derive(Clone, Copy, Debug, PartialEq, Eq)]
pub struct U256(pub [u64; 4]);

impl View for U256 {
    type V = nat;

    open spec fn view(&self) -> nat {
        self.0[0] as nat + limb_base() * (self.0[1] as nat + limb_base() * (self.0[2] as nat
            + limb_base() * self.0[3] as nat))
    }
}

/// The least significant byte first.
fn limb_to_le_bytes(limb: u64) -> (r: [u8; 8])
    ensures
        le_value(r@) == limb,
{
    let x1: u64 = limb / 256;
    let x2: u64 = x1 / 256;
    let x3: u64 = x2 / 256;
    let x4: u64 = x3 / 256;
    let x5: u64 = x4 / 256;
    let x6: u64 = x5 / 256;
    let x7: u64 = x6 / 256;
    let r: [u8; 8] = [
        (limb % 256) as u8,
        (x1 % 256) as u8,
        (x2 % 256) as u8,
        (x3 % 256) as u8,
        (x4 % 256) as u8,
        (x5 % 256) as u8,
        (x6 % 256) as u8,
        x7 as u8,
    ];
    proof {
        assert(limb == 256 * x1 + limb % 256);
        lemma_le_value_of_eight(r@);
    }
    r
}

fn limb_from_le_bytes(b: [u8; 8]) -> (r: u64)
    ensures
        r == le_value(b@),
{
    proof {
        lemma_le_value_of_eight(b@);
    }
    let high: u64 = b[4] as u64 + 0x100 * (b[5] as u64 + 0x100 * (b[6] as u64 + 0x100 * (
    b[7] as u64)));
    let low: u64 = b[0] as u64 + 0x100 * (b[1] as u64 + 0x100 * (b[2] as u64 + 0x100 * (
    b[3] as u64)));
    low + 0x1_0000_0000 * high
}

proof fn lemma_le_value_of_eight(s: Seq<u8>)
    requires
        s.len() == 8,
    ensures
        le_value(s) == s[0] + 0x100 * (s[1] + 0x100 * (s[2] + 0x100 * (s[3] + 0x100 * (s[4] + 0x100
            * (s[5] + 0x100 * (s[6] + 0x100 * s[7])))))),
{
    let s1 = s.drop_first();
    let s2 = s1.drop_first();
    let s3 = s2.drop_first();
    let s4 = s3.drop_first();
    let s5 = s4.drop_first();
    let s6 = s5.drop_first();
    let s7 = s6.drop_first();
    assert(le_value(s7.drop_first()) == 0);
    assert(le_value(s7) == s[7]);
    assert(le_value(s6) == s[6] + 0x100 * le_value(s7));
    assert(le_value(s5) == s[5] + 0x100 * le_value(s6));
    assert(le_value(s4) == s[4] + 0x100 * le_value(s5));
    assert(le_value(s3) == s[3] + 0x100 * le_value(s4));
    assert(le_value(s2) == s[2] + 0x100 * le_value(s3));
    assert(le_value(s1) == s[1] + 0x100 * le_value(s2));
}

/// Four groups of eight bytes are the four limbs.
proof fn lemma_le_value_of_limbs(b0: Seq<u8>, b1: Seq<u8>, b2: Seq<u8>, b3: Seq<u8>)
    requires
        b0.len() == 8,
        b1.len() == 8,
        b2.len() == 8,
        b3.len() == 8,
    ensures
        le_value(b0 + (b1 + (b2 + b3))) == le_value(b0) + limb_base() * (le_value(b1) + limb_base()
            * (le_value(b2) + limb_base() * le_value(b3))),
{
    assert(pow256(8) == limb_base()) by {
        reveal_with_fuel(pow256, 9);
    }
    lemma_le_value_concat(b2, b3);
    lemma_le_value_concat(b1, b2 + b3);
    lemma_le_value_concat(b0, b1 + (b2 + b3));
}

impl U256 {
    /// The value is below two to the power 256.
    pub proof fn lemma_bound(&self)
        ensures
            self@ < u256_bound(),
    {
    }

    pub fn zero() -> (r: U256)
        ensures
            r@ == 0,
    {
        U256([0, 0, 0, 0])
    }

    pub fn from_u64(x: u64) -> (r: U256)
        ensures
            r@ == x,
    {
        U256([x, 0, 0, 0])
    }

    /// Thirty-two bytes, the least significant first.
    pub fn to_le_bytes(&self) -> (r: [u8; 32])
        ensures
            r@ == le_bytes(self@, 32),
            le_value(r@) == self@,
    {
        let a = limb_to_le_bytes(self.0[0]);
        let b = limb_to_le_bytes(self.0[1]);
        let c = limb_to_le_bytes(self.0[2]);
        let d = limb_to_le_bytes(self.0[3]);
        let r: [u8; 32] = [
            a[0], a[1], a[2], a[3], a[4], a[5], a[6], a[7],
            b[0], b[1], b[2], b[3], b[4], b[5], b[6], b[7],
            c[0], c[1], c[2], c[3], c[4], c[5], c[6], c[7],
            d[0], d[1], d[2], d[3], d[4], d[5], d[6], d[7],
        ];
        proof {
            assert(r@ =~= a@ + (b@ + (c@ + d@)));
            lemma_le_value_of_limbs(a@, b@, c@, d@);
            lemma_be_value_reverse(r@);
            lemma_be_bytes_of_value(r@.reverse());
            assert(r@ =~= r@.reverse().reverse());
        }
        r
    }

    /// Thirty-two bytes, the most significant first.
    pub fn to_be_bytes(&self) -> (r: [u8; 32])
        ensures
            r@ == be_bytes(self@, 32),
            be_value(r@) == self@,
    {
        reversed(&self.to_le_bytes())
    }

    pub fn from_le_bytes(b: &[u8; 32]) -> (r: U256)
        ensures
            r@ == le_value(b@),
    {
        let b0: [u8; 8] = [b[0], b[1], b[2], b[3], b[4], b[5], b[6], b[7]];
        let b1: [u8; 8] = [b[8], b[9], b[10], b[11], b[12], b[13], b[14], b[15]];
        let b2: [u8; 8] = [b[16], b[17], b[18], b[19], b[20], b[21], b[22], b[23]];
        let b3: [u8; 8] = [b[24], b[25], b[26], b[27], b[28], b[29], b[30], b[31]];
        proof {
            assert(b@ =~= b0@ + (b1@ + (b2@ + b3@)));
            lemma_le_value_of_limbs(b0@, b1@, b2@, b3@);
        }
        U256(
            [
                limb_from_le_bytes(b0),
                limb_from_le_bytes(b1),
                limb_from_le_bytes(b2),
                limb_from_le_bytes(b3),
            ],
        )
    }

    pub fn from_be_bytes(b: &[u8; 32]) -> (r: U256)
        ensures
            r@ == be_value(b@),
    {
        proof {
            lemma_be_value_reverse(b@);
        }
        U256::from_le_bytes(&reversed(b))
    }

    /// The big-endian bytes without leading zeros.
    pub fn to_minimal_be_bytes(&self) -> (r: Vec<u8>)
        ensures
            r@ == minimal_be(self@),
    {
        let b = self.to_be_bytes();
        trim_leading_zeros(b.as_slice())
    }

    pub fn is_zero(&self) -> (r: bool)
        ensures
            r == (self@ == 0),
    {
        self.0[0] == 0 && self.0[1] == 0 && self.0[2] == 0 && self.0[3] == 0
    }

    pub fn less_than(&self, other: &U256) -> (r: bool)
        ensures
            r == (self@ < other@),
    {
        if self.0[3] != other.0[3] {
            self.0[3] < other.0[3]
        } else if self.0[2] != other.0[2] {
            self.0[2] < other.0[2]
        } else if self.0[1] != other.0[1] {
            self.0[1] < other.0[1]
        } else {
            self.0[0] < other.0[0]
        }
    }

    pub fn equals(&self, other: &U256) -> (r: bool)
        ensures
            r == (self@ == other@),
    {
        self.0[0] == other.0[0] && self.0[1] == other.0[1] && self.0[2] == other.0[2] && self.0[3]
            == other.0[3]
    }

    /// The sum modulo two to the power 256, and whether it wrapped around.
    pub fn overflowing_add(&self, other: &U256) -> (r: (U256, bool))
        ensures
            r.0@ + (if r.1 { u256_bound() } else { 0 }) == self@ + other@,
    {
        let (l0, c0) = limb_add(self.0[0], other.0[0], 0);
        let (l1, c1) = limb_add(self.0[1], other.0[1], c0);
        let (l2, c2) = limb_add(self.0[2], other.0[2], c1);
        let (l3, c3) = limb_add(self.0[3], other.0[3], c2);
        (U256([l0, l1, l2, l3]), c3 == 1)
    }

    /// The difference modulo two to the power 256, and whether it wrapped around.
    pub fn overflowing_sub(&self, other: &U256) -> (r: (U256, bool))
        ensures
            r.0@ + other@ == self@ + (if r.1 { u256_bound() } else { 0 }),
    {
        let (l0, b0) = limb_sub(self.0[0], other.0[0], 0);
        let (l1, b1) = limb_sub(self.0[1], other.0[1], b0);
        let (l2, b2) = limb_sub(self.0[2], other.0[2], b1);
        let (l3, b3) = limb_sub(self.0[3], other.0[3], b2);
        (U256([l0, l1, l2, l3]), b3 == 1)
    }

    /// Half of the number, rounded down, and whether the number was odd.
    pub fn halve(&self) -> (r: (U256, bool))
        ensures
            self@ == 2 * r.0@ + (if r.1 { 1nat } else { 0nat }),
    {
        let l0: u64 = self.0[0] / 2 + 0x8000_0000_0000_0000 * (self.0[1] % 2);
        let l1: u64 = self.0[1] / 2 + 0x8000_0000_0000_0000 * (self.0[2] % 2);
        let l2: u64 = self.0[2] / 2 + 0x8000_0000_0000_0000 * (self.0[3] % 2);
        (U256([l0, l1, l2, self.0[3] / 2]), self.0[0] % 2 == 1)
    }
}

/// The same bytes in the opposite order.
pub fn reversed(b: &[u8; 32]) -> (r: [u8; 32])
    ensures
        r@ == b@.reverse(),
        le_value(r@) == be_value(b@),
        be_value(r@) == le_value(b@),
{
    let mut r: [u8; 32] = [0; 32];
    let mut i: usize = 0;
    while i < 32
        invariant
            i <= 32,
            forall|j: int| 0 <= j < i ==> r@[j] == b@[31 - j],
        decreases 32 - i,
    {
        r[i] = b[31 - i];
        i = i + 1;
    }
    proof {
        assert(r@ =~= b@.reverse());
        lemma_be_value_reverse(b@);
    }
    r
}

fn limb_add(a: u64, b: u64, carry: u64) -> (r: (u64, u64))
    requires
        carry <= 1,
    ensures
        r.1 <= 1,
        r.0 + limb_base() * r.1 == a + b + carry,
{
    let sum: u128 = a as u128 + b as u128 + carry as u128;
    ((sum % 0x1_0000_0000_0000_0000) as u64, (sum / 0x1_0000_0000_0000_0000) as u64)
}

fn limb_sub(a: u64, b: u64, borrow: u64) -> (r: (u64, u64))
    requires
        borrow <= 1,
    ensures
        r.1 <= 1,
        r.0 + b + borrow == a + limb_base() * r.1,
{
    let left: u128 = a as u128;
    let right: u128 = b as u128 + borrow as u128;
    if left >= right {
        ((left - right) as u64, 0)
    } else {
        ((left + 0x1_0000_0000_0000_0000 - right) as u64, 1)
    }
}

} // verus!
