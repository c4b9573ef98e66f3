//! Arithmetic modulo a 256-bit number, for the field that a circuit is built over.
use vstd::arithmetic::div_mod::{
    lemma_add_mod_noop, lemma_mod_twice, lemma_mul_mod_noop_left, lemma_small_mod,
};
use vstd::prelude::*;

use crate::bytes::le_value;
use crate::u256::U256;

verus! {

/// The integers modulo `modulus`. An element is the integer below the modulus that stands for
/// its class.
#[derive(Clone, Copy, Debug)]
pub struct Field {
    pub modulus: U256,
}

impl Field {
    /// There is an element besides zero.
    pub open spec fn wf(&self) -> bool {
        1 < self.modulus@
    }

    /// `x` is an element.
    pub open spec fn contains(&self, x: nat) -> bool {
        x < self.modulus@
    }

    /// The sum of two elements.
    pub fn sum(&self, a: &U256, b: &U256) -> (r: U256)
        requires
            self.contains(a@),
            self.contains(b@),
        ensures
            r@ == (a@ + b@) % self.modulus@,
    {
        let ghost m = self.modulus@ as int;
        let (sum, wrapped) = a.overflowing_add(b);
        proof {
            self.modulus.lemma_bound();
            sum.lemma_bound();
        }
        if wrapped || !sum.less_than(&self.modulus) {
            let (reduced, _) = sum.overflowing_sub(&self.modulus);
            proof {
                reduced.lemma_bound();
                assert(reduced@ == a@ + b@ - m);
                assert(reduced@ == (a@ + b@) % (m as nat)) by (nonlinear_arith)
                    requires
                        reduced@ == a@ + b@ - m,
                        0 <= reduced@ < m,
                ;
            }
            reduced
        } else {
            proof {
                lemma_small_mod(sum@, self.modulus@);
            }
            sum
        }
    }

    /// The product of two elements.
    pub fn product(&self, a: &U256, b: &U256) -> (r: U256)
        requires
            self.contains(a@),
        ensures
            r@ == (a@ * b@) % self.modulus@,
    {
        let ghost m = self.modulus@ as int;
        let mut acc = U256::zero();
        let mut base = *a;
        let mut rest = *b;
        while !rest.is_zero()
            invariant
                m == self.modulus@,
                m > 0,
                acc@ < m,
                base@ < m,
                ((acc@ + base@ * rest@) as int) % m == ((a@ * b@) as int) % m,
            decreases rest@,
        {
            let (half, odd) = rest.halve();
            let next_acc = if odd { self.sum(&acc, &base) } else { acc };
            let next_base = self.sum(&base, &base);
            proof {
                let bit: int = if odd { 1 } else { 0 };
                lemma_product_step(
                    acc@ as int,
                    base@ as int,
                    half@ as int,
                    bit,
                    next_acc@ as int,
                    next_base@ as int,
                    m,
                );
                assert(base@ * rest@ == base@ * (2 * half@ + bit)) by (nonlinear_arith)
                    requires
                        rest@ == 2 * half@ + bit,
                ;
            }
            acc = next_acc;
            base = next_base;
            rest = half;
        }
        proof {
            assert(base@ * rest@ == 0) by (nonlinear_arith)
                requires
                    rest@ == 0,
            ;
            lemma_small_mod(acc@, self.modulus@);
        }
        acc
    }

    /// The element that a 64-bit integer stands for.
    pub fn from_u64(&self, x: u64) -> (r: U256)
        requires
            self.wf(),
        ensures
            r@ == x as nat % self.modulus@,
    {
        let m = &self.modulus;
        if m.0[1] == 0 && m.0[2] == 0 && m.0[3] == 0 {
            U256::from_u64(x % m.0[0])
        } else {
            proof {
                assert(x < m@);
                lemma_small_mod(x as nat, m@);
            }
            U256::from_u64(x)
        }
    }

    /// The element that 32 little-endian bytes write out, if they write out an element.
    pub fn from_repr(&self, repr: &[u8; 32]) -> (r: Option<U256>)
        ensures
            r is Some <==> self.contains(le_value(repr@)),
            r is Some <==> le_value(repr@) < self.modulus@,
            r matches Some(x) ==> x@ == le_value(repr@),
    {
        let x = U256::from_le_bytes(repr);
        if x.less_than(&self.modulus) {
            Some(x)
        } else {
            None
        }
    }
}

proof fn lemma_product_step(
    acc: int,
    base: int,
    half: int,
    bit: int,
    next_acc: int,
    next_base: int,
    m: int,
)
    requires
        m > 0,
        0 <= acc < m,
        next_acc == (if bit == 1 { (acc + base) % m } else { acc }),
        bit == 0 || bit == 1,
        next_base == (base + base) % m,
    ensures
        (next_acc + next_base * half) % m == (acc + base * (2 * half + bit)) % m,
{
    let x = acc + bit * base;
    let y = (base + base) * half;
    assert(acc + base * (2 * half + bit) == x + y) by (nonlinear_arith)
        requires
            x == acc + bit * base,
            y == (base + base) * half,
    ;
    assert(next_acc % m == x % m) by {
        if bit == 1 {
            assert(x == acc + base) by (nonlinear_arith)
                requires
                    x == acc + bit * base,
                    bit == 1,
            ;
            lemma_mod_twice(acc + base, m);
        } else {
            assert(x == acc) by (nonlinear_arith)
                requires
                    x == acc + bit * base,
                    bit == 0,
            ;
        }
    }
    lemma_mul_mod_noop_left(base + base, half, m);
    lemma_add_mod_noop(next_acc, next_base * half, m);
    lemma_add_mod_noop(x, y, m);
}

/// The polynomial with coefficients `bytes`, the constant one first, at the point `x`.
pub open spec fn polynomial(bytes: Seq<u8>, x: nat) -> nat
    decreases bytes.len(),
{
    if bytes.len() == 0 {
        0
    } else {
        bytes[0] as nat + x * polynomial(bytes.drop_first(), x)
    }
}

/// The random linear combination of `bytes`: the polynomial that has them as coefficients,
/// at `randomness`, modulo `modulus`.
pub open spec fn rlc(bytes: Seq<u8>, randomness: nat, modulus: nat) -> nat {
    polynomial(bytes, randomness) % modulus
}

/// Combines 32 bytes into one element of the field, with the powers of `randomness` as weights.
pub fn random_linear_combine(field: &Field, bytes: [u8; 32], randomness: &U256) -> (r: U256)
    requires
        field.wf(),
        field.contains(randomness@),
    ensures
        r@ == rlc(bytes@, randomness@, field.modulus@),
        field.contains(r@),
{
    let mut acc = U256::zero();
    let mut i: usize = 32;
    proof {
        assert(bytes@.skip(32) =~= Seq::<u8>::empty());
        lemma_small_mod(0nat, field.modulus@);
    }
    while i > 0
        invariant
            i <= 32,
            field.wf(),
            field.contains(randomness@),
            field.contains(acc@),
            acc@ == rlc(bytes@.skip(i as int), randomness@, field.modulus@),
        decreases i,
    {
        i = i - 1;
        let scaled = field.product(&acc, randomness);
        let byte = field.from_u64(bytes[i] as u64);
        let next = field.sum(&scaled, &byte);
        proof {
            let m = field.modulus@ as int;
            let tail = bytes@.skip(i + 1);
            let p = polynomial(tail, randomness@) as int;
            let r = randomness@ as int;
            let b = bytes@[i as int] as int;
            assert(bytes@.skip(i as int).drop_first() =~= tail);
            lemma_mul_mod_noop_left(p, r, m);
            assert(r * p == p * r) by (nonlinear_arith);
            lemma_add_mod_noop(p * r, b, m);
        }
        acc = next;
    }
    proof {
        assert(bytes@.skip(0) =~= bytes@);
    }
    acc
}

/// With 256 as the randomness, combining the little-endian bytes of an integer gives the integer
/// back, modulo the modulus.
pub proof fn law_rlc_at_256(bytes: Seq<u8>, modulus: nat)
    ensures
        rlc(bytes, 256, modulus) == le_value(bytes) % modulus,
{
    lemma_polynomial_at_256(bytes);
}

proof fn lemma_polynomial_at_256(bytes: Seq<u8>)
    ensures
        polynomial(bytes, 256) == le_value(bytes),
    decreases bytes.len(),
{
    if bytes.len() > 0 {
        lemma_polynomial_at_256(bytes.drop_first());
    }
}

} // verus!
