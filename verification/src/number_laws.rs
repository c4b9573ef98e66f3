//! What byte strings, words and linear combinations stand for, in terms of powers.
use vstd::arithmetic::div_mod::{lemma_add_mod_noop, lemma_div_denominator};
use vstd::arithmetic::power::{lemma_pow0, lemma_pow1, lemma_pow_adds, lemma_pow_positive, pow};
use vstd::arithmetic::power2::{lemma2_to64, lemma_pow2};
use vstd::prelude::*;

use crate::bytes::{
    be_bytes, be_value, le_bytes, le_value, lemma_be_value_reverse, lemma_minimal_be_of_value,
    minimal_be, pow256,
};
use crate::field::{polynomial, rlc};
use crate::u256::{limb_base, u256_bound, U256};

verus! {

proof fn lemma_pow_step(b: int, e: nat)
    ensures
        pow(b, e + 1) == b * pow(b, e),
{
    lemma_pow_adds(b, 1, e);
    lemma_pow1(b);
}

/// Dividing by one more power of 256 is dividing by 256 first.
proof fn lemma_shift(n: nat, e: nat)
    ensures
        pow(256, e) > 0,
        n as int / pow(256, e + 1) == (n / 256) as int / pow(256, e),
{
    lemma_pow_positive(256, e);
    lemma_pow_step(256, e);
    lemma_div_denominator(n as int, 256, pow(256, e));
}

/// The integer that little-endian bytes stand for has byte `i` as its digit of weight 256 to the
/// power `i`.
pub proof fn law_le_value_digits(s: Seq<u8>, i: int)
    requires
        0 <= i < s.len(),
    ensures
        (le_value(s) as int / pow(256, i as nat)) % 256 == s[i],
    decreases s.len(),
{
    if i == 0 {
        lemma_pow0(256);
    } else {
        let tail = s.drop_first();
        law_le_value_digits(tail, i - 1);
        lemma_shift(le_value(s), (i - 1) as nat);
        assert(le_value(s) / 256 == le_value(tail));
    }
}

/// The integer that little-endian bytes stand for has no digit beyond them.
pub proof fn law_le_value_bound(s: Seq<u8>)
    ensures
        le_value(s) < pow(256, s.len()),
    decreases s.len(),
{
    if s.len() == 0 {
        lemma_pow0(256);
    } else {
        law_le_value_bound(s.drop_first());
        lemma_pow_step(256, (s.len() - 1) as nat);
    }
}

/// The integer that big-endian bytes stand for has byte `i` as its digit of weight 256 to the power
/// of the number of bytes after it.
pub proof fn law_be_value_digits(s: Seq<u8>, i: int)
    requires
        0 <= i < s.len(),
    ensures
        (be_value(s) as int / pow(256, (s.len() - 1 - i) as nat)) % 256 == s[i],
{
    lemma_be_value_reverse(s);
    law_le_value_digits(s.reverse(), s.len() - 1 - i);
}

/// The integer that big-endian bytes stand for has no digit beyond them.
pub proof fn law_be_value_bound(s: Seq<u8>)
    ensures
        be_value(s) < pow(256, s.len()),
{
    lemma_be_value_reverse(s);
    law_le_value_bound(s.reverse());
}

/// Byte strings of one length that stand for one integer are equal.
pub proof fn law_be_value_injective(a: Seq<u8>, b: Seq<u8>)
    requires
        a.len() == b.len(),
        be_value(a) == be_value(b),
    ensures
        a == b,
{
    assert forall|i: int| 0 <= i < a.len() implies a[i] == b[i] by {
        law_be_value_digits(a, i);
        law_be_value_digits(b, i);
    }
    assert(a =~= b);
}

/// Writing an integer in big-endian bytes gives each digit its place.
pub proof fn law_be_bytes_digits(n: nat, len: nat, i: int)
    requires
        0 <= i < len,
    ensures
        be_bytes(n, len).len() == len,
        be_bytes(n, len)[i] == (n as int / pow(256, (len - 1 - i) as nat)) % 256,
    decreases len,
{
    lemma_be_bytes_len(n, len);
    lemma_be_bytes_len(n / 256, (len - 1) as nat);
    if i == len - 1 {
        lemma_pow0(256);
    } else {
        law_be_bytes_digits(n / 256, (len - 1) as nat, i);
        lemma_shift(n, (len - 2 - i) as nat);
    }
}

proof fn lemma_be_bytes_len(n: nat, len: nat)
    ensures
        be_bytes(n, len).len() == len,
    decreases len,
{
    if len > 0 {
        lemma_be_bytes_len(n / 256, (len - 1) as nat);
    }
}

/// Writing an integer in little-endian bytes gives each digit its place.
pub proof fn law_le_bytes_digits(n: nat, len: nat, i: int)
    requires
        0 <= i < len,
    ensures
        le_bytes(n, len).len() == len,
        le_bytes(n, len)[i] == (n as int / pow(256, i as nat)) % 256,
{
    law_be_bytes_digits(n, len, len - 1 - i);
}

/// The shortest bytes of an integer stand for it and do not start with a zero; no other bytes do
/// both.
pub proof fn law_minimal_be(n: nat, s: Seq<u8>)
    ensures
        s == minimal_be(n) <==> be_value(s) == n && (s.len() > 0 ==> s[0] != 0),
{
    lemma_minimal_be_value(n);
    if be_value(s) == n && (s.len() > 0 ==> s[0] != 0) {
        lemma_minimal_be_of_value(s);
    }
}

proof fn lemma_minimal_be_value(n: nat)
    ensures
        be_value(minimal_be(n)) == n,
        minimal_be(n).len() > 0 ==> minimal_be(n)[0] != 0,
    decreases n,
{
    if n > 0 {
        lemma_minimal_be_value(n / 256);
        assert(minimal_be(n).drop_last() =~= minimal_be(n / 256));
        if n / 256 > 0 {
            assert(minimal_be(n / 256).len() > 0);
        }
    }
}

/// The bound of `k` digits is 256 to the power `k`.
pub proof fn law_pow256(k: nat)
    ensures
        pow256(k) == pow(256, k),
    decreases k,
{
    if k == 0 {
        lemma_pow0(256);
    } else {
        law_pow256((k - 1) as nat);
        lemma_pow_step(256, (k - 1) as nat);
    }
}

proof fn lemma_limb_powers()
    ensures
        pow(2, 64) == limb_base(),
        pow(2, 128) == limb_base() * limb_base(),
        pow(2, 192) == limb_base() * limb_base() * limb_base(),
        pow(2, 256) == limb_base() * limb_base() * limb_base() * limb_base(),
{
    lemma2_to64();
    lemma_pow2(64);
    lemma_pow_adds(2, 64, 64);
    lemma_pow_adds(2, 128, 64);
    lemma_pow_adds(2, 192, 64);
}

/// A word is the sum of its limbs, limb `k` weighed with two to the power `64 * k`.
pub proof fn law_word_is_sum_of_limbs(x: U256)
    ensures
        x@ == x.0[0] + x.0[1] * pow(2, 64) + x.0[2] * pow(2, 128) + x.0[3] * pow(2, 192),
        x@ < pow(2, 256),
{
    lemma_limb_powers();
    let (a, b, c) = (x.0[1] as int, x.0[2] as int, x.0[3] as int);
    let l = limb_base() as int;
    assert(l * (a + l * (b + l * c)) == a * l + b * (l * l) + c * (l * l * l)) by (nonlinear_arith);
}

/// The bound of words is two to the power 256.
pub proof fn law_word_bound()
    ensures
        u256_bound() == pow(2, 256),
{
    lemma_limb_powers();
}

/// Words with one value are made of the same limbs.
pub proof fn law_word_injective(x: U256, y: U256)
    requires
        x@ == y@,
    ensures
        x.0@ == y.0@,
{
    assert(x.0@ =~= y.0@);
}

/// Combining is linear: the combination of bytes that are the sums of two strings' bytes is the sum
/// of the two combinations.
pub proof fn law_rlc_additive(a: Seq<u8>, b: Seq<u8>, sum: Seq<u8>, randomness: nat, modulus: nat)
    requires
        modulus > 0,
        a.len() == sum.len(),
        b.len() == sum.len(),
        forall|k: int| 0 <= k < sum.len() ==> #[trigger] sum[k] == a[k] + b[k],
    ensures
        rlc(sum, randomness, modulus) == (rlc(a, randomness, modulus) + rlc(
            b,
            randomness,
            modulus,
        )) % modulus,
{
    lemma_polynomial_additive(a, b, sum, randomness);
    lemma_add_mod_noop(
        polynomial(a, randomness) as int,
        polynomial(b, randomness) as int,
        modulus as int,
    );
}

proof fn lemma_polynomial_additive(a: Seq<u8>, b: Seq<u8>, sum: Seq<u8>, x: nat)
    requires
        a.len() == sum.len(),
        b.len() == sum.len(),
        forall|k: int| 0 <= k < sum.len() ==> #[trigger] sum[k] == a[k] + b[k],
    ensures
        polynomial(sum, x) == polynomial(a, x) + polynomial(b, x),
    decreases sum.len(),
{
    if sum.len() > 0 {
        let (a1, b1, sum1) = (a.drop_first(), b.drop_first(), sum.drop_first());
        assert forall|k: int| 0 <= k < sum1.len() implies #[trigger] sum1[k] == a1[k] + b1[k] by {
            assert(sum[k + 1] == a[k + 1] + b[k + 1]);
        }
        lemma_polynomial_additive(a1, b1, sum1, x);
        let (p, q) = (polynomial(a1, x), polynomial(b1, x));
        assert(x * (p + q) == x * p + x * q) by (nonlinear_arith);
    }
}

/// A byte at position `k` among zeros combines to itself times the `k`-th power of the randomness.
pub proof fn law_rlc_of_one_byte(bytes: Seq<u8>, k: int, randomness: nat, modulus: nat)
    requires
        modulus > 0,
        0 <= k < bytes.len(),
        forall|j: int| 0 <= j < bytes.len() && j != k ==> bytes[j] == 0,
    ensures
        rlc(bytes, randomness, modulus) == (bytes[k] * pow(randomness as int, k as nat))
            % modulus as int,
{
    lemma_polynomial_of_one_byte(bytes, k, randomness);
}

proof fn lemma_polynomial_of_one_byte(bytes: Seq<u8>, k: int, x: nat)
    requires
        0 <= k < bytes.len(),
        forall|j: int| 0 <= j < bytes.len() && j != k ==> bytes[j] == 0,
    ensures
        polynomial(bytes, x) == bytes[k] * pow(x as int, k as nat),
    decreases bytes.len(),
{
    let tail = bytes.drop_first();
    if k == 0 {
        lemma_polynomial_of_zeros(tail, x);
        lemma_pow0(x as int);
        assert(x * 0 == 0) by (nonlinear_arith);
    } else {
        lemma_polynomial_of_one_byte(tail, k - 1, x);
        lemma_pow_step(x as int, (k - 1) as nat);
        let b = bytes[k] as int;
        let p = pow(x as int, (k - 1) as nat);
        assert(x * (b * p) == b * (x * p)) by (nonlinear_arith);
    }
}

proof fn lemma_polynomial_of_zeros(bytes: Seq<u8>, x: nat)
    requires
        forall|j: int| 0 <= j < bytes.len() ==> bytes[j] == 0,
    ensures
        polynomial(bytes, x) == 0,
    decreases bytes.len(),
{
    if bytes.len() > 0 {
        lemma_polynomial_of_zeros(bytes.drop_first(), x);
        assert(x * 0 == 0) by (nonlinear_arith);
    }
}

/// Zeros combine to zero.
pub proof fn law_rlc_of_zeros(bytes: Seq<u8>, randomness: nat, modulus: nat)
    requires
        modulus > 0,
        forall|j: int| 0 <= j < bytes.len() ==> bytes[j] == 0,
    ensures
        rlc(bytes, randomness, modulus) == 0,
{
    lemma_polynomial_of_zeros(bytes, randomness);
}

/// The combination is the sum of the bytes, byte `k` weighed with the `k`-th power of the
/// randomness, modulo the modulus.
pub proof fn law_rlc_is_weighted_sum(bytes: Seq<u8>, randomness: nat, modulus: nat)
    requires
        modulus > 0,
    ensures
        rlc(bytes, randomness, modulus) == Seq::new(
            bytes.len(),
            |k: int| bytes[k] * pow(randomness as int, k as nat),
        ).fold_left(0int, |sum: int, term: int| sum + term) % modulus as int,
{
    lemma_polynomial_is_weighted_sum(bytes, randomness);
}

proof fn lemma_polynomial_is_weighted_sum(bytes: Seq<u8>, x: nat)
    ensures
        polynomial(bytes, x) == Seq::new(
            bytes.len(),
            |k: int| bytes[k] * pow(x as int, k as nat),
        ).fold_left(0int, |sum: int, term: int| sum + term),
    decreases bytes.len(),
{
    let terms = Seq::new(bytes.len(), |k: int| bytes[k] * pow(x as int, k as nat));
    if bytes.len() > 0 {
        let before = bytes.drop_last();
        lemma_polynomial_is_weighted_sum(before, x);
        lemma_polynomial_last(bytes, x);
        assert(terms.drop_last() =~= Seq::new(
            before.len(),
            |k: int| before[k] * pow(x as int, k as nat),
        ));
    }
}

proof fn lemma_polynomial_last(bytes: Seq<u8>, x: nat)
    requires
        bytes.len() > 0,
    ensures
        polynomial(bytes, x) == polynomial(bytes.drop_last(), x) + bytes.last() * pow(
            x as int,
            (bytes.len() - 1) as nat,
        ),
    decreases bytes.len(),
{
    let tail = bytes.drop_first();
    if bytes.len() == 1 {
        lemma_pow0(x as int);
        assert(polynomial(tail, x) == 0);
        assert(x * 0 == 0) by (nonlinear_arith);
    } else {
        lemma_polynomial_last(tail, x);
        assert(bytes.drop_last().drop_first() =~= tail.drop_last());
        lemma_pow_step(x as int, (bytes.len() - 2) as nat);
        let p = polynomial(tail.drop_last(), x) as int;
        let b = bytes.last() as int;
        let w = pow(x as int, (bytes.len() - 2) as nat);
        assert(x * (p + b * w) == x * p + b * (x * w)) by (nonlinear_arith);
    }
}

} // verus!
