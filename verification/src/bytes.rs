//! Byte strings read as integers, in both byte orders.
use vstd::prelude::*;

verus! {

/// The integer whose little-endian digits in base 256 are `s`.
pub open spec fn le_value(s: Seq<u8>) -> nat
    decreases s.len(),
{
    if s.len() == 0 {
        0
    } else {
        s[0] as nat + 256 * le_value(s.drop_first())
    }
}

/// The integer whose big-endian digits in base 256 are `s`.
pub open spec fn be_value(s: Seq<u8>) -> nat
    decreases s.len(),
{
    if s.len() == 0 {
        0
    } else {
        256 * be_value(s.drop_last()) + s.last() as nat
    }
}

/// The low `len` big-endian digits of `n` in base 256.
pub open spec fn be_bytes(n: nat, len: nat) -> Seq<u8>
    decreases len,
{
    if len == 0 {
        Seq::empty()
    } else {
        be_bytes(n / 256, (len - 1) as nat).push((n % 256) as u8)
    }
}

/// The low `len` little-endian digits of `n` in base 256.
pub open spec fn le_bytes(n: nat, len: nat) -> Seq<u8> {
    be_bytes(n, len).reverse()
}

/// The big-endian digits of `n` in base 256 without leading zeros; no digit for zero.
pub open spec fn minimal_be(n: nat) -> Seq<u8>
    decreases n,
{
    if n == 0 {
        Seq::empty()
    } else {
        minimal_be(n / 256).push((n % 256) as u8)
    }
}

/// 256 to the power `n`.
pub open spec fn pow256(n: nat) -> nat
    decreases n,
{
    if n == 0 {
        1
    } else {
        256 * pow256((n - 1) as nat)
    }
}

/// Reading `s` as a big-endian integer and writing that integer back gives `s`.
pub proof fn lemma_be_bytes_of_value(s: Seq<u8>)
    ensures
        be_bytes(be_value(s), s.len()) == s,
    decreases s.len(),
{
    if s.len() > 0 {
        lemma_be_bytes_of_value(s.drop_last());
        assert(be_value(s) / 256 == be_value(s.drop_last()));
        assert(be_value(s) % 256 == s.last());
        assert(s.drop_last().push(s.last()) =~= s);
    } else {
        assert(s =~= Seq::empty());
    }
}

pub proof fn lemma_le_value_concat(a: Seq<u8>, b: Seq<u8>)
    ensures
        le_value(a + b) == le_value(a) + pow256(a.len()) * le_value(b),
    decreases a.len(),
{
    if a.len() == 0 {
        assert(a + b =~= b);
        assert(pow256(0) * le_value(b) == le_value(b)) by (nonlinear_arith)
            requires
                pow256(0) == 1,
        ;
    } else {
        let t = a.drop_first();
        lemma_le_value_concat(t, b);
        assert((a + b).drop_first() =~= t + b);
        let p = pow256(t.len());
        let v = le_value(b);
        assert(256 * (p * v) == (256 * p) * v) by (nonlinear_arith);
    }
}

/// The two byte orders agree up to reversal.
pub proof fn lemma_be_value_reverse(s: Seq<u8>)
    ensures
        be_value(s.reverse()) == le_value(s),
        le_value(s.reverse()) == be_value(s),
    decreases s.len(),
{
    if s.len() > 0 {
        lemma_be_value_reverse(s.drop_first());
        assert(s.reverse().drop_last() =~= s.drop_first().reverse());
        lemma_le_be_reverse_tail(s);
    }
}

proof fn lemma_le_be_reverse_tail(s: Seq<u8>)
    ensures
        le_value(s.reverse()) == be_value(s),
    decreases s.len(),
{
    if s.len() > 0 {
        lemma_le_be_reverse_tail(s.drop_last());
        assert(s.reverse().drop_first() =~= s.drop_last().reverse());
    }
}

/// A leading zero does not change a big-endian integer.
pub proof fn lemma_be_value_leading_zeros(s: Seq<u8>, k: int)
    requires
        0 <= k <= s.len(),
        forall|i: int| 0 <= i < k ==> s[i] == 0,
    ensures
        be_value(s.skip(k)) == be_value(s),
    decreases s.len(),
{
    if s.len() == 0 {
        assert(s.skip(k) =~= s);
    } else if k == s.len() {
        lemma_be_value_leading_zeros(s.drop_last(), k - 1);
        assert(s.drop_last().skip(k - 1) =~= Seq::<u8>::empty());
        assert(s.skip(k) =~= Seq::<u8>::empty());
    } else {
        lemma_be_value_leading_zeros(s.drop_last(), k);
        assert(s.skip(k).drop_last() =~= s.drop_last().skip(k));
    }
}

/// A big-endian string with no leading zero is the shortest one for its value.
pub proof fn lemma_minimal_be_of_value(s: Seq<u8>)
    requires
        s.len() > 0 ==> s[0] != 0,
    ensures
        minimal_be(be_value(s)) == s,
    decreases s.len(),
{
    if s.len() > 0 {
        lemma_minimal_be_of_value(s.drop_last());
        assert(be_value(s) / 256 == be_value(s.drop_last()));
        assert(be_value(s) % 256 == s.last());
        if s.len() > 1 {
            lemma_be_value_positive(s.drop_last());
        }
        assert(s.drop_last().push(s.last()) =~= s);
    } else {
        assert(s =~= Seq::empty());
    }
}

proof fn lemma_be_value_positive(s: Seq<u8>)
    requires
        s.len() > 0,
        s[0] != 0,
    ensures
        be_value(s) > 0,
    decreases s.len(),
{
    if s.len() > 1 {
        lemma_be_value_positive(s.drop_last());
    }
}

/// The bytes without their leading zeros.
pub fn trim_leading_zeros(bytes: &[u8]) -> (r: Vec<u8>)
    ensures
        r@ == minimal_be(be_value(bytes@)),
        be_value(r@) == be_value(bytes@),
        r@.len() > 0 ==> r@[0] != 0,
{
    let mut k: usize = 0;
    while k < bytes.len() && bytes[k] == 0
        invariant
            k <= bytes@.len(),
            forall|i: int| 0 <= i < k ==> bytes@[i] == 0,
        decreases bytes@.len() - k,
    {
        k = k + 1;
    }
    let mut r: Vec<u8> = Vec::new();
    let mut i: usize = k;
    while i < bytes.len()
        invariant
            k <= i <= bytes@.len(),
            r@ =~= bytes@.subrange(k as int, i as int),
        decreases bytes@.len() - i,
    {
        r.push(bytes[i]);
        i = i + 1;
    }
    proof {
        assert(r@ =~= bytes@.skip(k as int));
        lemma_be_value_leading_zeros(bytes@, k as int);
        lemma_minimal_be_of_value(r@);
    }
    r
}

} // verus!
