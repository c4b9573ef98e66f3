//! What the curve, its points and their encodings are.
use vstd::arithmetic::div_mod::lemma_mod_equivalence;
use vstd::arithmetic::power::pow;
use vstd::arithmetic::power2::{lemma2_to64, lemma_pow2};
use vstd::prelude::*;

use crate::bytes::{be_bytes, be_value, lemma_be_bytes_of_value, pow256};
use crate::number_laws::law_word_bound;
use crate::secp256k1::{
    base_order, generator, generator_multiple, group_order, on_curve, point_sum, public_key_point,
};
use crate::u256::u256_bound;

verus! {

/// The order of the field of coordinates and that of the group, as what they miss of two to the
/// power 256.
pub proof fn law_orders()
    ensures
        base_order() == pow(2, 256) - pow(2, 32) - 977,
        group_order() == pow(2, 256) - 0x1_4551_2319_50B7_5FC4_402D_A173_2FC9_BEBF,
{
    law_word_bound();
    lemma2_to64();
    lemma_pow2(32);
}

/// A point is on the curve if its coordinates are reduced and `y^2 - x^3 - 7` is divisible by the
/// order of their field.
pub proof fn law_curve_equation(x: nat, y: nat)
    ensures
        on_curve(x, y) <==> x < base_order() && y < base_order() && (y * y - x * x * x - 7)
            % base_order() as int == 0,
{
    reveal(on_curve);
    lemma_mod_equivalence((y * y) as int, (x * x * x + 7) as int, base_order() as int);
}

proof fn lemma_be_value_of_bytes(n: nat, len: nat)
    requires
        n < pow256(len),
    ensures
        be_bytes(n, len).len() == len,
        be_value(be_bytes(n, len)) == n,
    decreases len,
{
    if len > 0 {
        lemma_be_value_of_bytes(n / 256, (len - 1) as nat);
        assert(be_bytes(n, len).drop_last() =~= be_bytes(n / 256, (len - 1) as nat));
    }
}

/// An uncompressed key names a point of the curve just if its tag is followed by the coordinates of
/// the point, 32 big-endian bytes each.
pub proof fn law_public_key_encoding(key: Seq<u8>, x: nat, y: nat)
    requires
        key.len() == 65,
    ensures
        public_key_point(key) == Some((x, y)) <==> on_curve(x, y) && key.skip(1) == be_bytes(x, 32)
            + be_bytes(y, 32),
{
    let (xs, ys) = (key.subrange(1, 33), key.subrange(33, 65));
    assert(key.skip(1) =~= xs + ys);
    lemma_be_bytes_of_value(xs);
    lemma_be_bytes_of_value(ys);
    if on_curve(x, y) && key.skip(1) == be_bytes(x, 32) + be_bytes(y, 32) {
        law_curve_equation(x, y);
        law_orders();
        law_word_bound();
        assert(pow256(32) == u256_bound()) by {
            reveal_with_fuel(pow256, 33);
        }
        lemma_be_value_of_bytes(x, 32);
        lemma_be_value_of_bytes(y, 32);
        assert(xs =~= key.skip(1).take(32));
        assert(ys =~= key.skip(1).skip(32));
        assert(be_bytes(x, 32) =~= (be_bytes(x, 32) + be_bytes(y, 32)).take(32));
        assert(be_bytes(y, 32) =~= (be_bytes(x, 32) + be_bytes(y, 32)).skip(32));
    }
}

/// Multiples of the generator: none of it is the point at infinity, one of it is the generator, and
/// one more of it adds the generator.
pub proof fn law_generator_multiples(k: nat)
    ensures
        generator_multiple(0) is None,
        generator_multiple(1) == Some(generator()),
        generator_multiple(k + 1) == point_sum(generator_multiple(k), Some(generator())),
{
    reveal(point_sum);
    reveal_with_fuel(generator_multiple, 2);
}

/// The point at infinity adds nothing, and a point and its mirror image add up to it.
pub proof fn law_point_sum_neutral(a: Option<(nat, nat)>, x: nat, y: nat)
    requires
        y <= base_order(),
    ensures
        point_sum(None, a) == a,
        point_sum(a, None) == a,
        point_sum(Some((x, y)), Some((x, (base_order() - y) as nat))) is None,
{
    reveal(point_sum);
}

} // verus!
