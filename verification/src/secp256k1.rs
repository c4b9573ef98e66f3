//! Scalars and points of the curve secp256k1.
use vstd::arithmetic::div_mod::{lemma_add_mod_noop, lemma_mul_mod_noop_left, lemma_small_mod};
use vstd::prelude::*;

use crate::bytes::{be_value, le_value, lemma_be_value_reverse};
use crate::field::Field;
use crate::u256::U256;

verus! {

/// The order of the group of points.
pub open spec fn group_order() -> nat {
    0xFFFF_FFFF_FFFF_FFFF_FFFF_FFFF_FFFF_FFFE_BAAE_DCE6_AF48_A03B_BFD2_5E8C_D036_4141nat
}

/// The order of the field of coordinates.
pub open spec fn base_order() -> nat {
    0xFFFF_FFFF_FFFF_FFFF_FFFF_FFFF_FFFF_FFFF_FFFF_FFFF_FFFF_FFFF_FFFF_FFFE_FFFF_FC2Fnat
}

/// The field of scalars.
pub fn scalar_field() -> (r: Field)
    ensures
        r.modulus@ == group_order(),
        r.wf(),
{
    Field {
        modulus: U256(
            [
                0xBFD2_5E8C_D036_4141,
                0xBAAE_DCE6_AF48_A03B,
                0xFFFF_FFFF_FFFF_FFFE,
                0xFFFF_FFFF_FFFF_FFFF,
            ],
        ),
    }
}

/// The field of coordinates.
pub fn base_field() -> (r: Field)
    ensures
        r.modulus@ == base_order(),
        r.wf(),
{
    Field {
        modulus: U256(
            [
                0xFFFF_FFFE_FFFF_FC2F,
                0xFFFF_FFFF_FFFF_FFFF,
                0xFFFF_FFFF_FFFF_FFFF,
                0xFFFF_FFFF_FFFF_FFFF,
            ],
        ),
    }
}

/// A scalar: an integer modulo the order of the group.
#[derive(Clone, Copy, Debug, PartialEq, Eq)]
pub struct Fq(pub U256);

impl View for Fq {
    type V = nat;

    open spec fn view(&self) -> nat {
        self.0@
    }
}

impl Fq {
    /// The integer is the one below the group order that stands for its class.
    pub open spec fn wf(&self) -> bool {
        self@ < group_order()
    }

    /// The scalar that 32 little-endian bytes write out; nothing if they write out an integer
    /// that is not below the group order.
    pub fn from_repr(repr: [u8; 32]) -> (r: Option<Fq>)
        ensures
            r is Some <==> le_value(repr@) < group_order(),
            r matches Some(x) ==> x@ == le_value(repr@) && x.wf(),
            r matches Some(x) ==> x.0@ == le_value(repr@),
    {
        match scalar_field().from_repr(&repr) {
            Some(x) => Some(Fq(x)),
            None => None,
        }
    }
}

/// `(x, y)` are the coordinates of a point of the curve `y^2 = x^3 + 7`, the point at infinity
/// excepted.
#[verifier::opaque]
pub open spec fn on_curve(x: nat, y: nat) -> bool {
    &&& x < base_order()
    &&& y < base_order()
    &&& (y * y) % base_order() == (x * x * x + 7) % base_order()
}

proof fn lemma_on_curve_bounds(x: nat, y: nat)
    ensures
        on_curve(x, y) ==> x < base_order() && y < base_order(),
{
    reveal(on_curve);
}

/// A point of the curve other than the point at infinity.
#[derive(Clone, Copy, Debug, PartialEq, Eq)]
pub struct Secp256k1Affine {
    pub x: U256,
    pub y: U256,
}

impl View for Secp256k1Affine {
    type V = (nat, nat);

    open spec fn view(&self) -> (nat, nat) {
        (self.x@, self.y@)
    }
}

impl Secp256k1Affine {
    pub open spec fn wf(&self) -> bool {
        on_curve(self.x@, self.y@)
    }

    /// The point that 64 bytes write out: the first coordinate and then the second, each little
    /// endian. Nothing if they write out no point.
    pub fn from_bytes(bytes: &[u8; 64]) -> (r: Option<Secp256k1Affine>)
        ensures
            r is Some <==> on_curve(
                le_value(bytes@.subrange(0, 32)),
                le_value(bytes@.subrange(32, 64)),
            ),
            r matches Some(point) ==> point@ == (
                le_value(bytes@.subrange(0, 32)),
                le_value(bytes@.subrange(32, 64)),
            ),
            r matches Some(point) ==> point.x@ == le_value(bytes@.subrange(0, 32)) && point.y@
                == le_value(bytes@.subrange(32, 64)),
    {
        let mut x_repr: [u8; 32] = [0; 32];
        let mut y_repr: [u8; 32] = [0; 32];
        let mut i: usize = 0;
        while i < 32
            invariant
                i <= 32,
                forall|j: int| 0 <= j < i ==> x_repr@[j] == bytes@[j],
                forall|j: int| 0 <= j < i ==> y_repr@[j] == bytes@[32 + j],
            decreases 32 - i,
        {
            x_repr[i] = bytes[i];
            y_repr[i] = bytes[32 + i];
            i = i + 1;
        }
        proof {
            assert(x_repr@ =~= bytes@.subrange(0, 32));
            assert(y_repr@ =~= bytes@.subrange(32, 64));
            lemma_on_curve_bounds(
                le_value(bytes@.subrange(0, 32)),
                le_value(bytes@.subrange(32, 64)),
            );
        }
        let field = base_field();
        match (field.from_repr(&x_repr), field.from_repr(&y_repr)) {
            (Some(x), Some(y)) => {
                if satisfies_equation(&field, &x, &y) {
                    Some(Secp256k1Affine { x, y })
                } else {
                    None
                }
            },
            _ => None,
        }
    }
}

fn satisfies_equation(field: &Field, x: &U256, y: &U256) -> (r: bool)
    requires
        field.modulus@ == base_order(),
        x@ < base_order(),
        y@ < base_order(),
    ensures
        r == on_curve(x@, y@),
{
    let left = field.product(y, y);
    let square = field.product(x, x);
    let cube = field.product(&square, x);
    let right = field.sum(&cube, &U256::from_u64(7));
    proof {
        reveal(on_curve);
        let p = base_order() as int;
        let x = x@ as int;
        lemma_mul_mod_noop_left(x * x, x, p);
        lemma_add_mod_noop(x * x * x, 7, p);
        lemma_small_mod(7nat, p as nat);
    }
    left.equals(&right)
}

/// The point that an uncompressed public key names: a tag byte, then the coordinates, each in 32
/// big-endian bytes.
pub open spec fn public_key_point(key: Seq<u8>) -> Option<(nat, nat)> {
    let x = be_value(key.subrange(1, 33));
    let y = be_value(key.subrange(33, 65));
    if on_curve(x, y) {
        Some((x, y))
    } else {
        None
    }
}

/// Decodes an uncompressed public key, whose tag byte is not looked at.
pub fn decode_public_key(key: &[u8; 65]) -> (r: Option<Secp256k1Affine>)
    ensures
        r is Some <==> public_key_point(key@) is Some,
        r matches Some(point) ==> Some(point@) == public_key_point(key@) && point.wf(),
        r is Some <==> on_curve(be_value(key@.subrange(1, 33)), be_value(key@.subrange(33, 65))),
        r matches Some(point) ==> point.x@ == be_value(key@.subrange(1, 33)) && point.y@
            == be_value(key@.subrange(33, 65)),
{
    let mut bytes: [u8; 64] = [0; 64];
    let mut i: usize = 0;
    while i < 32
        invariant
            i <= 32,
            forall|j: int| 0 <= j < i ==> bytes@[j] == key@[32 - j],
            forall|j: int| 32 <= j < 32 + i ==> bytes@[j] == key@[96 - j],
        decreases 32 - i,
    {
        bytes[i] = key[32 - i];
        bytes[32 + i] = key[64 - i];
        i = i + 1;
    }
    proof {
        assert(bytes@.subrange(0, 32) =~= key@.subrange(1, 33).reverse());
        assert(bytes@.subrange(32, 64) =~= key@.subrange(33, 65).reverse());
        lemma_be_value_reverse(key@.subrange(1, 33));
        lemma_be_value_reverse(key@.subrange(33, 65));
    }
    Secp256k1Affine::from_bytes(&bytes)
}

/// `w` is the inverse of `a` in the field of coordinates.
pub open spec fn is_inverse(a: int, w: int) -> bool {
    0 <= w < base_order() && (a * w) % (base_order() as int) == 1
}

/// The quotient of two coordinates.
pub open spec fn quotient(a: int, b: int) -> int {
    a * choose|w: int| is_inverse(b, w)
}

/// The sum of two points of the curve; `None` is the point at infinity.
#[verifier::opaque]
pub open spec fn point_sum(a: Option<(nat, nat)>, b: Option<(nat, nat)>) -> Option<(nat, nat)> {
    let p = base_order() as int;
    match (a, b) {
        (None, _) => b,
        (_, None) => a,
        (Some((x1, y1)), Some((x2, y2))) => if x1 == x2 && (y1 + y2) as int % p == 0 {
            None
        } else {
            let slope = if x1 == x2 {
                quotient((3 * x1 * x1) as int, (2 * y1) as int)
            } else {
                quotient(y2 - y1, x2 - x1)
            };
            let x3 = (slope * slope - x1 - x2) % p;
            let y3 = (slope * (x1 - x3) - y1) % p;
            Some((x3 as nat, y3 as nat))
        },
    }
}

/// The point that generates the group.
pub open spec fn generator() -> (nat, nat) {
    (
        0x79BE_667E_F9DC_BBAC_55A0_6295_CE87_0B07_029B_FCDB_2DCE_28D9_59F2_815B_16F8_1798nat,
        0x483A_DA77_26A3_C465_5DA4_FBFC_0E11_08A8_FD17_B448_A685_5419_9C47_D08F_FB10_D4B8nat,
    )
}

/// The generator added up `k` times; `None` is the point at infinity.
pub open spec fn generator_multiple(k: nat) -> Option<(nat, nat)>
    decreases k,
{
    if k == 0 {
        None
    } else {
        point_sum(generator_multiple((k - 1) as nat), Some(generator()))
    }
}

/// `(r, s)` with the recovery id `v` is a signature of `msg_hash` that the secret key `secret` makes
/// with the nonce `nonce`: `r` is the first coordinate of the nonce's point modulo the group order,
/// `s` is the quotient of `msg_hash + r * secret` by the nonce, and `v` says whether the second
/// coordinate is odd and whether the first one is at least the group order.
#[verifier::opaque]
pub open spec fn is_signature(
    secret: nat,
    nonce: nat,
    v: u8,
    r: nat,
    s: nat,
    msg_hash: nat,
) -> bool {
    &&& 0 < secret < group_order()
    &&& 0 < nonce < group_order()
    &&& generator_multiple(nonce) matches Some((x, y)) && {
        &&& r == x % group_order()
        &&& v == y % 2 + (if x < group_order() {
            0int
        } else {
            2int
        })
    }
    &&& 0 < r
    &&& 0 < s < group_order()
    &&& (s * nonce) % group_order() == (msg_hash + r * secret) % group_order()
}

/// Both parts of a signature are scalars other than zero, and its recovery id is below four.
pub proof fn lemma_signature_bounds(
    secret: nat,
    nonce: nat,
    v: u8,
    r: nat,
    s: nat,
    msg_hash: nat,
)
    requires
        is_signature(secret, nonce, v, r, s, msg_hash),
    ensures
        v < 4,
        0 < r < group_order(),
        0 < s < group_order(),
{
    reveal(is_signature);
}

/// The uncompressed public key is that of the secret key.
pub open spec fn is_public_key_of(key: Seq<u8>, secret: nat) -> bool {
    public_key_point(key) is Some && public_key_point(key) == generator_multiple(secret)
}

} // verus!
