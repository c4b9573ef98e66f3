//! The outside cryptographic functions.
use sha3::Digest;
use vstd::prelude::*;

use crate::bytes::be_value;
use crate::secp256k1::{group_order, is_public_key_of, is_signature};

verus! {

/// The Keccak-256 digest of a byte string.
pub uninterp spec fn keccak256_digest(data: Seq<u8>) -> Seq<u8>;

/// Calls `sha3::Keccak256::digest`. Trusted: the digest is a function of the data alone; it has
/// 32 bytes. What function it is, is left unsaid.
#[verifier::external_body]
pub(crate) fn keccak256(data: &Vec<u8>) -> (r: [u8; 32])
    ensures
        r@ == keccak256_digest(data@),
{
    sha3::Keccak256::digest(data).into()
}

/// The errors of `libsecp256k1`. Nothing is known of a value.
#[verifier::external_type_specification]
#[verifier::external_body]
pub struct ExSecp256k1Error(libsecp256k1::Error);

/// The uncompressed public key that a signature `(r, s)` with recovery id `v` over `msg_hash`
/// was made with, if the recovery succeeds. The three strings are 32 bytes, big endian.
pub uninterp spec fn secp256k1_recover(
    v: u8,
    r: Seq<u8>,
    s: Seq<u8>,
    msg_hash: Seq<u8>,
) -> Option<Seq<u8>>;

/// Calls `libsecp256k1::recover`, on a signature and a message that `Scalar::set_b32` and
/// `Message::parse_slice` read from bytes and an id that `RecoveryId::parse` reads, and
/// `PublicKey::serialize` on the result. Trusted: whether a key comes back and which is a function
/// of the arguments alone; one comes back exactly if some secret key makes the signature, `r` and
/// `s` taken modulo the group order, over the message; and it is the public key of every secret key
/// that makes it. The tag byte in front of the key is left unsaid.
#[verifier::external_body]
pub(crate) fn recover_public_key(
    v: u8,
    r: &[u8; 32],
    s: &[u8; 32],
    msg_hash: &[u8; 32],
) -> (key: Result<[u8; 65], libsecp256k1::Error>)
    requires
        v < 4,
    ensures
        match key {
            Ok(key) => secp256k1_recover(v, r@, s@, msg_hash@) == Some(key@),
            Err(_) => secp256k1_recover(v, r@, s@, msg_hash@) is None,
        },
        match key {
            Ok(bytes) => {
                &&& exists|secret: nat, nonce: nat| #[trigger]
                    is_signature(
                        secret,
                        nonce,
                        v,
                        be_value(r@) % group_order(),
                        be_value(s@) % group_order(),
                        be_value(msg_hash@),
                    )
                &&& forall|secret: nat, nonce: nat| #[trigger]
                    is_signature(
                        secret,
                        nonce,
                        v,
                        be_value(r@) % group_order(),
                        be_value(s@) % group_order(),
                        be_value(msg_hash@),
                    ) ==> is_public_key_of(bytes@, secret)
            },
            Err(_) => forall|secret: nat, nonce: nat|
                !#[trigger] is_signature(
                    secret,
                    nonce,
                    v,
                    be_value(r@) % group_order(),
                    be_value(s@) % group_order(),
                    be_value(msg_hash@),
                ),
        },
{
    let mut sig_r = libsecp256k1::curve::Scalar::from_int(0);
    let _ = sig_r.set_b32(r);
    let mut sig_s = libsecp256k1::curve::Scalar::from_int(0);
    let _ = sig_s.set_b32(s);
    let signature = libsecp256k1::Signature { r: sig_r, s: sig_s };
    let message = libsecp256k1::Message::parse_slice(msg_hash)?;
    let recovery_id = libsecp256k1::RecoveryId::parse(v)?;
    let key = libsecp256k1::recover(&message, &signature, &recovery_id)?;
    Ok(key.serialize())
}

} // verus!
