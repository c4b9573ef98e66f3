//! What the signature data of a transaction is, and when there is none.
use vstd::prelude::*;

use crate::bytes::{be_bytes, be_value};
use crate::crypto::secp256k1_recover;
use crate::secp256k1::{group_order, is_signature, on_curve, Fq, Secp256k1Affine};
use crate::sign_data::{
    has_recovery_id, is_outcome, is_signed, is_signed_by, is_signed_transaction, recovered_point,
    recovery_id, sign_data, sign_data_with, signing_hash, SignData, SignDataError,
};
use crate::transaction::Transaction;

verus! {

/// `v` has a recovery id just if it is at least 35 and twice the chain id, and what it exceeds that
/// by is the id, up to a multiple of 256.
pub proof fn law_recovery_id(v: u64, chain_id: u64, id: u8, turns: nat)
    ensures
        has_recovery_id(v, chain_id) <==> v >= 35 + 2 * chain_id,
        v == id + 256 * turns + 35 + 2 * chain_id ==> recovery_id(v, chain_id) == id,
{
    if v == id + 256 * turns + 35 + 2 * chain_id {
        assert((id + 256 * turns) % 256 == id);
    }
}

/// The point of a signature is that of the key which is recovered from the two halves, written in
/// 32 big-endian bytes each: its coordinates follow its first byte, 32 big-endian bytes each. A
/// recovery id of four or more gives none.
pub proof fn law_recovered_point(v: u8, r: nat, s: nat, msg_hash: Seq<u8>)
    ensures
        recovered_point(v, r, s, msg_hash) is Some ==> v < 4,
        v < 4 ==> match secp256k1_recover(v, be_bytes(r, 32), be_bytes(s, 32), msg_hash) {
            Some(key) => {
                let (x, y) = (be_value(key.subrange(1, 33)), be_value(key.subrange(33, 65)));
                recovered_point(v, r, s, msg_hash) == (if on_curve(x, y) {
                    Some((x, y))
                } else {
                    None
                })
            },
            None => recovered_point(v, r, s, msg_hash) is None,
        },
{
}

/// A scalar and a point are viewed as the integers that they hold.
pub proof fn law_scalar_and_point_views(a: Fq, point: Secp256k1Affine)
    ensures
        a@ == a.0@,
        point@ == (point.x@, point.y@),
        a.wf() <==> a.0@ < group_order(),
        point.wf() <==> on_curve(point.x@, point.y@),
{
}

/// An outcome is the one described: the same data, reduced, or the same error.
pub proof fn law_outcome(
    r: Result<SignData, SignDataError>,
    expected: Result<((nat, nat), (nat, nat), nat), SignDataError>,
)
    ensures
        is_outcome(r, expected) <==> match (r, expected) {
            (Ok(data), Ok(((r, s), (x, y), hash))) => {
                &&& data.signature.0@ == r < group_order()
                &&& data.signature.1@ == s < group_order()
                &&& data.pk.x@ == x
                &&& data.pk.y@ == y
                &&& on_curve(x, y)
                &&& data.msg_hash@ == hash < group_order()
            },
            (Err(error), Err(reason)) => error == reason,
            _ => false,
        },
{
}

/// Signature data holds the two halves of the transaction's signature in their order, the point of
/// the recovered key and the integer that the hash stands for.
pub proof fn law_sign_data_holds_signature(
    tx: Transaction,
    chain_id: u64,
    msg_hash: Seq<u8>,
    key: Option<Seq<u8>>,
    data: SignData,
)
    requires
        is_outcome(Ok(data), sign_data_with(tx, chain_id, msg_hash, key)),
    ensures
        data.signature.0@ == tx.r@,
        data.signature.1@ == tx.s@,
        data.msg_hash@ == be_value(msg_hash),
        key matches Some(bytes) && data.pk.x@ == be_value(bytes.subrange(1, 33)) && data.pk.y@
            == be_value(bytes.subrange(33, 65)),
        on_curve(data.pk.x@, data.pk.y@),
{
}

/// A transaction has signature data just if both halves of its signature are below the group order,
/// it has a recovery id below four, a key is recovered and is on the curve, and the hash is below
/// the group order. Otherwise the first of these that fails is the error.
pub proof fn law_sign_data_refusals(
    tx: Transaction,
    chain_id: u64,
    msg_hash: Seq<u8>,
    key: Option<Seq<u8>>,
)
    ensures
        ({
            let n = group_order();
            let over = tx.v - 35 - 2 * chain_id;
            let signature = tx.r@ < n && tx.s@ < n;
            let id = signature && over >= 0 && over % 256 < 4;
            let point = id && key is Some && on_curve(
                be_value(key->0.subrange(1, 33)),
                be_value(key->0.subrange(33, 65)),
            );
            let r = sign_data_with(tx, chain_id, msg_hash, key);
            &&& r is Ok <==> point && be_value(msg_hash) < n
            &&& r == refused(SignDataError::SignatureR) <==> tx.r@ >= n
            &&& r == refused(SignDataError::SignatureS) <==> tx.r@ < n && tx.s@ >= n
            &&& r == refused(SignDataError::SignatureV) <==> signature && over < 0
            &&& r == refused(SignDataError::RecoveryId) <==> signature && over >= 0 && over % 256
                >= 4
            &&& r == refused(SignDataError::Recovery) <==> id && key is None
            &&& r == refused(SignDataError::PublicKey) <==> id && key is Some && !point
            &&& r == refused(SignDataError::MsgHash) <==> point && be_value(msg_hash) >= n
        }),
{
}

/// There is no signature data, for the given reason.
pub open spec fn refused(error: SignDataError) -> Result<
    ((nat, nat), (nat, nat), nat),
    SignDataError,
> {
    Err(error)
}

/// The signature data of a transaction is that for the hash that is signed and the key recovered
/// from the transaction's own signature over it.
pub proof fn law_sign_data_of_own_signature(tx: Transaction, chain_id: u64)
    requires
        tx.v >= 35 + 2 * chain_id,
    ensures
        sign_data(tx, chain_id) == sign_data_with(
            tx,
            chain_id,
            signing_hash(tx, chain_id),
            secp256k1_recover(
                ((tx.v - 35 - 2 * chain_id) % 256) as u8,
                be_bytes(tx.r@, 32),
                be_bytes(tx.s@, 32),
                signing_hash(tx, chain_id),
            ),
        ),
{
}

/// The signature data of a transaction is a signature, over its own hash, by whoever has signed the
/// transaction.
pub proof fn law_sign_data_is_signed(
    tx: Transaction,
    chain_id: u64,
    data: SignData,
    secret: nat,
    nonce: nat,
)
    requires
        is_outcome(Ok(data), sign_data(tx, chain_id)),
    ensures
        is_signed_by(tx, chain_id, secret, nonce) <==> is_signature(
            secret,
            nonce,
            ((tx.v - 35 - 2 * chain_id) % 256) as u8,
            data.signature.0@,
            data.signature.1@,
            data.msg_hash@,
        ),
        data.msg_hash@ == be_value(signing_hash(tx, chain_id)),
{
}

/// To be signed is to be signed by someone.
pub proof fn law_signed_by_someone(
    tx: Transaction,
    chain_id: u64,
    v: u8,
    r: nat,
    s: nat,
    msg_hash: Seq<u8>,
)
    ensures
        is_signed(v, r, s, msg_hash) <==> exists|secret: nat, nonce: nat| #[trigger]
            is_signature(secret, nonce, v, r, s, be_value(msg_hash)),
        is_signed_transaction(tx, chain_id) <==> be_value(signing_hash(tx, chain_id))
            < group_order() && tx.v >= 35 + 2 * chain_id && exists|secret: nat, nonce: nat|
            #[trigger] is_signature(
                secret,
                nonce,
                ((tx.v - 35 - 2 * chain_id) % 256) as u8,
                tx.r@,
                tx.s@,
                be_value(signing_hash(tx, chain_id)),
            ),
{
    let id = recovery_id(tx.v, chain_id);
    let hash = be_value(signing_hash(tx, chain_id));
    if is_signed_transaction(tx, chain_id) {
        let (secret, nonce) = choose|secret: nat, nonce: nat| #[trigger]
            is_signed_by(tx, chain_id, secret, nonce);
        assert(is_signature(secret, nonce, id, tx.r@, tx.s@, hash));
    }
    if tx.v >= 35 + 2 * chain_id && exists|secret: nat, nonce: nat| #[trigger]
        is_signature(secret, nonce, id, tx.r@, tx.s@, hash) {
        let (secret, nonce) = choose|secret: nat, nonce: nat| #[trigger]
            is_signature(secret, nonce, id, tx.r@, tx.s@, hash);
        assert(is_signed_by(tx, chain_id, secret, nonce));
    }
}

} // verus!
