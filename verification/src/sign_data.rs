//! What the signature check of a transaction is made of: the signature, the signer's public key
//! and the hash that was signed.
use vstd::arithmetic::div_mod::lemma_small_mod;
use vstd::prelude::*;

use crate::bytes::{be_bytes, be_value, minimal_be};
use crate::crypto::{keccak256, keccak256_digest, recover_public_key, secp256k1_recover};
use crate::rlp_stream::{append_bytes, append_u32, append_u64, new_list, out, rlp_list};
use crate::secp256k1::{
    decode_public_key, generator_multiple, group_order, is_signature, lemma_signature_bounds,
    public_key_point, Fq, Secp256k1Affine,
};
use crate::transaction::{recipient, Transaction};
use crate::u256::{reversed, U256};

verus! {

/// A signature, the public key that it checks under and the hash that it signs.
#[derive(Clone, Copy, Debug, PartialEq, Eq)]
pub struct SignData {
    pub signature: (Fq, Fq),
    pub pk: Secp256k1Affine,
    pub msg_hash: Fq,
}

impl View for SignData {
    type V = ((nat, nat), (nat, nat), nat);

    open spec fn view(&self) -> ((nat, nat), (nat, nat), nat) {
        ((self.signature.0@, self.signature.1@), self.pk@, self.msg_hash@)
    }
}

impl SignData {
    pub open spec fn wf(&self) -> bool {
        &&& self.signature.0.wf()
        &&& self.signature.1.wf()
        &&& self.pk.wf()
        &&& self.msg_hash.wf()
    }
}

/// Why a transaction has no signature data.
#[derive(Clone, Copy, Debug, PartialEq, Eq)]
pub enum SignDataError {
    /// `r` is not below the group order.
    SignatureR,
    /// `s` is not below the group order.
    SignatureS,
    /// `v` is below 35 and twice the chain id.
    SignatureV,
    /// The recovery id is not below four.
    RecoveryId,
    /// No public key can be recovered.
    Recovery,
    /// The recovered key is not a point of the curve.
    PublicKey,
    /// The hash is not below the group order.
    MsgHash,
}

/// The nine items that are hashed to be signed: the transaction without its signature, the chain
/// id and two zeros.
pub open spec fn signing_items(tx: Transaction, chain_id: u64) -> Seq<Seq<u8>> {
    seq![
        minimal_be(tx.nonce@),
        minimal_be(tx.gas_price@),
        minimal_be(tx.gas@),
        recipient(tx.to),
        minimal_be(tx.value@),
        tx.data.0@,
        minimal_be(chain_id as nat),
        minimal_be(0),
        minimal_be(0),
    ]
}

/// The bytes that are hashed to be signed.
pub fn signing_message(tx: &Transaction, chain_id: u64) -> (r: Vec<u8>)
    ensures
        r@ == rlp_list(signing_items(*tx, chain_id)),
{
    let mut stream = new_list(9);
    append_bytes(&mut stream, &tx.nonce.to_minimal_be_bytes());
    append_bytes(&mut stream, &tx.gas_price.to_minimal_be_bytes());
    append_bytes(&mut stream, &tx.gas.to_minimal_be_bytes());
    append_bytes(&mut stream, &tx.to_or_zero().to_vec());
    append_bytes(&mut stream, &tx.value.to_minimal_be_bytes());
    append_bytes(&mut stream, &tx.data.0);
    append_u64(&mut stream, chain_id);
    append_u32(&mut stream, 0);
    append_u32(&mut stream, 0);
    proof {
        assert(crate::rlp_stream::rlp_items(stream) =~= signing_items(*tx, chain_id));
    }
    out(stream)
}

/// The hash that is signed.
pub open spec fn signing_hash(tx: Transaction, chain_id: u64) -> Seq<u8> {
    keccak256_digest(rlp_list(signing_items(tx, chain_id)))
}

/// Hashes what is to be signed.
pub fn sign_hash(tx: &Transaction, chain_id: u64) -> (r: [u8; 32])
    ensures
        r@ == signing_hash(*tx, chain_id),
{
    keccak256(&signing_message(tx, chain_id))
}

/// `v` is at least what the chain id alone makes it.
pub open spec fn has_recovery_id(v: u64, chain_id: u64) -> bool {
    v >= 35 + 2 * chain_id
}

/// The recovery id in `v`: what it exceeds 35 and twice the chain id by, modulo 256.
pub open spec fn recovery_id(v: u64, chain_id: u64) -> u8
    recommends
        has_recovery_id(v, chain_id),
{
    ((v - 35 - 2 * chain_id) % 256) as u8
}

/// Takes the recovery id out of `v`; nothing if `v` is too small to have one.
pub fn extract_recovery_id(v: u64, chain_id: u64) -> (r: Option<u8>)
    ensures
        r is Some <==> has_recovery_id(v, chain_id),
        r matches Some(id) ==> id == recovery_id(v, chain_id),
{
    if v < 35 {
        None
    } else if chain_id > (v - 35) / 2 {
        None
    } else {
        Some(((v - 35 - chain_id * 2) % 256) as u8)
    }
}

/// Adding the offset of the chain to a recovery id is undone by taking the id out.
pub proof fn law_recovery_id_of_offset(id: u8, chain_id: u64, v: u64)
    requires
        v == id + 35 + 2 * chain_id,
    ensures
        has_recovery_id(v, chain_id),
        recovery_id(v, chain_id) == id,
{
}

/// The point that a signature was made with, for a recovery id that there is.
pub open spec fn recovered_point(v: u8, r: nat, s: nat, msg_hash: Seq<u8>) -> Option<(nat, nat)> {
    if v < 4 {
        match secp256k1_recover(v, be_bytes(r, 32), be_bytes(s, 32), msg_hash) {
            Some(key) => public_key_point(key),
            None => None,
        }
    } else {
        None
    }
}

/// Some secret key has made the signature.
pub open spec fn is_signed(v: u8, r: nat, s: nat, msg_hash: Seq<u8>) -> bool {
    exists|secret: nat, nonce: nat|
        #[trigger] is_signature(secret, nonce, v, r, s, be_value(msg_hash))
}

proof fn lemma_signed_bounds(v: u8, r: nat, s: nat, msg_hash: Seq<u8>)
    requires
        is_signed(v, r, s, msg_hash),
    ensures
        v < 4,
        0 < r < group_order(),
        0 < s < group_order(),
{
    let (secret, nonce) = choose|secret: nat, nonce: nat| #[trigger]
        is_signature(secret, nonce, v, r, s, be_value(msg_hash));
    lemma_signature_bounds(secret, nonce, v, r, s, be_value(msg_hash));
}

/// Recovers the public key that made the signature `(r, s)` over `msg_hash`. Both parts of the
/// signature are taken modulo the group order.
pub fn recover_pk(v: u8, r: &U256, s: &U256, msg_hash: &[u8; 32]) -> (pk: Secp256k1Affine)
    requires
        recovered_point(v, r@, s@, msg_hash@) is Some || is_signed(
            v,
            r@ % group_order(),
            s@ % group_order(),
            msg_hash@,
        ),
    ensures
        Some(pk@) == recovered_point(v, r@, s@, msg_hash@),
        pk.wf(),
        r@ % group_order() != 0,
        s@ % group_order() != 0,
        is_signed(v, r@ % group_order(), s@ % group_order(), msg_hash@),
        exists|secret: nat, nonce: nat| #[trigger]
            is_signature(
                secret,
                nonce,
                v,
                r@ % group_order(),
                s@ % group_order(),
                be_value(msg_hash@),
            ),
        forall|secret: nat, nonce: nat| #[trigger]
            is_signature(
                secret,
                nonce,
                v,
                r@ % group_order(),
                s@ % group_order(),
                be_value(msg_hash@),
            ) ==> Some(pk@) == generator_multiple(secret),
{
    proof {
        if is_signed(v, r@ % group_order(), s@ % group_order(), msg_hash@) {
            lemma_signed_bounds(v, r@ % group_order(), s@ % group_order(), msg_hash@);
        }
    }
    let r_be = r.to_be_bytes();
    let s_be = s.to_be_bytes();
    let key = recover_public_key(v, &r_be, &s_be, msg_hash).unwrap();
    proof {
        lemma_signed_bounds(v, r@ % group_order(), s@ % group_order(), msg_hash@);
    }
    decode_public_key(&key).unwrap()
}

/// Recovers the public key that made the signature `(r, s)` over `msg_hash`; nothing if there is
/// none.
pub fn try_recover_pk(v: u8, r: &U256, s: &U256, msg_hash: &[u8; 32]) -> (pk: Option<
    Secp256k1Affine,
>)
    ensures
        pk is Some <==> recovered_point(v, r@, s@, msg_hash@) is Some,
        pk is Some <==> is_signed(v, r@ % group_order(), s@ % group_order(), msg_hash@),
        pk is Some <==> exists|secret: nat, nonce: nat| #[trigger]
            is_signature(
                secret,
                nonce,
                v,
                r@ % group_order(),
                s@ % group_order(),
                be_value(msg_hash@),
            ),
        pk matches Some(point) ==> Some(point@) == recovered_point(v, r@, s@, msg_hash@)
            && point.wf(),
        forall|secret: nat, nonce: nat| #[trigger]
            is_signature(
                secret,
                nonce,
                v,
                r@ % group_order(),
                s@ % group_order(),
                be_value(msg_hash@),
            ) ==> (pk matches Some(point) && Some(point@) == generator_multiple(secret)),
{
    if v >= 4 {
        proof {
            if is_signed(v, r@ % group_order(), s@ % group_order(), msg_hash@) {
                lemma_signed_bounds(v, r@ % group_order(), s@ % group_order(), msg_hash@);
            }
        }
        return None;
    }
    match recover_public_key(v, &r.to_be_bytes(), &s.to_be_bytes(), msg_hash) {
        Ok(key) => match decode_public_key(&key) {
            Some(_) => Some(recover_pk(v, r, s, msg_hash)),
            None => None,
        },
        Err(_) => None,
    }
}

/// The signature data of a transaction whose hash is `msg_hash` and whose signature the key `key`
/// was recovered from, or the first reason why it has none.
pub open spec fn sign_data_with(
    tx: Transaction,
    chain_id: u64,
    msg_hash: Seq<u8>,
    key: Option<Seq<u8>>,
) -> Result<((nat, nat), (nat, nat), nat), SignDataError> {
    if tx.r@ >= group_order() {
        Err(SignDataError::SignatureR)
    } else if tx.s@ >= group_order() {
        Err(SignDataError::SignatureS)
    } else if !has_recovery_id(tx.v, chain_id) {
        Err(SignDataError::SignatureV)
    } else if recovery_id(tx.v, chain_id) >= 4 {
        Err(SignDataError::RecoveryId)
    } else if key is None {
        Err(SignDataError::Recovery)
    } else if public_key_point(key->0) is None {
        Err(SignDataError::PublicKey)
    } else if be_value(msg_hash) >= group_order() {
        Err(SignDataError::MsgHash)
    } else {
        Ok(((tx.r@, tx.s@), public_key_point(key->0)->0, be_value(msg_hash)))
    }
}

/// The key that is recovered from the signature of a transaction over `msg_hash`.
pub open spec fn recovered_key(tx: Transaction, chain_id: u64, msg_hash: Seq<u8>) -> Option<
    Seq<u8>,
> {
    secp256k1_recover(
        recovery_id(tx.v, chain_id),
        be_bytes(tx.r@, 32),
        be_bytes(tx.s@, 32),
        msg_hash,
    )
}

/// The signature data of a transaction, or the first reason why it has none.
pub open spec fn sign_data(tx: Transaction, chain_id: u64) -> Result<
    ((nat, nat), (nat, nat), nat),
    SignDataError,
> {
    let msg_hash = signing_hash(tx, chain_id);
    sign_data_with(tx, chain_id, msg_hash, recovered_key(tx, chain_id, msg_hash))
}

/// The outcome is the one that `expected` describes.
pub open spec fn is_outcome(
    r: Result<SignData, SignDataError>,
    expected: Result<((nat, nat), (nat, nat), nat), SignDataError>,
) -> bool {
    match r {
        Ok(data) => expected == Ok::<((nat, nat), (nat, nat), nat), SignDataError>(data@)
            && data.wf(),
        Err(error) => expected == Err::<((nat, nat), (nat, nat), nat), SignDataError>(error),
    }
}

/// Puts the signature data of a transaction together from its hash and the recovered key, or
/// tells the first reason why it has none.
pub fn assemble_sign_data(
    tx: &Transaction,
    chain_id: u64,
    msg_hash: &[u8; 32],
    key: &Option<[u8; 65]>,
) -> (r: Result<SignData, SignDataError>)
    ensures
        is_outcome(
            r,
            sign_data_with(
                *tx,
                chain_id,
                msg_hash@,
                match *key {
                    Some(bytes) => Some(bytes@),
                    None => None,
                },
            ),
        ),
        r matches Ok(data) ==> {
            &&& data.signature.0@ == tx.r@
            &&& data.signature.1@ == tx.s@
            &&& data.msg_hash@ == be_value(msg_hash@)
            &&& *key matches Some(bytes) && data.pk.x@ == be_value(bytes@.subrange(1, 33))
                && data.pk.y@ == be_value(bytes@.subrange(33, 65))
        },
{
    let sig_r = match Fq::from_repr(tx.r.to_le_bytes()) {
        Some(sig_r) => sig_r,
        None => return Err(SignDataError::SignatureR),
    };
    let sig_s = match Fq::from_repr(tx.s.to_le_bytes()) {
        Some(sig_s) => sig_s,
        None => return Err(SignDataError::SignatureS),
    };
    match extract_recovery_id(tx.v, chain_id) {
        Some(id) => {
            if id >= 4 {
                return Err(SignDataError::RecoveryId);
            }
        },
        None => return Err(SignDataError::SignatureV),
    }
    let pk = match key {
        Some(bytes) => match decode_public_key(bytes) {
            Some(pk) => pk,
            None => return Err(SignDataError::PublicKey),
        },
        None => return Err(SignDataError::Recovery),
    };
    match Fq::from_repr(reversed(msg_hash)) {
        Some(msg_hash) => Ok(SignData { signature: (sig_r, sig_s), pk, msg_hash }),
        None => Err(SignDataError::MsgHash),
    }
}

/// The secret key `secret` has signed the transaction, with the nonce `nonce`.
pub open spec fn is_signed_by(
    tx: Transaction,
    chain_id: u64,
    secret: nat,
    nonce: nat,
) -> bool {
    &&& has_recovery_id(tx.v, chain_id)
    &&& is_signature(
        secret,
        nonce,
        recovery_id(tx.v, chain_id),
        tx.r@,
        tx.s@,
        be_value(signing_hash(tx, chain_id)),
    )
}

/// Some secret key has signed the transaction, and its hash is below the group order.
pub open spec fn is_signed_transaction(tx: Transaction, chain_id: u64) -> bool {
    &&& be_value(signing_hash(tx, chain_id)) < group_order()
    &&& exists|secret: nat, nonce: nat| #[trigger] is_signed_by(tx, chain_id, secret, nonce)
}

proof fn lemma_signed_transaction(tx: Transaction, chain_id: u64)
    requires
        tx.r@ < group_order(),
        tx.s@ < group_order(),
        has_recovery_id(tx.v, chain_id),
        be_value(signing_hash(tx, chain_id)) < group_order(),
    ensures
        is_signed_transaction(tx, chain_id) <==> is_signed(
            recovery_id(tx.v, chain_id),
            tx.r@ % group_order(),
            tx.s@ % group_order(),
            signing_hash(tx, chain_id),
        ),
{
    let id = recovery_id(tx.v, chain_id);
    let hash = signing_hash(tx, chain_id);
    lemma_small_mod(tx.r@, group_order());
    lemma_small_mod(tx.s@, group_order());
    if is_signed(id, tx.r@, tx.s@, hash) {
        let (secret, nonce) = choose|secret: nat, nonce: nat| #[trigger]
            is_signature(secret, nonce, id, tx.r@, tx.s@, be_value(hash));
        assert(is_signed_by(tx, chain_id, secret, nonce));
    }
    if is_signed_transaction(tx, chain_id) {
        let (secret, nonce) = choose|secret: nat, nonce: nat| #[trigger]
            is_signed_by(tx, chain_id, secret, nonce);
        assert(is_signature(secret, nonce, id, tx.r@, tx.s@, be_value(hash)));
    }
}

proof fn lemma_signed_transaction_bounds(tx: Transaction, chain_id: u64)
    requires
        is_signed_transaction(tx, chain_id),
    ensures
        has_recovery_id(tx.v, chain_id),
        recovery_id(tx.v, chain_id) < 4,
        0 < tx.r@ < group_order(),
        0 < tx.s@ < group_order(),
{
    let (secret, nonce) = choose|secret: nat, nonce: nat| #[trigger]
        is_signed_by(tx, chain_id, secret, nonce);
    lemma_signature_bounds(
        secret,
        nonce,
        recovery_id(tx.v, chain_id),
        tx.r@,
        tx.s@,
        be_value(signing_hash(tx, chain_id)),
    );
}

/// The signature data of a transaction that has it.
pub fn tx_to_sign_data(tx: &Transaction, chain_id: u64) -> (r: SignData)
    requires
        sign_data(*tx, chain_id) is Ok || is_signed_transaction(*tx, chain_id),
    ensures
        sign_data(*tx, chain_id) == Ok::<((nat, nat), (nat, nat), nat), SignDataError>(r@),
        r.wf(),
        tx.r@ != 0,
        tx.s@ != 0,
        r.signature.0@ == tx.r@,
        r.signature.1@ == tx.s@,
        r.msg_hash@ == be_value(signing_hash(*tx, chain_id)),
        is_signed_transaction(*tx, chain_id),
        exists|secret: nat, nonce: nat| #[trigger]
            is_signature(
                secret,
                nonce,
                recovery_id(tx.v, chain_id),
                r.signature.0@,
                r.signature.1@,
                r.msg_hash@,
            ),
        forall|secret: nat, nonce: nat| #[trigger]
            is_signature(
                secret,
                nonce,
                recovery_id(tx.v, chain_id),
                r.signature.0@,
                r.signature.1@,
                r.msg_hash@,
            ) ==> Some((r.pk.x@, r.pk.y@)) == generator_multiple(secret),
        forall|secret: nat, nonce: nat| #[trigger]
            is_signed_by(*tx, chain_id, secret, nonce) ==> Some(r.pk@) == generator_multiple(
                secret,
            ),
{
    proof {
        if is_signed_transaction(*tx, chain_id) {
            lemma_signed_transaction_bounds(*tx, chain_id);
        }
        lemma_signed_transaction(*tx, chain_id);
        lemma_small_mod(tx.r@, group_order());
        lemma_small_mod(tx.s@, group_order());
    }
    let sig_r = Fq::from_repr(tx.r.to_le_bytes()).unwrap();
    let sig_s = Fq::from_repr(tx.s.to_le_bytes()).unwrap();
    let msg_hash = sign_hash(tx, chain_id);
    let v = ((tx.v - 35 - chain_id * 2) % 256) as u8;
    let pk = recover_pk(v, &tx.r, &tx.s, &msg_hash);
    let msg_hash = Fq::from_repr(reversed(&msg_hash)).unwrap();
    SignData { signature: (sig_r, sig_s), pk, msg_hash }
}

/// The signature data of a transaction, or the first reason why it has none.
pub fn try_tx_to_sign_data(tx: &Transaction, chain_id: u64) -> (r: Result<SignData, SignDataError>)
    ensures
        is_outcome(r, sign_data(*tx, chain_id)),
        r is Ok <==> is_signed_transaction(*tx, chain_id),
        r != Err::<SignData, SignDataError>(SignDataError::PublicKey),
        r is Ok ==> tx.r@ != 0 && tx.s@ != 0,
        r matches Ok(data) ==> {
            &&& data.signature.0@ == tx.r@
            &&& data.signature.1@ == tx.s@
            &&& data.msg_hash@ == be_value(signing_hash(*tx, chain_id))
            &&& exists|secret: nat, nonce: nat| #[trigger]
                is_signature(
                    secret,
                    nonce,
                    recovery_id(tx.v, chain_id),
                    data.signature.0@,
                    data.signature.1@,
                    data.msg_hash@,
                )
            &&& forall|secret: nat, nonce: nat| #[trigger]
                is_signature(
                    secret,
                    nonce,
                    recovery_id(tx.v, chain_id),
                    data.signature.0@,
                    data.signature.1@,
                    data.msg_hash@,
                ) ==> Some((data.pk.x@, data.pk.y@)) == generator_multiple(secret)
        },
        r matches Ok(data) ==> forall|secret: nat, nonce: nat| #[trigger]
            is_signed_by(*tx, chain_id, secret, nonce) ==> Some(data.pk@) == generator_multiple(
                secret,
            ),
{
    proof {
        if is_signed_transaction(*tx, chain_id) {
            lemma_signed_transaction_bounds(*tx, chain_id);
            lemma_signed_transaction(*tx, chain_id);
        }
    }
    let msg_hash = sign_hash(tx, chain_id);
    let mut key: Option<[u8; 65]> = None;
    if let Some(id) = extract_recovery_id(tx.v, chain_id) {
        if id < 4 {
            if let Ok(bytes) = recover_public_key(
                id,
                &tx.r.to_be_bytes(),
                &tx.s.to_be_bytes(),
                &msg_hash,
            ) {
                key = Some(bytes);
            }
        }
    }
    match assemble_sign_data(tx, chain_id, &msg_hash, &key) {
        Ok(_) => Ok(tx_to_sign_data(tx, chain_id)),
        Err(error) => Err(error),
    }
}

} // verus!
