use sha3::Digest;
use tx_circuit::field::Field;
use tx_circuit::secp256k1::{base_field, decode_public_key, scalar_field, Fq, Secp256k1Affine};
use tx_circuit::sign_data::{
    assemble_sign_data, extract_recovery_id, recover_pk, sign_hash, signing_message,
    try_recover_pk, try_tx_to_sign_data, tx_to_sign_data, SignDataError,
};
use tx_circuit::transaction::{Address, Bytes, Transaction};
use tx_circuit::u256::U256;

fn hex(s: &str) -> Vec<u8> {
    let digits: Vec<u32> = s.chars().map(|c| c.to_digit(16).unwrap()).collect();
    digits.chunks(2).map(|d| (16 * d[0] + d[1]) as u8).collect()
}

fn hex32(s: &str) -> [u8; 32] {
    let mut bytes = [0u8; 32];
    bytes.copy_from_slice(&hex(s));
    bytes
}

fn word(s: &str) -> U256 {
    U256::from_be_bytes(&hex32(s))
}

/// The transaction that the proposal for chain ids in signatures gives as its example.
fn known_transaction() -> Transaction {
    let mut address = [0u8; 20];
    address.copy_from_slice(&hex("9d8a62f656a8d1615c1294fd71e9cfb3e4855a4f"));
    Transaction {
        from: Address(address),
        to: Some(Address([0x35; 20])),
        gas: U256::from_u64(21_000),
        gas_price: U256::from_u64(20_000_000_000),
        value: U256::from_u64(1_000_000_000_000_000_000),
        data: Bytes(vec![]),
        nonce: U256::from_u64(9),
        v: 37,
        r: word("28ef61340bd939bc2195fe537567866003e1a15d3c71ff63e1590620aa636276"),
        s: word("67cbe9d8997f761aecb703304b3800ccf555c9f3dc64214b297fb1966a3b6d83"),
    }
}

/// The public key of the signer of that transaction.
fn known_key() -> [u8; 65] {
    let secret = libsecp256k1::SecretKey::parse(&[0x46; 32]).unwrap();
    libsecp256k1::PublicKey::from_secret_key(&secret).serialize()
}

fn address_of(pk: &Secp256k1Affine) -> Vec<u8> {
    let mut bytes = pk.x.to_be_bytes().to_vec();
    bytes.extend_from_slice(&pk.y.to_be_bytes());
    sha3::Keccak256::digest(&bytes)[12..].to_vec()
}

#[test]
fn signing_message_of_known_transaction() {
    assert_eq!(
        signing_message(&known_transaction(), 1),
        hex("ec098504a817c800825208943535353535353535353535353535353535353535880de0b6b3a764000080018080"),
    );
}

#[test]
fn signing_message_of_default_transaction() {
    let mut expected = vec![0xdd, 0x80, 0x80, 0x80, 0x94];
    expected.extend_from_slice(&[0; 20]);
    expected.extend_from_slice(&[0x80, 0x80, 0x80, 0x80, 0x80]);
    assert_eq!(signing_message(&Transaction::default(), 0), expected);
}

#[test]
fn signing_message_with_long_data() {
    let mut tx = Transaction::default();
    tx.data = Bytes(vec![7; 300]);
    let message = signing_message(&tx, 0x1234);
    let mut expected = vec![0xf9, 0x01, 0x4d, 0x80, 0x80, 0x80, 0x94];
    expected.extend_from_slice(&[0; 20]);
    expected.extend_from_slice(&[0x80, 0xb9, 0x01, 0x2c]);
    expected.extend_from_slice(&[7; 300]);
    expected.extend_from_slice(&[0x82, 0x12, 0x34, 0x80, 0x80]);
    assert_eq!(message, expected);
}

#[test]
fn single_bytes_of_data_are_told_apart() {
    let mut low = Transaction::default();
    low.data = Bytes(vec![0x7f]);
    let mut high = Transaction::default();
    high.data = Bytes(vec![0x80]);
    let low = signing_message(&low, 1);
    let high = signing_message(&high, 1);
    assert_eq!(low[26..], [0x7f, 0x01, 0x80, 0x80]);
    assert_eq!(high[26..], [0x81, 0x80, 0x01, 0x80, 0x80]);
}

#[test]
fn message_ignores_signature() {
    let tx = known_transaction();
    let mut other = known_transaction();
    other.from = Address([1; 20]);
    other.v = 0;
    other.r = U256::zero();
    other.s = U256::zero();
    assert_eq!(signing_message(&tx, 1), signing_message(&other, 1));
}

#[test]
fn message_tells_transactions_and_chains_apart() {
    let tx = known_transaction();
    let mut other = known_transaction();
    other.nonce = U256::from_u64(10);
    assert_ne!(signing_message(&tx, 1), signing_message(&other, 1));
    assert_ne!(signing_message(&tx, 1), signing_message(&tx, 2));
    let mut to_none = known_transaction();
    to_none.to = None;
    let mut to_zero = known_transaction();
    to_zero.to = Some(Address::zero());
    assert_eq!(signing_message(&to_none, 1), signing_message(&to_zero, 1));
}

#[test]
fn hash_of_known_transaction() {
    assert_eq!(
        sign_hash(&known_transaction(), 1),
        hex32("daf5a779ae972f972197303d7b574746c7ef83eadac0f2791ad23db92e4c8e53"),
    );
}

#[test]
fn sign_data_of_known_transaction() {
    let tx = known_transaction();
    let data = try_tx_to_sign_data(&tx, 1).unwrap();
    assert_eq!(data.signature, (Fq(tx.r), Fq(tx.s)));
    assert_eq!(
        data.msg_hash,
        Fq(word("daf5a779ae972f972197303d7b574746c7ef83eadac0f2791ad23db92e4c8e53")),
    );
    assert_eq!(Some(data.pk), decode_public_key(&known_key()));
    assert_eq!(address_of(&data.pk), tx.from.0.to_vec());
    assert_eq!(tx_to_sign_data(&tx, 1), data);
    assert_eq!(recover_pk(0, &tx.r, &tx.s, &sign_hash(&tx, 1)), data.pk);
}

#[test]
fn other_recovery_id_gives_another_key() {
    let mut tx = known_transaction();
    tx.v = 38;
    let data = try_tx_to_sign_data(&tx, 1).unwrap();
    assert_ne!(address_of(&data.pk), tx.from.0.to_vec());
}

#[test]
fn recovery_id_wraps_at_a_byte() {
    let mut tx = known_transaction();
    tx.v = 37 + 256;
    assert_eq!(try_tx_to_sign_data(&tx, 1), try_tx_to_sign_data(&known_transaction(), 1));
}

#[test]
fn recovery_ids() {
    assert_eq!(extract_recovery_id(37, 1), Some(0));
    assert_eq!(extract_recovery_id(38, 1), Some(1));
    assert_eq!(extract_recovery_id(36, 1), None);
    assert_eq!(extract_recovery_id(35, 0), Some(0));
    assert_eq!(extract_recovery_id(34, 0), None);
    assert_eq!(extract_recovery_id(2709, 1337), Some(0));
    assert_eq!(extract_recovery_id(35 + 2 * 1337 + 255, 1337), Some(255));
    assert_eq!(extract_recovery_id(u64::MAX, u64::MAX), None);
    assert_eq!(extract_recovery_id(u64::MAX, (u64::MAX - 35) / 2), Some(0));
}

#[test]
fn error_signature_r() {
    let mut tx = known_transaction();
    tx.r = scalar_field().modulus;
    tx.s = scalar_field().modulus;
    assert_eq!(try_tx_to_sign_data(&tx, 1), Err(SignDataError::SignatureR));
}

#[test]
fn error_signature_s() {
    let mut tx = known_transaction();
    tx.s = scalar_field().modulus;
    tx.v = 0;
    assert_eq!(try_tx_to_sign_data(&tx, 1), Err(SignDataError::SignatureS));
}

#[test]
fn error_signature_v() {
    let mut tx = known_transaction();
    tx.v = 36;
    assert_eq!(try_tx_to_sign_data(&tx, 1), Err(SignDataError::SignatureV));
}

#[test]
fn error_recovery_id() {
    let mut tx = known_transaction();
    tx.v = 41;
    assert_eq!(try_tx_to_sign_data(&tx, 1), Err(SignDataError::RecoveryId));
}

#[test]
fn error_recovery() {
    let mut tx = known_transaction();
    tx.r = U256::zero();
    assert_eq!(try_tx_to_sign_data(&tx, 1), Err(SignDataError::Recovery));
    tx = known_transaction();
    tx.s = U256::zero();
    assert_eq!(try_tx_to_sign_data(&tx, 1), Err(SignDataError::Recovery));
    tx = known_transaction();
    tx.v = 39;
    assert_eq!(try_tx_to_sign_data(&tx, 1), Err(SignDataError::Recovery));
}

#[test]
fn error_public_key() {
    let mut key = known_key();
    key[64] = key[64].wrapping_add(1);
    let tx = known_transaction();
    let hash = sign_hash(&tx, 1);
    assert_eq!(
        assemble_sign_data(&tx, 1, &hash, &Some(key)),
        Err(SignDataError::PublicKey),
    );
}

#[test]
fn error_msg_hash() {
    let tx = known_transaction();
    assert_eq!(
        assemble_sign_data(&tx, 1, &[0xff; 32], &Some(known_key())),
        Err(SignDataError::MsgHash),
    );
    let order = scalar_field().modulus.to_be_bytes();
    assert_eq!(
        assemble_sign_data(&tx, 1, &order, &Some(known_key())),
        Err(SignDataError::MsgHash),
    );
}

#[test]
fn assembled_from_hash_and_key() {
    let tx = known_transaction();
    let hash = sign_hash(&tx, 1);
    assert_eq!(
        assemble_sign_data(&tx, 1, &hash, &Some(known_key())),
        try_tx_to_sign_data(&tx, 1),
    );
    assert_eq!(assemble_sign_data(&tx, 1, &hash, &None), Err(SignDataError::Recovery));
}

#[test]
fn scalars_are_below_the_order() {
    let order = scalar_field().modulus;
    assert_eq!(Fq::from_repr(order.to_le_bytes()), None);
    let (last, _) = order.overflowing_sub(&U256::from_u64(1));
    assert_eq!(Fq::from_repr(last.to_le_bytes()), Some(Fq(last)));
    assert_eq!(Fq::from_repr([0xff; 32]), None);
    assert_eq!(Fq::from_repr([0; 32]), Some(Fq(U256::zero())));
}

#[test]
fn points() {
    let x = word("79be667ef9dcbbac55a06295ce870b07029bfcdb2dce28d959f2815b16f81798");
    let y = word("483ada7726a3c4655da4fbfc0e1108a8fd17b448a68554199c47d08ffb10d4b8");
    let mut bytes = [0u8; 64];
    bytes[..32].copy_from_slice(&x.to_le_bytes());
    bytes[32..].copy_from_slice(&y.to_le_bytes());
    assert_eq!(Secp256k1Affine::from_bytes(&bytes), Some(Secp256k1Affine { x, y }));
    bytes[0] ^= 1;
    assert_eq!(Secp256k1Affine::from_bytes(&bytes), None);
    assert_eq!(Secp256k1Affine::from_bytes(&[0; 64]), None);
    let field: Field = base_field();
    let mut unreduced = [0u8; 64];
    unreduced[..32].copy_from_slice(&field.modulus.to_le_bytes());
    assert_eq!(Secp256k1Affine::from_bytes(&unreduced), None);
}

#[test]
fn decoding_skips_the_tag() {
    let mut key = known_key();
    assert_eq!(key[0], 4);
    let point = decode_public_key(&key);
    assert!(point.is_some());
    key[0] = 0;
    assert_eq!(decode_public_key(&key), point);
}

#[test]
fn recovery_undoes_signing() {
    for i in 1..9u8 {
        let secret = libsecp256k1::SecretKey::parse(&[i; 32]).unwrap();
        let key = libsecp256k1::PublicKey::from_secret_key(&secret).serialize();
        let hash = [0x11 * i; 32];
        let message = libsecp256k1::Message::parse(&hash);
        let (signature, id) = libsecp256k1::sign(&message, &secret);
        let r = U256::from_be_bytes(&signature.r.b32());
        let s = U256::from_be_bytes(&signature.s.b32());
        let recovered = try_recover_pk(id.serialize(), &r, &s, &hash);
        assert_eq!(recovered, decode_public_key(&key));
        assert_eq!(recovered, Some(recover_pk(id.serialize(), &r, &s, &hash)));
        assert_ne!(try_recover_pk(id.serialize() ^ 1, &r, &s, &hash), recovered);
    }
}

#[test]
fn nothing_to_recover() {
    let tx = known_transaction();
    let hash = sign_hash(&tx, 1);
    assert_eq!(try_recover_pk(4, &tx.r, &tx.s, &hash), None);
    assert_eq!(try_recover_pk(2, &tx.r, &tx.s, &hash), None);
    assert_eq!(try_recover_pk(0, &U256::zero(), &tx.s, &hash), None);
    assert_eq!(try_recover_pk(0, &tx.r, &U256::zero(), &hash), None);
}

#[test]
fn signed_transaction_gives_its_signer() {
    let secret = libsecp256k1::SecretKey::parse(&[7; 32]).unwrap();
    let key = libsecp256k1::PublicKey::from_secret_key(&secret).serialize();
    let mut tx = known_transaction();
    let message = libsecp256k1::Message::parse(&sign_hash(&tx, 1337));
    let (signature, id) = libsecp256k1::sign(&message, &secret);
    tx.r = U256::from_be_bytes(&signature.r.b32());
    tx.s = U256::from_be_bytes(&signature.s.b32());
    tx.v = 35 + 2 * 1337 + id.serialize() as u64;
    assert_eq!(Some(tx_to_sign_data(&tx, 1337).pk), decode_public_key(&key));
    assert_eq!(try_tx_to_sign_data(&tx, 1337), Ok(tx_to_sign_data(&tx, 1337)));
}

#[test]
fn recovered_key_verifies_the_signature() {
    let hash = [0x5a; 32];
    let message = libsecp256k1::Message::parse(&hash);
    let s = U256::from_u64(12_345);
    let mut recovered = 0;
    for i in 1..21u64 {
        let r = U256::from_u64(i);
        for id in 0..4u8 {
            if let Some(pk) = try_recover_pk(id, &r, &s, &hash) {
                let mut key = [4u8; 65];
                key[1..33].copy_from_slice(&pk.x.to_be_bytes());
                key[33..].copy_from_slice(&pk.y.to_be_bytes());
                let key = libsecp256k1::PublicKey::parse(&key).unwrap();
                let mut sig_r = libsecp256k1::curve::Scalar::from_int(0);
                let _ = sig_r.set_b32(&r.to_be_bytes());
                let mut sig_s = libsecp256k1::curve::Scalar::from_int(0);
                let _ = sig_s.set_b32(&s.to_be_bytes());
                let signature = libsecp256k1::Signature { r: sig_r, s: sig_s };
                assert!(libsecp256k1::verify(&message, &signature, &key));
                recovered += 1;
            }
        }
    }
    assert!(recovered > 0);
}

#[test]
fn recovery_takes_the_signature_modulo_the_order() {
    let order = scalar_field().modulus;
    let hash = [0x5a; 32];
    let r = U256::from_u64(1);
    let s = U256::from_u64(12_345);
    let (large_r, r_overflow) = order.overflowing_add(&r);
    let (large_s, s_overflow) = order.overflowing_add(&s);
    assert!(!r_overflow && !s_overflow);
    let pk = try_recover_pk(0, &r, &s, &hash);
    assert!(pk.is_some());
    assert_eq!(try_recover_pk(0, &large_r, &large_s, &hash), pk);
    assert_eq!(try_recover_pk(0, &order, &s, &hash), None);
    assert_eq!(try_recover_pk(0, &r, &order, &hash), None);
    let mut tx = known_transaction();
    tx.s = large_s;
    assert_eq!(try_tx_to_sign_data(&tx, 1), Err(SignDataError::SignatureS));
}
