//! What the bytes that are signed say of a transaction.
use vstd::prelude::*;

use crate::bytes::{be_value, minimal_be, pow256};
use crate::crypto::keccak256_digest;
use crate::number_laws::law_minimal_be;
use crate::rlp_decoding::{decoded_list, law_decoding_undoes_encoding};
use crate::rlp_stream::{rlp_header, rlp_list, rlp_payload, rlp_string};
use crate::sign_data::{signing_hash, signing_items};
use crate::transaction::{recipient, Transaction};
use crate::tx_circuit::lemma_zero_address;
use crate::u256::{u256_bound, U256};

verus! {

proof fn lemma_minimal_be(n: nat)
    ensures
        be_value(minimal_be(n)) == n,
        n > 0 ==> minimal_be(n).len() > 0,
    decreases n,
{
    if n > 0 {
        lemma_minimal_be(n / 256);
        assert(minimal_be(n).drop_last() =~= minimal_be(n / 256));
    }
}

proof fn lemma_minimal_be_len(n: nat, k: nat)
    requires
        n < pow256(k),
    ensures
        minimal_be(n).len() <= k,
    decreases k,
{
    if n > 0 {
        lemma_minimal_be_len(n / 256, (k - 1) as nat);
    }
}

pub proof fn lemma_length_bytes(len: nat)
    ensures
        minimal_be(len % 0x1_0000_0000).len() <= 4,
        be_value(minimal_be(len % 0x1_0000_0000)) == len % 0x1_0000_0000,
        55 < len < 0x1_0000_0000 ==> minimal_be(len % 0x1_0000_0000).len() > 0,
{
    lemma_minimal_be(len % 0x1_0000_0000);
    assert(pow256(4) == 0x1_0000_0000) by {
        reveal_with_fuel(pow256, 5);
    }
    lemma_minimal_be_len(len % 0x1_0000_0000, 4);
}

/// The first byte of a header says how long the header is, so that what follows it is fixed.
proof fn lemma_header_ends(base: int, len1: nat, x: Seq<u8>, len2: nat, y: Seq<u8>)
    requires
        0 <= base <= 0xc0,
        rlp_header(base, len1) + x == rlp_header(base, len2) + y,
    ensures
        rlp_header(base, len1) == rlp_header(base, len2),
        x == y,
{
    let h1 = rlp_header(base, len1);
    let h2 = rlp_header(base, len2);
    lemma_length_bytes(len1);
    lemma_length_bytes(len2);
    assert((h1 + x)[0] == h1[0]);
    assert((h2 + y)[0] == h2[0]);
    assert(h1.len() == h2.len());
    assert(h1 =~= (h1 + x).take(h1.len() as int));
    assert(h2 =~= (h2 + y).take(h2.len() as int));
    assert(x =~= (h1 + x).skip(h1.len() as int));
    assert(y =~= (h2 + y).skip(h2.len() as int));
}

/// A header says how long the payload is, modulo two to the power 32 where both are long.
proof fn lemma_header_length(base: int, len1: nat, len2: nat)
    requires
        0 <= base <= 0xc0,
        rlp_header(base, len1) == rlp_header(base, len2),
    ensures
        len1 < 0x1_0000_0000 && len2 < 0x1_0000_0000 ==> len1 == len2,
        len1 > 55 && len2 > 55 ==> len1 % 0x1_0000_0000 == len2 % 0x1_0000_0000,
{
    let h1 = rlp_header(base, len1);
    let h2 = rlp_header(base, len2);
    lemma_length_bytes(len1);
    lemma_length_bytes(len2);
    assert(h1[0] == h2[0]);
    if len1 > 55 && len2 > 55 {
        assert(minimal_be(len1 % 0x1_0000_0000) =~= h1.skip(1));
        assert(minimal_be(len2 % 0x1_0000_0000) =~= h2.skip(1));
    }
}

/// The encoding of a byte string is at most five bytes longer than it.
proof fn lemma_string_len(a: Seq<u8>)
    ensures
        a.len() <= rlp_string(a).len() <= a.len() + 5,
        rlp_string(a).len() > 0,
        a.len() <= 55 ==> rlp_string(a).len() <= a.len() + 1,
{
    lemma_length_bytes(a.len());
}

/// An encoded byte string says where it ends, if the lengths of the strings are less than two to
/// the power 32 apart.
proof fn lemma_string_determines(a: Seq<u8>, x: Seq<u8>, b: Seq<u8>, y: Seq<u8>)
    requires
        -0x1_0000_0000 + 64 < a.len() - b.len() < 0x1_0000_0000 - 64,
        rlp_string(a) + x == rlp_string(b) + y,
    ensures
        a == b,
        x == y,
{
    let s = rlp_string(a) + x;
    let t = rlp_string(b) + y;
    lemma_length_bytes(a.len());
    lemma_length_bytes(b.len());
    assert(s[0] == rlp_string(a)[0]);
    assert(t[0] == rlp_string(b)[0]);
    if a.len() == 1 && a[0] < 0x80 {
        assert(a =~= s.take(1));
        assert(b =~= t.take(1));
        assert(x =~= s.skip(1));
        assert(y =~= t.skip(1));
    } else {
        let h1 = rlp_header(0x80, a.len());
        let h2 = rlp_header(0x80, b.len());
        assert(s =~= h1 + (a + x));
        assert(t =~= h2 + (b + y));
        lemma_header_ends(0x80, a.len(), a + x, b.len(), b + y);
        lemma_header_length(0x80, a.len(), b.len());
        assert(a.len() == b.len());
        assert(a =~= (a + x).take(a.len() as int));
        assert(b =~= (b + y).take(b.len() as int));
        assert(x =~= (a + x).skip(a.len() as int));
        assert(y =~= (b + y).skip(b.len() as int));
    }
}

pub proof fn lemma_payload_first(items: Seq<Seq<u8>>)
    requires
        items.len() > 0,
    ensures
        rlp_payload(items) == rlp_string(items[0]) + rlp_payload(items.drop_first()),
    decreases items.len(),
{
    if items.len() == 1 {
        assert(items.drop_last() =~= Seq::empty());
        assert(items.drop_first() =~= Seq::empty());
        assert(rlp_payload(items.drop_last()) =~= Seq::empty());
        assert(items.last() == items[0]);
        assert(rlp_payload(items) =~= rlp_string(items[0]));
        assert(rlp_string(items[0]) + rlp_payload(items.drop_first()) =~= rlp_string(items[0]));
    } else {
        lemma_payload_first(items.drop_last());
        assert(items.drop_last().drop_first() =~= items.drop_first().drop_last());
        assert(rlp_payload(items) =~= rlp_string(items[0]) + rlp_payload(items.drop_first()));
    }
}

/// A payload says what its first item is and what the rest of it is, if the lengths of the items
/// are less than two to the power 32 apart.
proof fn lemma_first_item_determined(a: Seq<Seq<u8>>, b: Seq<Seq<u8>>)
    requires
        a.len() > 0,
        b.len() > 0,
        rlp_payload(a) == rlp_payload(b),
        -0x1_0000_0000 + 64 < a[0].len() - b[0].len() < 0x1_0000_0000 - 64,
    ensures
        a[0] == b[0],
        rlp_payload(a.drop_first()) == rlp_payload(b.drop_first()),
{
    lemma_payload_first(a);
    lemma_payload_first(b);
    lemma_string_determines(
        a[0],
        rlp_payload(a.drop_first()),
        b[0],
        rlp_payload(b.drop_first()),
    );
}

/// An integer of 256 bits has at most 32 bytes.
proof fn lemma_word_len(x: U256)
    ensures
        minimal_be(x@).len() <= 32,
{
    x.lemma_bound();
    assert(pow256(32) == u256_bound()) by {
        reveal_with_fuel(pow256, 33);
    }
    lemma_minimal_be_len(x@, 32);
}

proof fn lemma_minimal_be_len_u64(x: u64)
    ensures
        minimal_be(x as nat).len() <= 8,
{
    assert(pow256(8) == 0x1_0000_0000_0000_0000) by {
        reveal_with_fuel(pow256, 9);
    }
    lemma_minimal_be_len(x as nat, 8);
}

/// What follows the call data is between three and eleven bytes long.
proof fn lemma_tail_len(items: Seq<Seq<u8>>, chain_id: u64)
    requires
        items == seq![minimal_be(chain_id as nat), minimal_be(0), minimal_be(0)],
    ensures
        3 <= rlp_payload(items).len() <= 11,
{
    lemma_minimal_be_len_u64(chain_id);
    lemma_string_len(items[0]);
    let rest = items.drop_first();
    assert(rlp_string(minimal_be(0)).len() == 1);
    lemma_payload_first(items);
    lemma_payload_first(rest);
    lemma_payload_first(rest.drop_first());
    assert(rest[0] == minimal_be(0));
    assert(rest.drop_first()[0] == minimal_be(0));
    assert(rlp_payload(rest.drop_first().drop_first()).len() == 0);
}

/// What is signed does not depend on the sender or on the signature.
pub proof fn law_message_ignores_signature(tx1: Transaction, tx2: Transaction, chain_id: u64)
    requires
        tx1.nonce@ == tx2.nonce@,
        tx1.gas_price@ == tx2.gas_price@,
        tx1.gas@ == tx2.gas@,
        recipient(tx1.to) == recipient(tx2.to),
        tx1.value@ == tx2.value@,
        tx1.data.0@ == tx2.data.0@,
    ensures
        rlp_list(signing_items(tx1, chain_id)) == rlp_list(signing_items(tx2, chain_id)),
{
    assert(signing_items(tx1, chain_id) =~= signing_items(tx2, chain_id));
}

/// What is signed fixes the rest of the transaction and the chain: the same bytes are signed for no
/// other transaction and on no other chain. A transaction without a recipient counts as one to the
/// zero address.
pub proof fn law_message_determines_transaction(
    tx1: Transaction,
    chain_id1: u64,
    tx2: Transaction,
    chain_id2: u64,
)
    requires
        rlp_list(signing_items(tx1, chain_id1)) == rlp_list(signing_items(tx2, chain_id2)),
    ensures
        tx1.nonce@ == tx2.nonce@,
        tx1.gas_price@ == tx2.gas_price@,
        tx1.gas@ == tx2.gas@,
        recipient(tx1.to) == recipient(tx2.to),
        tx1.value@ == tx2.value@,
        tx1.data.0@ == tx2.data.0@,
        chain_id1 == chain_id2,
{
    let a = signing_items(tx1, chain_id1);
    let b = signing_items(tx2, chain_id2);
    lemma_header_ends(
        0xc0,
        rlp_payload(a).len(),
        rlp_payload(a),
        rlp_payload(b).len(),
        rlp_payload(b),
    );
    lemma_word_len(tx1.nonce);
    lemma_word_len(tx2.nonce);
    lemma_word_len(tx1.gas_price);
    lemma_word_len(tx2.gas_price);
    lemma_word_len(tx1.gas);
    lemma_word_len(tx2.gas);
    lemma_word_len(tx1.value);
    lemma_word_len(tx2.value);
    let (a1, b1) = (a.skip(1), b.skip(1));
    let (a2, b2) = (a.skip(2), b.skip(2));
    let (a3, b3) = (a.skip(3), b.skip(3));
    let (a4, b4) = (a.skip(4), b.skip(4));
    let (a5, b5) = (a.skip(5), b.skip(5));
    let (a6, b6) = (a.skip(6), b.skip(6));
    lemma_first_item_determined(a, b);
    assert(a.drop_first() =~= a1 && b.drop_first() =~= b1);
    lemma_first_item_determined(a1, b1);
    assert(a1.drop_first() =~= a2 && b1.drop_first() =~= b2);
    lemma_first_item_determined(a2, b2);
    assert(a2.drop_first() =~= a3 && b2.drop_first() =~= b3);
    lemma_first_item_determined(a3, b3);
    assert(a3.drop_first() =~= a4 && b3.drop_first() =~= b4);
    lemma_first_item_determined(a4, b4);
    assert(a4.drop_first() =~= a5 && b4.drop_first() =~= b5);
    assert(a5.drop_first() =~= a6 && b5.drop_first() =~= b6);
    assert(a6 =~= seq![minimal_be(chain_id1 as nat), minimal_be(0), minimal_be(0)]);
    assert(b6 =~= seq![minimal_be(chain_id2 as nat), minimal_be(0), minimal_be(0)]);
    lemma_tail_len(a6, chain_id1);
    lemma_tail_len(b6, chain_id2);
    lemma_payload_first(a5);
    lemma_payload_first(b5);
    lemma_string_len(a5[0]);
    lemma_string_len(b5[0]);
    assert(rlp_payload(a5).len() == rlp_string(a5[0]).len() + rlp_payload(a6).len());
    assert(rlp_payload(b5).len() == rlp_string(b5[0]).len() + rlp_payload(b6).len());
    lemma_first_item_determined(a5, b5);
    lemma_minimal_be_len_u64(chain_id1);
    lemma_minimal_be_len_u64(chain_id2);
    lemma_first_item_determined(a6, b6);
    lemma_minimal_be(tx1.nonce@);
    lemma_minimal_be(tx2.nonce@);
    lemma_minimal_be(tx1.gas_price@);
    lemma_minimal_be(tx2.gas_price@);
    lemma_minimal_be(tx1.gas@);
    lemma_minimal_be(tx2.gas@);
    lemma_minimal_be(tx1.value@);
    lemma_minimal_be(tx2.value@);
    lemma_minimal_be(chain_id1 as nat);
    lemma_minimal_be(chain_id2 as nat);
}

/// What is signed is the encoding of nine byte strings and no others: the nonce, the gas price, the
/// gas, the recipient, the value, the call data, the chain id, zero and zero. Integers are written
/// in as few bytes as they take; no recipient is written as twenty zeros. The hash is that of the
/// encoding.
pub proof fn law_message_is_encoding_of_fields(
    tx: Transaction,
    chain_id: u64,
    items: Seq<Seq<u8>>,
)
    requires
        items.len() == 9,
        be_value(items[0]) == tx.nonce@,
        be_value(items[1]) == tx.gas_price@,
        be_value(items[2]) == tx.gas@,
        match tx.to {
            Some(address) => items[3] == address.0@,
            None => items[3].len() == 20 && forall|i: int| 0 <= i < 20 ==> items[3][i] == 0,
        },
        be_value(items[4]) == tx.value@,
        items[5] == tx.data.0@,
        be_value(items[6]) == chain_id,
        be_value(items[7]) == 0,
        be_value(items[8]) == 0,
        forall|k: int|
            0 <= k < 9 && k != 3 && k != 5 && items[k].len() > 0 ==> #[trigger] items[k][0] != 0,
    ensures
        rlp_list(signing_items(tx, chain_id)) == rlp_list(items),
        signing_hash(tx, chain_id) == keccak256_digest(rlp_list(items)),
{
    law_minimal_be(tx.nonce@, items[0]);
    law_minimal_be(tx.gas_price@, items[1]);
    law_minimal_be(tx.gas@, items[2]);
    law_minimal_be(tx.value@, items[4]);
    law_minimal_be(chain_id as nat, items[6]);
    law_minimal_be(0, items[7]);
    law_minimal_be(0, items[8]);
    assert(items[3] =~= recipient(tx.to));
    assert(items =~= signing_items(tx, chain_id));
}

/// Decoding what is signed gives each field of the transaction in its place, contract creations
/// included, if the encoded fields take up less than two to the power 32 bytes.
pub proof fn law_message_decodes_to_fields(tx: Transaction, chain_id: u64)
    requires
        rlp_payload(signing_items(tx, chain_id)).len() < 0x1_0000_0000,
    ensures
        decoded_list(rlp_list(signing_items(tx, chain_id))) matches Some(items) && {
            &&& items.len() == 9
            &&& be_value(items[0]) == tx.nonce@
            &&& be_value(items[1]) == tx.gas_price@
            &&& be_value(items[2]) == tx.gas@
            &&& items[3].len() == 20
            &&& tx.to matches Some(address) ==> items[3] == address.0@
            &&& tx.to is None ==> be_value(items[3]) == 0
            &&& be_value(items[4]) == tx.value@
            &&& items[5] == tx.data.0@
            &&& be_value(items[6]) == chain_id
            &&& items[7].len() == 0
            &&& items[8].len() == 0
        },
{
    law_decoding_undoes_encoding(signing_items(tx, chain_id));
    lemma_minimal_be(tx.nonce@);
    lemma_minimal_be(tx.gas_price@);
    lemma_minimal_be(tx.gas@);
    lemma_minimal_be(tx.value@);
    lemma_minimal_be(chain_id as nat);
    lemma_zero_address();
}

} // verus!
