//! Reading recursive length prefix encodings back.
use vstd::prelude::*;

use crate::bytes::{be_value, minimal_be};
use crate::rlp_stream::{rlp_list, rlp_payload, rlp_string};
use crate::signing_laws::{lemma_length_bytes, lemma_payload_first};

verus! {

/// The byte string that `bytes` begin with and what follows it; nothing if they begin with none.
pub open spec fn first_string(bytes: Seq<u8>) -> Option<(Seq<u8>, Seq<u8>)> {
    if bytes.len() == 0 {
        None
    } else if bytes[0] < 0x80 {
        Some((bytes.take(1), bytes.skip(1)))
    } else if bytes[0] < 0xb8 {
        let end = 1 + (bytes[0] - 0x80);
        if end <= bytes.len() {
            Some((bytes.subrange(1, end), bytes.skip(end)))
        } else {
            None
        }
    } else if bytes[0] < 0xc0 {
        let start = 1 + (bytes[0] - 0xb7);
        let end = start + be_value(bytes.subrange(1, start));
        if start <= bytes.len() && end <= bytes.len() {
            Some((bytes.subrange(start, end), bytes.skip(end)))
        } else {
            None
        }
    } else {
        None
    }
}

/// The byte strings that `bytes` are made of; nothing if they are not made of byte strings.
pub open spec fn all_strings(bytes: Seq<u8>) -> Option<Seq<Seq<u8>>>
    decreases bytes.len(),
{
    if bytes.len() == 0 {
        Some(Seq::empty())
    } else {
        match first_string(bytes) {
            Some((item, rest)) => if rest.len() < bytes.len() {
                match all_strings(rest) {
                    Some(items) => Some(seq![item] + items),
                    None => None,
                }
            } else {
                None
            },
            None => None,
        }
    }
}

/// The byte strings in the list that `bytes` encode; nothing if they encode no such list.
pub open spec fn decoded_list(bytes: Seq<u8>) -> Option<Seq<Seq<u8>>> {
    if bytes.len() == 0 {
        None
    } else if 0xc0 <= bytes[0] < 0xf8 {
        if bytes.len() == 1 + (bytes[0] - 0xc0) {
            all_strings(bytes.skip(1))
        } else {
            None
        }
    } else if bytes[0] >= 0xf8 {
        let start = 1 + (bytes[0] - 0xf7);
        if start <= bytes.len() && bytes.len() == start + be_value(bytes.subrange(1, start)) {
            all_strings(bytes.skip(start))
        } else {
            None
        }
    } else {
        None
    }
}

proof fn lemma_first_string(item: Seq<u8>, rest: Seq<u8>)
    requires
        item.len() < 0x1_0000_0000,
    ensures
        first_string(rlp_string(item) + rest) == Some((item, rest)),
        rlp_string(item).len() > 0,
{
    let bytes = rlp_string(item) + rest;
    lemma_length_bytes(item.len());
    if item.len() == 1 && item[0] < 0x80 {
        assert(bytes.take(1) =~= item);
        assert(bytes.skip(1) =~= rest);
    } else if item.len() <= 55 {
        let end = 1 + item.len();
        assert(bytes.subrange(1, end as int) =~= item);
        assert(bytes.skip(end as int) =~= rest);
    } else {
        let length = minimal_be(item.len() % 0x1_0000_0000);
        let start = 1 + length.len();
        let end = start + item.len();
        assert(bytes.subrange(1, start as int) =~= length);
        assert(bytes.subrange(start as int, end as int) =~= item);
        assert(bytes.skip(end as int) =~= rest);
    }
}

proof fn lemma_all_strings(items: Seq<Seq<u8>>)
    requires
        rlp_payload(items).len() < 0x1_0000_0000,
    ensures
        all_strings(rlp_payload(items)) == Some(items),
    decreases items.len(),
{
    if items.len() == 0 {
        assert(items =~= Seq::empty());
    } else {
        lemma_payload_first(items);
        let tail = items.drop_first();
        lemma_length_bytes(items[0].len());
        lemma_all_strings(tail);
        lemma_first_string(items[0], rlp_payload(tail));
        assert(seq![items[0]] + tail =~= items);
    }
}

/// Decoding undoes encoding: the encoding of a list of byte strings says what the strings are, if
/// they and their headers take up less than two to the power 32 bytes.
pub proof fn law_decoding_undoes_encoding(items: Seq<Seq<u8>>)
    requires
        rlp_payload(items).len() < 0x1_0000_0000,
    ensures
        decoded_list(rlp_list(items)) == Some(items),
{
    let payload = rlp_payload(items);
    let bytes = rlp_list(items);
    lemma_length_bytes(payload.len());
    lemma_all_strings(items);
    if payload.len() <= 55 {
        assert(bytes.skip(1) =~= payload);
    } else {
        let length = minimal_be(payload.len() % 0x1_0000_0000);
        let start = 1 + length.len();
        assert(bytes.subrange(1, start as int) =~= length);
        assert(bytes.skip(start as int) =~= payload);
    }
}

} // verus!
