//! Recursive length prefix encoding, written through `rlp::RlpStream`.
use vstd::prelude::*;

use crate::bytes::minimal_be;

verus! {

/// What stands before `len` bytes of payload: one byte `base + len` up to 55 bytes, else the number
/// of length bytes added to `base + 55`, and the length bytes. The length is written as a 32-bit
/// integer.
pub open spec fn rlp_header(base: int, len: nat) -> Seq<u8> {
    if len <= 55 {
        seq![(base + len) as u8]
    } else {
        let length = minimal_be(len % 0x1_0000_0000);
        seq![(base + 55 + length.len()) as u8] + length
    }
}

/// The encoding of a byte string: itself for a single byte below `0x80`, else a header and it.
pub open spec fn rlp_string(bytes: Seq<u8>) -> Seq<u8> {
    if bytes.len() == 1 && bytes[0] < 0x80 {
        bytes
    } else {
        rlp_header(0x80, bytes.len()) + bytes
    }
}

/// The encodings of byte strings one after the other.
pub open spec fn rlp_payload(items: Seq<Seq<u8>>) -> Seq<u8>
    decreases items.len(),
{
    if items.len() == 0 {
        Seq::empty()
    } else {
        rlp_payload(items.drop_last()) + rlp_string(items.last())
    }
}

/// The encoding of a list of byte strings.
pub open spec fn rlp_list(items: Seq<Seq<u8>>) -> Seq<u8> {
    rlp_header(0xc0, rlp_payload(items).len()) + rlp_payload(items)
}

/// The stream of the crate `rlp`. What it holds is named by `rlp_items` and `rlp_capacity`.
#[verifier::external_type_specification]
#[verifier::external_body]
pub struct ExRlpStream(rlp::RlpStream);

/// The byte strings that a stream made as a list has taken.
pub uninterp spec fn rlp_items(stream: rlp::RlpStream) -> Seq<Seq<u8>>;

/// The number of items that a stream made as a list is to take.
pub uninterp spec fn rlp_capacity(stream: rlp::RlpStream) -> nat;

/// Calls `rlp::RlpStream::new_list`. Trusted: the stream is to take `len` items and has none.
#[verifier::external_body]
pub(crate) fn new_list(len: usize) -> (stream: rlp::RlpStream)
    ensures
        rlp_items(stream) == Seq::<Seq<u8>>::empty(),
        rlp_capacity(stream) == len,
{
    rlp::RlpStream::new_list(len)
}

/// Calls `rlp::RlpStream::append` on a byte vector. Trusted: the stream takes the bytes as its
/// next item.
#[verifier::external_body]
pub(crate) fn append_bytes(stream: &mut rlp::RlpStream, bytes: &Vec<u8>)
    requires
        rlp_items(*old(stream)).len() < rlp_capacity(*old(stream)),
    ensures
        rlp_items(*final(stream)) == rlp_items(*old(stream)).push(bytes@),
        rlp_capacity(*final(stream)) == rlp_capacity(*old(stream)),
{
    stream.append(bytes);
}

/// Calls `rlp::RlpStream::append` on a 64-bit integer. Trusted: the stream takes the big-endian
/// bytes of the integer without leading zeros as its next item.
#[verifier::external_body]
pub(crate) fn append_u64(stream: &mut rlp::RlpStream, value: u64)
    requires
        rlp_items(*old(stream)).len() < rlp_capacity(*old(stream)),
    ensures
        rlp_items(*final(stream)) == rlp_items(*old(stream)).push(minimal_be(value as nat)),
        rlp_capacity(*final(stream)) == rlp_capacity(*old(stream)),
{
    stream.append(&value);
}

/// Calls `rlp::RlpStream::append` on a 32-bit integer. Trusted: the stream takes the big-endian
/// bytes of the integer without leading zeros as its next item.
#[verifier::external_body]
pub(crate) fn append_u32(stream: &mut rlp::RlpStream, value: u32)
    requires
        rlp_items(*old(stream)).len() < rlp_capacity(*old(stream)),
    ensures
        rlp_items(*final(stream)) == rlp_items(*old(stream)).push(minimal_be(value as nat)),
        rlp_capacity(*final(stream)) == rlp_capacity(*old(stream)),
{
    stream.append(&value);
}

/// Calls `rlp::RlpStream::out`, which panics on a list that is not full. Trusted: the result is
/// the encoding of the list of the items taken.
#[verifier::external_body]
pub(crate) fn out(stream: rlp::RlpStream) -> (r: Vec<u8>)
    requires
        rlp_items(stream).len() == rlp_capacity(stream),
    ensures
        r@ == rlp_list(rlp_items(stream)),
{
    stream.out().to_vec()
}

} // verus!
