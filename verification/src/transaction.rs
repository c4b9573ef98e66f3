//! Transactions and their parts.
use vstd::prelude::*;

use crate::bytes::{be_value, lemma_be_value_leading_zeros};
use crate::field::Field;
use crate::u256::U256;

verus! {

/// The address of an account: 20 bytes, read as a big-endian integer.
#[derive(Clone, Copy, Debug, PartialEq, Eq)]
pub struct Address(pub [u8; 20]);

impl Address {
    pub fn zero() -> (r: Address)
        ensures
            r.0@ == zero_address(),
            forall|i: int| 0 <= i < 20 ==> r.0@[i] == 0,
    {
        let r = Address([0; 20]);
        proof {
            assert(r.0@ =~= zero_address());
        }
        r
    }

    /// The bytes.
    pub fn to_vec(&self) -> (r: Vec<u8>)
        ensures
            r@ == self.0@,
    {
        let mut r: Vec<u8> = Vec::new();
        let mut i: usize = 0;
        while i < 20
            invariant
                i <= 20,
                r@ =~= self.0@.subrange(0, i as int),
            decreases 20 - i,
        {
            r.push(self.0[i]);
            i = i + 1;
        }
        proof {
            assert(self.0@.subrange(0, 20) =~= self.0@);
        }
        r
    }

    /// The address as an element of the field, if it is small enough to be one.
    pub fn to_scalar(&self, field: &Field) -> (r: Option<U256>)
        ensures
            r is Some <==> field.contains(be_value(self.0@)),
            r is Some <==> be_value(self.0@) < field.modulus@,
            r matches Some(x) ==> x@ == be_value(self.0@),
    {
        let mut bytes: [u8; 32] = [0; 32];
        let mut i: usize = 0;
        while i < 20
            invariant
                i <= 20,
                forall|j: int| 0 <= j < 12 ==> bytes@[j] == 0,
                forall|j: int| 12 <= j < 12 + i ==> bytes@[j] == self.0@[j - 12],
            decreases 20 - i,
        {
            bytes[12 + i] = self.0[i];
            i = i + 1;
        }
        proof {
            assert(bytes@.skip(12) =~= self.0@);
            lemma_be_value_leading_zeros(bytes@, 12);
        }
        let x = U256::from_be_bytes(&bytes);
        if x.less_than(&field.modulus) {
            Some(x)
        } else {
            None
        }
    }
}

/// The bytes of the zero address.
pub open spec fn zero_address() -> Seq<u8> {
    Seq::new(20, |i: int| 0u8)
}

/// The bytes of the recipient, the zero address standing for none.
pub open spec fn recipient(to: Option<Address>) -> Seq<u8> {
    match to {
        Some(address) => address.0@,
        None => zero_address(),
    }
}

/// A byte string.
#[derive(Clone, Debug, PartialEq, Eq)]
pub struct Bytes(pub Vec<u8>);

/// A signed transaction.
#[derive(Clone, Debug)]
pub struct Transaction {
    /// Sender address
    pub from: Address,
    /// Recipient address (None for contract creation)
    pub to: Option<Address>,
    /// Supplied gas
    pub gas: U256,
    /// Gas price
    pub gas_price: U256,
    /// Transferred value
    pub value: U256,
    /// The compiled code of a contract, or the first 4 bytes of the hash of the invoked method's
    /// signature and the encoded parameters
    pub data: Bytes,
    /// Transaction nonce
    pub nonce: U256,
    /// The recovery id of the signature, offset by 35 and twice the chain id
    pub v: u64,
    /// The first half of the signature
    pub r: U256,
    /// The second half of the signature
    pub s: U256,
}

impl Transaction {
    /// The recipient, the zero address standing for none.
    pub fn to_or_zero(&self) -> (r: Address)
        ensures
            r.0@ == recipient(self.to),
            match self.to {
                Some(address) => r.0@ == address.0@,
                None => forall|i: int| 0 <= i < 20 ==> r.0@[i] == 0,
            },
    {
        match self.to {
            Some(address) => address,
            None => Address::zero(),
        }
    }
}

impl Default for Transaction {
    fn default() -> (r: Transaction)
        ensures
            r.from.0@ == zero_address(),
            forall|i: int| 0 <= i < 20 ==> r.from.0@[i] == 0,
            r.to is None,
            r.gas@ == 0,
            r.gas_price@ == 0,
            r.value@ == 0,
            r.data.0@ == Seq::<u8>::empty(),
            r.nonce@ == 0,
            r.v == 0,
            r.r@ == 0,
            r.s@ == 0,
    {
        Transaction {
            from: Address::zero(),
            to: None,
            gas: U256::zero(),
            gas_price: U256::zero(),
            value: U256::zero(),
            data: Bytes(Vec::new()),
            nonce: U256::zero(),
            v: 0,
            r: U256::zero(),
            s: U256::zero(),
        }
    }
}

} // verus!
