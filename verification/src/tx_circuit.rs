//! The transaction table: one row for each field of each transaction and for each byte of call
//! data, and the assignments that lay it out in a circuit region.
use vstd::arithmetic::div_mod::lemma_small_mod;
use vstd::prelude::*;

use crate::bytes::{be_value, le_bytes, lemma_be_value_leading_zeros};
use crate::field::{random_linear_combine, rlc, Field};
use crate::secp256k1::generator_multiple;
use crate::sign_data::{
    is_outcome, is_signed_by, is_signed_transaction, sign_data, signing_hash, try_tx_to_sign_data,
    SignData, SignDataError,
};
use crate::transaction::{recipient, zero_address, Transaction};
use crate::u256::U256;

verus! {

/// Which field of a transaction a row holds.
#[derive(Clone, Copy, Debug, PartialEq, Eq, Structural)]
pub enum TxFieldTag {
    Null,
    Nonce,
    Gas,
    GasPrice,
    CallerAddress,
    CalleeAddress,
    IsCreate,
    Value,
    CallDataLength,
    TxSignHash,
    CallData,
}

impl TxFieldTag {
    /// The number that stands for the tag in the table.
    pub open spec fn code(self) -> nat {
        match self {
            TxFieldTag::Null => 0,
            TxFieldTag::Nonce => 1,
            TxFieldTag::Gas => 2,
            TxFieldTag::GasPrice => 3,
            TxFieldTag::CallerAddress => 4,
            TxFieldTag::CalleeAddress => 5,
            TxFieldTag::IsCreate => 6,
            TxFieldTag::Value => 7,
            TxFieldTag::CallDataLength => 8,
            TxFieldTag::TxSignHash => 9,
            TxFieldTag::CallData => 10,
        }
    }

    /// The number that stands for the tag in the table.
    pub fn to_u64(self) -> (r: u64)
        ensures
            r == self.code(),
    {
        match self {
            TxFieldTag::Null => 0,
            TxFieldTag::Nonce => 1,
            TxFieldTag::Gas => 2,
            TxFieldTag::GasPrice => 3,
            TxFieldTag::CallerAddress => 4,
            TxFieldTag::CalleeAddress => 5,
            TxFieldTag::IsCreate => 6,
            TxFieldTag::Value => 7,
            TxFieldTag::CallDataLength => 8,
            TxFieldTag::TxSignHash => 9,
            TxFieldTag::CallData => 10,
        }
    }
}

/// A cell that the signature check has assigned for the transaction of the given position.
#[derive(Clone, Copy, Debug, PartialEq, Eq, Structural)]
pub enum SigVerifCell {
    /// The address of the signer.
    Address(usize),
    /// The random linear combination of the signed hash.
    MsgHashRlc(usize),
}

/// What a row of the table holds.
pub struct Row {
    pub tx_id: nat,
    pub tag: TxFieldTag,
    pub index: nat,
    pub value: nat,
    /// The cell that the value is constrained to equal.
    pub copy_of: Option<SigVerifCell>,
}

/// A row of the table.
#[derive(Clone, Copy, Debug, PartialEq, Eq)]
pub struct TxRow {
    /// The position of the transaction, counted from one; zero for no transaction.
    pub tx_id: usize,
    pub tag: TxFieldTag,
    /// The position in the call data; zero for another field.
    pub index: usize,
    pub value: U256,
    /// The cell that the value is constrained to equal.
    pub copy_of: Option<SigVerifCell>,
}

impl View for TxRow {
    type V = Row;

    open spec fn view(&self) -> Row {
        Row {
            tx_id: self.tx_id as nat,
            tag: self.tag,
            index: self.index as nat,
            value: self.value@,
            copy_of: self.copy_of,
        }
    }
}

/// What the rows hold.
pub open spec fn rows_view(rows: Seq<TxRow>) -> Seq<Row> {
    rows.map_values(|row: TxRow| row@)
}

proof fn lemma_rows_view_push(rows: Seq<TxRow>, row: TxRow)
    ensures
        rows_view(rows.push(row)) == rows_view(rows).push(row@),
{
    assert(rows_view(rows.push(row)) =~= rows_view(rows).push(row@));
}

/// The fields of a transaction that have one row each.
pub struct TxFields {
    pub nonce: nat,
    pub gas: nat,
    pub gas_price: nat,
    pub caller: nat,
    pub callee: nat,
    pub is_create: bool,
    pub value: nat,
    pub call_data_length: nat,
}

pub open spec fn fields_of(tx: Transaction) -> TxFields {
    TxFields {
        nonce: tx.nonce@,
        gas: tx.gas@,
        gas_price: tx.gas_price@,
        caller: be_value(tx.from.0@),
        callee: be_value(recipient(tx.to)),
        is_create: tx.to is None,
        value: tx.value@,
        call_data_length: tx.data.0@.len(),
    }
}

/// The fields where there is no transaction: those of a contract creation with nothing in it.
pub open spec fn absent_fields() -> TxFields {
    TxFields {
        nonce: 0,
        gas: 0,
        gas_price: 0,
        caller: 0,
        callee: 0,
        is_create: true,
        value: 0,
        call_data_length: 0,
    }
}

/// The fields of the transaction at position `i`.
pub open spec fn fields_at(txs: Seq<Transaction>, i: int) -> TxFields {
    if 0 <= i < txs.len() {
        fields_of(txs[i])
    } else {
        absent_fields()
    }
}

/// The tag of the `k`-th row of a transaction.
pub open spec fn field_tag(k: int) -> TxFieldTag {
    if k == 0 {
        TxFieldTag::Nonce
    } else if k == 1 {
        TxFieldTag::Gas
    } else if k == 2 {
        TxFieldTag::GasPrice
    } else if k == 3 {
        TxFieldTag::CallerAddress
    } else if k == 4 {
        TxFieldTag::CalleeAddress
    } else if k == 5 {
        TxFieldTag::IsCreate
    } else if k == 6 {
        TxFieldTag::Value
    } else if k == 7 {
        TxFieldTag::CallDataLength
    } else {
        TxFieldTag::TxSignHash
    }
}

/// The value in the row of a transaction with the given tag. Words are combined with the
/// randomness; `msg_hash_rlc` is the combined hash of the signature check, if it is known.
pub open spec fn field_value(
    tag: TxFieldTag,
    fields: TxFields,
    msg_hash_rlc: Option<U256>,
    randomness: nat,
    modulus: nat,
) -> nat {
    match tag {
        TxFieldTag::Nonce => rlc(le_bytes(fields.nonce, 32), randomness, modulus),
        TxFieldTag::Gas => rlc(le_bytes(fields.gas, 32), randomness, modulus),
        TxFieldTag::GasPrice => rlc(le_bytes(fields.gas_price, 32), randomness, modulus),
        TxFieldTag::CallerAddress => fields.caller,
        TxFieldTag::CalleeAddress => fields.callee,
        TxFieldTag::IsCreate => if fields.is_create {
            1
        } else {
            0
        },
        TxFieldTag::Value => rlc(le_bytes(fields.value, 32), randomness, modulus),
        TxFieldTag::CallDataLength => fields.call_data_length % modulus,
        TxFieldTag::TxSignHash => match msg_hash_rlc {
            Some(x) => x@,
            None => 0,
        },
        _ => 0,
    }
}

/// The cell that the row of the transaction at position `i` with the given tag is tied to.
pub open spec fn field_copy(tag: TxFieldTag, i: int) -> Option<SigVerifCell> {
    match tag {
        TxFieldTag::CallerAddress => Some(SigVerifCell::Address(i as usize)),
        TxFieldTag::TxSignHash => Some(SigVerifCell::MsgHashRlc(i as usize)),
        _ => None,
    }
}

/// The `k`-th row of the transaction at position `i`.
pub open spec fn field_row(
    txs: Seq<Transaction>,
    msg_hash_rlcs: Seq<Option<U256>>,
    randomness: nat,
    modulus: nat,
    i: int,
    k: int,
) -> Row {
    let tag = field_tag(k);
    Row {
        tx_id: (i + 1) as nat,
        tag,
        index: 0,
        value: field_value(tag, fields_at(txs, i), msg_hash_rlcs[i], randomness, modulus),
        copy_of: field_copy(tag, i),
    }
}

/// The rows of the first `n` transactions, call data excepted: nine for each.
pub open spec fn field_rows(
    txs: Seq<Transaction>,
    msg_hash_rlcs: Seq<Option<U256>>,
    randomness: nat,
    modulus: nat,
    n: nat,
) -> Seq<Row> {
    Seq::new(9 * n, |j: int| field_row(txs, msg_hash_rlcs, randomness, modulus, j / 9, j % 9))
}

/// The row of a byte of call data.
pub open spec fn call_data_row(tx_id: nat, index: nat, byte: u8, modulus: nat) -> Row {
    Row { tx_id, tag: TxFieldTag::CallData, index, value: byte as nat % modulus, copy_of: None }
}

/// The rows of the call data of all transactions, one for each byte.
pub open spec fn call_data_rows(txs: Seq<Transaction>, modulus: nat) -> Seq<Row>
    decreases txs.len(),
{
    if txs.len() == 0 {
        Seq::empty()
    } else {
        let data = txs.last().data.0@;
        call_data_rows(txs.drop_last(), modulus) + Seq::new(
            data.len(),
            |j: int| call_data_row(txs.len(), j as nat, data[j], modulus),
        )
    }
}

/// The number of bytes of call data of all transactions.
pub open spec fn total_call_data(txs: Seq<Transaction>) -> nat
    decreases txs.len(),
{
    if txs.len() == 0 {
        0
    } else {
        total_call_data(txs.drop_last()) + txs.last().data.0@.len()
    }
}

pub open spec fn null_row() -> Row {
    Row { tx_id: 0, tag: TxFieldTag::Null, index: 0, value: 0, copy_of: None }
}

/// A row of call data that belongs to no transaction.
pub open spec fn padding_row() -> Row {
    Row { tx_id: 0, tag: TxFieldTag::CallData, index: 0, value: 0, copy_of: None }
}

/// The table: an empty row, the fields of `max_txs` transactions, the call data, and empty call
/// data up to `max_calldata` rows.
pub open spec fn table_rows(
    txs: Seq<Transaction>,
    msg_hash_rlcs: Seq<Option<U256>>,
    randomness: nat,
    modulus: nat,
    max_txs: nat,
    max_calldata: nat,
) -> Seq<Row> {
    seq![null_row()] + field_rows(txs, msg_hash_rlcs, randomness, modulus, max_txs)
        + call_data_rows(txs, modulus) + Seq::new(
        (max_calldata - total_call_data(txs)) as nat,
        |j: int| padding_row(),
    )
}

/// A column of the table.
#[derive(Clone, Copy, Debug, PartialEq, Eq, Structural)]
pub enum TxColumn {
    TxId,
    Tag,
    Index,
    Value,
}

/// A cell of the table: a column and the offset of a row.
#[derive(Clone, Copy, Debug, PartialEq, Eq, Structural)]
pub struct TxCell {
    pub column: TxColumn,
    pub offset: usize,
}

/// An operation on a circuit region.
pub enum Op {
    Assign { column: TxColumn, offset: nat, value: nat },
    Constrain { column: TxColumn, offset: nat, cell: SigVerifCell },
}

/// An operation on a circuit region.
#[derive(Clone, Copy, Debug, PartialEq, Eq)]
pub enum RegionOp {
    /// Assign a value to a cell.
    AssignAdvice { cell: TxCell, value: U256 },
    /// Constrain a cell to equal one that the signature check has assigned.
    ConstrainEqual { cell: TxCell, target: SigVerifCell },
}

impl View for RegionOp {
    type V = Op;

    open spec fn view(&self) -> Op {
        match *self {
            RegionOp::AssignAdvice { cell, value } => Op::Assign {
                column: cell.column,
                offset: cell.offset as nat,
                value: value@,
            },
            RegionOp::ConstrainEqual { cell, target } => Op::Constrain {
                column: cell.column,
                offset: cell.offset as nat,
                cell: target,
            },
        }
    }
}

/// What the operations do.
pub open spec fn ops_view(ops: Seq<RegionOp>) -> Seq<Op> {
    ops.map_values(|op: RegionOp| op@)
}

proof fn lemma_ops_view_push(ops: Seq<RegionOp>, op: RegionOp)
    ensures
        ops_view(ops.push(op)) == ops_view(ops).push(op@),
{
    assert(ops_view(ops.push(op)) =~= ops_view(ops).push(op@));
}

/// The four assignments of a row.
pub open spec fn row_assignments(
    offset: nat,
    tx_id: nat,
    tag: TxFieldTag,
    index: nat,
    value: nat,
    modulus: nat,
) -> Seq<Op> {
    seq![
        Op::Assign { column: TxColumn::TxId, offset, value: tx_id % modulus },
        Op::Assign { column: TxColumn::Tag, offset, value: tag.code() % modulus },
        Op::Assign { column: TxColumn::Index, offset, value: index % modulus },
        Op::Assign { column: TxColumn::Value, offset, value },
    ]
}

/// The operations of a row: its assignments and then its constraint, if it has one.
pub open spec fn row_ops(offset: nat, row: Row, modulus: nat) -> Seq<Op> {
    let assignments = row_assignments(offset, row.tx_id, row.tag, row.index, row.value, modulus);
    match row.copy_of {
        Some(cell) => assignments.push(Op::Constrain { column: TxColumn::Value, offset, cell }),
        None => assignments,
    }
}

/// The operations that lay out rows from offset zero on.
pub open spec fn region_ops(rows: Seq<Row>, modulus: nat) -> Seq<Op>
    decreases rows.len(),
{
    if rows.len() == 0 {
        Seq::empty()
    } else {
        region_ops(rows.drop_last(), modulus) + row_ops(
            (rows.len() - 1) as nat,
            rows.last(),
            modulus,
        )
    }
}

/// Assigns a row of the table and returns the cell of the value in the row.
pub fn assign_row(
    ops: &mut Vec<RegionOp>,
    field: &Field,
    offset: usize,
    tx_id: usize,
    tag: TxFieldTag,
    index: usize,
    value: U256,
) -> (cell: TxCell)
    requires
        field.wf(),
    ensures
        cell == (TxCell { column: TxColumn::Value, offset }),
        ops_view(final(ops)@) == ops_view(old(ops)@) + row_assignments(
            offset as nat,
            tx_id as nat,
            tag,
            index as nat,
            value@,
            field.modulus@,
        ),
        final(ops)@.len() == old(ops)@.len() + 4,
        final(ops)@.take(old(ops)@.len() as int) == old(ops)@,
        final(ops)@[old(ops)@.len() as int] matches RegionOp::AssignAdvice { cell: c, value: x }
            && c == (TxCell { column: TxColumn::TxId, offset }) && x@ == tx_id as nat
            % field.modulus@,
        final(ops)@[old(ops)@.len() as int + 1] matches RegionOp::AssignAdvice { cell: c, value: x }
            && c == (TxCell { column: TxColumn::Tag, offset }) && x@ == tag.code() % field.modulus@,
        final(ops)@[old(ops)@.len() as int + 2] matches RegionOp::AssignAdvice { cell: c, value: x }
            && c == (TxCell { column: TxColumn::Index, offset }) && x@ == index as nat % field.modulus@,
        final(ops)@[old(ops)@.len() as int + 3] == (RegionOp::AssignAdvice { cell, value }),
{
    ops.push(
        RegionOp::AssignAdvice {
            cell: TxCell { column: TxColumn::TxId, offset },
            value: field.from_u64(tx_id as u64),
        },
    );
    ops.push(
        RegionOp::AssignAdvice {
            cell: TxCell { column: TxColumn::Tag, offset },
            value: field.from_u64(tag.to_u64()),
        },
    );
    ops.push(
        RegionOp::AssignAdvice {
            cell: TxCell { column: TxColumn::Index, offset },
            value: field.from_u64(index as u64),
        },
    );
    let cell = TxCell { column: TxColumn::Value, offset };
    ops.push(RegionOp::AssignAdvice { cell, value });
    proof {
        assert(ops_view(ops@) =~= ops_view(old(ops)@) + row_assignments(
            offset as nat,
            tx_id as nat,
            tag,
            index as nat,
            value@,
            field.modulus@,
        ));
        assert(ops@.take(old(ops)@.len() as int) =~= old(ops)@);
    }
    cell
}

/// An operation on a constraint system.
#[derive(Clone, Copy, Debug, PartialEq, Eq, Structural)]
pub enum ConfigOp {
    /// Allocate an advice column for a column of the table.
    AdviceColumn(TxColumn),
    /// Allow the cells of a column of the table to be constrained equal to others.
    EnableEquality(TxColumn),
    /// Allocate the instance column of a power of the randomness, the first being number zero.
    InstanceColumn(usize),
    /// Add a polynomial identity that queries all instance columns in its own row and demands
    /// nothing: the constant zero is zero.
    PowerOfRandomnessGate,
}

/// The operations that set a constraint system up for the table, with instance columns for
/// `pow_rand_size` powers of the randomness.
pub open spec fn config_ops(pow_rand_size: nat) -> Seq<ConfigOp> {
    seq![
        ConfigOp::AdviceColumn(TxColumn::TxId),
        ConfigOp::AdviceColumn(TxColumn::Tag),
        ConfigOp::AdviceColumn(TxColumn::Index),
        ConfigOp::AdviceColumn(TxColumn::Value),
        ConfigOp::EnableEquality(TxColumn::Value),
    ] + Seq::new(pow_rand_size, |i: int| ConfigOp::InstanceColumn(i as usize)) + seq![
        ConfigOp::PowerOfRandomnessGate,
    ]
}

/// The circuit of the transaction table: room for `MAX_TXS` transactions with `MAX_CALLDATA` bytes
/// of call data between them.
#[derive(Clone, Debug)]
pub struct TxCircuit<const MAX_TXS: usize, const MAX_CALLDATA: usize> {
    /// The field that the circuit is built over.
    pub field: Field,
    /// The randomness that combines the bytes of a word.
    pub randomness: U256,
    pub txs: Vec<Transaction>,
    pub chain_id: u64,
}

impl<const MAX_TXS: usize, const MAX_CALLDATA: usize> TxCircuit<MAX_TXS, MAX_CALLDATA> {
    /// The field is one, and the randomness is an element of it.
    pub open spec fn wf(&self) -> bool {
        &&& self.field.wf()
        &&& self.field.contains(self.randomness@)
    }

    /// There is room for the transactions and their call data, and their addresses are elements of
    /// the field.
    pub open spec fn fits(&self) -> bool {
        &&& self.txs@.len() <= MAX_TXS
        &&& total_call_data(self.txs@) <= MAX_CALLDATA
        &&& forall|i: int|
            0 <= i < self.txs@.len() ==> {
                &&& self.field.contains(be_value((#[trigger] self.txs@[i]).from.0@))
                &&& self.field.contains(be_value(recipient(self.txs@[i].to)))
            }
    }

    /// The signature check has yielded a hash for each place, unknown or an element of the field.
    pub open spec fn accepts(&self, msg_hash_rlcs: Seq<Option<U256>>) -> bool {
        &&& msg_hash_rlcs.len() >= MAX_TXS
        &&& forall|i: int|
            0 <= i < msg_hash_rlcs.len() ==> ((#[trigger] msg_hash_rlcs[i]) matches Some(x)
                ==> self.field.contains(x@))
    }

    /// The rows of the table.
    pub open spec fn rows(&self, msg_hash_rlcs: Seq<Option<U256>>) -> Seq<Row> {
        table_rows(
            self.txs@,
            msg_hash_rlcs,
            self.randomness@,
            self.field.modulus@,
            MAX_TXS as nat,
            MAX_CALLDATA as nat,
        )
    }
}

/// The zero address is the integer zero.
pub proof fn lemma_zero_address()
    ensures
        be_value(zero_address()) == 0,
{
    lemma_be_value_leading_zeros(zero_address(), 20);
    assert(zero_address().skip(20) =~= Seq::<u8>::empty());
}

proof fn lemma_total_call_data_prefix(txs: Seq<Transaction>, i: int)
    requires
        0 <= i <= txs.len(),
    ensures
        total_call_data(txs.take(i)) <= total_call_data(txs),
        i < txs.len() ==> total_call_data(txs.take(i + 1)) == total_call_data(txs.take(i))
            + txs[i].data.0@.len(),
    decreases txs.len(),
{
    if i == txs.len() {
        assert(txs.take(i) =~= txs);
    } else {
        lemma_total_call_data_prefix(txs.drop_last(), i);
        assert(txs.drop_last().take(i) =~= txs.take(i));
        assert(txs.take(i + 1).drop_last() =~= txs.take(i));
    }
}

/// The rows of call data are as many as the bytes.
pub proof fn lemma_call_data_rows_len(txs: Seq<Transaction>, modulus: nat)
    ensures
        call_data_rows(txs, modulus).len() == total_call_data(txs),
    decreases txs.len(),
{
    if txs.len() > 0 {
        lemma_call_data_rows_len(txs.drop_last(), modulus);
    }
}

fn push_call_data(rows: &mut Vec<TxRow>, field: &Field, tx_id: usize, data: &Vec<u8>)
    requires
        field.wf(),
    ensures
        rows_view(final(rows)@) == rows_view(old(rows)@) + Seq::new(
            data@.len(),
            |j: int| call_data_row(tx_id as nat, j as nat, data@[j], field.modulus@),
        ),
{
    let ghost all = Seq::new(
        data@.len(),
        |j: int| call_data_row(tx_id as nat, j as nat, data@[j], field.modulus@),
    );
    let mut index: usize = 0;
    while index < data.len()
        invariant
            index <= data@.len(),
            field.wf(),
            all == Seq::new(
                data@.len(),
                |j: int| call_data_row(tx_id as nat, j as nat, data@[j], field.modulus@),
            ),
            rows_view(rows@) =~= rows_view(old(rows)@) + all.take(index as int),
        decreases data@.len() - index,
    {
        let row = TxRow {
            tx_id,
            tag: TxFieldTag::CallData,
            index,
            value: field.from_u64(data[index] as u64),
            copy_of: None,
        };
        proof {
            lemma_rows_view_push(rows@, row);
            assert(all[index as int] == row@);
            assert(all.take(index + 1) =~= all.take(index as int).push(row@));
        }
        rows.push(row);
        index = index + 1;
    }
    proof {
        assert(all.take(data@.len() as int) =~= all);
    }
}

fn push_padding(rows: &mut Vec<TxRow>, count: usize)
    ensures
        rows_view(final(rows)@) == rows_view(old(rows)@) + Seq::new(
            count as nat,
            |j: int| padding_row(),
        ),
{
    let mut i: usize = 0;
    while i < count
        invariant
            i <= count,
            rows_view(rows@) =~= rows_view(old(rows)@) + Seq::new(
                i as nat,
                |j: int| padding_row(),
            ),
        decreases count - i,
    {
        let row = TxRow {
            tx_id: 0,
            tag: TxFieldTag::CallData,
            index: 0,
            value: U256::zero(),
            copy_of: None,
        };
        proof {
            lemma_rows_view_push(rows@, row);
        }
        rows.push(row);
        i = i + 1;
    }
}

impl<const MAX_TXS: usize, const MAX_CALLDATA: usize> TxCircuit<MAX_TXS, MAX_CALLDATA> {
    /// The same circuit with nothing to prove: no transactions, no randomness.
    pub fn without_witnesses(&self) -> (r: Self)
        ensures
            r.field == self.field,
            r.randomness@ == 0,
            r.txs@ == Seq::<Transaction>::empty(),
            r.chain_id == 0,
            self.wf() ==> r.wf() && r.fits(),
    {
        TxCircuit { field: self.field, randomness: U256::zero(), txs: Vec::new(), chain_id: 0 }
    }

    /// The operations that set a constraint system up for the table, in their order.
    pub fn configure(pow_rand_size: usize) -> (ops: Vec<ConfigOp>)
        ensures
            ops@ == config_ops(pow_rand_size as nat),
            ops@.len() == pow_rand_size + 6,
            forall|i: int|
                0 <= i < pow_rand_size ==> #[trigger] ops@[5 + i] == ConfigOp::InstanceColumn(
                    i as usize,
                ),
    {
        let mut ops: Vec<ConfigOp> = Vec::new();
        ops.push(ConfigOp::AdviceColumn(TxColumn::TxId));
        ops.push(ConfigOp::AdviceColumn(TxColumn::Tag));
        ops.push(ConfigOp::AdviceColumn(TxColumn::Index));
        ops.push(ConfigOp::AdviceColumn(TxColumn::Value));
        ops.push(ConfigOp::EnableEquality(TxColumn::Value));
        let ghost table_columns = ops@;
        let mut i: usize = 0;
        while i < pow_rand_size
            invariant
                i <= pow_rand_size,
                ops@ =~= table_columns + Seq::new(
                    i as nat,
                    |i: int| ConfigOp::InstanceColumn(i as usize),
                ),
            decreases pow_rand_size - i,
        {
            ops.push(ConfigOp::InstanceColumn(i));
            i = i + 1;
        }
        ops.push(ConfigOp::PowerOfRandomnessGate);
        proof {
            assert(ops@ =~= config_ops(pow_rand_size as nat));
        }
        ops
    }

    /// The tags and values of the rows of a transaction, call data excepted.
    fn field_values(&self, tx: &Transaction, msg_hash_rlc: &Option<U256>) -> (r: [(
        TxFieldTag,
        U256,
    ); 9])
        requires
            self.wf(),
            self.field.contains(be_value(tx.from.0@)),
            self.field.contains(be_value(recipient(tx.to))),
        ensures
            forall|k: int|
                #![trigger r@[k]]
                0 <= k < 9 ==> r@[k].0 == field_tag(k) && r@[k].1@ == field_value(
                    field_tag(k),
                    fields_of(*tx),
                    *msg_hash_rlc,
                    self.randomness@,
                    self.field.modulus@,
                ),
    {
        let field = &self.field;
        let randomness = &self.randomness;
        proof {
            lemma_small_mod(0nat, field.modulus@);
            lemma_small_mod(1nat, field.modulus@);
        }
        [
            (
                TxFieldTag::Nonce,
                random_linear_combine(field, tx.nonce.to_le_bytes(), randomness),
            ),
            (TxFieldTag::Gas, random_linear_combine(field, tx.gas.to_le_bytes(), randomness)),
            (
                TxFieldTag::GasPrice,
                random_linear_combine(field, tx.gas_price.to_le_bytes(), randomness),
            ),
            (TxFieldTag::CallerAddress, tx.from.to_scalar(field).unwrap()),
            (TxFieldTag::CalleeAddress, tx.to_or_zero().to_scalar(field).unwrap()),
            (
                TxFieldTag::IsCreate,
                field.from_u64(
                    if tx.to.is_none() {
                        1
                    } else {
                        0
                    },
                ),
            ),
            (TxFieldTag::Value, random_linear_combine(field, tx.value.to_le_bytes(), randomness)),
            (TxFieldTag::CallDataLength, field.from_u64(tx.data.0.len() as u64)),
            (
                TxFieldTag::TxSignHash,
                match msg_hash_rlc {
                    Some(x) => *x,
                    None => U256::zero(),
                },
            ),
        ]
    }

    /// Appends the rows of the transaction at position `i`, call data excepted.
    fn push_field_rows(
        &self,
        rows: &mut Vec<TxRow>,
        i: usize,
        msg_hash_rlcs: &Vec<Option<U256>>,
    )
        requires
            self.wf(),
            self.fits(),
            self.accepts(msg_hash_rlcs@),
            i < MAX_TXS,
        ensures
            rows_view(final(rows)@) == rows_view(old(rows)@) + Seq::new(
                9,
                |k: int|
                    field_row(
                        self.txs@,
                        msg_hash_rlcs@,
                        self.randomness@,
                        self.field.modulus@,
                        i as int,
                        k,
                    ),
            ),
    {
        let ghost all = Seq::new(
            9,
            |k: int|
                field_row(
                    self.txs@,
                    msg_hash_rlcs@,
                    self.randomness@,
                    self.field.modulus@,
                    i as int,
                    k,
                ),
        );
        let tx_default = Transaction::default();
        proof {
            lemma_zero_address();
        }
        let tx = if i < self.txs.len() {
            &self.txs[i]
        } else {
            &tx_default
        };
        let values = self.field_values(tx, &msg_hash_rlcs[i]);
        let mut k: usize = 0;
        while k < 9
            invariant
                k <= 9,
                i < MAX_TXS,
                fields_of(*tx) == fields_at(self.txs@, i as int),
                forall|k: int|
                    #![trigger values@[k]]
                    0 <= k < 9 ==> values@[k].0 == field_tag(k) && values@[k].1@ == field_value(
                        field_tag(k),
                        fields_of(*tx),
                        msg_hash_rlcs@[i as int],
                        self.randomness@,
                        self.field.modulus@,
                    ),
                all == Seq::new(
                    9,
                    |k: int|
                        field_row(
                            self.txs@,
                            msg_hash_rlcs@,
                            self.randomness@,
                            self.field.modulus@,
                            i as int,
                            k,
                        ),
                ),
                rows_view(rows@) =~= rows_view(old(rows)@) + all.take(k as int),
            decreases 9 - k,
        {
            let (tag, value) = values[k];
            let copy_of = match tag {
                TxFieldTag::CallerAddress => Some(SigVerifCell::Address(i)),
                TxFieldTag::TxSignHash => Some(SigVerifCell::MsgHashRlc(i)),
                _ => None,
            };
            let row = TxRow { tx_id: i + 1, tag, index: 0, value, copy_of };
            proof {
                lemma_rows_view_push(rows@, row);
                assert(all[k as int] == row@);
                assert(all.take(k + 1) =~= all.take(k as int).push(row@));
            }
            rows.push(row);
            k = k + 1;
        }
        proof {
            assert(all.take(9) =~= all);
        }
    }

    /// The rows of the table, given the combined hashes that the signature check has yielded.
    pub fn tx_table(&self, msg_hash_rlcs: &Vec<Option<U256>>) -> (rows: Vec<TxRow>)
        requires
            self.wf(),
            self.fits(),
            self.accepts(msg_hash_rlcs@),
        ensures
            rows_view(rows@) == self.rows(msg_hash_rlcs@),
    {
        let ghost txs = self.txs@;
        let ghost hashes = msg_hash_rlcs@;
        let ghost r = self.randomness@;
        let ghost m = self.field.modulus@;
        let mut rows: Vec<TxRow> = Vec::new();
        rows.push(
            TxRow {
                tx_id: 0,
                tag: TxFieldTag::Null,
                index: 0,
                value: U256::zero(),
                copy_of: None,
            },
        );
        let mut i: usize = 0;
        while i < MAX_TXS
            invariant
                i <= MAX_TXS,
                self.wf(),
                self.fits(),
                self.accepts(msg_hash_rlcs@),
                txs == self.txs@,
                hashes == msg_hash_rlcs@,
                r == self.randomness@,
                m == self.field.modulus@,
                rows_view(rows@) =~= seq![null_row()] + field_rows(txs, hashes, r, m, i as nat),
            decreases MAX_TXS - i,
        {
            self.push_field_rows(&mut rows, i, msg_hash_rlcs);
            proof {
                assert(field_rows(txs, hashes, r, m, (i + 1) as nat) =~= field_rows(
                    txs,
                    hashes,
                    r,
                    m,
                    i as nat,
                ) + Seq::new(9, |k: int| field_row(txs, hashes, r, m, i as int, k)));
            }
            i = i + 1;
        }
        let ghost head = rows_view(rows@);
        let mut call_data_count: usize = 0;
        let mut t: usize = 0;
        proof {
            assert(call_data_rows(txs.take(0), m) =~= Seq::empty());
        }
        while t < self.txs.len()
            invariant
                t <= self.txs@.len(),
                self.wf(),
                self.fits(),
                txs == self.txs@,
                m == self.field.modulus@,
                call_data_count == total_call_data(txs.take(t as int)),
                call_data_count <= MAX_CALLDATA,
                rows_view(rows@) =~= head + call_data_rows(txs.take(t as int), m),
            decreases self.txs@.len() - t,
        {
            let data = &self.txs[t].data.0;
            push_call_data(&mut rows, &self.field, t + 1, data);
            proof {
                lemma_total_call_data_prefix(txs, t as int);
                lemma_total_call_data_prefix(txs, t + 1);
                assert(txs.take(t + 1).drop_last() =~= txs.take(t as int));
            }
            call_data_count = call_data_count + data.len();
            t = t + 1;
        }
        proof {
            assert(txs.take(txs.len() as int) =~= txs);
        }
        push_padding(&mut rows, MAX_CALLDATA - call_data_count);
        rows
    }

    /// The operations that lay the table out in a region, in their order.
    pub fn synthesize(&self, msg_hash_rlcs: &Vec<Option<U256>>) -> (ops: Vec<RegionOp>)
        requires
            self.wf(),
            self.fits(),
            self.accepts(msg_hash_rlcs@),
        ensures
            ops_view(ops@) == region_ops(self.rows(msg_hash_rlcs@), self.field.modulus@),
    {
        let rows = self.tx_table(msg_hash_rlcs);
        let ghost all = self.rows(msg_hash_rlcs@);
        let ghost m = self.field.modulus@;
        let mut ops: Vec<RegionOp> = Vec::new();
        let mut offset: usize = 0;
        proof {
            assert(all.take(0) =~= Seq::empty());
        }
        while offset < rows.len()
            invariant
                offset <= rows@.len(),
                self.field.wf(),
                rows_view(rows@) == all,
                m == self.field.modulus@,
                ops_view(ops@) =~= region_ops(all.take(offset as int), m),
            decreases rows@.len() - offset,
        {
            let row = rows[offset];
            proof {
                assert(all[offset as int] == row@);
                assert(all.take(offset + 1).drop_last() =~= all.take(offset as int));
            }
            let cell = assign_row(
                &mut ops,
                &self.field,
                offset,
                row.tx_id,
                row.tag,
                row.index,
                row.value,
            );
            if let Some(target) = row.copy_of {
                let op = RegionOp::ConstrainEqual { cell, target };
                proof {
                    lemma_ops_view_push(ops@, op);
                }
                ops.push(op);
            }
            offset = offset + 1;
        }
        proof {
            assert(all.take(all.len() as int) =~= all);
        }
        ops
    }

    /// Whether there is room for the transactions and their call data, and their addresses are
    /// elements of the field.
    pub fn check_fits(&self) -> (r: bool)
        ensures
            r == self.fits(),
    {
        let ghost txs = self.txs@;
        if self.txs.len() > MAX_TXS {
            return false;
        }
        let mut call_data_count: usize = 0;
        let mut i: usize = 0;
        while i < self.txs.len()
            invariant
                i <= txs.len(),
                txs == self.txs@,
                txs.len() <= MAX_TXS,
                call_data_count == total_call_data(txs.take(i as int)),
                call_data_count <= MAX_CALLDATA,
                forall|j: int|
                    0 <= j < i ==> {
                        &&& self.field.contains(be_value((#[trigger] txs[j]).from.0@))
                        &&& self.field.contains(be_value(recipient(txs[j].to)))
                    },
            decreases txs.len() - i,
        {
            let tx = &self.txs[i];
            proof {
                lemma_total_call_data_prefix(txs, i as int);
                lemma_total_call_data_prefix(txs, i + 1);
                assert(*tx == txs[i as int]);
            }
            if tx.data.0.len() > MAX_CALLDATA - call_data_count {
                return false;
            }
            if tx.from.to_scalar(&self.field).is_none() {
                return false;
            }
            if tx.to_or_zero().to_scalar(&self.field).is_none() {
                return false;
            }
            call_data_count = call_data_count + tx.data.0.len();
            i = i + 1;
        }
        proof {
            assert(txs.take(txs.len() as int) =~= txs);
        }
        true
    }

    /// Whether there is a hash for each place, unknown or an element of the field.
    pub fn check_accepts(&self, msg_hash_rlcs: &Vec<Option<U256>>) -> (r: bool)
        ensures
            r == self.accepts(msg_hash_rlcs@),
    {
        if msg_hash_rlcs.len() < MAX_TXS {
            return false;
        }
        let mut i: usize = 0;
        while i < msg_hash_rlcs.len()
            invariant
                i <= msg_hash_rlcs@.len(),
                msg_hash_rlcs@.len() >= MAX_TXS,
                forall|j: int|
                    0 <= j < i ==> ((#[trigger] msg_hash_rlcs@[j]) matches Some(x)
                        ==> self.field.contains(x@)),
            decreases msg_hash_rlcs@.len() - i,
        {
            if let Some(x) = msg_hash_rlcs[i] {
                if !x.less_than(&self.field.modulus) {
                    proof {
                        assert(msg_hash_rlcs@[i as int] == Some(x));
                    }
                    return false;
                }
            }
            i = i + 1;
        }
        true
    }

    /// The operations that lay the table out in a region, in their order; nothing if the
    /// transactions do not fit or the hashes are not acceptable.
    pub fn try_synthesize(&self, msg_hash_rlcs: &Vec<Option<U256>>) -> (r: Option<Vec<RegionOp>>)
        requires
            self.wf(),
        ensures
            r is Some <==> self.fits() && self.accepts(msg_hash_rlcs@),
            r matches Some(ops) ==> ops_view(ops@) == region_ops(
                self.rows(msg_hash_rlcs@),
                self.field.modulus@,
            ),
    {
        if self.check_fits() && self.check_accepts(msg_hash_rlcs) {
            Some(self.synthesize(msg_hash_rlcs))
        } else {
            None
        }
    }

    /// The signature data of the transactions, or the reason why the first transaction that has
    /// none has none.
    pub fn sign_datas(&self) -> (r: Result<Vec<SignData>, SignDataError>)
        ensures
            r is Ok <==> forall|i: int|
                0 <= i < self.txs@.len() ==> is_signed_transaction(
                    #[trigger] self.txs@[i],
                    self.chain_id,
                ),
            match r {
                Ok(datas) => {
                    &&& datas@.len() == self.txs@.len()
                    &&& forall|i: int|
                        #![trigger datas@[i]]
                        0 <= i < self.txs@.len() ==> {
                            &&& datas@[i].signature.0@ == self.txs@[i].r@
                            &&& datas@[i].signature.1@ == self.txs@[i].s@
                            &&& datas@[i].msg_hash@ == be_value(
                                signing_hash(self.txs@[i], self.chain_id),
                            )
                        }
                    &&& forall|i: int|
                        0 <= i < self.txs@.len() ==> is_outcome(
                            Ok(#[trigger] datas@[i]),
                            sign_data(self.txs@[i], self.chain_id),
                        )
                    &&& forall|i: int, secret: nat, nonce: nat|
                        #![trigger is_signed_by(self.txs@[i], self.chain_id, secret, nonce)]
                        0 <= i < self.txs@.len() && is_signed_by(
                            self.txs@[i],
                            self.chain_id,
                            secret,
                            nonce,
                        ) ==> Some(datas@[i].pk@) == generator_multiple(secret)
                },
                Err(error) => exists|i: int|
                    {
                        &&& 0 <= i < self.txs@.len()
                        &&& is_outcome(
                            Err(error),
                            sign_data(#[trigger] self.txs@[i], self.chain_id),
                        )
                        &&& forall|j: int|
                            0 <= j < i ==> sign_data(
                                #[trigger] self.txs@[j],
                                self.chain_id,
                            ) is Ok
                    },
            },
    {
        let mut datas: Vec<SignData> = Vec::new();
        let mut i: usize = 0;
        while i < self.txs.len()
            invariant
                i <= self.txs@.len(),
                datas@.len() == i,
                forall|j: int|
                    #![trigger datas@[j]]
                    0 <= j < i ==> {
                        &&& datas@[j].signature.0@ == self.txs@[j].r@
                        &&& datas@[j].signature.1@ == self.txs@[j].s@
                        &&& datas@[j].msg_hash@ == be_value(
                            signing_hash(self.txs@[j], self.chain_id),
                        )
                    },
                forall|j: int|
                    0 <= j < i ==> is_signed_transaction(
                        #[trigger] self.txs@[j],
                        self.chain_id,
                    ),
                forall|j: int|
                    0 <= j < i ==> is_outcome(
                        Ok(#[trigger] datas@[j]),
                        sign_data(self.txs@[j], self.chain_id),
                    ),
                forall|j: int, secret: nat, nonce: nat|
                    #![trigger is_signed_by(self.txs@[j], self.chain_id, secret, nonce)]
                    0 <= j < i && is_signed_by(
                        self.txs@[j],
                        self.chain_id,
                        secret,
                        nonce,
                    ) ==> Some(datas@[j].pk@) == generator_multiple(secret),
            decreases self.txs@.len() - i,
        {
            match try_tx_to_sign_data(&self.txs[i], self.chain_id) {
                Ok(data) => {
                    datas.push(data);
                },
                Err(error) => {
                    proof {
                        assert forall|j: int| 0 <= j < i implies sign_data(
                            #[trigger] self.txs@[j],
                            self.chain_id,
                        ) is Ok by {
                            assert(is_outcome(
                                Ok(datas@[j]),
                                sign_data(self.txs@[j], self.chain_id),
                            ));
                        }
                    }
                    return Err(error);
                },
            }
            i = i + 1;
        }
        Ok(datas)
    }
}

} // verus!
