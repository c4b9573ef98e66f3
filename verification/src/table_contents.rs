//! What the table says of the transactions, row by row.
use vstd::arithmetic::div_mod::{lemma_div_basics, lemma_small_mod};
use vstd::arithmetic::power::{lemma_pow_positive, pow};
use vstd::prelude::*;

use crate::bytes::{be_value, le_bytes};
use crate::field::rlc;
use crate::number_laws::{law_be_value_injective, law_le_bytes_digits, law_rlc_of_zeros};
use crate::table_laws::{
    call_data_start, law_call_data_lookup, law_field_lookup, law_table_length,
    lemma_call_data_row_at, lemma_call_data_row_source, lemma_last_row, lemma_op_offsets,
    lemma_row_ops, lemma_table_at, op_offset,
};
use crate::transaction::{recipient, zero_address, Address, Transaction};
use crate::tx_circuit::{
    config_ops, field_row, lemma_zero_address, ops_view, region_ops, row_ops, rows_view,
    total_call_data, ConfigOp, Op, RegionOp, Row, SigVerifCell, TxCircuit, TxColumn, TxFieldTag,
    TxRow,
};
use crate::u256::U256;

verus! {

/// No recipient is written as twenty zeros, which stand for zero.
pub proof fn law_recipient(to: Option<Address>)
    ensures
        recipient(to).len() == 20,
        to matches Some(address) ==> recipient(to) == address.0@,
        to is None ==> be_value(recipient(to)) == 0,
        to is None ==> forall|i: int| 0 <= i < 20 ==> recipient(to)[i] == 0,
        zero_address() == recipient(None),
{
    lemma_zero_address();
}

/// The call data of some transactions is as much as that of all but the last and the last's; that
/// of no transactions is none.
pub proof fn law_total_call_data(txs: Seq<Transaction>, tx: Transaction)
    ensures
        total_call_data(Seq::<Transaction>::empty()) == 0,
        total_call_data(txs.push(tx)) == total_call_data(txs) + tx.data.0@.len(),
{
    assert(txs.push(tx).drop_last() =~= txs);
}

/// A sequence of rows is viewed row by row and field by field.
pub proof fn law_rows_view(rows: Seq<TxRow>, k: int)
    requires
        0 <= k < rows.len(),
    ensures
        rows_view(rows).len() == rows.len(),
        rows_view(rows)[k].tx_id == rows[k].tx_id,
        rows_view(rows)[k].tag == rows[k].tag,
        rows_view(rows)[k].index == rows[k].index,
        rows_view(rows)[k].value == rows[k].value@,
        rows_view(rows)[k].copy_of == rows[k].copy_of,
{
}

/// A sequence of operations is viewed operation by operation and field by field.
pub proof fn law_ops_view(ops: Seq<RegionOp>, k: int)
    requires
        0 <= k < ops.len(),
    ensures
        ops_view(ops).len() == ops.len(),
        match ops[k] {
            RegionOp::AssignAdvice { cell, value } => ops_view(ops)[k] == (Op::Assign {
                column: cell.column,
                offset: cell.offset as nat,
                value: value@,
            }),
            RegionOp::ConstrainEqual { cell, target } => ops_view(ops)[k] == (Op::Constrain {
                column: cell.column,
                offset: cell.offset as nat,
                cell: target,
            }),
        },
{
}

/// A circuit is one just if its field has an element besides zero and its randomness is an element.
pub proof fn law_circuit_wf<const MAX_TXS: usize, const MAX_CALLDATA: usize>(
    circuit: TxCircuit<MAX_TXS, MAX_CALLDATA>,
)
    ensures
        circuit.wf() <==> circuit.randomness@ < circuit.field.modulus@ && circuit.field.modulus@
            > 1,
{
}

/// A circuit has room for its transactions just if they are not too many, their call data is not
/// too much and the addresses of both sides of each are below the modulus.
pub proof fn law_fits<const MAX_TXS: usize, const MAX_CALLDATA: usize>(
    circuit: TxCircuit<MAX_TXS, MAX_CALLDATA>,
)
    ensures
        circuit.fits() <==> circuit.txs@.len() <= MAX_TXS && total_call_data(circuit.txs@)
            <= MAX_CALLDATA && forall|i: int|
            0 <= i < circuit.txs@.len() ==> be_value((#[trigger] circuit.txs@[i]).from.0@)
                < circuit.field.modulus@ && match circuit.txs@[i].to {
                Some(address) => be_value(address.0@) < circuit.field.modulus@,
                None => 0 < circuit.field.modulus@,
            },
{
    lemma_zero_address();
    assert forall|i: int| 0 <= i < circuit.txs@.len() implies (be_value(
        recipient((#[trigger] circuit.txs@[i]).to),
    ) < circuit.field.modulus@ <==> match circuit.txs@[i].to {
        Some(address) => be_value(address.0@) < circuit.field.modulus@,
        None => 0 < circuit.field.modulus@,
    }) by {
        law_recipient(circuit.txs@[i].to);
    }
}

/// A circuit accepts hashes just if there is one for each place and those that are known are below
/// the modulus.
pub proof fn law_accepts<const MAX_TXS: usize, const MAX_CALLDATA: usize>(
    circuit: TxCircuit<MAX_TXS, MAX_CALLDATA>,
    msg_hash_rlcs: Seq<Option<U256>>,
)
    ensures
        circuit.accepts(msg_hash_rlcs) <==> msg_hash_rlcs.len() >= MAX_TXS && forall|i: int|
            0 <= i < msg_hash_rlcs.len() && (#[trigger] msg_hash_rlcs[i]) is Some
                ==> msg_hash_rlcs[i]->0@ < circuit.field.modulus@,
{
}

/// The table starts with an empty row and has nine rows for each place and one for each byte of
/// call data that there is room for.
pub proof fn law_table_frame<const MAX_TXS: usize, const MAX_CALLDATA: usize>(
    circuit: TxCircuit<MAX_TXS, MAX_CALLDATA>,
    msg_hash_rlcs: Seq<Option<U256>>,
)
    requires
        total_call_data(circuit.txs@) <= MAX_CALLDATA,
    ensures
        ({
            let rows = circuit.rows(msg_hash_rlcs);
            &&& rows.len() == 1 + 9 * MAX_TXS + MAX_CALLDATA
            &&& rows[0].tx_id == 0
            &&& rows[0].tag == TxFieldTag::Null
            &&& rows[0].index == 0
            &&& rows[0].value == 0
            &&& rows[0].copy_of is None
        }),
{
    let (txs, r, m) = (circuit.txs@, circuit.randomness@, circuit.field.modulus@);
    law_table_length(txs, msg_hash_rlcs, r, m, MAX_TXS as nat, MAX_CALLDATA as nat);
    lemma_table_at(txs, msg_hash_rlcs, r, m, MAX_TXS as nat, MAX_CALLDATA as nat, 0);
}

/// The nine rows of a place stand under its number, in the order of their tags, at index zero.
pub proof fn law_place_rows<const MAX_TXS: usize, const MAX_CALLDATA: usize>(
    circuit: TxCircuit<MAX_TXS, MAX_CALLDATA>,
    msg_hash_rlcs: Seq<Option<U256>>,
    i: int,
)
    requires
        total_call_data(circuit.txs@) <= MAX_CALLDATA,
        0 <= i < MAX_TXS,
    ensures
        ({
            let rows = circuit.rows(msg_hash_rlcs);
            let o = 1 + 9 * i;
            &&& forall|k: int|
                0 <= k < 9 ==> (#[trigger] rows[o + k]).tx_id == i + 1 && rows[o + k].index == 0
            &&& rows[o + 0].tag == TxFieldTag::Nonce
            &&& rows[o + 1].tag == TxFieldTag::Gas
            &&& rows[o + 2].tag == TxFieldTag::GasPrice
            &&& rows[o + 3].tag == TxFieldTag::CallerAddress
            &&& rows[o + 4].tag == TxFieldTag::CalleeAddress
            &&& rows[o + 5].tag == TxFieldTag::IsCreate
            &&& rows[o + 6].tag == TxFieldTag::Value
            &&& rows[o + 7].tag == TxFieldTag::CallDataLength
            &&& rows[o + 8].tag == TxFieldTag::TxSignHash
        }),
{
    let rows = circuit.rows(msg_hash_rlcs);
    assert forall|k: int| 0 <= k < 9 implies (#[trigger] rows[1 + 9 * i + k]).tx_id == i + 1
        && rows[1 + 9 * i + k].index == 0 by {
        lemma_place_row(circuit, msg_hash_rlcs, i, k);
    }
    lemma_place_row(circuit, msg_hash_rlcs, i, 0);
    lemma_place_row(circuit, msg_hash_rlcs, i, 1);
    lemma_place_row(circuit, msg_hash_rlcs, i, 2);
    lemma_place_row(circuit, msg_hash_rlcs, i, 3);
    lemma_place_row(circuit, msg_hash_rlcs, i, 4);
    lemma_place_row(circuit, msg_hash_rlcs, i, 5);
    lemma_place_row(circuit, msg_hash_rlcs, i, 6);
    lemma_place_row(circuit, msg_hash_rlcs, i, 7);
    lemma_place_row(circuit, msg_hash_rlcs, i, 8);
}

proof fn lemma_place_row<const MAX_TXS: usize, const MAX_CALLDATA: usize>(
    circuit: TxCircuit<MAX_TXS, MAX_CALLDATA>,
    msg_hash_rlcs: Seq<Option<U256>>,
    i: int,
    k: int,
)
    requires
        total_call_data(circuit.txs@) <= MAX_CALLDATA,
        0 <= i < MAX_TXS,
        0 <= k < 9,
    ensures
        circuit.rows(msg_hash_rlcs)[1 + 9 * i + k] == field_row(
            circuit.txs@,
            msg_hash_rlcs,
            circuit.randomness@,
            circuit.field.modulus@,
            i,
            k,
        ),
{
    law_field_lookup(
        circuit.txs@,
        msg_hash_rlcs,
        circuit.randomness@,
        circuit.field.modulus@,
        MAX_TXS as nat,
        MAX_CALLDATA as nat,
        i,
        k,
    );
}

/// The nine rows of a transaction hold its fields: nonce, gas, gas price and value as the
/// combinations of their 32 little-endian bytes, the addresses as the integers that they stand for,
/// whether it creates a contract, and the length of its call data. The last row holds the combined
/// hash of the signature check, or zero if that is not known.
pub proof fn law_transaction_rows<const MAX_TXS: usize, const MAX_CALLDATA: usize>(
    circuit: TxCircuit<MAX_TXS, MAX_CALLDATA>,
    msg_hash_rlcs: Seq<Option<U256>>,
    i: int,
)
    requires
        total_call_data(circuit.txs@) <= MAX_CALLDATA,
        0 <= i < circuit.txs@.len() <= MAX_TXS,
    ensures
        ({
            let rows = circuit.rows(msg_hash_rlcs);
            let o = 1 + 9 * i;
            let tx = circuit.txs@[i];
            let (r, m) = (circuit.randomness@, circuit.field.modulus@);
            &&& rows[o + 0].value == rlc(le_bytes(tx.nonce@, 32), r, m)
            &&& rows[o + 1].value == rlc(le_bytes(tx.gas@, 32), r, m)
            &&& rows[o + 2].value == rlc(le_bytes(tx.gas_price@, 32), r, m)
            &&& rows[o + 3].value == be_value(tx.from.0@)
            &&& rows[o + 4].value == match tx.to {
                Some(address) => be_value(address.0@),
                None => 0,
            }
            &&& rows[o + 5].value == (if tx.to is None { 1nat } else { 0nat })
            &&& rows[o + 6].value == rlc(le_bytes(tx.value@, 32), r, m)
            &&& rows[o + 7].value == tx.data.0@.len() % m
            &&& rows[o + 8].value == match msg_hash_rlcs[i] {
                Some(hash) => hash@,
                None => 0,
            }
        }),
{
    law_recipient(circuit.txs@[i].to);
    lemma_place_row(circuit, msg_hash_rlcs, i, 0);
    lemma_place_row(circuit, msg_hash_rlcs, i, 1);
    lemma_place_row(circuit, msg_hash_rlcs, i, 2);
    lemma_place_row(circuit, msg_hash_rlcs, i, 3);
    lemma_place_row(circuit, msg_hash_rlcs, i, 4);
    lemma_place_row(circuit, msg_hash_rlcs, i, 5);
    lemma_place_row(circuit, msg_hash_rlcs, i, 6);
    lemma_place_row(circuit, msg_hash_rlcs, i, 7);
    lemma_place_row(circuit, msg_hash_rlcs, i, 8);
}

/// The nine rows of a place without a transaction hold zeros, but for a contract creation and the
/// combined hash of the signature check.
pub proof fn law_absent_rows<const MAX_TXS: usize, const MAX_CALLDATA: usize>(
    circuit: TxCircuit<MAX_TXS, MAX_CALLDATA>,
    msg_hash_rlcs: Seq<Option<U256>>,
    i: int,
)
    requires
        circuit.field.modulus@ > 0,
        total_call_data(circuit.txs@) <= MAX_CALLDATA,
        circuit.txs@.len() <= i < MAX_TXS,
    ensures
        ({
            let rows = circuit.rows(msg_hash_rlcs);
            let o = 1 + 9 * i;
            &&& forall|k: int|
                0 <= k < 8 && k != 5 ==> (#[trigger] rows[o + k]).value == 0
            &&& rows[o + 5].value == 1
            &&& rows[o + 8].value == match msg_hash_rlcs[i] {
                Some(hash) => hash@,
                None => 0,
            }
        }),
{
    let zeros = le_bytes(0, 32);
    assert forall|j: int| 0 <= j < zeros.len() implies zeros[j] == 0 by {
        law_le_bytes_digits(0, 32, 0);
        law_le_bytes_digits(0, 32, j);
        lemma_pow_positive(256, j as nat);
        lemma_div_basics(pow(256, j as nat));
    }
    law_rlc_of_zeros(zeros, circuit.randomness@, circuit.field.modulus@);
    lemma_small_mod(0, circuit.field.modulus@);
    let rows = circuit.rows(msg_hash_rlcs);
    assert forall|k: int| 0 <= k < 8 && k != 5 implies (#[trigger] rows[1 + 9 * i + k]).value
        == 0 by {
        lemma_place_row(circuit, msg_hash_rlcs, i, k);
    }
    lemma_place_row(circuit, msg_hash_rlcs, i, 5);
    lemma_place_row(circuit, msg_hash_rlcs, i, 8);
}

/// The caller of place `i` copies the signer that check `i` has found, and the signed hash copies
/// the hash that check `i` has combined.
pub proof fn law_places_are_tied<const MAX_TXS: usize, const MAX_CALLDATA: usize>(
    circuit: TxCircuit<MAX_TXS, MAX_CALLDATA>,
    msg_hash_rlcs: Seq<Option<U256>>,
    i: usize,
)
    requires
        total_call_data(circuit.txs@) <= MAX_CALLDATA,
        i < MAX_TXS,
    ensures
        ({
            let rows = circuit.rows(msg_hash_rlcs);
            &&& rows[1 + 9 * i + 3].tag == TxFieldTag::CallerAddress
            &&& rows[1 + 9 * i + 3].copy_of == Some(SigVerifCell::Address(i))
            &&& rows[1 + 9 * i + 8].tag == TxFieldTag::TxSignHash
            &&& rows[1 + 9 * i + 8].copy_of == Some(SigVerifCell::MsgHashRlc(i))
        }),
{
    lemma_place_row(circuit, msg_hash_rlcs, i as int, 3);
    lemma_place_row(circuit, msg_hash_rlcs, i as int, 8);
}

/// A row copies a cell just if it is that of a caller or of a signed hash, and the cell is that of
/// the check of its own place. So distinct places are tied to distinct checks.
pub proof fn law_copies_are_of_own_check<const MAX_TXS: usize, const MAX_CALLDATA: usize>(
    circuit: TxCircuit<MAX_TXS, MAX_CALLDATA>,
    msg_hash_rlcs: Seq<Option<U256>>,
    offset: int,
)
    requires
        total_call_data(circuit.txs@) <= MAX_CALLDATA,
        0 <= offset < 1 + 9 * MAX_TXS + MAX_CALLDATA,
    ensures
        ({
            let row = circuit.rows(msg_hash_rlcs)[offset];
            match row.copy_of {
                Some(SigVerifCell::Address(check)) => row.tag == TxFieldTag::CallerAddress
                    && row.tx_id == check + 1 && check < MAX_TXS,
                Some(SigVerifCell::MsgHashRlc(check)) => row.tag == TxFieldTag::TxSignHash
                    && row.tx_id == check + 1 && check < MAX_TXS,
                None => row.tag != TxFieldTag::CallerAddress && row.tag != TxFieldTag::TxSignHash,
            }
        }),
{
    let (txs, r, m) = (circuit.txs@, circuit.randomness@, circuit.field.modulus@);
    lemma_table_at(txs, msg_hash_rlcs, r, m, MAX_TXS as nat, MAX_CALLDATA as nat, offset);
    let start = call_data_start(MAX_TXS as nat);
    if 1 <= offset < start {
        let i = (offset - 1) / 9;
        let k = (offset - 1) % 9;
        assert(offset == 1 + 9 * i + k);
        assert(0 <= i < MAX_TXS);
        lemma_place_row(circuit, msg_hash_rlcs, i, k);
    } else if start <= offset < start + total_call_data(txs) {
        let (i, j) = lemma_call_data_row_source(txs, m, offset - start);
        lemma_call_data_row_at(txs, m, i, j);
    }
}

/// Two transactions have equal callee rows just if both have the same recipient, none counting as
/// the zero address; they have equal caller rows just if they have the same sender.
pub proof fn law_address_rows_injective<const MAX_TXS: usize, const MAX_CALLDATA: usize>(
    circuit: TxCircuit<MAX_TXS, MAX_CALLDATA>,
    msg_hash_rlcs: Seq<Option<U256>>,
    i: int,
    j: int,
)
    requires
        total_call_data(circuit.txs@) <= MAX_CALLDATA,
        0 <= i < circuit.txs@.len() <= MAX_TXS,
        0 <= j < circuit.txs@.len(),
    ensures
        ({
            let rows = circuit.rows(msg_hash_rlcs);
            &&& rows[1 + 9 * i + 4].value == rows[1 + 9 * j + 4].value <==> recipient(
                circuit.txs@[i].to,
            ) == recipient(circuit.txs@[j].to)
            &&& rows[1 + 9 * i + 3].value == rows[1 + 9 * j + 3].value <==> circuit.txs@[i].from.0@
                == circuit.txs@[j].from.0@
        }),
{
    let (a, b) = (circuit.txs@[i], circuit.txs@[j]);
    law_transaction_rows(circuit, msg_hash_rlcs, i);
    law_transaction_rows(circuit, msg_hash_rlcs, j);
    law_recipient(a.to);
    law_recipient(b.to);
    if be_value(recipient(a.to)) == be_value(recipient(b.to)) {
        law_be_value_injective(recipient(a.to), recipient(b.to));
    }
    if be_value(a.from.0@) == be_value(b.from.0@) {
        law_be_value_injective(a.from.0@, b.from.0@);
    }
}

/// Byte `j` of the call data of transaction `i` has its row, under the transaction's number and the
/// byte's position, after the rows of the call data of the transactions before.
pub proof fn law_call_data_rows<const MAX_TXS: usize, const MAX_CALLDATA: usize>(
    circuit: TxCircuit<MAX_TXS, MAX_CALLDATA>,
    msg_hash_rlcs: Seq<Option<U256>>,
    i: int,
    j: int,
)
    requires
        total_call_data(circuit.txs@) <= MAX_CALLDATA,
        0 <= i < circuit.txs@.len(),
        0 <= j < circuit.txs@[i].data.0@.len(),
    ensures
        ({
            let row = circuit.rows(msg_hash_rlcs)[1 + 9 * MAX_TXS + total_call_data(
                circuit.txs@.take(i),
            ) + j];
            &&& row.tx_id == i + 1
            &&& row.tag == TxFieldTag::CallData
            &&& row.index == j
            &&& row.value == circuit.txs@[i].data.0@[j] as nat % circuit.field.modulus@
            &&& row.copy_of is None
        }),
{
    law_call_data_lookup(
        circuit.txs@,
        msg_hash_rlcs,
        circuit.randomness@,
        circuit.field.modulus@,
        MAX_TXS as nat,
        MAX_CALLDATA as nat,
        i,
        j,
    );
}

/// The rows after the call data are empty rows of call data, under no transaction.
pub proof fn law_padding_rows<const MAX_TXS: usize, const MAX_CALLDATA: usize>(
    circuit: TxCircuit<MAX_TXS, MAX_CALLDATA>,
    msg_hash_rlcs: Seq<Option<U256>>,
    offset: int,
)
    requires
        total_call_data(circuit.txs@) <= MAX_CALLDATA,
        1 + 9 * MAX_TXS + total_call_data(circuit.txs@) <= offset < 1 + 9 * MAX_TXS + MAX_CALLDATA,
    ensures
        ({
            let row = circuit.rows(msg_hash_rlcs)[offset];
            &&& row.tx_id == 0
            &&& row.tag == TxFieldTag::CallData
            &&& row.index == 0
            &&& row.value == 0
            &&& row.copy_of is None
        }),
{
    lemma_table_at(
        circuit.txs@,
        msg_hash_rlcs,
        circuit.randomness@,
        circuit.field.modulus@,
        MAX_TXS as nat,
        MAX_CALLDATA as nat,
        offset,
    );
}

/// Laying rows out assigns the four cells of each row, in the order of the columns, and then ties
/// its value if the row copies a cell; it does so row by row and does nothing else. `r` is the
/// place of the first operation of the row at an offset.
pub proof fn law_row_operations(rows: Seq<Row>, modulus: nat, offset: int) -> (r: int)
    requires
        modulus > 0,
        0 <= offset < rows.len(),
    ensures
        ({
            let ops = region_ops(rows, modulus);
            let row = rows[offset];
            let end = r + 4 + (if row.copy_of is Some { 1int } else { 0int });
            let o = offset as nat;
            &&& 0 <= r
            &&& end <= ops.len()
            &&& ops[r] == (Op::Assign {
                column: TxColumn::TxId,
                offset: o,
                value: row.tx_id % modulus,
            })
            &&& ops[r + 1] == (Op::Assign {
                column: TxColumn::Tag,
                offset: o,
                value: row.tag.code() % modulus,
            })
            &&& ops[r + 2] == (Op::Assign {
                column: TxColumn::Index,
                offset: o,
                value: row.index % modulus,
            })
            &&& ops[r + 3] == (Op::Assign { column: TxColumn::Value, offset: o, value: row.value })
            &&& row.copy_of matches Some(target) ==> ops[r + 4] == (Op::Constrain {
                column: TxColumn::Value,
                offset: o,
                cell: target,
            })
            &&& forall|j: int|
                0 <= j < r ==> match #[trigger] ops[j] {
                    Op::Assign { column, offset: p, value } => p < offset,
                    Op::Constrain { column, offset: p, cell } => p < offset,
                }
            &&& forall|j: int|
                end <= j < ops.len() ==> match #[trigger] ops[j] {
                    Op::Assign { column, offset: p, value } => offset < p < rows.len(),
                    Op::Constrain { column, offset: p, cell } => offset < p < rows.len(),
                }
        }),
    decreases rows.len(),
{
    let ops = region_ops(rows, modulus);
    let before = region_ops(rows.drop_last(), modulus);
    let added = row_ops((rows.len() - 1) as nat, rows.last(), modulus);
    lemma_op_offsets(rows.drop_last(), modulus);
    lemma_op_offsets(rows, modulus);
    lemma_last_row(rows, modulus);
    lemma_row_ops((rows.len() - 1) as nat, rows.last(), modulus);
    if offset == rows.len() - 1 {
        let r = before.len() as int;
        assert(ops[r] == added[0]);
        assert(ops[r + 1] == added[1]);
        assert(ops[r + 2] == added[2]);
        assert(ops[r + 3] == added[3]);
        if rows.last().copy_of is Some {
            assert(ops[r + 4] == added[4]);
        }
        assert forall|j: int| 0 <= j < r implies match #[trigger] ops[j] {
            Op::Assign { column, offset: p, value } => p < offset,
            Op::Constrain { column, offset: p, cell } => p < offset,
        } by {
            assert(ops[j] == before[j]);
            assert(op_offset(before[j]) < offset);
        }
        r
    } else {
        let r = law_row_operations(rows.drop_last(), modulus, offset);
        let end = r + 4 + (if rows[offset].copy_of is Some { 1int } else { 0int });
        assert(rows.drop_last()[offset] == rows[offset]);
        assert forall|j: int| 0 <= j < r implies match #[trigger] ops[j] {
            Op::Assign { column, offset: p, value } => p < offset,
            Op::Constrain { column, offset: p, cell } => p < offset,
        } by {
            assert(ops[j] == before[j]);
        }
        assert forall|j: int| end <= j < ops.len() implies match #[trigger] ops[j] {
            Op::Assign { column, offset: p, value } => offset < p < rows.len(),
            Op::Constrain { column, offset: p, cell } => offset < p < rows.len(),
        } by {
            if j < before.len() {
                assert(ops[j] == before[j]);
            } else {
                assert(ops[j] == added[j - before.len()]);
            }
        }
        r
    }
}

/// Laying out no rows does nothing.
pub proof fn law_no_rows_no_operations(modulus: nat)
    ensures
        region_ops(Seq::<Row>::empty(), modulus).len() == 0,
{
}

/// The set-up allocates an advice column for each column of the table, in their order, allows
/// constraints on that of the values, allocates the instance columns in their order and then adds
/// the identity.
pub proof fn law_set_up(pow_rand_size: usize, i: usize)
    ensures
        ({
            let ops = config_ops(pow_rand_size as nat);
            &&& ops.len() == pow_rand_size + 6
            &&& ops.take(5) == seq![
                ConfigOp::AdviceColumn(TxColumn::TxId),
                ConfigOp::AdviceColumn(TxColumn::Tag),
                ConfigOp::AdviceColumn(TxColumn::Index),
                ConfigOp::AdviceColumn(TxColumn::Value),
                ConfigOp::EnableEquality(TxColumn::Value),
            ]
            &&& i < pow_rand_size ==> ops[5 + i] == ConfigOp::InstanceColumn(i)
            &&& ops.last() == ConfigOp::PowerOfRandomnessGate
        }),
{
    let ops = config_ops(pow_rand_size as nat);
    assert(ops.take(5) =~= seq![
        ConfigOp::AdviceColumn(TxColumn::TxId),
        ConfigOp::AdviceColumn(TxColumn::Tag),
        ConfigOp::AdviceColumn(TxColumn::Index),
        ConfigOp::AdviceColumn(TxColumn::Value),
        ConfigOp::EnableEquality(TxColumn::Value),
    ]);
}

} // verus!
