//! What holds of every transaction table and of its layout.
use vstd::arithmetic::div_mod::lemma_small_mod;
use vstd::prelude::*;

use crate::transaction::Transaction;
use crate::tx_circuit::{
    call_data_row, call_data_rows, config_ops, field_row, lemma_call_data_rows_len, null_row,
    padding_row, region_ops, row_ops, table_rows, total_call_data, ConfigOp, Op, Row, SigVerifCell,
    TxCircuit, TxColumn, TxFieldTag,
};
use crate::u256::U256;

verus! {

/// Distinct tags have distinct numbers.
pub proof fn law_tag_codes_distinct(a: TxFieldTag, b: TxFieldTag)
    requires
        a != b,
    ensures
        a.code() != b.code(),
{
}

/// The offset of the first row of call data.
pub open spec fn call_data_start(max_txs: nat) -> nat {
    1 + 9 * max_txs
}

/// The number of rows depends on the size of the circuit alone.
pub proof fn law_table_length(
    txs: Seq<Transaction>,
    msg_hash_rlcs: Seq<Option<U256>>,
    randomness: nat,
    modulus: nat,
    max_txs: nat,
    max_calldata: nat,
)
    requires
        total_call_data(txs) <= max_calldata,
    ensures
        table_rows(txs, msg_hash_rlcs, randomness, modulus, max_txs, max_calldata).len()
            == call_data_start(max_txs) + max_calldata,
{
    lemma_call_data_rows_len(txs, modulus);
}

/// What stands at an offset of the table.
pub proof fn lemma_table_at(
    txs: Seq<Transaction>,
    msg_hash_rlcs: Seq<Option<U256>>,
    randomness: nat,
    modulus: nat,
    max_txs: nat,
    max_calldata: nat,
    offset: int,
)
    requires
        total_call_data(txs) <= max_calldata,
        0 <= offset < call_data_start(max_txs) + max_calldata,
    ensures
        ({
            let row = table_rows(
                txs,
                msg_hash_rlcs,
                randomness,
                modulus,
                max_txs,
                max_calldata,
            )[offset];
            let start = call_data_start(max_txs);
            &&& offset == 0 ==> row == null_row()
            &&& 1 <= offset < start ==> row == field_row(
                txs,
                msg_hash_rlcs,
                randomness,
                modulus,
                (offset - 1) / 9,
                (offset - 1) % 9,
            )
            &&& start <= offset < start + total_call_data(txs) ==> row == call_data_rows(
                txs,
                modulus,
            )[offset - start]
            &&& start + total_call_data(txs) <= offset ==> row == padding_row()
        }),
{
    lemma_call_data_rows_len(txs, modulus);
}

/// The position in the call data of all transactions at which that of transaction `i` begins.
pub open spec fn call_data_offset(txs: Seq<Transaction>, i: int) -> nat {
    total_call_data(txs.take(i))
}

pub proof fn lemma_call_data_row_at(txs: Seq<Transaction>, modulus: nat, i: int, j: int)
    requires
        0 <= i < txs.len(),
        0 <= j < txs[i].data.0@.len(),
    ensures
        call_data_offset(txs, i) + j < total_call_data(txs),
        call_data_rows(txs, modulus)[call_data_offset(txs, i) + j] == call_data_row(
            (i + 1) as nat,
            j as nat,
            txs[i].data.0@[j],
            modulus,
        ),
    decreases txs.len(),
{
    let before = txs.drop_last();
    lemma_call_data_rows_len(before, modulus);
    if i == txs.len() - 1 {
        assert(txs.take(i) =~= before);
    } else {
        lemma_call_data_row_at(before, modulus, i, j);
        assert(before.take(i) =~= txs.take(i));
    }
}

/// Each row of call data is one of a byte: there is a transaction and a position in its call data.
pub proof fn lemma_call_data_row_source(txs: Seq<Transaction>, modulus: nat, o: int) -> (r: (int, int))
    requires
        0 <= o < total_call_data(txs),
    ensures
        0 <= r.0 < txs.len(),
        0 <= r.1 < txs[r.0].data.0@.len(),
        o == call_data_offset(txs, r.0) + r.1,
    decreases txs.len(),
{
    let before = txs.drop_last();
    if o < total_call_data(before) {
        let r = lemma_call_data_row_source(before, modulus, o);
        assert(before.take(r.0) =~= txs.take(r.0));
        r
    } else {
        assert(txs.take(txs.len() - 1) =~= before);
        (txs.len() - 1, o - total_call_data(before))
    }
}

/// Each field of each transaction is found in the table: row `k` of transaction `i` stands nine
/// rows after that of the transaction before.
pub proof fn law_field_lookup(
    txs: Seq<Transaction>,
    msg_hash_rlcs: Seq<Option<U256>>,
    randomness: nat,
    modulus: nat,
    max_txs: nat,
    max_calldata: nat,
    i: int,
    k: int,
)
    requires
        total_call_data(txs) <= max_calldata,
        0 <= i < max_txs,
        0 <= k < 9,
    ensures
        table_rows(txs, msg_hash_rlcs, randomness, modulus, max_txs, max_calldata)[1 + 9 * i + k]
            == field_row(txs, msg_hash_rlcs, randomness, modulus, i, k),
{
    let j = 9 * i + k;
    assert(j / 9 == i && j % 9 == k);
    lemma_table_at(txs, msg_hash_rlcs, randomness, modulus, max_txs, max_calldata, 1 + j);
}

/// Each byte of call data is found in the table, under its transaction and its position.
pub proof fn law_call_data_lookup(
    txs: Seq<Transaction>,
    msg_hash_rlcs: Seq<Option<U256>>,
    randomness: nat,
    modulus: nat,
    max_txs: nat,
    max_calldata: nat,
    i: int,
    j: int,
)
    requires
        total_call_data(txs) <= max_calldata,
        0 <= i < txs.len(),
        0 <= j < txs[i].data.0@.len(),
    ensures
        table_rows(
            txs,
            msg_hash_rlcs,
            randomness,
            modulus,
            max_txs,
            max_calldata,
        )[call_data_start(max_txs) + call_data_offset(txs, i) + j] == call_data_row(
            (i + 1) as nat,
            j as nat,
            txs[i].data.0@[j],
            modulus,
        ),
{
    lemma_call_data_row_at(txs, modulus, i, j);
    lemma_table_at(
        txs,
        msg_hash_rlcs,
        randomness,
        modulus,
        max_txs,
        max_calldata,
        call_data_start(max_txs) + call_data_offset(txs, i) + j,
    );
}

/// The table says nothing of call data that is not there: a row of call data under a transaction
/// is that of a byte of the transaction's call data.
pub proof fn law_call_data_complete(
    txs: Seq<Transaction>,
    msg_hash_rlcs: Seq<Option<U256>>,
    randomness: nat,
    modulus: nat,
    max_txs: nat,
    max_calldata: nat,
    offset: int,
) -> (r: (int, int))
    requires
        total_call_data(txs) <= max_calldata,
        0 <= offset < call_data_start(max_txs) + max_calldata,
        table_rows(txs, msg_hash_rlcs, randomness, modulus, max_txs, max_calldata)[offset].tag
            == TxFieldTag::CallData,
        table_rows(txs, msg_hash_rlcs, randomness, modulus, max_txs, max_calldata)[offset].tx_id
            != 0,
    ensures
        0 <= r.0 < txs.len(),
        0 <= r.1 < txs[r.0].data.0@.len(),
        offset == call_data_start(max_txs) + call_data_offset(txs, r.0) + r.1,
        table_rows(txs, msg_hash_rlcs, randomness, modulus, max_txs, max_calldata)[offset]
            == call_data_row((r.0 + 1) as nat, r.1 as nat, txs[r.0].data.0@[r.1], modulus),
{
    lemma_table_at(txs, msg_hash_rlcs, randomness, modulus, max_txs, max_calldata, offset);
    let r = lemma_call_data_row_source(txs, modulus, offset - call_data_start(max_txs));
    lemma_call_data_row_at(txs, modulus, r.0, r.1);
    r
}

/// The row of the call data length says how much call data the table has for a transaction: there
/// is a row for position `j` just if `j` is below the length, which the row holds modulo the
/// modulus.
pub proof fn law_call_data_length(
    txs: Seq<Transaction>,
    msg_hash_rlcs: Seq<Option<U256>>,
    randomness: nat,
    modulus: nat,
    max_txs: nat,
    max_calldata: nat,
    i: int,
    j: nat,
)
    requires
        total_call_data(txs) <= max_calldata,
        0 <= i < txs.len() <= max_txs,
    ensures
        ({
            let rows = table_rows(
                txs,
                msg_hash_rlcs,
                randomness,
                modulus,
                max_txs,
                max_calldata,
            );
            let length = txs[i].data.0@.len();
            &&& rows[1 + 9 * i + 7].tx_id == i + 1
            &&& rows[1 + 9 * i + 7].tag == TxFieldTag::CallDataLength
            &&& rows[1 + 9 * i + 7].value == length % modulus
            &&& j < length <==> exists|o: int|
                {
                    &&& 0 <= o < rows.len()
                    &&& (#[trigger] rows[o]).tx_id == i + 1
                    &&& rows[o].tag == TxFieldTag::CallData
                    &&& rows[o].index == j
                }
        }),
{
    let rows = table_rows(txs, msg_hash_rlcs, randomness, modulus, max_txs, max_calldata);
    law_table_length(txs, msg_hash_rlcs, randomness, modulus, max_txs, max_calldata);
    law_field_lookup(txs, msg_hash_rlcs, randomness, modulus, max_txs, max_calldata, i, 7);
    if j < txs[i].data.0@.len() {
        law_call_data_lookup(
            txs,
            msg_hash_rlcs,
            randomness,
            modulus,
            max_txs,
            max_calldata,
            i,
            j as int,
        );
        lemma_call_data_row_at(txs, modulus, i, j as int);
        let o = call_data_start(max_txs) + call_data_offset(txs, i) + j;
        assert(rows[o as int].index == j);
    }
    assert forall|o: int|
        {
            &&& 0 <= o < rows.len()
            &&& (#[trigger] rows[o]).tx_id == i + 1
            &&& rows[o].tag == TxFieldTag::CallData
            &&& rows[o].index == j
        } implies j < txs[i].data.0@.len() by {
        law_call_data_complete(txs, msg_hash_rlcs, randomness, modulus, max_txs, max_calldata, o);
    }
}

/// A transaction, a tag and an index name at most one row, so that a lookup has one answer.
pub proof fn law_keys_unique(
    txs: Seq<Transaction>,
    msg_hash_rlcs: Seq<Option<U256>>,
    randomness: nat,
    modulus: nat,
    max_txs: nat,
    max_calldata: nat,
    a: int,
    b: int,
)
    requires
        total_call_data(txs) <= max_calldata,
        0 <= a < call_data_start(max_txs) + max_calldata,
        0 <= b < call_data_start(max_txs) + max_calldata,
        ({
            let rows = table_rows(
                txs,
                msg_hash_rlcs,
                randomness,
                modulus,
                max_txs,
                max_calldata,
            );
            &&& rows[a].tx_id != 0
            &&& rows[a].tx_id == rows[b].tx_id
            &&& rows[a].tag == rows[b].tag
            &&& rows[a].index == rows[b].index
        }),
    ensures
        a == b,
{
    let rows = table_rows(txs, msg_hash_rlcs, randomness, modulus, max_txs, max_calldata);
    lemma_table_at(txs, msg_hash_rlcs, randomness, modulus, max_txs, max_calldata, a);
    lemma_table_at(txs, msg_hash_rlcs, randomness, modulus, max_txs, max_calldata, b);
    if rows[a].tag == TxFieldTag::CallData {
        law_call_data_complete(txs, msg_hash_rlcs, randomness, modulus, max_txs, max_calldata, a);
        law_call_data_complete(txs, msg_hash_rlcs, randomness, modulus, max_txs, max_calldata, b);
    } else {
        let start = call_data_start(max_txs);
        if a >= start && a < start + total_call_data(txs) {
            let r = lemma_call_data_row_source(txs, modulus, a - start);
            lemma_call_data_row_at(txs, modulus, r.0, r.1);
        }
        if b >= start && b < start + total_call_data(txs) {
            let r = lemma_call_data_row_source(txs, modulus, b - start);
            lemma_call_data_row_at(txs, modulus, r.0, r.1);
        }
        assert((a - 1) / 9 == (b - 1) / 9);
        assert((a - 1) % 9 == (b - 1) % 9);
    }
}

/// In a field that is large enough for the circuit, what is assigned to the first three columns
/// names at most one row that belongs to a transaction.
pub proof fn law_assigned_keys_unique(
    txs: Seq<Transaction>,
    msg_hash_rlcs: Seq<Option<U256>>,
    randomness: nat,
    modulus: nat,
    max_txs: nat,
    max_calldata: nat,
    a: int,
    b: int,
)
    requires
        txs.len() <= max_txs < modulus,
        total_call_data(txs) <= max_calldata < modulus,
        TxFieldTag::CallData.code() < modulus,
        0 <= a < call_data_start(max_txs) + max_calldata,
        0 <= b < call_data_start(max_txs) + max_calldata,
        ({
            let rows = table_rows(
                txs,
                msg_hash_rlcs,
                randomness,
                modulus,
                max_txs,
                max_calldata,
            );
            &&& cell_value(rows[a], TxColumn::TxId, modulus) != 0
            &&& cell_value(rows[a], TxColumn::TxId, modulus) == cell_value(
                rows[b],
                TxColumn::TxId,
                modulus,
            )
            &&& cell_value(rows[a], TxColumn::Tag, modulus) == cell_value(
                rows[b],
                TxColumn::Tag,
                modulus,
            )
            &&& cell_value(rows[a], TxColumn::Index, modulus) == cell_value(
                rows[b],
                TxColumn::Index,
                modulus,
            )
        }),
    ensures
        a == b,
{
    let rows = table_rows(txs, msg_hash_rlcs, randomness, modulus, max_txs, max_calldata);
    lemma_key_bounds(txs, msg_hash_rlcs, randomness, modulus, max_txs, max_calldata, a);
    lemma_key_bounds(txs, msg_hash_rlcs, randomness, modulus, max_txs, max_calldata, b);
    lemma_small_mod(rows[a].tx_id, modulus);
    lemma_small_mod(rows[b].tx_id, modulus);
    lemma_small_mod(rows[a].tag.code(), modulus);
    lemma_small_mod(rows[b].tag.code(), modulus);
    lemma_small_mod(rows[a].index, modulus);
    lemma_small_mod(rows[b].index, modulus);
    if rows[a].tag != rows[b].tag {
        law_tag_codes_distinct(rows[a].tag, rows[b].tag);
    }
    law_keys_unique(txs, msg_hash_rlcs, randomness, modulus, max_txs, max_calldata, a, b);
}

proof fn lemma_key_bounds(
    txs: Seq<Transaction>,
    msg_hash_rlcs: Seq<Option<U256>>,
    randomness: nat,
    modulus: nat,
    max_txs: nat,
    max_calldata: nat,
    offset: int,
)
    requires
        txs.len() <= max_txs,
        total_call_data(txs) <= max_calldata,
        0 <= offset < call_data_start(max_txs) + max_calldata,
    ensures
        ({
            let row = table_rows(
                txs,
                msg_hash_rlcs,
                randomness,
                modulus,
                max_txs,
                max_calldata,
            )[offset];
            &&& row.tx_id <= max_txs
            &&& row.index <= max_calldata
            &&& row.tag.code() <= TxFieldTag::CallData.code()
        }),
{
    lemma_table_at(txs, msg_hash_rlcs, randomness, modulus, max_txs, max_calldata, offset);
    let o = offset - call_data_start(max_txs);
    if 0 <= o < total_call_data(txs) {
        let r = lemma_call_data_row_source(txs, modulus, o);
        lemma_call_data_row_at(txs, modulus, r.0, r.1);
    }
}

/// The rows of two tables of one size have the same tags and constraints; up to the call data they
/// have the same transactions and indices too.
pub proof fn law_rows_fixed(
    txs1: Seq<Transaction>,
    msg_hash_rlcs1: Seq<Option<U256>>,
    randomness1: nat,
    modulus1: nat,
    txs2: Seq<Transaction>,
    msg_hash_rlcs2: Seq<Option<U256>>,
    randomness2: nat,
    modulus2: nat,
    max_txs: nat,
    max_calldata: nat,
    offset: int,
)
    requires
        total_call_data(txs1) <= max_calldata,
        total_call_data(txs2) <= max_calldata,
        0 <= offset < call_data_start(max_txs) + max_calldata,
    ensures
        ({
            let row1 = table_rows(
                txs1,
                msg_hash_rlcs1,
                randomness1,
                modulus1,
                max_txs,
                max_calldata,
            )[offset];
            let row2 = table_rows(
                txs2,
                msg_hash_rlcs2,
                randomness2,
                modulus2,
                max_txs,
                max_calldata,
            )[offset];
            &&& row1.tag == row2.tag
            &&& row1.copy_of == row2.copy_of
            &&& offset < call_data_start(max_txs) ==> row1.tx_id == row2.tx_id && row1.index
                == row2.index
        }),
{
    lemma_table_at(txs1, msg_hash_rlcs1, randomness1, modulus1, max_txs, max_calldata, offset);
    lemma_table_at(txs2, msg_hash_rlcs2, randomness2, modulus2, max_txs, max_calldata, offset);
    let o = offset - call_data_start(max_txs);
    if 0 <= o < total_call_data(txs1) {
        let r = lemma_call_data_row_source(txs1, modulus1, o);
        lemma_call_data_row_at(txs1, modulus1, r.0, r.1);
    }
    if 0 <= o < total_call_data(txs2) {
        let r = lemma_call_data_row_source(txs2, modulus2, o);
        lemma_call_data_row_at(txs2, modulus2, r.0, r.1);
    }
}

/// The offset of the row that an operation is about.
pub open spec fn op_offset(op: Op) -> nat {
    match op {
        Op::Assign { column: _, offset, value: _ } => offset,
        Op::Constrain { column: _, offset, cell: _ } => offset,
    }
}

/// The operations of a row, one by one.
pub proof fn lemma_row_ops(offset: nat, row: Row, modulus: nat)
    requires
        modulus > 0,
    ensures
        ({
            let ops = row_ops(offset, row, modulus);
            &&& ops.len() == (if row.copy_of is Some { 5int } else { 4int })
            &&& ops[0] == (Op::Assign { column: TxColumn::TxId, offset, value: row.tx_id % modulus })
            &&& ops[1] == (Op::Assign {
                column: TxColumn::Tag,
                offset,
                value: row.tag.code() % modulus,
            })
            &&& ops[2] == (Op::Assign {
                column: TxColumn::Index,
                offset,
                value: row.index % modulus,
            })
            &&& ops[3] == (Op::Assign { column: TxColumn::Value, offset, value: row.value })
            &&& row.copy_of matches Some(cell) ==> ops[4] == (Op::Constrain {
                column: TxColumn::Value,
                offset,
                cell,
            })
        }),
{
}

/// The last row adds its operations after those of the rows before it.
pub proof fn lemma_last_row(rows: Seq<Row>, modulus: nat)
    requires
        rows.len() > 0,
    ensures
        ({
            let before = region_ops(rows.drop_last(), modulus);
            let added = row_ops((rows.len() - 1) as nat, rows.last(), modulus);
            &&& region_ops(rows, modulus).len() == before.len() + added.len()
            &&& forall|j: int|
                0 <= j < before.len() ==> #[trigger] region_ops(rows, modulus)[j] == before[j]
            &&& forall|j: int|
                before.len() <= j < before.len() + added.len() ==> #[trigger] region_ops(
                    rows,
                    modulus,
                )[j] == added[j - before.len()]
        }),
{
}

/// The operations are about the rows there are.
pub proof fn lemma_op_offsets(rows: Seq<Row>, modulus: nat)
    requires
        modulus > 0,
    ensures
        forall|j: int|
            0 <= j < region_ops(rows, modulus).len() ==> op_offset(
                #[trigger] region_ops(rows, modulus)[j],
            ) < rows.len(),
    decreases rows.len(),
{
    if rows.len() > 0 {
        lemma_op_offsets(rows.drop_last(), modulus);
        lemma_last_row(rows, modulus);
        lemma_row_ops((rows.len() - 1) as nat, rows.last(), modulus);
    }
}

/// What the cell of a row in a column is assigned.
pub open spec fn cell_value(row: Row, column: TxColumn, modulus: nat) -> nat {
    match column {
        TxColumn::TxId => row.tx_id % modulus,
        TxColumn::Tag => row.tag.code() % modulus,
        TxColumn::Index => row.index % modulus,
        TxColumn::Value => row.value,
    }
}

/// The operation assigns the cell of a column in the row at an offset.
pub open spec fn assigns(op: Op, column: TxColumn, offset: int) -> bool {
    op matches Op::Assign { column: c, offset: o, value: _ } && c == column && o == offset
}

/// Each cell of the table is assigned exactly once, what its row holds: `r` is the place of the
/// one operation that assigns the cell.
pub proof fn law_cell_assigned_once(
    rows: Seq<Row>,
    modulus: nat,
    column: TxColumn,
    offset: int,
) -> (r: int)
    requires
        modulus > 0,
        0 <= offset < rows.len(),
    ensures
        0 <= r < region_ops(rows, modulus).len(),
        region_ops(rows, modulus)[r] == (Op::Assign {
            column,
            offset: offset as nat,
            value: cell_value(rows[offset], column, modulus),
        }),
        forall|j: int|
            0 <= j < region_ops(rows, modulus).len() && assigns(
                #[trigger] region_ops(rows, modulus)[j],
                column,
                offset,
            ) ==> j == r,
    decreases rows.len(),
{
    let before = region_ops(rows.drop_last(), modulus);
    lemma_op_offsets(rows.drop_last(), modulus);
    lemma_last_row(rows, modulus);
    lemma_row_ops((rows.len() - 1) as nat, rows.last(), modulus);
    if offset == rows.len() - 1 {
        let k: int = match column {
            TxColumn::TxId => 0,
            TxColumn::Tag => 1,
            TxColumn::Index => 2,
            TxColumn::Value => 3,
        };
        let added = row_ops(offset as nat, rows.last(), modulus);
        assert(added[k] == (Op::Assign {
            column,
            offset: offset as nat,
            value: cell_value(rows[offset], column, modulus),
        }));
        assert forall|j: int|
            0 <= j < region_ops(rows, modulus).len() && assigns(
                #[trigger] region_ops(rows, modulus)[j],
                column,
                offset,
            ) implies j == before.len() + k by {
            if j < before.len() {
                assert(op_offset(before[j]) < offset);
            } else {
                assert(region_ops(rows, modulus)[j] == added[j - before.len()]);
            }
        }
        before.len() + k
    } else {
        let r = law_cell_assigned_once(rows.drop_last(), modulus, column, offset);
        assert forall|j: int|
            0 <= j < region_ops(rows, modulus).len() && assigns(
                #[trigger] region_ops(rows, modulus)[j],
                column,
                offset,
            ) implies j == r by {
            if j < before.len() {
                assert(region_ops(rows, modulus)[j] == before[j]);
            }
        }
        r
    }
}

/// A constraint ties the value of its row to the cell that the row copies.
pub proof fn law_constraints_sound(
    rows: Seq<Row>,
    modulus: nat,
    j: int,
    column: TxColumn,
    offset: nat,
    cell: SigVerifCell,
)
    requires
        modulus > 0,
        0 <= j < region_ops(rows, modulus).len(),
        region_ops(rows, modulus)[j] == (Op::Constrain { column, offset, cell }),
    ensures
        column == TxColumn::Value,
        offset < rows.len(),
        rows[offset as int].copy_of == Some(cell),
    decreases rows.len(),
{
    let before = region_ops(rows.drop_last(), modulus);
    lemma_op_offsets(rows, modulus);
    lemma_last_row(rows, modulus);
    lemma_row_ops((rows.len() - 1) as nat, rows.last(), modulus);
    if j < before.len() {
        law_constraints_sound(rows.drop_last(), modulus, j, column, offset, cell);
    }
}

/// A row that copies a cell is tied to it, after its value is assigned: `r` is the place of the
/// constraint.
pub proof fn law_constraints_complete(
    rows: Seq<Row>,
    modulus: nat,
    offset: int,
    cell: SigVerifCell,
) -> (r: int)
    requires
        modulus > 0,
        0 <= offset < rows.len(),
        rows[offset].copy_of == Some(cell),
    ensures
        0 < r < region_ops(rows, modulus).len(),
        region_ops(rows, modulus)[r] == (Op::Constrain {
            column: TxColumn::Value,
            offset: offset as nat,
            cell,
        }),
        assigns(region_ops(rows, modulus)[r - 1], TxColumn::Value, offset),
    decreases rows.len(),
{
    let before = region_ops(rows.drop_last(), modulus);
    lemma_last_row(rows, modulus);
    lemma_row_ops((rows.len() - 1) as nat, rows.last(), modulus);
    if offset == rows.len() - 1 {
        let added = row_ops(offset as nat, rows.last(), modulus);
        let r: int = before.len() as int + 4;
        assert(region_ops(rows, modulus)[r] == added[4]);
        assert(region_ops(rows, modulus)[r - 1] == added[3]);
        r
    } else {
        law_constraints_complete(rows.drop_last(), modulus, offset, cell)
    }
}

/// Two operations do the same to the same cell, but for the value that is assigned.
pub open spec fn same_place(a: Op, b: Op) -> bool {
    match (a, b) {
        (
            Op::Assign { column: c1, offset: o1, value: _ },
            Op::Assign { column: c2, offset: o2, value: _ },
        ) => c1 == c2 && o1 == o2,
        (
            Op::Constrain { column: c1, offset: o1, cell: cell1 },
            Op::Constrain { column: c2, offset: o2, cell: cell2 },
        ) => c1 == c2 && o1 == o2 && cell1 == cell2,
        _ => false,
    }
}

proof fn lemma_same_places(rows1: Seq<Row>, modulus1: nat, rows2: Seq<Row>, modulus2: nat)
    requires
        modulus1 > 0,
        modulus2 > 0,
        rows1.len() == rows2.len(),
        forall|i: int|
            0 <= i < rows1.len() ==> (#[trigger] rows1[i]).copy_of == (
            #[trigger] rows2[i]).copy_of,
    ensures
        region_ops(rows1, modulus1).len() == region_ops(rows2, modulus2).len(),
        forall|j: int|
            0 <= j < region_ops(rows1, modulus1).len() ==> same_place(
                #[trigger] region_ops(rows1, modulus1)[j],
                #[trigger] region_ops(rows2, modulus2)[j],
            ),
    decreases rows1.len(),
{
    if rows1.len() > 0 {
        lemma_same_places(rows1.drop_last(), modulus1, rows2.drop_last(), modulus2);
        assert(rows1.last() == rows1[rows1.len() - 1] && rows2.last() == rows2[rows1.len() - 1]);
        lemma_last_row(rows1, modulus1);
        lemma_last_row(rows2, modulus2);
        lemma_row_ops((rows1.len() - 1) as nat, rows1.last(), modulus1);
        lemma_row_ops((rows2.len() - 1) as nat, rows2.last(), modulus2);
        let before1 = region_ops(rows1.drop_last(), modulus1);
        let before2 = region_ops(rows2.drop_last(), modulus2);
        let added1 = row_ops((rows1.len() - 1) as nat, rows1.last(), modulus1);
        let added2 = row_ops((rows2.len() - 1) as nat, rows2.last(), modulus2);
        assert forall|j: int| 0 <= j < region_ops(rows1, modulus1).len() implies same_place(
            #[trigger] region_ops(rows1, modulus1)[j],
            #[trigger] region_ops(rows2, modulus2)[j],
        ) by {
            if j < before1.len() {
                assert(same_place(before1[j], before2[j]));
            } else {
                assert(same_place(added1[j - before1.len()], added2[j - before1.len()]));
            }
        }
    }
}

/// The layout depends on the size of the circuit alone: two circuits of one size do the same
/// operations on the same cells, and only the values differ.
pub proof fn law_layout_fixed<const MAX_TXS: usize, const MAX_CALLDATA: usize>(
    a: TxCircuit<MAX_TXS, MAX_CALLDATA>,
    msg_hash_rlcs_a: Seq<Option<U256>>,
    b: TxCircuit<MAX_TXS, MAX_CALLDATA>,
    msg_hash_rlcs_b: Seq<Option<U256>>,
)
    requires
        a.field.wf(),
        b.field.wf(),
        total_call_data(a.txs@) <= MAX_CALLDATA,
        total_call_data(b.txs@) <= MAX_CALLDATA,
    ensures
        ({
            let ops_a = region_ops(a.rows(msg_hash_rlcs_a), a.field.modulus@);
            let ops_b = region_ops(b.rows(msg_hash_rlcs_b), b.field.modulus@);
            &&& ops_a.len() == ops_b.len()
            &&& forall|j: int|
                0 <= j < ops_a.len() ==> same_place(#[trigger] ops_a[j], #[trigger] ops_b[j])
        }),
{
    let rows_a = a.rows(msg_hash_rlcs_a);
    let rows_b = b.rows(msg_hash_rlcs_b);
    law_table_length(
        a.txs@,
        msg_hash_rlcs_a,
        a.randomness@,
        a.field.modulus@,
        MAX_TXS as nat,
        MAX_CALLDATA as nat,
    );
    law_table_length(
        b.txs@,
        msg_hash_rlcs_b,
        b.randomness@,
        b.field.modulus@,
        MAX_TXS as nat,
        MAX_CALLDATA as nat,
    );
    assert forall|i: int| 0 <= i < rows_a.len() implies (#[trigger] rows_a[i]).copy_of == (
    #[trigger] rows_b[i]).copy_of by {
        law_rows_fixed(
            a.txs@,
            msg_hash_rlcs_a,
            a.randomness@,
            a.field.modulus@,
            b.txs@,
            msg_hash_rlcs_b,
            b.randomness@,
            b.field.modulus@,
            MAX_TXS as nat,
            MAX_CALLDATA as nat,
            i,
        );
    }
    lemma_same_places(rows_a, a.field.modulus@, rows_b, b.field.modulus@);
}

/// The set-up gives each column of the table exactly one advice column, and allows constraints on
/// every column in which a cell is constrained.
pub proof fn law_configuration_suffices(
    rows: Seq<Row>,
    modulus: nat,
    pow_rand_size: nat,
    column: TxColumn,
)
    requires
        modulus > 0,
    ensures
        exists|k: int|
            {
                &&& 0 <= k < config_ops(pow_rand_size).len()
                &&& #[trigger] config_ops(pow_rand_size)[k] == ConfigOp::AdviceColumn(column)
                &&& forall|l: int|
                    0 <= l < config_ops(pow_rand_size).len() && #[trigger] config_ops(
                        pow_rand_size,
                    )[l] == ConfigOp::AdviceColumn(column) ==> l == k
            },
        forall|j: int, offset: nat, cell: SigVerifCell|
            0 <= j < region_ops(rows, modulus).len() && #[trigger] region_ops(rows, modulus)[j] == (
            #[trigger] constraint(column, offset, cell)) ==> config_ops(pow_rand_size).contains(
                ConfigOp::EnableEquality(column),
            ),
{
    let ops = config_ops(pow_rand_size);
    let k: int = match column {
        TxColumn::TxId => 0,
        TxColumn::Tag => 1,
        TxColumn::Index => 2,
        TxColumn::Value => 3,
    };
    assert(ops[k] == ConfigOp::AdviceColumn(column));
    assert(ops[4] == ConfigOp::EnableEquality(TxColumn::Value));
    assert forall|j: int, offset: nat, cell: SigVerifCell|
        0 <= j < region_ops(rows, modulus).len() && #[trigger] region_ops(rows, modulus)[j] == (
        #[trigger] constraint(column, offset, cell)) implies ops.contains(
        ConfigOp::EnableEquality(column),
    ) by {
        law_constraints_sound(rows, modulus, j, column, offset, cell);
    }
}

/// The constraint of a cell of the table to equal another cell.
pub open spec fn constraint(column: TxColumn, offset: nat, cell: SigVerifCell) -> Op {
    Op::Constrain { column, offset, cell }
}

} // verus!
