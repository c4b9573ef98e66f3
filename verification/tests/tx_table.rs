use tx_circuit::field::{random_linear_combine, Field};
use tx_circuit::sign_data::SignDataError;
use tx_circuit::transaction::{Address, Bytes, Transaction};
use tx_circuit::tx_circuit::{
    assign_row, ConfigOp, RegionOp, SigVerifCell, TxCell, TxCircuit, TxColumn, TxFieldTag, TxRow,
};
use tx_circuit::u256::U256;

const TAGS: [TxFieldTag; 9] = [
    TxFieldTag::Nonce,
    TxFieldTag::Gas,
    TxFieldTag::GasPrice,
    TxFieldTag::CallerAddress,
    TxFieldTag::CalleeAddress,
    TxFieldTag::IsCreate,
    TxFieldTag::Value,
    TxFieldTag::CallDataLength,
    TxFieldTag::TxSignHash,
];

fn field() -> Field {
    Field {
        modulus: U256([
            0x43e1_f593_f000_0001,
            0x2833_e848_79b9_7091,
            0xb850_45b6_8181_585d,
            0x3064_4e72_e131_a029,
        ]),
    }
}

fn transaction(data: &[u8]) -> Transaction {
    let mut from = [0u8; 20];
    from[19] = 0xaa;
    let mut to = [0u8; 20];
    to[18] = 1;
    Transaction {
        from: Address(from),
        to: Some(Address(to)),
        gas: U256::from_u64(21_000),
        gas_price: U256::from_u64(3),
        value: U256::from_u64(1_000),
        data: Bytes(data.to_vec()),
        nonce: U256::from_u64(2),
        v: 0,
        r: U256::zero(),
        s: U256::zero(),
    }
}

fn circuit(txs: Vec<Transaction>) -> TxCircuit<3, 8> {
    TxCircuit { field: field(), randomness: U256::from_u64(1_000_003), txs, chain_id: 1 }
}

fn row(tx_id: usize, tag: TxFieldTag, index: usize, value: U256) -> TxRow {
    TxRow { tx_id, tag, index, value, copy_of: None }
}

#[test]
fn tag_numbers() {
    assert_eq!(TxFieldTag::Null.to_u64(), 0);
    for (k, tag) in TAGS.iter().enumerate() {
        assert_eq!(tag.to_u64(), k as u64 + 1);
        assert_eq!(*tag as u64, k as u64 + 1);
    }
    assert_eq!(TxFieldTag::CallData.to_u64(), 10);
}

#[test]
fn rows_of_the_table() {
    let circuit = circuit(vec![transaction(&[7, 8, 9]), transaction(&[1, 2])]);
    let hash = U256::from_u64(424_242);
    let rows = circuit.tx_table(&vec![Some(hash), None, None]);
    assert_eq!(rows.len(), 1 + 9 * 3 + 8);
    assert_eq!(rows[0], row(0, TxFieldTag::Null, 0, U256::zero()));
    let rlc = |x: u64| {
        random_linear_combine(&field(), U256::from_u64(x).to_le_bytes(), &circuit.randomness)
    };
    let expected = [
        U256::from_u64(2),
        rlc(21_000),
        U256::from_u64(3),
        U256::from_u64(0xaa),
        U256::from_u64(0x100),
        U256::zero(),
        rlc(1_000),
        U256::from_u64(3),
        hash,
    ];
    assert_eq!(rlc(21_000), U256::from_u64(0x08 + 0x52 * 1_000_003));
    for k in 0..9 {
        let row = rows[1 + k];
        assert_eq!((row.tx_id, row.tag, row.index), (1, TAGS[k], 0));
        assert_eq!(row.value, expected[k]);
    }
    assert_eq!(rows[4].copy_of, Some(SigVerifCell::Address(0)));
    assert_eq!(rows[9].copy_of, Some(SigVerifCell::MsgHashRlc(0)));
    assert_eq!(rows[13].copy_of, Some(SigVerifCell::Address(1)));
    assert_eq!(rows[18].copy_of, Some(SigVerifCell::MsgHashRlc(1)));
    assert_eq!(rows[18].value, U256::zero());
    assert_eq!(rows.iter().filter(|row| row.copy_of.is_some()).count(), 6);
    let data = &rows[28..];
    for (k, byte) in [7u64, 8, 9].iter().enumerate() {
        assert_eq!(data[k], row(1, TxFieldTag::CallData, k, U256::from_u64(*byte)));
    }
    for (k, byte) in [1u64, 2].iter().enumerate() {
        assert_eq!(data[3 + k], row(2, TxFieldTag::CallData, k, U256::from_u64(*byte)));
    }
    for padding in &data[5..] {
        assert_eq!(*padding, row(0, TxFieldTag::CallData, 0, U256::zero()));
    }
}

#[test]
fn rows_of_absent_transactions() {
    let rows = circuit(vec![]).tx_table(&vec![None, None, None]);
    for i in 0..3 {
        for k in 0..9 {
            let row = rows[1 + 9 * i + k];
            assert_eq!((row.tx_id, row.tag), (i + 1, TAGS[k]));
            let expected = if row.tag == TxFieldTag::IsCreate { 1 } else { 0 };
            assert_eq!(row.value, U256::from_u64(expected));
        }
    }
}

#[test]
fn contract_creation() {
    let mut tx = transaction(&[]);
    tx.to = None;
    let rows = circuit(vec![tx]).tx_table(&vec![None, None, None]);
    assert_eq!(rows[5], row(1, TxFieldTag::CalleeAddress, 0, U256::zero()));
    assert_eq!(rows[6], row(1, TxFieldTag::IsCreate, 0, U256::from_u64(1)));
}

#[test]
fn full_call_data_has_no_padding() {
    let rows = circuit(vec![transaction(&[5; 8])]).tx_table(&vec![None, None, None]);
    assert_eq!(rows.len(), 36);
    assert_eq!(rows[35], row(1, TxFieldTag::CallData, 7, U256::from_u64(5)));
}

#[test]
fn keys_are_unique() {
    let rows = circuit(vec![transaction(&[1, 1]), transaction(&[]), transaction(&[1, 1, 1])])
        .tx_table(&vec![None, None, None]);
    for (a, row_a) in rows.iter().enumerate() {
        for (b, row_b) in rows.iter().enumerate() {
            if row_a.tx_id != 0 && a != b {
                assert_ne!(
                    (row_a.tx_id, row_a.tag, row_a.index),
                    (row_b.tx_id, row_b.tag, row_b.index),
                );
            }
        }
    }
}

#[test]
fn assigning_a_row() {
    let mut ops: Vec<RegionOp> = Vec::new();
    let cell =
        assign_row(&mut ops, &field(), 5, 2, TxFieldTag::CallData, 9, U256::from_u64(77));
    assert_eq!(cell, TxCell { column: TxColumn::Value, offset: 5 });
    let expected = [
        (TxColumn::TxId, 2),
        (TxColumn::Tag, 10),
        (TxColumn::Index, 9),
        (TxColumn::Value, 77),
    ];
    assert_eq!(ops.len(), 4);
    for (op, (column, value)) in ops.iter().zip(expected) {
        assert_eq!(
            *op,
            RegionOp::AssignAdvice {
                cell: TxCell { column, offset: 5 },
                value: U256::from_u64(value),
            },
        );
    }
}

#[test]
fn operations_of_the_layout() {
    let circuit = circuit(vec![transaction(&[7, 8, 9])]);
    let hashes = vec![Some(U256::from_u64(1)), None, None];
    let rows = circuit.tx_table(&hashes);
    let ops = circuit.synthesize(&hashes);
    assert_eq!(ops.len(), 4 * rows.len() + 6);
    let mut expected: Vec<RegionOp> = Vec::new();
    for (offset, row) in rows.iter().enumerate() {
        let cell =
            assign_row(&mut expected, &field(), offset, row.tx_id, row.tag, row.index, row.value);
        if let Some(target) = row.copy_of {
            expected.push(RegionOp::ConstrainEqual { cell, target });
        }
    }
    assert_eq!(ops, expected);
    assert_eq!(
        ops[20],
        RegionOp::ConstrainEqual {
            cell: TxCell { column: TxColumn::Value, offset: 4 },
            target: SigVerifCell::Address(0),
        },
    );
}

#[test]
fn layout_does_not_depend_on_the_witness() {
    let place = |op: &RegionOp| match *op {
        RegionOp::AssignAdvice { cell, .. } => (cell, None),
        RegionOp::ConstrainEqual { cell, target } => (cell, Some(target)),
    };
    let full = circuit(vec![transaction(&[7, 8, 9]), transaction(&[1, 2])]);
    let empty = full.without_witnesses();
    assert!(empty.txs.is_empty());
    assert_eq!(empty.randomness, U256::zero());
    assert_eq!(empty.chain_id, 0);
    let hashes = vec![None, None, None];
    let full_ops = full.synthesize(&vec![Some(U256::from_u64(9)), None, None]);
    let empty_ops = empty.synthesize(&hashes);
    assert_eq!(full_ops.len(), empty_ops.len());
    for (a, b) in full_ops.iter().zip(&empty_ops) {
        assert_eq!(place(a), place(b));
    }
}

#[test]
fn setting_up_the_constraint_system() {
    assert_eq!(
        TxCircuit::<3, 8>::configure(2),
        vec![
            ConfigOp::AdviceColumn(TxColumn::TxId),
            ConfigOp::AdviceColumn(TxColumn::Tag),
            ConfigOp::AdviceColumn(TxColumn::Index),
            ConfigOp::AdviceColumn(TxColumn::Value),
            ConfigOp::EnableEquality(TxColumn::Value),
            ConfigOp::InstanceColumn(0),
            ConfigOp::InstanceColumn(1),
            ConfigOp::PowerOfRandomnessGate,
        ],
    );
}

#[test]
fn first_refused_transaction_is_reported() {
    let mut late = transaction(&[]);
    late.v = 200;
    late.r = U256::from_u64(1);
    let unsigned = circuit(vec![transaction(&[]), late]);
    assert_eq!(unsigned.sign_datas(), Err(SignDataError::SignatureV));
    assert_eq!(circuit(vec![]).sign_datas(), Ok(vec![]));
}

#[test]
fn layout_of_what_fits() {
    let hashes = vec![Some(U256::from_u64(9)), None, None];
    let full = circuit(vec![transaction(&[7; 4]), transaction(&[]), transaction(&[8; 4])]);
    assert!(full.check_fits());
    assert!(full.check_accepts(&hashes));
    assert_eq!(full.try_synthesize(&hashes), Some(full.synthesize(&hashes)));
}

#[test]
fn layout_of_what_does_not_fit() {
    let hashes = vec![None, None, None];
    let too_many = circuit(vec![transaction(&[]); 4]);
    assert_eq!(too_many.try_synthesize(&hashes), None);
    let too_long = circuit(vec![transaction(&[1; 5]), transaction(&[1; 4])]);
    assert_eq!(too_long.try_synthesize(&hashes), None);
    let mut small_field = circuit(vec![transaction(&[])]);
    small_field.randomness = U256::from_u64(3);
    small_field.field = Field { modulus: U256::from_u64(0xaa) };
    assert_eq!(small_field.try_synthesize(&hashes), None);
    small_field.field = Field { modulus: U256::from_u64(0x100) };
    assert_eq!(small_field.try_synthesize(&hashes), None);
    small_field.field = Field { modulus: U256::from_u64(0x101) };
    assert!(small_field.try_synthesize(&hashes).is_some());
}

#[test]
fn layout_with_unacceptable_hashes() {
    let circuit = circuit(vec![transaction(&[])]);
    assert_eq!(circuit.try_synthesize(&vec![None, None]), None);
    assert_eq!(circuit.try_synthesize(&vec![None, Some(field().modulus), None]), None);
    assert!(circuit.try_synthesize(&vec![None, None, None, None]).is_some());
}
