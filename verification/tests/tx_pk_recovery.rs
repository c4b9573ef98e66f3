use ethers_core::types::{NameOrAddress, TransactionRequest};
use ethers_core::utils::keccak256;
use ethers_signers::{LocalWallet, Signer};
use ff::PrimeField;
use halo2_proofs::arithmetic::FieldExt;
use halo2_proofs::circuit::{AssignedCell, Cell, Layouter, SimpleFloorPlanner};
use halo2_proofs::dev::MockProver;
use halo2_proofs::pasta::Fp;
use halo2_proofs::plonk::{
    Advice, Circuit, Column, ConstraintSystem, Error, Expression, Instance,
};
use halo2_proofs::poly::Rotation;
use rand::SeedableRng;
use rand_chacha::ChaCha20Rng;
use tx_circuit::field::{random_linear_combine, Field};
use tx_circuit::sign_data::{sign_hash, signing_message, SignData};
use tx_circuit::transaction::{Address, Bytes, Transaction};
use tx_circuit::tx_circuit::{ConfigOp, RegionOp, SigVerifCell, TxCell, TxCircuit, TxColumn};
use tx_circuit::u256::U256;

const POW_RAND_SIZE: usize = 31;

fn from_field(x: Fp) -> U256 {
    U256::from_le_bytes(&x.to_repr())
}

fn to_field(x: &U256) -> Fp {
    Fp::from_repr(x.to_le_bytes()).unwrap()
}

fn field() -> Field {
    Field { modulus: from_field(-Fp::one()).overflowing_add(&U256::from_u64(1)).0 }
}

fn word(x: ethers_core::types::U256) -> U256 {
    U256(x.0)
}

/// The address that a public key has.
fn signer_address(data: &SignData) -> U256 {
    let mut key = data.pk.x.to_be_bytes().to_vec();
    key.extend_from_slice(&data.pk.y.to_be_bytes());
    let mut bytes = [0u8; 32];
    bytes[12..].copy_from_slice(&keccak256(&key)[12..]);
    U256::from_be_bytes(&bytes)
}

#[derive(Clone)]
struct Config {
    columns: Vec<(TxColumn, Column<Advice>)>,
    sig_verif: Column<Advice>,
}

impl Config {
    fn column(&self, wanted: TxColumn) -> Column<Advice> {
        self.columns.iter().find(|(column, _)| *column == wanted).unwrap().1
    }
}

/// The table beside cells that hold what the signatures prove: the signers and the hashes.
struct TableCircuit<const MAX_TXS: usize, const MAX_CALLDATA: usize> {
    table: TxCircuit<MAX_TXS, MAX_CALLDATA>,
}

impl<const MAX_TXS: usize, const MAX_CALLDATA: usize> Circuit<Fp>
    for TableCircuit<MAX_TXS, MAX_CALLDATA>
{
    type Config = Config;
    type FloorPlanner = SimpleFloorPlanner;

    fn without_witnesses(&self) -> Self {
        TableCircuit { table: self.table.without_witnesses() }
    }

    fn configure(meta: &mut ConstraintSystem<Fp>) -> Config {
        let mut columns: Vec<(TxColumn, Column<Advice>)> = Vec::new();
        let mut instances: Vec<Column<Instance>> = Vec::new();
        for op in TxCircuit::<MAX_TXS, MAX_CALLDATA>::configure(POW_RAND_SIZE) {
            match op {
                ConfigOp::AdviceColumn(column) => columns.push((column, meta.advice_column())),
                ConfigOp::EnableEquality(wanted) => {
                    let column = columns.iter().find(|(column, _)| *column == wanted).unwrap().1;
                    meta.enable_equality(column);
                }
                ConfigOp::InstanceColumn(i) => {
                    assert_eq!(i, instances.len());
                    instances.push(meta.instance_column());
                }
                ConfigOp::PowerOfRandomnessGate => {
                    meta.create_gate("power of randomness", |meta| {
                        for column in &instances {
                            meta.query_instance(*column, Rotation::cur());
                        }
                        [Expression::Constant(Fp::zero())]
                    });
                }
            }
        }
        let sig_verif = meta.advice_column();
        meta.enable_equality(sig_verif);
        Config { columns, sig_verif }
    }

    fn synthesize(&self, config: Config, mut layouter: impl Layouter<Fp>) -> Result<(), Error> {
        let table = &self.table;
        let sign_datas = table.sign_datas().unwrap();
        let mut proved: Vec<(U256, U256)> = Vec::new();
        for i in 0..MAX_TXS {
            proved.push(if i < sign_datas.len() {
                let hash = sign_datas[i].msg_hash.0.to_le_bytes();
                (
                    signer_address(&sign_datas[i]),
                    random_linear_combine(&table.field, hash, &table.randomness),
                )
            } else {
                (U256::zero(), U256::zero())
            });
        }
        let cells: Vec<(AssignedCell<Fp, Fp>, AssignedCell<Fp, Fp>)> = layouter.assign_region(
            || "signatures",
            |mut region| {
                let mut cells = Vec::new();
                for (i, (address, hash)) in proved.iter().enumerate() {
                    let address = to_field(address);
                    let hash = to_field(hash);
                    cells.push((
                        region.assign_advice(
                            || "address",
                            config.sig_verif,
                            2 * i,
                            || Ok(address),
                        )?,
                        region.assign_advice(
                            || "hash",
                            config.sig_verif,
                            2 * i + 1,
                            || Ok(hash),
                        )?,
                    ));
                }
                Ok(cells)
            },
        )?;
        let hashes: Vec<Option<U256>> =
            cells.iter().map(|(_, hash)| hash.value().map(|x| from_field(*x))).collect();
        let ops = table.synthesize(&hashes);
        layouter.assign_region(
            || "tx table",
            |mut region| {
                let mut last: Option<(TxCell, Cell)> = None;
                for op in &ops {
                    match op {
                        RegionOp::AssignAdvice { cell, value } => {
                            let value = to_field(value);
                            let column = config.column(cell.column);
                            let assigned =
                                region.assign_advice(|| "", column, cell.offset, || Ok(value))?;
                            last = Some((*cell, assigned.cell()));
                        }
                        RegionOp::ConstrainEqual { cell, target } => {
                            let (assigned, left) = last.unwrap();
                            assert_eq!(assigned, *cell);
                            let right = match *target {
                                SigVerifCell::Address(i) => cells[i].0.cell(),
                                SigVerifCell::MsgHashRlc(i) => cells[i].1.cell(),
                            };
                            region.constrain_equal(left, right)?;
                        }
                    }
                }
                Ok(())
            },
        )
    }
}

fn accepted<const MAX_TXS: usize, const MAX_CALLDATA: usize>(
    txs: Vec<Transaction>,
    chain_id: u64,
) -> bool {
    let randomness = Fp::from(0x1234_5678_9abc_def0).square();
    let power_of_randomness: Vec<Vec<Fp>> = (1..POW_RAND_SIZE + 1)
        .map(|exp| vec![FieldExt::pow(&randomness, &[exp as u64, 0, 0, 0]); txs.len()])
        .collect();
    let circuit = TableCircuit::<MAX_TXS, MAX_CALLDATA> {
        table: TxCircuit { field: field(), randomness: from_field(randomness), txs, chain_id },
    };
    let prover = MockProver::run(7, &circuit, power_of_randomness).unwrap();
    prover.verify().is_ok()
}

/// A transaction that a randomly made wallet has signed, and its chain.
fn signed_transaction() -> (Transaction, u64) {
    // Generate a random wallet
    let mut rng = ChaCha20Rng::seed_from_u64(2);
    let chain_id: u64 = 1337;
    let wallet0 = LocalWallet::new(&mut rng).with_chain_id(chain_id);
    let signer = wallet0.signer();
    let wallet1 = LocalWallet::new(&mut rng).with_chain_id(chain_id);
    let from = wallet0.address();
    let to = wallet1.address();
    let data = b"hello";
    let tx = TransactionRequest::new()
        .from(from)
        .to(to)
        .nonce(3)
        .value(1000)
        .data(data)
        .gas(500_000)
        .gas_price(1234);
    let tx_rlp = tx.rlp(chain_id);
    let sighash = keccak256(tx_rlp.as_ref()).into();
    let sig = wallet0.sign_hash(sighash, true);
    let to = tx.to.map(|to| match to {
        NameOrAddress::Address(a) => Address(a.0),
        _ => unreachable!(),
    });
    let tx = Transaction {
        from: Address(tx.from.unwrap().0),
        to,
        gas: word(tx.gas.unwrap()),
        gas_price: word(tx.gas_price.unwrap()),
        value: word(tx.value.unwrap()),
        data: Bytes(tx.data.unwrap().to_vec()),
        nonce: word(tx.nonce.unwrap()),
        v: sig.v,
        r: word(sig.r),
        s: word(sig.s),
    };
    assert_eq!(signing_message(&tx, chain_id), tx_rlp.to_vec());
    assert_eq!(sign_hash(&tx, chain_id), sighash.0);
    let circuit: TxCircuit<2, 8> =
        TxCircuit { field: field(), randomness: U256::zero(), txs: vec![tx.clone()], chain_id };
    let pk = circuit.sign_datas().unwrap()[0].pk;
    let compressed = signer.verifying_key().to_bytes();
    assert_eq!(pk.x.to_be_bytes()[..], compressed.as_slice()[1..]);
    assert_eq!(pk.y.to_le_bytes()[0] & 1, compressed.as_slice()[0] & 1);
    (tx, chain_id)
}

#[test]
fn test_tx_pk_recovery() {
    let (tx, chain_id) = signed_transaction();
    let txs = vec![tx];

    const MAX_TXS: usize = 2;
    const MAX_CALLDATA: usize = 8;

    assert!(accepted::<MAX_TXS, MAX_CALLDATA>(txs, chain_id));
}

#[test]
fn wrong_sender_is_refused() {
    let (mut tx, chain_id) = signed_transaction();
    tx.from = Address::zero();
    assert!(!accepted::<2, 8>(vec![tx], chain_id));
}

#[test]
fn no_transactions_are_accepted() {
    assert!(accepted::<2, 8>(vec![], 1337));
}
