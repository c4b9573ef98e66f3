# tx_circuit

The transaction table of a zero-knowledge circuit for the Ethereum virtual machine, verified with
Verus.

- `src/tx_circuit.rs`: the rows of the table, the operations that lay them out in a circuit region
  and those that set a constraint system up.
- `src/table_laws.rs`: what holds of every table and layout: lookups have one answer, each cell is
  assigned once, the layout does not depend on the transactions.
- `src/sign_data.rs`: the signature data of a transaction: its signature, the hash that was signed
  and the public key recovered from both.
- `src/signing_laws.rs`: what the signed bytes say of a transaction.
- `src/execution.rs`, `src/evm_types.rs`: the steps of an execution.
- `src/field.rs`, `src/u256.rs`, `src/bytes.rs`, `src/secp256k1.rs`, `src/transaction.rs`: numbers,
  points and transactions.
- `src/rlp_stream.rs`, `src/crypto.rs`: the calls into the crates `rlp`, `sha3` and `libsecp256k1`,
  with what is trusted of them.
- `app/`: the circuit on a `halo2_proofs` constraint system.
