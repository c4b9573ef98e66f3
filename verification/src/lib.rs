//! The transaction table of a zero-knowledge circuit for the Ethereum virtual machine, the
//! signature data that its signature check starts from, and the steps of an execution.
pub mod bytes;
pub mod crypto;
pub mod curve_laws;
pub mod evm_types;
pub mod execution;
pub mod field;
pub mod number_laws;
pub mod rlp_decoding;
pub mod rlp_stream;
pub mod secp256k1;
pub mod sign_data;
pub mod sign_data_laws;
pub mod signing_laws;
pub mod table_contents;
pub mod table_laws;
pub mod transaction;
pub mod tx_circuit;
pub mod u256;
