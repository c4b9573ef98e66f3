//! Values of the Ethereum virtual machine.
use vstd::prelude::*;

use crate::u256::U256;

verus! {

/// An opcode of the virtual machine.
#[derive(Clone, Copy, Debug, PartialEq, Eq, Structural)]
pub enum OpcodeId {
    STOP,
    ADD,
    MUL,
    SUB,
    DIV,
    SDIV,
    MOD,
    SMOD,
    ADDMOD,
    MULMOD,
    EXP,
    SIGNEXTEND,
    LT,
    GT,
    SLT,
    SGT,
    EQ,
    ISZERO,
    AND,
    OR,
    XOR,
    NOT,
    BYTE,
    SHL,
    SHR,
    SAR,
    SHA3,
    ADDRESS,
    BALANCE,
    ORIGIN,
    CALLER,
    CALLVALUE,
    CALLDATALOAD,
    CALLDATASIZE,
    CALLDATACOPY,
    CODESIZE,
    CODECOPY,
    GASPRICE,
    EXTCODESIZE,
    EXTCODECOPY,
    RETURNDATASIZE,
    RETURNDATACOPY,
    EXTCODEHASH,
    BLOCKHASH,
    COINBASE,
    TIMESTAMP,
    NUMBER,
    DIFFICULTY,
    GASLIMIT,
    CHAINID,
    SELFBALANCE,
    BASEFEE,
    POP,
    MLOAD,
    MSTORE,
    MSTORE8,
    SLOAD,
    SSTORE,
    JUMP,
    JUMPI,
    PC,
    MSIZE,
    GAS,
    JUMPDEST,
    PUSH1,
    PUSH2,
    PUSH3,
    PUSH4,
    PUSH5,
    PUSH6,
    PUSH7,
    PUSH8,
    PUSH9,
    PUSH10,
    PUSH11,
    PUSH12,
    PUSH13,
    PUSH14,
    PUSH15,
    PUSH16,
    PUSH17,
    PUSH18,
    PUSH19,
    PUSH20,
    PUSH21,
    PUSH22,
    PUSH23,
    PUSH24,
    PUSH25,
    PUSH26,
    PUSH27,
    PUSH28,
    PUSH29,
    PUSH30,
    PUSH31,
    PUSH32,
    DUP1,
    DUP2,
    DUP3,
    DUP4,
    DUP5,
    DUP6,
    DUP7,
    DUP8,
    DUP9,
    DUP10,
    DUP11,
    DUP12,
    DUP13,
    DUP14,
    DUP15,
    DUP16,
    SWAP1,
    SWAP2,
    SWAP3,
    SWAP4,
    SWAP5,
    SWAP6,
    SWAP7,
    SWAP8,
    SWAP9,
    SWAP10,
    SWAP11,
    SWAP12,
    SWAP13,
    SWAP14,
    SWAP15,
    SWAP16,
    LOG0,
    LOG1,
    LOG2,
    LOG3,
    LOG4,
    CREATE,
    CALL,
    CALLCODE,
    RETURN,
    DELEGATECALL,
    CREATE2,
    STATICCALL,
    REVERT,
    SELFDESTRUCT,
    /// A byte that names no opcode
    INVALID(u8),
}

impl OpcodeId {
    /// The byte that stands for the opcode in code; an invalid one carries its byte.
    pub open spec fn byte(self) -> u8 {
        match self {
            OpcodeId::STOP => 0x00,
            OpcodeId::ADD => 0x01,
            OpcodeId::MUL => 0x02,
            OpcodeId::SUB => 0x03,
            OpcodeId::DIV => 0x04,
            OpcodeId::SDIV => 0x05,
            OpcodeId::MOD => 0x06,
            OpcodeId::SMOD => 0x07,
            OpcodeId::ADDMOD => 0x08,
            OpcodeId::MULMOD => 0x09,
            OpcodeId::EXP => 0x0a,
            OpcodeId::SIGNEXTEND => 0x0b,
            OpcodeId::LT => 0x10,
            OpcodeId::GT => 0x11,
            OpcodeId::SLT => 0x12,
            OpcodeId::SGT => 0x13,
            OpcodeId::EQ => 0x14,
            OpcodeId::ISZERO => 0x15,
            OpcodeId::AND => 0x16,
            OpcodeId::OR => 0x17,
            OpcodeId::XOR => 0x18,
            OpcodeId::NOT => 0x19,
            OpcodeId::BYTE => 0x1a,
            OpcodeId::SHL => 0x1b,
            OpcodeId::SHR => 0x1c,
            OpcodeId::SAR => 0x1d,
            OpcodeId::SHA3 => 0x20,
            OpcodeId::ADDRESS => 0x30,
            OpcodeId::BALANCE => 0x31,
            OpcodeId::ORIGIN => 0x32,
            OpcodeId::CALLER => 0x33,
            OpcodeId::CALLVALUE => 0x34,
            OpcodeId::CALLDATALOAD => 0x35,
            OpcodeId::CALLDATASIZE => 0x36,
            OpcodeId::CALLDATACOPY => 0x37,
            OpcodeId::CODESIZE => 0x38,
            OpcodeId::CODECOPY => 0x39,
            OpcodeId::GASPRICE => 0x3a,
            OpcodeId::EXTCODESIZE => 0x3b,
            OpcodeId::EXTCODECOPY => 0x3c,
            OpcodeId::RETURNDATASIZE => 0x3d,
            OpcodeId::RETURNDATACOPY => 0x3e,
            OpcodeId::EXTCODEHASH => 0x3f,
            OpcodeId::BLOCKHASH => 0x40,
            OpcodeId::COINBASE => 0x41,
            OpcodeId::TIMESTAMP => 0x42,
            OpcodeId::NUMBER => 0x43,
            OpcodeId::DIFFICULTY => 0x44,
            OpcodeId::GASLIMIT => 0x45,
            OpcodeId::CHAINID => 0x46,
            OpcodeId::SELFBALANCE => 0x47,
            OpcodeId::BASEFEE => 0x48,
            OpcodeId::POP => 0x50,
            OpcodeId::MLOAD => 0x51,
            OpcodeId::MSTORE => 0x52,
            OpcodeId::MSTORE8 => 0x53,
            OpcodeId::SLOAD => 0x54,
            OpcodeId::SSTORE => 0x55,
            OpcodeId::JUMP => 0x56,
            OpcodeId::JUMPI => 0x57,
            OpcodeId::PC => 0x58,
            OpcodeId::MSIZE => 0x59,
            OpcodeId::GAS => 0x5a,
            OpcodeId::JUMPDEST => 0x5b,
            OpcodeId::PUSH1 => 0x60,
            OpcodeId::PUSH2 => 0x61,
            OpcodeId::PUSH3 => 0x62,
            OpcodeId::PUSH4 => 0x63,
            OpcodeId::PUSH5 => 0x64,
            OpcodeId::PUSH6 => 0x65,
            OpcodeId::PUSH7 => 0x66,
            OpcodeId::PUSH8 => 0x67,
            OpcodeId::PUSH9 => 0x68,
            OpcodeId::PUSH10 => 0x69,
            OpcodeId::PUSH11 => 0x6a,
            OpcodeId::PUSH12 => 0x6b,
            OpcodeId::PUSH13 => 0x6c,
            OpcodeId::PUSH14 => 0x6d,
            OpcodeId::PUSH15 => 0x6e,
            OpcodeId::PUSH16 => 0x6f,
            OpcodeId::PUSH17 => 0x70,
            OpcodeId::PUSH18 => 0x71,
            OpcodeId::PUSH19 => 0x72,
            OpcodeId::PUSH20 => 0x73,
            OpcodeId::PUSH21 => 0x74,
            OpcodeId::PUSH22 => 0x75,
            OpcodeId::PUSH23 => 0x76,
            OpcodeId::PUSH24 => 0x77,
            OpcodeId::PUSH25 => 0x78,
            OpcodeId::PUSH26 => 0x79,
            OpcodeId::PUSH27 => 0x7a,
            OpcodeId::PUSH28 => 0x7b,
            OpcodeId::PUSH29 => 0x7c,
            OpcodeId::PUSH30 => 0x7d,
            OpcodeId::PUSH31 => 0x7e,
            OpcodeId::PUSH32 => 0x7f,
            OpcodeId::DUP1 => 0x80,
            OpcodeId::DUP2 => 0x81,
            OpcodeId::DUP3 => 0x82,
            OpcodeId::DUP4 => 0x83,
            OpcodeId::DUP5 => 0x84,
            OpcodeId::DUP6 => 0x85,
            OpcodeId::DUP7 => 0x86,
            OpcodeId::DUP8 => 0x87,
            OpcodeId::DUP9 => 0x88,
            OpcodeId::DUP10 => 0x89,
            OpcodeId::DUP11 => 0x8a,
            OpcodeId::DUP12 => 0x8b,
            OpcodeId::DUP13 => 0x8c,
            OpcodeId::DUP14 => 0x8d,
            OpcodeId::DUP15 => 0x8e,
            OpcodeId::DUP16 => 0x8f,
            OpcodeId::SWAP1 => 0x90,
            OpcodeId::SWAP2 => 0x91,
            OpcodeId::SWAP3 => 0x92,
            OpcodeId::SWAP4 => 0x93,
            OpcodeId::SWAP5 => 0x94,
            OpcodeId::SWAP6 => 0x95,
            OpcodeId::SWAP7 => 0x96,
            OpcodeId::SWAP8 => 0x97,
            OpcodeId::SWAP9 => 0x98,
            OpcodeId::SWAP10 => 0x99,
            OpcodeId::SWAP11 => 0x9a,
            OpcodeId::SWAP12 => 0x9b,
            OpcodeId::SWAP13 => 0x9c,
            OpcodeId::SWAP14 => 0x9d,
            OpcodeId::SWAP15 => 0x9e,
            OpcodeId::SWAP16 => 0x9f,
            OpcodeId::LOG0 => 0xa0,
            OpcodeId::LOG1 => 0xa1,
            OpcodeId::LOG2 => 0xa2,
            OpcodeId::LOG3 => 0xa3,
            OpcodeId::LOG4 => 0xa4,
            OpcodeId::CREATE => 0xf0,
            OpcodeId::CALL => 0xf1,
            OpcodeId::CALLCODE => 0xf2,
            OpcodeId::RETURN => 0xf3,
            OpcodeId::DELEGATECALL => 0xf4,
            OpcodeId::CREATE2 => 0xf5,
            OpcodeId::STATICCALL => 0xfa,
            OpcodeId::REVERT => 0xfd,
            OpcodeId::SELFDESTRUCT => 0xff,
            OpcodeId::INVALID(byte) => byte,
        }
    }

    /// The byte that stands for the opcode in code; an invalid one carries its byte.
    pub fn as_u8(&self) -> (r: u8)
        ensures
            r == self.byte(),
    {
        match *self {
            OpcodeId::STOP => 0x00,
            OpcodeId::ADD => 0x01,
            OpcodeId::MUL => 0x02,
            OpcodeId::SUB => 0x03,
            OpcodeId::DIV => 0x04,
            OpcodeId::SDIV => 0x05,
            OpcodeId::MOD => 0x06,
            OpcodeId::SMOD => 0x07,
            OpcodeId::ADDMOD => 0x08,
            OpcodeId::MULMOD => 0x09,
            OpcodeId::EXP => 0x0a,
            OpcodeId::SIGNEXTEND => 0x0b,
            OpcodeId::LT => 0x10,
            OpcodeId::GT => 0x11,
            OpcodeId::SLT => 0x12,
            OpcodeId::SGT => 0x13,
            OpcodeId::EQ => 0x14,
            OpcodeId::ISZERO => 0x15,
            OpcodeId::AND => 0x16,
            OpcodeId::OR => 0x17,
            OpcodeId::XOR => 0x18,
            OpcodeId::NOT => 0x19,
            OpcodeId::BYTE => 0x1a,
            OpcodeId::SHL => 0x1b,
            OpcodeId::SHR => 0x1c,
            OpcodeId::SAR => 0x1d,
            OpcodeId::SHA3 => 0x20,
            OpcodeId::ADDRESS => 0x30,
            OpcodeId::BALANCE => 0x31,
            OpcodeId::ORIGIN => 0x32,
            OpcodeId::CALLER => 0x33,
            OpcodeId::CALLVALUE => 0x34,
            OpcodeId::CALLDATALOAD => 0x35,
            OpcodeId::CALLDATASIZE => 0x36,
            OpcodeId::CALLDATACOPY => 0x37,
            OpcodeId::CODESIZE => 0x38,
            OpcodeId::CODECOPY => 0x39,
            OpcodeId::GASPRICE => 0x3a,
            OpcodeId::EXTCODESIZE => 0x3b,
            OpcodeId::EXTCODECOPY => 0x3c,
            OpcodeId::RETURNDATASIZE => 0x3d,
            OpcodeId::RETURNDATACOPY => 0x3e,
            OpcodeId::EXTCODEHASH => 0x3f,
            OpcodeId::BLOCKHASH => 0x40,
            OpcodeId::COINBASE => 0x41,
            OpcodeId::TIMESTAMP => 0x42,
            OpcodeId::NUMBER => 0x43,
            OpcodeId::DIFFICULTY => 0x44,
            OpcodeId::GASLIMIT => 0x45,
            OpcodeId::CHAINID => 0x46,
            OpcodeId::SELFBALANCE => 0x47,
            OpcodeId::BASEFEE => 0x48,
            OpcodeId::POP => 0x50,
            OpcodeId::MLOAD => 0x51,
            OpcodeId::MSTORE => 0x52,
            OpcodeId::MSTORE8 => 0x53,
            OpcodeId::SLOAD => 0x54,
            OpcodeId::SSTORE => 0x55,
            OpcodeId::JUMP => 0x56,
            OpcodeId::JUMPI => 0x57,
            OpcodeId::PC => 0x58,
            OpcodeId::MSIZE => 0x59,
            OpcodeId::GAS => 0x5a,
            OpcodeId::JUMPDEST => 0x5b,
            OpcodeId::PUSH1 => 0x60,
            OpcodeId::PUSH2 => 0x61,
            OpcodeId::PUSH3 => 0x62,
            OpcodeId::PUSH4 => 0x63,
            OpcodeId::PUSH5 => 0x64,
            OpcodeId::PUSH6 => 0x65,
            OpcodeId::PUSH7 => 0x66,
            OpcodeId::PUSH8 => 0x67,
            OpcodeId::PUSH9 => 0x68,
            OpcodeId::PUSH10 => 0x69,
            OpcodeId::PUSH11 => 0x6a,
            OpcodeId::PUSH12 => 0x6b,
            OpcodeId::PUSH13 => 0x6c,
            OpcodeId::PUSH14 => 0x6d,
            OpcodeId::PUSH15 => 0x6e,
            OpcodeId::PUSH16 => 0x6f,
            OpcodeId::PUSH17 => 0x70,
            OpcodeId::PUSH18 => 0x71,
            OpcodeId::PUSH19 => 0x72,
            OpcodeId::PUSH20 => 0x73,
            OpcodeId::PUSH21 => 0x74,
            OpcodeId::PUSH22 => 0x75,
            OpcodeId::PUSH23 => 0x76,
            OpcodeId::PUSH24 => 0x77,
            OpcodeId::PUSH25 => 0x78,
            OpcodeId::PUSH26 => 0x79,
            OpcodeId::PUSH27 => 0x7a,
            OpcodeId::PUSH28 => 0x7b,
            OpcodeId::PUSH29 => 0x7c,
            OpcodeId::PUSH30 => 0x7d,
            OpcodeId::PUSH31 => 0x7e,
            OpcodeId::PUSH32 => 0x7f,
            OpcodeId::DUP1 => 0x80,
            OpcodeId::DUP2 => 0x81,
            OpcodeId::DUP3 => 0x82,
            OpcodeId::DUP4 => 0x83,
            OpcodeId::DUP5 => 0x84,
            OpcodeId::DUP6 => 0x85,
            OpcodeId::DUP7 => 0x86,
            OpcodeId::DUP8 => 0x87,
            OpcodeId::DUP9 => 0x88,
            OpcodeId::DUP10 => 0x89,
            OpcodeId::DUP11 => 0x8a,
            OpcodeId::DUP12 => 0x8b,
            OpcodeId::DUP13 => 0x8c,
            OpcodeId::DUP14 => 0x8d,
            OpcodeId::DUP15 => 0x8e,
            OpcodeId::DUP16 => 0x8f,
            OpcodeId::SWAP1 => 0x90,
            OpcodeId::SWAP2 => 0x91,
            OpcodeId::SWAP3 => 0x92,
            OpcodeId::SWAP4 => 0x93,
            OpcodeId::SWAP5 => 0x94,
            OpcodeId::SWAP6 => 0x95,
            OpcodeId::SWAP7 => 0x96,
            OpcodeId::SWAP8 => 0x97,
            OpcodeId::SWAP9 => 0x98,
            OpcodeId::SWAP10 => 0x99,
            OpcodeId::SWAP11 => 0x9a,
            OpcodeId::SWAP12 => 0x9b,
            OpcodeId::SWAP13 => 0x9c,
            OpcodeId::SWAP14 => 0x9d,
            OpcodeId::SWAP15 => 0x9e,
            OpcodeId::SWAP16 => 0x9f,
            OpcodeId::LOG0 => 0xa0,
            OpcodeId::LOG1 => 0xa1,
            OpcodeId::LOG2 => 0xa2,
            OpcodeId::LOG3 => 0xa3,
            OpcodeId::LOG4 => 0xa4,
            OpcodeId::CREATE => 0xf0,
            OpcodeId::CALL => 0xf1,
            OpcodeId::CALLCODE => 0xf2,
            OpcodeId::RETURN => 0xf3,
            OpcodeId::DELEGATECALL => 0xf4,
            OpcodeId::CREATE2 => 0xf5,
            OpcodeId::STATICCALL => 0xfa,
            OpcodeId::REVERT => 0xfd,
            OpcodeId::SELFDESTRUCT => 0xff,
            OpcodeId::INVALID(byte) => byte,
        }
    }

    /// Returns `true` if the opcode is a `PUSHn`, judged by its byte.
    pub fn is_push(&self) -> (r: bool)
        ensures
            r == (OpcodeId::PUSH1.byte() <= self.byte() <= OpcodeId::PUSH32.byte()),
    {
        OpcodeId::PUSH1.as_u8() <= self.as_u8() && self.as_u8() <= OpcodeId::PUSH32.as_u8()
    }

    /// Returns `true` if the opcode is a `DUPn`, judged by its byte.
    pub fn is_dup(&self) -> (r: bool)
        ensures
            r == (OpcodeId::DUP1.byte() <= self.byte() <= OpcodeId::DUP16.byte()),
    {
        OpcodeId::DUP1.as_u8() <= self.as_u8() && self.as_u8() <= OpcodeId::DUP16.as_u8()
    }

    /// Returns `true` if the opcode is a `SWAPn`, judged by its byte.
    pub fn is_swap(&self) -> (r: bool)
        ensures
            r == (OpcodeId::SWAP1.byte() <= self.byte() <= OpcodeId::SWAP16.byte()),
    {
        OpcodeId::SWAP1.as_u8() <= self.as_u8() && self.as_u8() <= OpcodeId::SWAP16.as_u8()
    }
}

/// Opcodes of one kind have consecutive bytes, in the order of the list. An invalid opcode is any
/// byte.
pub proof fn law_opcode_bytes(i: int, byte: u8)
    ensures
        0 <= i < 12 ==> seq![
                OpcodeId::STOP,
                OpcodeId::ADD,
                OpcodeId::MUL,
                OpcodeId::SUB,
                OpcodeId::DIV,
                OpcodeId::SDIV,
                OpcodeId::MOD,
                OpcodeId::SMOD,
                OpcodeId::ADDMOD,
                OpcodeId::MULMOD,
                OpcodeId::EXP,
                OpcodeId::SIGNEXTEND,
            ][i].byte() == 0x00 + i,
        0 <= i < 14 ==> seq![
                OpcodeId::LT,
                OpcodeId::GT,
                OpcodeId::SLT,
                OpcodeId::SGT,
                OpcodeId::EQ,
                OpcodeId::ISZERO,
                OpcodeId::AND,
                OpcodeId::OR,
                OpcodeId::XOR,
                OpcodeId::NOT,
                OpcodeId::BYTE,
                OpcodeId::SHL,
                OpcodeId::SHR,
                OpcodeId::SAR,
            ][i].byte() == 0x10 + i,
        OpcodeId::SHA3.byte() == 0x20,
        0 <= i < 25 ==> seq![
                OpcodeId::ADDRESS,
                OpcodeId::BALANCE,
                OpcodeId::ORIGIN,
                OpcodeId::CALLER,
                OpcodeId::CALLVALUE,
                OpcodeId::CALLDATALOAD,
                OpcodeId::CALLDATASIZE,
                OpcodeId::CALLDATACOPY,
                OpcodeId::CODESIZE,
                OpcodeId::CODECOPY,
                OpcodeId::GASPRICE,
                OpcodeId::EXTCODESIZE,
                OpcodeId::EXTCODECOPY,
                OpcodeId::RETURNDATASIZE,
                OpcodeId::RETURNDATACOPY,
                OpcodeId::EXTCODEHASH,
                OpcodeId::BLOCKHASH,
                OpcodeId::COINBASE,
                OpcodeId::TIMESTAMP,
                OpcodeId::NUMBER,
                OpcodeId::DIFFICULTY,
                OpcodeId::GASLIMIT,
                OpcodeId::CHAINID,
                OpcodeId::SELFBALANCE,
                OpcodeId::BASEFEE,
            ][i].byte() == 0x30 + i,
        0 <= i < 12 ==> seq![
                OpcodeId::POP,
                OpcodeId::MLOAD,
                OpcodeId::MSTORE,
                OpcodeId::MSTORE8,
                OpcodeId::SLOAD,
                OpcodeId::SSTORE,
                OpcodeId::JUMP,
                OpcodeId::JUMPI,
                OpcodeId::PC,
                OpcodeId::MSIZE,
                OpcodeId::GAS,
                OpcodeId::JUMPDEST,
            ][i].byte() == 0x50 + i,
        0 <= i < 32 ==> seq![
                OpcodeId::PUSH1,
                OpcodeId::PUSH2,
                OpcodeId::PUSH3,
                OpcodeId::PUSH4,
                OpcodeId::PUSH5,
                OpcodeId::PUSH6,
                OpcodeId::PUSH7,
                OpcodeId::PUSH8,
                OpcodeId::PUSH9,
                OpcodeId::PUSH10,
                OpcodeId::PUSH11,
                OpcodeId::PUSH12,
                OpcodeId::PUSH13,
                OpcodeId::PUSH14,
                OpcodeId::PUSH15,
                OpcodeId::PUSH16,
                OpcodeId::PUSH17,
                OpcodeId::PUSH18,
                OpcodeId::PUSH19,
                OpcodeId::PUSH20,
                OpcodeId::PUSH21,
                OpcodeId::PUSH22,
                OpcodeId::PUSH23,
                OpcodeId::PUSH24,
                OpcodeId::PUSH25,
                OpcodeId::PUSH26,
                OpcodeId::PUSH27,
                OpcodeId::PUSH28,
                OpcodeId::PUSH29,
                OpcodeId::PUSH30,
                OpcodeId::PUSH31,
                OpcodeId::PUSH32,
            ][i].byte() == 0x60 + i,
        0 <= i < 16 ==> seq![
                OpcodeId::DUP1,
                OpcodeId::DUP2,
                OpcodeId::DUP3,
                OpcodeId::DUP4,
                OpcodeId::DUP5,
                OpcodeId::DUP6,
                OpcodeId::DUP7,
                OpcodeId::DUP8,
                OpcodeId::DUP9,
                OpcodeId::DUP10,
                OpcodeId::DUP11,
                OpcodeId::DUP12,
                OpcodeId::DUP13,
                OpcodeId::DUP14,
                OpcodeId::DUP15,
                OpcodeId::DUP16,
            ][i].byte() == 0x80 + i,
        0 <= i < 16 ==> seq![
                OpcodeId::SWAP1,
                OpcodeId::SWAP2,
                OpcodeId::SWAP3,
                OpcodeId::SWAP4,
                OpcodeId::SWAP5,
                OpcodeId::SWAP6,
                OpcodeId::SWAP7,
                OpcodeId::SWAP8,
                OpcodeId::SWAP9,
                OpcodeId::SWAP10,
                OpcodeId::SWAP11,
                OpcodeId::SWAP12,
                OpcodeId::SWAP13,
                OpcodeId::SWAP14,
                OpcodeId::SWAP15,
                OpcodeId::SWAP16,
            ][i].byte() == 0x90 + i,
        0 <= i < 5 ==> seq![
                OpcodeId::LOG0,
                OpcodeId::LOG1,
                OpcodeId::LOG2,
                OpcodeId::LOG3,
                OpcodeId::LOG4,
            ][i].byte() == 0xa0 + i,
        0 <= i < 6 ==> seq![
                OpcodeId::CREATE,
                OpcodeId::CALL,
                OpcodeId::CALLCODE,
                OpcodeId::RETURN,
                OpcodeId::DELEGATECALL,
                OpcodeId::CREATE2,
            ][i].byte() == 0xf0 + i,
        OpcodeId::STATICCALL.byte() == 0xfa,
        OpcodeId::REVERT.byte() == 0xfd,
        OpcodeId::SELFDESTRUCT.byte() == 0xff,
        OpcodeId::INVALID(byte).byte() == byte,
{
}

/// A position in code.
#[derive(Clone, Copy, Debug, PartialEq, Eq, Structural)]
pub struct ProgramCounter(pub usize);

/// An amount of gas.
#[derive(Clone, Copy, Debug, PartialEq, Eq, Structural)]
pub struct Gas(pub u64);

/// The gas that a step costs.
#[derive(Clone, Copy, Debug, PartialEq, Eq, Structural)]
pub struct GasCost(pub u64);

/// The words on the stack.
#[derive(Clone, Debug)]
pub struct Stack(pub Vec<U256>);

/// The bytes in memory.
#[derive(Clone, Debug)]
pub struct Memory(pub Vec<u8>);

/// A step of an execution as a tracing node reports it.
#[derive(Clone, Debug)]
pub struct GethExecStep {
    pub pc: ProgramCounter,
    pub op: OpcodeId,
    pub gas: Gas,
    pub gas_cost: GasCost,
    pub stack: Stack,
    pub memory: Memory,
}

} // verus!
