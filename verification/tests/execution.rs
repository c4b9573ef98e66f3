use tx_circuit::evm_types::{
    Gas, GasCost, GethExecStep, Memory, OpcodeId, ProgramCounter, Stack,
};
use tx_circuit::execution::{ExecState, ExecStep, RWCounter};
use tx_circuit::u256::U256;

type Step = ExecStep<usize, String, u8>;

#[test]
fn step_from_trace() {
    let traced = GethExecStep {
        pc: ProgramCounter(12),
        op: OpcodeId::MSTORE,
        gas: Gas(1000),
        gas_cost: GasCost(6),
        stack: Stack(vec![U256::from_u64(1), U256::from_u64(2)]),
        memory: Memory(vec![0; 32]),
    };
    let step: Step = ExecStep::new(&traced, 3, RWCounter(7), 5);
    assert_eq!(step.exec_state, ExecState::Op(OpcodeId::MSTORE));
    assert_eq!(step.pc, ProgramCounter(12));
    assert_eq!(step.stack_size, 2);
    assert_eq!(step.memory_size, 32);
    assert_eq!(step.gas_left, Gas(1000));
    assert_eq!(step.gas_cost, GasCost(6));
    assert_eq!(step.gas_refund, Gas(0));
    assert_eq!(step.call_index, 3);
    assert_eq!(step.rwc, RWCounter(7));
    assert_eq!(step.reversible_write_counter, 5);
    assert!(step.bus_mapping_instance.is_empty());
    assert!(step.error.is_none());
    assert!(step.aux_data.is_none());
}

#[test]
fn default_step_is_new_of_nothing() {
    let traced = GethExecStep {
        pc: ProgramCounter(0),
        op: OpcodeId::INVALID(0),
        gas: Gas(0),
        gas_cost: GasCost(0),
        stack: Stack(vec![]),
        memory: Memory(vec![]),
    };
    let created: Step = ExecStep::new(&traced, 0, RWCounter(0), 0);
    let blank: Step = ExecStep::default();
    assert_eq!(format!("{:?}", blank), format!("{:?}", created));
    assert_eq!(blank.exec_state, ExecState::Op(OpcodeId::INVALID(0)));
}

#[test]
fn kinds_of_states() {
    let kinds = |op: OpcodeId| {
        let state = ExecState::Op(op);
        (state.is_push(), state.is_dup(), state.is_swap())
    };
    assert_eq!(kinds(OpcodeId::PUSH1), (true, false, false));
    assert_eq!(kinds(OpcodeId::PUSH32), (true, false, false));
    assert_eq!(kinds(OpcodeId::JUMPDEST), (false, false, false));
    assert_eq!(kinds(OpcodeId::DUP1), (false, true, false));
    assert_eq!(kinds(OpcodeId::DUP16), (false, true, false));
    assert_eq!(kinds(OpcodeId::SWAP1), (false, false, true));
    assert_eq!(kinds(OpcodeId::SWAP16), (false, false, true));
    assert_eq!(kinds(OpcodeId::LOG0), (false, false, false));
    assert_eq!(kinds(OpcodeId::INVALID(0xfe)), (false, false, false));
    for state in [
        ExecState::BeginTx,
        ExecState::EndTx,
        ExecState::CopyToMemory,
        ExecState::CopyCodeToMemory,
    ] {
        assert!(!state.is_push() && !state.is_dup() && !state.is_swap());
    }
}

#[test]
fn opcode_bytes() {
    assert_eq!(OpcodeId::STOP.as_u8(), 0x00);
    assert_eq!(OpcodeId::SHA3.as_u8(), 0x20);
    assert_eq!(OpcodeId::PUSH1.as_u8(), 0x60);
    assert_eq!(OpcodeId::PUSH32.as_u8(), 0x7f);
    assert_eq!(OpcodeId::SWAP16.as_u8(), 0x9f);
    assert_eq!(OpcodeId::SELFDESTRUCT.as_u8(), 0xff);
    assert_eq!(OpcodeId::INVALID(0xfe).as_u8(), 0xfe);
}
