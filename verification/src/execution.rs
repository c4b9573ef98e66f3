//! Steps of an execution.
use vstd::prelude::*;

use crate::evm_types::{Gas, GasCost, GethExecStep, OpcodeId, ProgramCounter};

verus! {

/// The position in the sequence of all reads and writes.
#[derive(Clone, Copy, Debug, PartialEq, Eq, Structural)]
pub struct RWCounter(pub usize);

/// An execution step of the EVM. `OperationRef` is what refers to an operation, `ExecError` an
/// error of a step and `StepAuxiliaryData` what a step carries besides.
#[derive(Clone, Debug)]
pub struct ExecStep<OperationRef, ExecError, StepAuxiliaryData> {
    /// Execution state
    pub exec_state: ExecState,
    /// Program Counter
    pub pc: ProgramCounter,
    /// Stack size
    pub stack_size: usize,
    /// Memory size
    pub memory_size: usize,
    /// Gas left
    pub gas_left: Gas,
    /// Gas cost of the step. If the error is an exhaustion of gas by an overflow of a 64-bit gas
    /// value, this is not the actual gas cost of the step.
    pub gas_cost: GasCost,
    /// Accumulated gas refund
    pub gas_refund: Gas,
    /// Call index within the transaction
    pub call_index: usize,
    /// The global counter when this step was executed
    pub rwc: RWCounter,
    /// Counter of the write operations in the call that will need to be undone in case of a revert
    pub reversible_write_counter: usize,
    /// The list of references to operations in the container
    pub bus_mapping_instance: Vec<OperationRef>,
    /// Error generated by this step
    pub error: Option<ExecError>,
    /// Step auxiliary data
    pub aux_data: Option<StepAuxiliaryData>,
}

impl<OperationRef, ExecError, StepAuxiliaryData> ExecStep<
    OperationRef,
    ExecError,
    StepAuxiliaryData,
> {
    /// Two steps hold the same.
    pub open spec fn same_as(self, other: Self) -> bool {
        &&& self.exec_state == other.exec_state
        &&& self.pc == other.pc
        &&& self.stack_size == other.stack_size
        &&& self.memory_size == other.memory_size
        &&& self.gas_left == other.gas_left
        &&& self.gas_cost == other.gas_cost
        &&& self.gas_refund == other.gas_refund
        &&& self.call_index == other.call_index
        &&& self.rwc == other.rwc
        &&& self.reversible_write_counter == other.reversible_write_counter
        &&& self.bus_mapping_instance@ == other.bus_mapping_instance@
        &&& self.error == other.error
        &&& self.aux_data == other.aux_data
    }

    /// The step is the one that starts out from a traced step.
    pub open spec fn starts_from(
        self,
        step: GethExecStep,
        call_index: usize,
        rwc: RWCounter,
        reversible_write_counter: usize,
    ) -> bool {
        &&& self.exec_state == ExecState::Op(step.op)
        &&& self.pc == step.pc
        &&& self.stack_size == step.stack.0@.len()
        &&& self.memory_size == step.memory.0@.len()
        &&& self.gas_left == step.gas
        &&& self.gas_cost == step.gas_cost
        &&& self.gas_refund == Gas(0)
        &&& self.call_index == call_index
        &&& self.rwc == rwc
        &&& self.reversible_write_counter == reversible_write_counter
        &&& self.bus_mapping_instance@ == Seq::<OperationRef>::empty()
        &&& self.error is None
        &&& self.aux_data is None
    }

    /// Creates a step from a traced step: nothing refunded, no operations, no error.
    pub fn new(
        step: &GethExecStep,
        call_index: usize,
        rwc: RWCounter,
        reversible_write_counter: usize,
    ) -> (r: Self)
        ensures
            r.starts_from(*step, call_index, rwc, reversible_write_counter),
            r.exec_state == ExecState::Op(step.op),
            r.pc == step.pc,
            r.stack_size == step.stack.0@.len(),
            r.memory_size == step.memory.0@.len(),
            r.gas_left == step.gas,
            r.gas_cost == step.gas_cost,
            r.gas_refund.0 == 0,
            r.call_index == call_index,
            r.rwc == rwc,
            r.reversible_write_counter == reversible_write_counter,
            r.bus_mapping_instance@.len() == 0,
            r.error is None,
            r.aux_data is None,
    {
        ExecStep {
            exec_state: ExecState::Op(step.op),
            pc: step.pc,
            stack_size: step.stack.0.len(),
            memory_size: step.memory.0.len(),
            gas_left: step.gas,
            gas_cost: step.gas_cost,
            gas_refund: Gas(0),
            call_index,
            rwc,
            reversible_write_counter,
            bus_mapping_instance: Vec::new(),
            error: None,
            aux_data: None,
        }
    }
}

/// The step holds nothing: the invalid opcode zero, and zero everywhere.
pub open spec fn is_blank<OperationRef, ExecError, StepAuxiliaryData>(
    step: ExecStep<OperationRef, ExecError, StepAuxiliaryData>,
) -> bool {
    &&& step.exec_state == ExecState::Op(OpcodeId::INVALID(0))
    &&& step.pc == ProgramCounter(0)
    &&& step.stack_size == 0
    &&& step.memory_size == 0
    &&& step.gas_left == Gas(0)
    &&& step.gas_cost == GasCost(0)
    &&& step.gas_refund == Gas(0)
    &&& step.call_index == 0
    &&& step.rwc == RWCounter(0)
    &&& step.reversible_write_counter == 0
    &&& step.bus_mapping_instance@ == Seq::<OperationRef>::empty()
    &&& step.error is None
    &&& step.aux_data is None
}

impl<OperationRef, ExecError, StepAuxiliaryData> Default for ExecStep<
    OperationRef,
    ExecError,
    StepAuxiliaryData,
> {
    fn default() -> (r: Self)
        ensures
            is_blank(r),
            r.exec_state == ExecState::Op(OpcodeId::INVALID(0)),
            r.pc.0 == 0,
            r.stack_size == 0,
            r.memory_size == 0,
            r.gas_left.0 == 0,
            r.gas_cost.0 == 0,
            r.gas_refund.0 == 0,
            r.call_index == 0,
            r.rwc.0 == 0,
            r.reversible_write_counter == 0,
            r.bus_mapping_instance@.len() == 0,
            r.error is None,
            r.aux_data is None,
    {
        ExecStep {
            exec_state: ExecState::Op(OpcodeId::INVALID(0)),
            pc: ProgramCounter(0),
            stack_size: 0,
            memory_size: 0,
            gas_left: Gas(0),
            gas_cost: GasCost(0),
            gas_refund: Gas(0),
            call_index: 0,
            rwc: RWCounter(0),
            reversible_write_counter: 0,
            bus_mapping_instance: Vec::new(),
            error: None,
            aux_data: None,
        }
    }
}

/// A blank step is what a traced step with the invalid opcode zero, no gas, an empty stack and
/// empty memory gives rise to.
pub proof fn law_default_is_new_of_nothing<OperationRef, ExecError, StepAuxiliaryData>(
    blank: ExecStep<OperationRef, ExecError, StepAuxiliaryData>,
    created: ExecStep<OperationRef, ExecError, StepAuxiliaryData>,
    traced: GethExecStep,
)
    requires
        is_blank(blank),
        created.starts_from(traced, 0, RWCounter(0), 0),
        traced.op == OpcodeId::INVALID(0),
        traced.pc == ProgramCounter(0),
        traced.gas == Gas(0),
        traced.gas_cost == GasCost(0),
        traced.stack.0@.len() == 0,
        traced.memory.0@.len() == 0,
    ensures
        blank.same_as(created),
{
}

/// Execution state
#[derive(Clone, Copy, Debug, PartialEq, Eq, Structural)]
pub enum ExecState {
    /// EVM Opcode ID
    Op(OpcodeId),
    /// Virtual step Begin Tx
    BeginTx,
    /// Virtual step End Tx
    EndTx,
    /// Virtual step Copy To Memory
    CopyToMemory,
    /// Virtual step Copy Code To Memory
    CopyCodeToMemory,
}

impl ExecState {
    /// The state is an opcode whose byte is one of `PUSH1` to `PUSH32`.
    pub open spec fn spec_is_push(self) -> bool {
        self matches ExecState::Op(op) && 0x60 <= op.byte() <= 0x7f
    }

    /// The state is an opcode whose byte is one of `DUP1` to `DUP16`.
    pub open spec fn spec_is_dup(self) -> bool {
        self matches ExecState::Op(op) && 0x80 <= op.byte() <= 0x8f
    }

    /// The state is an opcode whose byte is one of `SWAP1` to `SWAP16`.
    pub open spec fn spec_is_swap(self) -> bool {
        self matches ExecState::Op(op) && 0x90 <= op.byte() <= 0x9f
    }

    /// Returns `true` if the state is an opcode and the opcode is a `PUSHn`.
    pub fn is_push(&self) -> (r: bool)
        ensures
            r == self.spec_is_push(),
    {
        if let ExecState::Op(op) = self {
            op.is_push()
        } else {
            false
        }
    }

    /// Returns `true` if the state is an opcode and the opcode is a `DUPn`.
    pub fn is_dup(&self) -> (r: bool)
        ensures
            r == self.spec_is_dup(),
    {
        if let ExecState::Op(op) = self {
            op.is_dup()
        } else {
            false
        }
    }

    /// Returns `true` if the state is an opcode and the opcode is a `SWAPn`.
    pub fn is_swap(&self) -> (r: bool)
        ensures
            r == self.spec_is_swap(),
    {
        if let ExecState::Op(op) = self {
            op.is_swap()
        } else {
            false
        }
    }
}

/// A state is at most one of a push, a dup and a swap, and a virtual step is none of them.
pub proof fn law_push_dup_swap_exclusive(state: ExecState)
    ensures
        !(state.spec_is_push() && state.spec_is_dup()),
        !(state.spec_is_push() && state.spec_is_swap()),
        !(state.spec_is_dup() && state.spec_is_swap()),
        !(state is Op) ==> !state.spec_is_push() && !state.spec_is_dup() && !state.spec_is_swap(),
{
}

/// The opcodes of a push are `PUSH1` to `PUSH32`, and invalid ones with a byte from 0x60 to 0x7f.
pub proof fn law_push_states(state: ExecState)
    ensures
        state.spec_is_push() <==> match state {
            | ExecState::Op(OpcodeId::PUSH1)
            | ExecState::Op(OpcodeId::PUSH2)
            | ExecState::Op(OpcodeId::PUSH3)
            | ExecState::Op(OpcodeId::PUSH4)
            | ExecState::Op(OpcodeId::PUSH5)
            | ExecState::Op(OpcodeId::PUSH6)
            | ExecState::Op(OpcodeId::PUSH7)
            | ExecState::Op(OpcodeId::PUSH8)
            | ExecState::Op(OpcodeId::PUSH9)
            | ExecState::Op(OpcodeId::PUSH10)
            | ExecState::Op(OpcodeId::PUSH11)
            | ExecState::Op(OpcodeId::PUSH12)
            | ExecState::Op(OpcodeId::PUSH13)
            | ExecState::Op(OpcodeId::PUSH14)
            | ExecState::Op(OpcodeId::PUSH15)
            | ExecState::Op(OpcodeId::PUSH16)
            | ExecState::Op(OpcodeId::PUSH17)
            | ExecState::Op(OpcodeId::PUSH18)
            | ExecState::Op(OpcodeId::PUSH19)
            | ExecState::Op(OpcodeId::PUSH20)
            | ExecState::Op(OpcodeId::PUSH21)
            | ExecState::Op(OpcodeId::PUSH22)
            | ExecState::Op(OpcodeId::PUSH23)
            | ExecState::Op(OpcodeId::PUSH24)
            | ExecState::Op(OpcodeId::PUSH25)
            | ExecState::Op(OpcodeId::PUSH26)
            | ExecState::Op(OpcodeId::PUSH27)
            | ExecState::Op(OpcodeId::PUSH28)
            | ExecState::Op(OpcodeId::PUSH29)
            | ExecState::Op(OpcodeId::PUSH30)
            | ExecState::Op(OpcodeId::PUSH31)
            | ExecState::Op(OpcodeId::PUSH32) => true,
            ExecState::Op(OpcodeId::INVALID(byte)) => 0x60 <= byte <= 0x7f,
            _ => false,
        },
{
}

/// The opcodes of a dup are `DUP1` to `DUP16`, and invalid ones with a byte from 0x80 to 0x8f.
pub proof fn law_dup_states(state: ExecState)
    ensures
        state.spec_is_dup() <==> match state {
            | ExecState::Op(OpcodeId::DUP1)
            | ExecState::Op(OpcodeId::DUP2)
            | ExecState::Op(OpcodeId::DUP3)
            | ExecState::Op(OpcodeId::DUP4)
            | ExecState::Op(OpcodeId::DUP5)
            | ExecState::Op(OpcodeId::DUP6)
            | ExecState::Op(OpcodeId::DUP7)
            | ExecState::Op(OpcodeId::DUP8)
            | ExecState::Op(OpcodeId::DUP9)
            | ExecState::Op(OpcodeId::DUP10)
            | ExecState::Op(OpcodeId::DUP11)
            | ExecState::Op(OpcodeId::DUP12)
            | ExecState::Op(OpcodeId::DUP13)
            | ExecState::Op(OpcodeId::DUP14)
            | ExecState::Op(OpcodeId::DUP15)
            | ExecState::Op(OpcodeId::DUP16) => true,
            ExecState::Op(OpcodeId::INVALID(byte)) => 0x80 <= byte <= 0x8f,
            _ => false,
        },
{
}

/// The opcodes of a swap are `SWAP1` to `SWAP16`, and invalid ones with a byte from 0x90 to 0x9f.
pub proof fn law_swap_states(state: ExecState)
    ensures
        state.spec_is_swap() <==> match state {
            | ExecState::Op(OpcodeId::SWAP1)
            | ExecState::Op(OpcodeId::SWAP2)
            | ExecState::Op(OpcodeId::SWAP3)
            | ExecState::Op(OpcodeId::SWAP4)
            | ExecState::Op(OpcodeId::SWAP5)
            | ExecState::Op(OpcodeId::SWAP6)
            | ExecState::Op(OpcodeId::SWAP7)
            | ExecState::Op(OpcodeId::SWAP8)
            | ExecState::Op(OpcodeId::SWAP9)
            | ExecState::Op(OpcodeId::SWAP10)
            | ExecState::Op(OpcodeId::SWAP11)
            | ExecState::Op(OpcodeId::SWAP12)
            | ExecState::Op(OpcodeId::SWAP13)
            | ExecState::Op(OpcodeId::SWAP14)
            | ExecState::Op(OpcodeId::SWAP15)
            | ExecState::Op(OpcodeId::SWAP16) => true,
            ExecState::Op(OpcodeId::INVALID(byte)) => 0x90 <= byte <= 0x9f,
            _ => false,
        },
{
}

} // verus!
