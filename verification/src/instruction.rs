//! Instruction descriptors: opcode, declared operand size, and the two
//! operand locations. Register indices and immediate widths are validated
//! when an instruction is built, so the execution engine never re-checks
//! them on its hot path.

use vstd::prelude::*;

verus! {

/// Declared operand width of an instruction: how many low-order bytes of a
/// 4-byte buffer the instruction touches.
#[derive(Debug, Clone, Copy)]
pub enum OpSize {
    BYTE,
    WORD,
    LONG,
}

/// Instruction opcode.
#[derive(Debug)]
pub enum Mnemonic {
    MOVE,
    MOVEA,
    ADD,
    ADDA,
    LEA,
    TST,
}

/// Where an operand's bytes live: a register, an absolute memory address,
/// an immediate constant (a 4-byte big-endian buffer), the status register
/// or its low condition-code byte, or no operand at all.
#[derive(Debug)]
#[allow(non_camel_case_types)]
pub enum DataContainer {
    DATA_REGISTER(usize),
    ADDRESS_REGISTER(usize),
    IMEDIATE_VALUE(Vec<u8>),
    MEMORY_ADDR(usize),
    SR,
    CCR,
    EMPTY,
}

/// Why resolving an operand or executing an instruction failed.
#[derive(Debug, Clone, Copy, PartialEq, Eq, Structural)]
pub enum ExecError {
    /// The target operand is an immediate constant, which cannot be written.
    ImmutableOperand,
    /// An operand required by the opcode is `EMPTY`.
    MissingOperand,
    /// A memory operand reaches past the end of memory.
    AddressOutOfRange,
    /// A fixed-width operand (the status register or its condition-code
    /// byte) was resolved at a size other than its own width.
    WidthMismatch,
    /// The opcode has no handler.
    UnsupportedOpcode,
}

/// A register index is in range and an immediate carries exactly 4 bytes.
pub open spec fn container_wf(c: DataContainer) -> bool {
    match c {
        DataContainer::DATA_REGISTER(i) => i < 8,
        DataContainer::ADDRESS_REGISTER(i) => i < 8,
        DataContainer::IMEDIATE_VALUE(v) => v@.len() == 4,
        _ => true,
    }
}

/// An immutable instruction descriptor, consumed once by the execution
/// engine. Its operands are well formed by construction.
pub struct Instruction {
    op: Mnemonic,
    size: OpSize,
    lhs: DataContainer,
    trg: DataContainer,
}

impl Instruction {
    #[verifier::type_invariant]
    spec fn inv(self) -> bool {
        container_wf(self.lhs) && container_wf(self.trg)
    }

    /// The opcode.
    pub closed spec fn op_spec(self) -> Mnemonic {
        self.op
    }

    /// The declared operand size.
    pub closed spec fn size_spec(self) -> OpSize {
        self.size
    }

    /// The source operand.
    pub closed spec fn lhs_spec(self) -> DataContainer {
        self.lhs
    }

    /// The target operand.
    pub closed spec fn trg_spec(self) -> DataContainer {
        self.trg
    }

    pub fn new(op: Mnemonic, size: OpSize, lhs: DataContainer, trg: DataContainer) -> (r:
        Instruction)
        requires
            container_wf(lhs),
            container_wf(trg),
        ensures
            r.op_spec() == op,
            r.size_spec() == size,
            r.lhs_spec() == lhs,
            r.trg_spec() == trg,
    {
        Instruction { op, size, lhs, trg }
    }

    pub fn get_op(&self) -> (r: &Mnemonic)
        ensures
            *r == self.op_spec(),
    {
        &self.op
    }

    pub fn get_size(&self) -> (r: &OpSize)
        ensures
            *r == self.size_spec(),
    {
        &self.size
    }

    /// The source operand, well formed by construction.
    pub fn get_lhs(&self) -> (r: &DataContainer)
        ensures
            *r == self.lhs_spec(),
            container_wf(*r),
    {
        proof {
            use_type_invariant(self);
        }
        &self.lhs
    }

    /// The target operand, well formed by construction.
    pub fn get_trg(&self) -> (r: &DataContainer)
        ensures
            *r == self.trg_spec(),
            container_wf(*r),
    {
        proof {
            use_type_invariant(self);
        }
        &self.trg
    }
}

} // verus!
