use vstd::prelude::*;

use crate::base::{Comparison, Operation};

verus! {

/// Where the index of an indexed memory cell comes from.
#[derive(Debug, Clone, PartialEq, Eq, Hash)]
pub enum IndexMemoryCellIndexType {
    /// The index is the value of this accumulator.
    Accumulator(usize),
    /// The index is written out.
    Direct(usize),
    /// The index is the value of gamma.
    Gamma,
    /// The index is the value of this memory cell.
    MemoryCell(String),
    /// The index is the value of the indexed memory cell at this index.
    Index(usize),
}

/// A location that can be assigned to.
#[derive(Debug, Clone, PartialEq, Eq, Hash)]
pub enum TargetType {
    Accumulator(usize),
    Gamma,
    MemoryCell(String),
    IndexMemoryCell(IndexMemoryCellIndexType),
}

/// An operand that can be read.
#[derive(Debug, Clone, PartialEq, Eq, Hash)]
pub enum Value {
    Accumulator(usize),
    Constant(i32),
    Gamma,
    MemoryCell(String),
    IndexMemoryCell(IndexMemoryCellIndexType),
}

/// One step of a program.
#[derive(Debug, Clone, PartialEq, Eq, Hash)]
pub enum Instruction {
    /// `target := value`
    Assign(TargetType, Value),
    /// `target := value op value`
    Calc(TargetType, Value, Operation, Value),
    /// `call label`
    Call(String),
    /// `goto label`
    Goto(String),
    /// `if value cmp value then goto label`
    JumpIf(Value, Comparison, Value, String),
    /// A line without an instruction.
    Noop,
    /// `pop`: the top of the stack into accumulator 0.
    Pop,
    /// `push`: the value of accumulator 0 onto the stack.
    Push,
    /// `return`
    Return,
    /// `stack op`: the top two values of the stack combined into one.
    StackOp(Operation),
}

} // verus!

verus! {

/// The mathematical form of [`IndexMemoryCellIndexType`].
pub enum IndexModel {
    Accumulator(usize),
    Direct(usize),
    Gamma,
    MemoryCell(Seq<char>),
    Index(usize),
}

/// The mathematical form of [`TargetType`].
pub enum TargetModel {
    Accumulator(usize),
    Gamma,
    MemoryCell(Seq<char>),
    IndexMemoryCell(IndexModel),
}

/// The mathematical form of [`Value`].
pub enum ValueModel {
    Accumulator(usize),
    Constant(i32),
    Gamma,
    MemoryCell(Seq<char>),
    IndexMemoryCell(IndexModel),
}

/// The mathematical form of [`Instruction`].
pub enum InstructionModel {
    Assign(TargetModel, ValueModel),
    Calc(TargetModel, ValueModel, Operation, ValueModel),
    Call(Seq<char>),
    Goto(Seq<char>),
    JumpIf(ValueModel, Comparison, ValueModel, Seq<char>),
    Noop,
    Pop,
    Push,
    Return,
    StackOp(Operation),
}

impl View for IndexMemoryCellIndexType {
    type V = IndexModel;

    open spec fn view(&self) -> IndexModel {
        match self {
            IndexMemoryCellIndexType::Accumulator(n) => IndexModel::Accumulator(*n),
            IndexMemoryCellIndexType::Direct(n) => IndexModel::Direct(*n),
            IndexMemoryCellIndexType::Gamma => IndexModel::Gamma,
            IndexMemoryCellIndexType::MemoryCell(l) => IndexModel::MemoryCell(l@),
            IndexMemoryCellIndexType::Index(n) => IndexModel::Index(*n),
        }
    }
}

impl View for TargetType {
    type V = TargetModel;

    open spec fn view(&self) -> TargetModel {
        match self {
            TargetType::Accumulator(n) => TargetModel::Accumulator(*n),
            TargetType::Gamma => TargetModel::Gamma,
            TargetType::MemoryCell(l) => TargetModel::MemoryCell(l@),
            TargetType::IndexMemoryCell(t) => TargetModel::IndexMemoryCell(t@),
        }
    }
}

impl View for Value {
    type V = ValueModel;

    open spec fn view(&self) -> ValueModel {
        match self {
            Value::Accumulator(n) => ValueModel::Accumulator(*n),
            Value::Constant(c) => ValueModel::Constant(*c),
            Value::Gamma => ValueModel::Gamma,
            Value::MemoryCell(l) => ValueModel::MemoryCell(l@),
            Value::IndexMemoryCell(t) => ValueModel::IndexMemoryCell(t@),
        }
    }
}

impl View for Instruction {
    type V = InstructionModel;

    open spec fn view(&self) -> InstructionModel {
        match self {
            Instruction::Assign(t, v) => InstructionModel::Assign(t@, v@),
            Instruction::Calc(t, a, op, b) => InstructionModel::Calc(t@, a@, *op, b@),
            Instruction::Call(l) => InstructionModel::Call(l@),
            Instruction::Goto(l) => InstructionModel::Goto(l@),
            Instruction::JumpIf(a, c, b, l) => InstructionModel::JumpIf(a@, *c, b@, l@),
            Instruction::Noop => InstructionModel::Noop,
            Instruction::Pop => InstructionModel::Pop,
            Instruction::Push => InstructionModel::Push,
            Instruction::Return => InstructionModel::Return,
            Instruction::StackOp(op) => InstructionModel::StackOp(*op),
        }
    }
}

/// The value operand that reads the location `t`.
pub open spec fn value_of_target(t: TargetModel) -> ValueModel {
    match t {
        TargetModel::Accumulator(n) => ValueModel::Accumulator(n),
        TargetModel::Gamma => ValueModel::Gamma,
        TargetModel::MemoryCell(l) => ValueModel::MemoryCell(l),
        TargetModel::IndexMemoryCell(i) => ValueModel::IndexMemoryCell(i),
    }
}

} // verus!
