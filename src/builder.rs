use vstd::prelude::*;
use vstd::string::StringExecFns;

use crate::instructions::{
    IndexMemoryCellIndexType, IndexModel, Instruction, InstructionModel, TargetModel, TargetType,
    Value, ValueModel,
};
use crate::memory::{entry, Memory, RuntimeArgs};
use crate::parser::{
    defined_label, error_span, label_of_line, parse_line, parse_line_spec, InstructionParseError,
};
use crate::runtime::{instruction_models, ControlFlow, FlowModel, Runtime, RuntimeModel};

verus! {

// ---------------------------------------------------------------------
// Errors

/// Why source lines could not be turned into instructions.
#[derive(Debug, Clone, PartialEq, Eq)]
pub struct BuildProgramError {
    pub reason: BuildProgramErrorTypes,
}

/// The kinds of [`BuildProgramError`].
#[derive(Debug, Clone, PartialEq, Eq)]
pub enum BuildProgramErrorTypes {
    /// A line could not be parsed. Carries what a caret diagnostic needs:
    /// the file name, the whole source, the 1-based line and column, the
    /// byte offset of that position in the source and the length of the
    /// offending text.
    ParseError {
        file_name: String,
        source: String,
        line: usize,
        column: usize,
        offset: usize,
        length: usize,
        reason: InstructionParseError,
    },
    /// A label is defined on two lines.
    LabelDefinedMultipleTimes(String),
    /// `main` or `MAIN` is defined twice, or both are defined.
    MainLabelDefinedMultipleTimes,
    /// The instruction on this 0-based line is not among the permitted ones.
    InstructionNotAllowed(usize),
}

/// The mathematical form of a [`BuildProgramError`], without the fields
/// that only serve diagnostics.
pub enum ProgramFault {
    /// The 0-based line that failed, and why.
    Parse(int, InstructionParseError),
    DuplicateLabel(Seq<char>),
    DuplicateMain,
    NotAllowed(int),
}

impl View for BuildProgramError {
    type V = ProgramFault;

    open spec fn view(&self) -> ProgramFault {
        match self.reason {
            BuildProgramErrorTypes::ParseError { line, reason, .. } => ProgramFault::Parse(line - 1, reason),
            BuildProgramErrorTypes::LabelDefinedMultipleTimes(l) => ProgramFault::DuplicateLabel(l@),
            BuildProgramErrorTypes::MainLabelDefinedMultipleTimes => ProgramFault::DuplicateMain,
            BuildProgramErrorTypes::InstructionNotAllowed(i) => ProgramFault::NotAllowed(i as int),
        }
    }
}

/// Why a runtime could not be built.
#[derive(Debug, Clone, PartialEq, Eq)]
pub enum RuntimeBuildError {
    RuntimeArgsMissing,
    InstructionsMissing,
    /// A jump or call names a label that is not defined.
    LabelUndefined(String),
    /// An instruction uses an accumulator that does not exist.
    AccumulatorMissing(usize),
    /// An instruction uses a memory cell that does not exist.
    MemoryCellMissing(String),
    /// An instruction uses gamma, which does not exist.
    GammaMissing,
    MainLabelDefinedMultipleTimes,
}

/// The mathematical form of [`RuntimeBuildError`].
pub enum BuildFault {
    RuntimeArgsMissing,
    InstructionsMissing,
    LabelUndefined(Seq<char>),
    AccumulatorMissing(usize),
    MemoryCellMissing(Seq<char>),
    GammaMissing,
    MainLabelDefinedMultipleTimes,
}

impl View for RuntimeBuildError {
    type V = BuildFault;

    open spec fn view(&self) -> BuildFault {
        match self {
            RuntimeBuildError::RuntimeArgsMissing => BuildFault::RuntimeArgsMissing,
            RuntimeBuildError::InstructionsMissing => BuildFault::InstructionsMissing,
            RuntimeBuildError::LabelUndefined(l) => BuildFault::LabelUndefined(l@),
            RuntimeBuildError::AccumulatorMissing(id) => BuildFault::AccumulatorMissing(*id),
            RuntimeBuildError::MemoryCellMissing(l) => BuildFault::MemoryCellMissing(l@),
            RuntimeBuildError::GammaMissing => BuildFault::GammaMissing,
            RuntimeBuildError::MainLabelDefinedMultipleTimes => BuildFault::MainLabelDefinedMultipleTimes,
        }
    }
}

/// Why a label could not be added by hand.
#[derive(Debug, Clone, Copy, PartialEq, Eq, Structural)]
pub enum AddLabelError {
    InstructionsNotSet,
    IndexOutOfBounds,
}

// ---------------------------------------------------------------------
// Outside: source positions

/// The number of bytes that `c` takes in UTF-8.
pub open spec fn utf8_len(c: char) -> int {
    if (c as u32) < 0x80 {
        1
    } else if (c as u32) < 0x800 {
        2
    } else if (c as u32) < 0x10000 {
        3
    } else {
        4
    }
}

/// The bytes of `s` from position `i` on that come before the 1-based
/// `loc_line` and `loc_col`, where position `i` stands at the 0-based
/// `line` and `col`: the scan stops at the first character whose line and
/// column both reach the target, or at the end.
pub open spec fn location_offset_from(s: Seq<char>, i: int, line: int, col: int, loc_line: int, loc_col: int) -> int
    decreases s.len() - i,
{
    if i >= s.len() || (line + 1 >= loc_line && col + 1 >= loc_col) {
        0
    } else if s[i] == '\n' {
        utf8_len(s[i]) + location_offset_from(s, i + 1, line + 1, 0, loc_line, loc_col)
    } else {
        utf8_len(s[i]) + location_offset_from(s, i + 1, line, col + 1, loc_line, loc_col)
    }
}

/// The byte offset of a 1-based line and column of a source text.
pub open spec fn location_offset(source: Seq<char>, line: usize, column: usize) -> int {
    location_offset_from(source, 0, 0, 0, line as int, column as int)
}

/// Relies on `miette::SourceOffset::from_location`: the byte offset of the
/// given 1-based line and column in `source`, scanning its characters.
#[verifier::external_body]
fn source_offset(source: &str, line: usize, column: usize) -> (r: usize)
    ensures
        r as int == location_offset(source@, line, column),
{
    miette::SourceOffset::from_location(source, line, column).offset()
}

// ---------------------------------------------------------------------
// Reading a program

/// The lines joined by line breaks.
pub open spec fn join_lines(lines: Seq<Seq<char>>) -> Seq<char>
    decreases lines.len(),
{
    if lines.len() == 0 {
        Seq::empty()
    } else if lines.len() == 1 {
        lines[0]
    } else {
        join_lines(lines.drop_last()) + seq!['\n'] + lines.last()
    }
}

/// Whether `l` is one of the two names of the entry label.
pub open spec fn is_main_label(l: Seq<char>) -> bool {
    l == "main"@ || l == "MAIN"@
}

/// The labels and instructions of the first `k` lines, or the first fault
/// among them. A label marks the index of the line that defines it; a line
/// that defines a label again fails for that before the rest of it is read.
pub open spec fn read_lines(lines: Seq<Seq<char>>, k: int) -> Result<(Map<Seq<char>, usize>, Seq<InstructionModel>), ProgramFault>
    decreases k,
{
    if k <= 0 {
        Ok((Map::empty(), Seq::empty()))
    } else {
        match read_lines(lines, k - 1) {
            Err(f) => Err(f),
            Ok((ls, is)) => if label_of_line(lines[k - 1]) is Some && ls.contains_key(label_of_line(lines[k - 1])->Some_0) {
                if is_main_label(label_of_line(lines[k - 1])->Some_0) {
                    Err(ProgramFault::DuplicateMain)
                } else {
                    Err(ProgramFault::DuplicateLabel(label_of_line(lines[k - 1])->Some_0))
                }
            } else {
                match parse_line_spec(lines[k - 1]) {
                    Err(e) => Err(ProgramFault::Parse(k - 1, e)),
                    Ok((None, i)) => Ok((ls, is.push(i))),
                    Ok((Some(l), i)) => Ok((ls.insert(l, (k - 1) as usize), is.push(i))),
                }
            },
        }
    }
}

/// The labels and instructions of a program's source lines, or the fault
/// that stops it: the first line that fails, or both `main` and `MAIN`.
pub open spec fn read_program(lines: Seq<Seq<char>>) -> Result<(Map<Seq<char>, usize>, Seq<InstructionModel>), ProgramFault> {
    match read_lines(lines, lines.len() as int) {
        Err(f) => Err(f),
        Ok((ls, is)) => if ls.contains_key("main"@) && ls.contains_key("MAIN"@) {
            Err(ProgramFault::DuplicateMain)
        } else {
            Ok((ls, is))
        },
    }
}

/// Whether an instruction is among the permitted ones; a line without an
/// instruction always is.
pub open spec fn permitted(i: InstructionModel, allowed: Seq<InstructionModel>) -> bool {
    i == InstructionModel::Noop || allowed.contains(i)
}

// ---------------------------------------------------------------------
// Checking a program

/// The label that a jump or call names, if the instruction is one.
pub open spec fn jump_label(i: InstructionModel) -> Option<Seq<char>> {
    match i {
        InstructionModel::Goto(l) => Some(l),
        InstructionModel::Call(l) => Some(l),
        InstructionModel::JumpIf(_, _, _, l) => Some(l),
        _ => None,
    }
}

/// The first label among the first `k` instructions that is not defined.
pub open spec fn first_undefined_label(is: Seq<InstructionModel>, labels: Map<Seq<char>, usize>, k: int) -> Option<Seq<char>>
    decreases k,
{
    if k <= 0 {
        None
    } else {
        match first_undefined_label(is, labels, k - 1) {
            Some(l) => Some(l),
            None => match jump_label(is[k - 1]) {
                Some(l) => if labels.contains_key(l) {
                    None
                } else {
                    Some(l)
                },
                None => None,
            },
        }
    }
}

/// The names `END`, `ENDE`, `end` and `ende`, each marking `n`.
pub open spec fn with_end_labels(labels: Map<Seq<char>, usize>, n: usize) -> Map<Seq<char>, usize> {
    labels.insert("END"@, n).insert("ENDE"@, n).insert("end"@, n).insert("ende"@, n)
}

/// Memory where accumulator `id` is present: added unset if `add`, else a
/// fault.
pub open spec fn declare_accumulator(m: Memory, id: usize, add: bool) -> Result<Memory, BuildFault> {
    if m.accumulators.contains_key(id) {
        Ok(m)
    } else if add {
        Ok(Memory { accumulators: m.accumulators.insert(id, None), ..m })
    } else {
        Err(BuildFault::AccumulatorMissing(id))
    }
}

/// Memory where the memory cell `l` is present.
pub open spec fn declare_memory_cell(m: Memory, l: Seq<char>, add: bool) -> Result<Memory, BuildFault> {
    if m.memory_cells.contains_key(l) {
        Ok(m)
    } else if add {
        Ok(Memory { memory_cells: m.memory_cells.insert(l, None), ..m })
    } else {
        Err(BuildFault::MemoryCellMissing(l))
    }
}

/// Memory where gamma is present.
pub open spec fn declare_gamma(m: Memory, add: bool) -> Result<Memory, BuildFault> {
    if m.gamma is Some {
        Ok(m)
    } else if add {
        Ok(Memory { gamma: Some(None), ..m })
    } else {
        Err(BuildFault::GammaMissing)
    }
}

/// Memory where the register that an addressing mode reads is present.
/// Indexed memory cells themselves come into being when first written.
pub open spec fn declare_index(m: Memory, t: IndexModel, add: bool) -> Result<Memory, BuildFault> {
    match t {
        IndexModel::Accumulator(id) => declare_accumulator(m, id, add),
        IndexModel::Gamma => declare_gamma(m, add),
        IndexModel::MemoryCell(l) => declare_memory_cell(m, l, add),
        IndexModel::Direct(_) => Ok(m),
        IndexModel::Index(_) => Ok(m),
    }
}

/// Memory where the registers that a target names are present.
pub open spec fn declare_target(m: Memory, t: TargetModel, add: bool) -> Result<Memory, BuildFault> {
    match t {
        TargetModel::Accumulator(id) => declare_accumulator(m, id, add),
        TargetModel::Gamma => declare_gamma(m, add),
        TargetModel::MemoryCell(l) => declare_memory_cell(m, l, add),
        TargetModel::IndexMemoryCell(it) => declare_index(m, it, add),
    }
}

/// Memory where the registers that an operand names are present.
pub open spec fn declare_value(m: Memory, v: ValueModel, add: bool) -> Result<Memory, BuildFault> {
    match v {
        ValueModel::Accumulator(id) => declare_accumulator(m, id, add),
        ValueModel::Constant(_) => Ok(m),
        ValueModel::Gamma => declare_gamma(m, add),
        ValueModel::MemoryCell(l) => declare_memory_cell(m, l, add),
        ValueModel::IndexMemoryCell(it) => declare_index(m, it, add),
    }
}

/// Memory where everything an instruction uses is present, operands left
/// to right; `push` and `pop` use accumulator 0.
pub open spec fn declare_instruction(m: Memory, i: InstructionModel, add: bool) -> Result<Memory, BuildFault> {
    match i {
        InstructionModel::Assign(t, v) => match declare_target(m, t, add) {
            Ok(m1) => declare_value(m1, v, add),
            Err(e) => Err(e),
        },
        InstructionModel::Calc(t, a, _, b) => match declare_target(m, t, add) {
            Ok(m1) => match declare_value(m1, a, add) {
                Ok(m2) => declare_value(m2, b, add),
                Err(e) => Err(e),
            },
            Err(e) => Err(e),
        },
        InstructionModel::JumpIf(a, _, b, _) => match declare_value(m, a, add) {
            Ok(m1) => declare_value(m1, b, add),
            Err(e) => Err(e),
        },
        InstructionModel::Push => declare_accumulator(m, 0, add),
        InstructionModel::Pop => declare_accumulator(m, 0, add),
        _ => Ok(m),
    }
}

/// Memory where everything the first `k` instructions use is present.
pub open spec fn declare_all(m: Memory, is: Seq<InstructionModel>, add: bool, k: int) -> Result<Memory, BuildFault>
    decreases k,
{
    if k <= 0 {
        Ok(m)
    } else {
        match declare_all(m, is, add, k - 1) {
            Ok(m1) => declare_instruction(m1, is[k - 1], add),
            Err(e) => Err(e),
        }
    }
}

/// The mathematical form of [`RuntimeBuilder`].
pub struct BuilderModel {
    pub memory: Option<Memory>,
    pub instructions: Option<Seq<InstructionModel>>,
    pub flow: FlowModel,
    pub add_missing: bool,
}

/// The runtime that a builder builds, or why it cannot.
pub open spec fn build_spec(b: BuilderModel) -> Result<RuntimeModel, BuildFault> {
    match b.memory {
        None => Err(BuildFault::RuntimeArgsMissing),
        Some(m) => match b.instructions {
            None => Err(BuildFault::InstructionsMissing),
            Some(is) => if is.len() == 0 {
                Err(BuildFault::InstructionsMissing)
            } else {
                let labels = with_end_labels(b.flow.labels, is.len() as usize);
                match first_undefined_label(is, labels, is.len() as int) {
                    Some(l) => Err(BuildFault::LabelUndefined(l)),
                    None => match declare_all(m, is, b.add_missing, is.len() as int) {
                        Err(e) => Err(e),
                        Ok(m2) => if labels.contains_key("main"@) && labels.contains_key("MAIN"@) {
                            Err(BuildFault::MainLabelDefinedMultipleTimes)
                        } else {
                            let start: usize = if labels.contains_key("main"@) {
                                labels["main"@]
                            } else if labels.contains_key("MAIN"@) {
                                labels["MAIN"@]
                            } else {
                                0
                            };
                            Ok(RuntimeModel {
                                memory: m2,
                                instructions: is,
                                flow: FlowModel { labels, call_stack: Seq::empty(), next: start, initial: start },
                            })
                        },
                    },
                }
            },
        },
    }
}

} // verus!

verus! {

// ---------------------------------------------------------------------
// Checking storage

/// Makes sure accumulator `id` exists: adds it unset if `add_missing`,
/// else fails. On failure nothing changes.
pub fn check_accumulator(runtime_args: &mut RuntimeArgs, id: usize, add_missing: bool) -> (r: Result<(), RuntimeBuildError>)
    requires
        old(runtime_args).wf(),
    ensures
        final(runtime_args).wf(),
        match declare_accumulator(old(runtime_args)@, id, add_missing) {
            Ok(m) => r is Ok && final(runtime_args)@ == m,
            Err(e) => r is Err && r->Err_0@ == e && final(runtime_args)@ == old(runtime_args)@,
        },
{
    if !runtime_args.exists_accumulator(id) {
        if add_missing {
            runtime_args.add_accumulator(id);
        } else {
            return Err(RuntimeBuildError::AccumulatorMissing(id));
        }
    }
    Ok(())
}

/// Makes sure the memory cell `name` exists: adds it unset if
/// `add_missing`, else fails. On failure nothing changes.
pub fn check_memory_cell(runtime_args: &mut RuntimeArgs, name: &str, add_missing: bool) -> (r: Result<(), RuntimeBuildError>)
    requires
        old(runtime_args).wf(),
    ensures
        final(runtime_args).wf(),
        match declare_memory_cell(old(runtime_args)@, name@, add_missing) {
            Ok(m) => r is Ok && final(runtime_args)@ == m,
            Err(e) => r is Err && r->Err_0@ == e && final(runtime_args)@ == old(runtime_args)@,
        },
{
    if !runtime_args.exists_memory_cell(name) {
        if add_missing {
            runtime_args.add_memory_cell(name);
        } else {
            return Err(RuntimeBuildError::MemoryCellMissing(name.to_owned()));
        }
    }
    Ok(())
}

/// Makes sure gamma exists: adds it unset if `add_missing`, else fails.
fn check_gamma(runtime_args: &mut RuntimeArgs, add_missing: bool) -> (r: Result<(), RuntimeBuildError>)
    requires
        old(runtime_args).wf(),
    ensures
        final(runtime_args).wf(),
        match declare_gamma(old(runtime_args)@, add_missing) {
            Ok(m) => r is Ok && final(runtime_args)@ == m,
            Err(e) => r is Err && r->Err_0@ == e && final(runtime_args)@ == old(runtime_args)@,
        },
{
    if !runtime_args.exists_gamma() {
        if add_missing {
            runtime_args.gamma = Some(None);
        } else {
            return Err(RuntimeBuildError::GammaMissing);
        }
    }
    Ok(())
}

impl IndexMemoryCellIndexType {
    /// Makes sure the register that this addressing mode reads exists.
    pub fn check(&self, runtime_args: &mut RuntimeArgs, add_missing: bool) -> (r: Result<(), RuntimeBuildError>)
        requires
            old(runtime_args).wf(),
        ensures
            final(runtime_args).wf(),
            match declare_index(old(runtime_args)@, self@, add_missing) {
                Ok(m) => r is Ok && final(runtime_args)@ == m,
                Err(e) => r is Err && r->Err_0@ == e && final(runtime_args)@ == old(runtime_args)@,
            },
    {
        match self {
            Self::Accumulator(id) => check_accumulator(runtime_args, *id, add_missing),
            Self::Gamma => check_gamma(runtime_args, add_missing),
            Self::MemoryCell(l) => check_memory_cell(runtime_args, l.as_str(), add_missing),
            Self::Direct(_) => Ok(()),
            Self::Index(_) => Ok(()),
        }
    }
}

impl TargetType {
    /// Makes sure the registers that this target names exist: adds them
    /// unset if `add_missing`, else fails.
    pub fn check(&self, runtime_args: &mut RuntimeArgs, add_missing: bool) -> (r: Result<(), RuntimeBuildError>)
        requires
            old(runtime_args).wf(),
        ensures
            final(runtime_args).wf(),
            match declare_target(old(runtime_args)@, self@, add_missing) {
                Ok(m) => r is Ok && final(runtime_args)@ == m,
                Err(e) => r is Err && r->Err_0@ == e && final(runtime_args)@ == old(runtime_args)@,
            },
    {
        match self {
            Self::Accumulator(id) => check_accumulator(runtime_args, *id, add_missing),
            Self::Gamma => check_gamma(runtime_args, add_missing),
            Self::MemoryCell(l) => check_memory_cell(runtime_args, l.as_str(), add_missing),
            Self::IndexMemoryCell(it) => it.check(runtime_args, add_missing),
        }
    }
}

impl Value {
    /// Makes sure the registers that this operand names exist: adds them
    /// unset if `add_missing`, else fails.
    pub fn check(&self, runtime_args: &mut RuntimeArgs, add_missing: bool) -> (r: Result<(), RuntimeBuildError>)
        requires
            old(runtime_args).wf(),
        ensures
            final(runtime_args).wf(),
            match declare_value(old(runtime_args)@, self@, add_missing) {
                Ok(m) => r is Ok && final(runtime_args)@ == m,
                Err(e) => r is Err && r->Err_0@ == e && final(runtime_args)@ == old(runtime_args)@,
            },
    {
        match self {
            Self::Accumulator(id) => check_accumulator(runtime_args, *id, add_missing),
            Self::Constant(_) => Ok(()),
            Self::Gamma => check_gamma(runtime_args, add_missing),
            Self::MemoryCell(l) => check_memory_cell(runtime_args, l.as_str(), add_missing),
            Self::IndexMemoryCell(it) => it.check(runtime_args, add_missing),
        }
    }
}

/// Makes sure everything that `i` uses exists. A failure may leave
/// registers that earlier operands of `i` added.
fn check_instruction(i: &Instruction, runtime_args: &mut RuntimeArgs, add_missing: bool) -> (r: Result<(), RuntimeBuildError>)
    requires
        old(runtime_args).wf(),
    ensures
        final(runtime_args).wf(),
        match declare_instruction(old(runtime_args)@, i@, add_missing) {
            Ok(m) => r is Ok && final(runtime_args)@ == m,
            Err(e) => r is Err && r->Err_0@ == e,
        },
{
    match i {
        Instruction::Assign(t, v) => {
            t.check(runtime_args, add_missing)?;
            v.check(runtime_args, add_missing)
        },
        Instruction::Calc(t, a, _, b) => {
            t.check(runtime_args, add_missing)?;
            a.check(runtime_args, add_missing)?;
            b.check(runtime_args, add_missing)
        },
        Instruction::JumpIf(a, _, b, _) => {
            a.check(runtime_args, add_missing)?;
            b.check(runtime_args, add_missing)
        },
        Instruction::Push => check_accumulator(runtime_args, 0, add_missing),
        Instruction::Pop => check_accumulator(runtime_args, 0, add_missing),
        _ => Ok(()),
    }
}

/// Lets the names `END`, `ENDE`, `end` and `ende` mark
/// `last_instruction_index`, one past the last instruction.
pub fn inject_end_labels(control_flow: &mut ControlFlow, last_instruction_index: usize)
    requires
        old(control_flow).wf(),
    ensures
        final(control_flow).wf(),
        final(control_flow)@ == (FlowModel {
            labels: with_end_labels(old(control_flow)@.labels, last_instruction_index),
            ..old(control_flow)@
        }),
{
    control_flow.insert_label("END".to_owned(), last_instruction_index);
    control_flow.insert_label("ENDE".to_owned(), last_instruction_index);
    control_flow.insert_label("end".to_owned(), last_instruction_index);
    control_flow.insert_label("ende".to_owned(), last_instruction_index);
}

/// Fails with the label's name where `label` is not defined.
fn check_label(control_flow: &ControlFlow, label: &String) -> (r: Result<(), String>)
    requires
        control_flow.wf(),
    ensures
        r is Ok <==> control_flow@.labels.contains_key(label@),
        r is Err ==> r->Err_0@ == label@,
{
    if !control_flow.contains_label(label.as_str()) {
        return Err(label.clone());
    }
    Ok(())
}

// ---------------------------------------------------------------------
// Exact copies

impl IndexMemoryCellIndexType {
    /// A copy with the same model.
    pub fn duplicate(&self) -> (r: Self)
        ensures
            r@ == self@,
    {
        match self {
            Self::Accumulator(n) => Self::Accumulator(*n),
            Self::Direct(n) => Self::Direct(*n),
            Self::Gamma => Self::Gamma,
            Self::MemoryCell(l) => Self::MemoryCell(l.clone()),
            Self::Index(n) => Self::Index(*n),
        }
    }
}

impl TargetType {
    /// A copy with the same model.
    pub fn duplicate(&self) -> (r: Self)
        ensures
            r@ == self@,
    {
        match self {
            Self::Accumulator(n) => Self::Accumulator(*n),
            Self::Gamma => Self::Gamma,
            Self::MemoryCell(l) => Self::MemoryCell(l.clone()),
            Self::IndexMemoryCell(t) => Self::IndexMemoryCell(t.duplicate()),
        }
    }
}

impl Value {
    /// A copy with the same model.
    pub fn duplicate(&self) -> (r: Self)
        ensures
            r@ == self@,
    {
        match self {
            Self::Accumulator(n) => Self::Accumulator(*n),
            Self::Constant(c) => Self::Constant(*c),
            Self::Gamma => Self::Gamma,
            Self::MemoryCell(l) => Self::MemoryCell(l.clone()),
            Self::IndexMemoryCell(t) => Self::IndexMemoryCell(t.duplicate()),
        }
    }
}

impl Instruction {
    /// A copy with the same model.
    pub fn duplicate(&self) -> (r: Self)
        ensures
            r@ == self@,
    {
        match self {
            Self::Assign(t, v) => Self::Assign(t.duplicate(), v.duplicate()),
            Self::Calc(t, a, op, b) => Self::Calc(t.duplicate(), a.duplicate(), *op, b.duplicate()),
            Self::Call(l) => Self::Call(l.clone()),
            Self::Goto(l) => Self::Goto(l.clone()),
            Self::JumpIf(a, c, b, l) => Self::JumpIf(a.duplicate(), *c, b.duplicate(), l.clone()),
            Self::Noop => Self::Noop,
            Self::Pop => Self::Pop,
            Self::Push => Self::Push,
            Self::Return => Self::Return,
            Self::StackOp(op) => Self::StackOp(*op),
        }
    }
}

/// A copy of a list of instructions with the same models.
pub fn duplicate_instructions(v: &Vec<Instruction>) -> (r: Vec<Instruction>)
    ensures
        instruction_models(r@) == instruction_models(v@),
{
    let mut r: Vec<Instruction> = Vec::new();
    let mut i: usize = 0;
    while i < v.len()
        invariant
            i <= v@.len(),
            r@.len() == i,
            forall|j: int| 0 <= j < i ==> #[trigger] r@[j]@ == v@[j]@,
        decreases v@.len() - i,
    {
        r.push(v[i].duplicate());
        i = i + 1;
    }
    assert(instruction_models(r@) =~= instruction_models(v@));
    r
}

impl RuntimeArgs {
    /// A copy with the same contents.
    pub fn duplicate(&self) -> (r: Self)
        requires
            self.wf(),
        ensures
            r.wf(),
            r@ == self@,
    {
        let mut cells: Vec<crate::base::MemoryCell> = Vec::new();
        let mut i: usize = 0;
        while i < self.memory_cells.len()
            invariant
                i <= self.memory_cells@.len(),
                cells@.len() == i,
                forall|j: int| 0 <= j < i ==> (#[trigger] cells@[j]).label@ == self.memory_cells@[j].label@
                    && cells@[j].data == self.memory_cells@[j].data,
            decreases self.memory_cells@.len() - i,
        {
            let c = &self.memory_cells[i];
            cells.push(crate::base::MemoryCell { label: c.label.clone(), data: c.data });
            i = i + 1;
        }
        let mut stack: Vec<i32> = Vec::new();
        let mut k: usize = 0;
        while k < self.stack.len()
            invariant
                k <= self.stack@.len(),
                stack@ == self.stack@.take(k as int),
            decreases self.stack@.len() - k,
        {
            stack.push(self.stack[k]);
            k = k + 1;
            assert(stack@ =~= self.stack@.take(k as int));
        }
        assert(stack@ =~= self.stack@);
        let r = RuntimeArgs {
            accumulators: self.accumulators.clone(),
            gamma: self.gamma,
            memory_cells: cells,
            index_memory_cells: self.index_memory_cells.clone(),
            stack,
        };
        assert(crate::memory::cell_labels(r.memory_cells@) =~= crate::memory::cell_labels(self.memory_cells@));
        assert(crate::memory::cell_values(r.memory_cells@) =~= crate::memory::cell_values(self.memory_cells@));
        r
    }
}

impl ControlFlow {
    /// A copy with the same labels, call stack and indices.
    pub fn duplicate(&self) -> (r: Self)
        requires
            self.wf(),
        ensures
            r.wf(),
            r@ == self@,
    {
        let mut ls: Vec<(String, usize)> = Vec::new();
        let mut i: usize = 0;
        while i < self.instruction_labels.len()
            invariant
                i <= self.instruction_labels@.len(),
                ls@.len() == i,
                forall|j: int| 0 <= j < i ==> (#[trigger] ls@[j]).0@ == self.instruction_labels@[j].0@
                    && ls@[j].1 == self.instruction_labels@[j].1,
            decreases self.instruction_labels@.len() - i,
        {
            let p = &self.instruction_labels[i];
            ls.push((p.0.clone(), p.1));
            i = i + 1;
        }
        let mut cs: Vec<usize> = Vec::new();
        let mut k: usize = 0;
        while k < self.call_stack.len()
            invariant
                k <= self.call_stack@.len(),
                cs@ == self.call_stack@.take(k as int),
            decreases self.call_stack@.len() - k,
        {
            cs.push(self.call_stack[k]);
            k = k + 1;
            assert(cs@ =~= self.call_stack@.take(k as int));
        }
        assert(cs@ =~= self.call_stack@);
        let r = ControlFlow {
            instruction_labels: ls,
            call_stack: cs,
            next_instruction_index: self.next_instruction_index,
            initial_instruction: self.initial_instruction,
        };
        assert(crate::runtime::label_names(r.instruction_labels@) =~= crate::runtime::label_names(self.instruction_labels@));
        assert(crate::runtime::label_targets(r.instruction_labels@) =~= crate::runtime::label_targets(self.instruction_labels@));
        r
    }
}

impl Runtime {
    /// A copy with the same model.
    pub fn duplicate(&self) -> (r: Self)
        requires
            self.wf(),
        ensures
            r.wf(),
            r@ == self@,
    {
        Runtime {
            runtime_args: self.runtime_args.duplicate(),
            instructions: duplicate_instructions(&self.instructions),
            control_flow: self.control_flow.duplicate(),
        }
    }
}

} // verus!

verus! {

// ---------------------------------------------------------------------
// Comparing instructions

fn same_text(a: &String, b: &String) -> (r: bool)
    ensures
        r == (a@ == b@),
{
    crate::keyed::str_eq(a.as_str(), b.as_str())
}

fn same_index(a: &IndexMemoryCellIndexType, b: &IndexMemoryCellIndexType) -> (r: bool)
    ensures
        r == (a@ == b@),
{
    match (a, b) {
        (IndexMemoryCellIndexType::Accumulator(x), IndexMemoryCellIndexType::Accumulator(y)) => x == y,
        (IndexMemoryCellIndexType::Direct(x), IndexMemoryCellIndexType::Direct(y)) => x == y,
        (IndexMemoryCellIndexType::Gamma, IndexMemoryCellIndexType::Gamma) => true,
        (IndexMemoryCellIndexType::MemoryCell(x), IndexMemoryCellIndexType::MemoryCell(y)) => same_text(x, y),
        (IndexMemoryCellIndexType::Index(x), IndexMemoryCellIndexType::Index(y)) => x == y,
        _ => false,
    }
}

fn same_target(a: &TargetType, b: &TargetType) -> (r: bool)
    ensures
        r == (a@ == b@),
{
    match (a, b) {
        (TargetType::Accumulator(x), TargetType::Accumulator(y)) => x == y,
        (TargetType::Gamma, TargetType::Gamma) => true,
        (TargetType::MemoryCell(x), TargetType::MemoryCell(y)) => same_text(x, y),
        (TargetType::IndexMemoryCell(x), TargetType::IndexMemoryCell(y)) => same_index(x, y),
        _ => false,
    }
}

fn same_value(a: &Value, b: &Value) -> (r: bool)
    ensures
        r == (a@ == b@),
{
    match (a, b) {
        (Value::Accumulator(x), Value::Accumulator(y)) => x == y,
        (Value::Constant(x), Value::Constant(y)) => x == y,
        (Value::Gamma, Value::Gamma) => true,
        (Value::MemoryCell(x), Value::MemoryCell(y)) => same_text(x, y),
        (Value::IndexMemoryCell(x), Value::IndexMemoryCell(y)) => same_index(x, y),
        _ => false,
    }
}

impl Instruction {
    /// Whether two instructions are the same, operands included.
    pub fn same_as(&self, other: &Instruction) -> (r: bool)
        ensures
            r == (self@ == other@),
    {
        match (self, other) {
            (Instruction::Assign(t1, v1), Instruction::Assign(t2, v2)) => same_target(t1, t2) && same_value(v1, v2),
            (Instruction::Calc(t1, a1, o1, b1), Instruction::Calc(t2, a2, o2, b2)) =>
                same_target(t1, t2) && same_value(a1, a2) && *o1 == *o2 && same_value(b1, b2),
            (Instruction::Call(x), Instruction::Call(y)) => same_text(x, y),
            (Instruction::Goto(x), Instruction::Goto(y)) => same_text(x, y),
            (Instruction::JumpIf(a1, c1, b1, l1), Instruction::JumpIf(a2, c2, b2, l2)) =>
                same_value(a1, a2) && *c1 == *c2 && same_value(b1, b2) && same_text(l1, l2),
            (Instruction::Noop, Instruction::Noop) => true,
            (Instruction::Pop, Instruction::Pop) => true,
            (Instruction::Push, Instruction::Push) => true,
            (Instruction::Return, Instruction::Return) => true,
            (Instruction::StackOp(x), Instruction::StackOp(y)) => *x == *y,
            _ => false,
        }
    }
}

/// The first of the first `k` instructions that is not permitted.
pub open spec fn first_forbidden(is: Seq<InstructionModel>, allowed: Seq<InstructionModel>, k: int) -> Option<int>
    decreases k,
{
    if k <= 0 {
        None
    } else {
        match first_forbidden(is, allowed, k - 1) {
            Some(j) => Some(j),
            None => if permitted(is[k - 1], allowed) {
                None
            } else {
                Some(k - 1)
            },
        }
    }
}

// ---------------------------------------------------------------------
// The builder

/// The texts of source lines.
pub open spec fn line_texts(lines: Seq<&str>) -> Seq<Seq<char>> {
    lines.map_values(|l: &str| l@)
}

/// The column reported for a 0-based character position: one more, as far
/// as a `usize` goes.
pub open spec fn column_of(p: usize) -> usize {
    if p < usize::MAX {
        (p + 1) as usize
    } else {
        p
    }
}

/// The number of characters a span covers.
pub open spec fn span_length(s: (usize, usize)) -> usize {
    if s.0 <= s.1 {
        (s.1 - s.0) as usize
    } else {
        0
    }
}

/// The diagnostic fields of a parse error match the source they came from.
pub open spec fn locates(e: BuildProgramError, lines: Seq<Seq<char>>, file_name: Seq<char>) -> bool {
    match e.reason {
        BuildProgramErrorTypes::ParseError { file_name: f, source, line, column, offset, length, reason } => {
            &&& f@ == file_name
            &&& source@ == join_lines(lines)
            &&& 1 <= line <= lines.len()
            &&& column == column_of(error_span(reason).0)
            &&& offset as int == location_offset(source@, line, column)
            &&& length == span_length(error_span(reason))
        },
        _ => true,
    }
}

/// Builds a runtime from source lines and storage, checking that every
/// label and register the program uses exists.
#[derive(Debug)]
pub struct RuntimeBuilder {
    pub runtime_args: Option<RuntimeArgs>,
    pub instructions: Option<Vec<Instruction>>,
    pub control_flow: ControlFlow,
    /// Whether missing registers are added instead of refused.
    pub add_missing: bool,
}

/// The registers a machine starts with.
#[derive(Debug, Clone)]
pub struct MachineConfig {
    /// Accumulators `0` up to this count, exclusive.
    pub accumulators: usize,
    /// Whether gamma exists.
    pub gamma: bool,
    /// The labels of the memory cells.
    pub memory_cells: Vec<String>,
    /// Whether registers that a program uses are added when missing.
    pub add_missing: bool,
}

impl View for RuntimeBuilder {
    type V = BuilderModel;

    open spec fn view(&self) -> BuilderModel {
        BuilderModel {
            memory: match self.runtime_args {
                Some(a) => Some(a@),
                None => None,
            },
            instructions: match self.instructions {
                Some(v) => Some(instruction_models(v@)),
                None => None,
            },
            flow: self.control_flow@,
            add_missing: self.add_missing,
        }
    }
}

impl RuntimeBuilder {
    /// Storage and control flow are well formed.
    pub open spec fn wf(&self) -> bool {
        &&& self.control_flow.wf()
        &&& self.runtime_args matches Some(a) ==> a.wf()
    }

    /// A builder with no storage and no instructions, refusing missing
    /// registers.
    pub fn new() -> (r: Self)
        ensures
            r.wf(),
            r@.memory is None,
            r@.instructions is None,
            r@.flow == ControlFlow::new_model(),
            !r@.add_missing,
    {
        Self { runtime_args: None, instructions: None, control_flow: ControlFlow::new(), add_missing: false }
    }

    /// A builder whose storage is that of [`MachineConfig`].
    pub fn from_args(args: &MachineConfig) -> (r: Self)
        ensures
            r.wf(),
            r@.memory matches Some(m) && m.accumulators.dom() == Set::new(|i: usize| i < args.accumulators)
                && (forall|i: usize| #[trigger] m.accumulators.contains_key(i) ==> m.accumulators[i] is None)
                && (m.gamma is Some <==> args.gamma)
                && m.memory_cells.dom() == Set::new(|l: Seq<char>| exists|j: int|
                    0 <= j < args.memory_cells@.len() && #[trigger] args.memory_cells@[j]@ == l)
                && m.index_memory_cells.is_empty()
                && m.stack.len() == 0,
            r@.instructions is None,
            r@.flow == ControlFlow::new_model(),
            r@.add_missing == args.add_missing,
    {
        let mut a = RuntimeArgs::new_empty();
        let mut i: usize = 0;
        while i < args.accumulators
            invariant
                a.wf(),
                i <= args.accumulators,
                a@.accumulators.dom() == Set::new(|j: usize| j < i),
                forall|j: usize| #[trigger] a@.accumulators.contains_key(j) ==> a@.accumulators[j] is None,
                a@.gamma is None,
                a@.memory_cells.is_empty(),
                a@.index_memory_cells.is_empty(),
                a@.stack.len() == 0,
            decreases args.accumulators - i,
        {
            a.add_accumulator(i);
            i = i + 1;
            assert(a@.accumulators.dom() =~= Set::new(|j: usize| j < i));
        }
        if args.gamma {
            a.gamma = Some(None);
        }
        let mut k: usize = 0;
        while k < args.memory_cells.len()
            invariant
                a.wf(),
                k <= args.memory_cells@.len(),
                a@.accumulators.dom() == Set::new(|j: usize| j < args.accumulators),
                forall|j: usize| #[trigger] a@.accumulators.contains_key(j) ==> a@.accumulators[j] is None,
                a@.gamma is Some <==> args.gamma,
                forall|l: Seq<char>| #[trigger] a@.memory_cells.contains_key(l) <==> exists|j: int|
                    0 <= j < k && #[trigger] args.memory_cells@[j]@ == l,
                a@.index_memory_cells.is_empty(),
                a@.stack.len() == 0,
            decreases args.memory_cells@.len() - k,
        {
            let label = args.memory_cells[k].as_str();
            if !a.exists_memory_cell(label) {
                a.add_memory_cell(label);
            }
            proof {
                assert forall|l: Seq<char>| #[trigger] a@.memory_cells.contains_key(l) <==> exists|j: int|
                    0 <= j < k + 1 && #[trigger] args.memory_cells@[j]@ == l by {
                    if l == label@ {
                        assert(args.memory_cells@[k as int]@ == l);
                    }
                }
            }
            k = k + 1;
        }
        proof {
            assert(a@.memory_cells.dom() =~= Set::new(|l: Seq<char>| exists|j: int|
                0 <= j < args.memory_cells@.len() && #[trigger] args.memory_cells@[j]@ == l));
        }
        Self { runtime_args: Some(a), instructions: None, control_flow: ControlFlow::new(), add_missing: args.add_missing }
    }

    /// A builder for trying things out: accumulator 0, gamma and the given
    /// memory cells; missing registers are added.
    pub fn new_debug(memory_cells: &[&str]) -> (r: Self)
        ensures
            r.wf(),
            r@.memory matches Some(m) && m == RuntimeArgs::new_debug_model(memory_cells@),
            r@.instructions is None,
            r@.flow == ControlFlow::new_model(),
            r@.add_missing,
    {
        Self {
            runtime_args: Some(RuntimeArgs::new_debug(memory_cells)),
            instructions: None,
            control_flow: ControlFlow::new(),
            add_missing: true,
        }
    }

    /// Chooses whether missing registers are added instead of refused.
    pub fn set_add_missing(&mut self, add_missing: bool)
        ensures
            final(self)@ == (BuilderModel { add_missing, ..old(self)@ }),
            final(self).wf() == old(self).wf(),
    {
        self.add_missing = add_missing;
    }

    /// Forgets storage, instructions and labels.
    pub fn reset(&mut self)
        ensures
            final(self).wf(),
            final(self)@ == (BuilderModel {
                memory: None,
                instructions: None,
                flow: ControlFlow::new_model(),
                add_missing: old(self)@.add_missing,
            }),
    {
        self.runtime_args = None;
        self.instructions = None;
        self.control_flow.reset();
    }

    /// Sets the storage.
    pub fn set_runtime_args(&mut self, runtime_args: RuntimeArgs)
        requires
            old(self).wf(),
            runtime_args.wf(),
        ensures
            final(self).wf(),
            final(self)@ == (BuilderModel { memory: Some(runtime_args@), ..old(self)@ }),
    {
        self.runtime_args = Some(runtime_args);
    }

    /// Sets the instructions. Labels, if any are needed, are added with
    /// [`RuntimeBuilder::add_label`].
    pub fn set_instructions(&mut self, instructions: Vec<Instruction>)
        requires
            old(self).wf(),
        ensures
            final(self).wf(),
            final(self)@ == (BuilderModel { instructions: Some(instruction_models(instructions@)), ..old(self)@ }),
    {
        self.instructions = Some(instructions);
    }

    /// Lets `label` mark the instruction at the 0-based `instruction_index`.
    pub fn add_label(&mut self, label: String, instruction_index: usize) -> (r: Result<(), AddLabelError>)
        requires
            old(self).wf(),
        ensures
            final(self).wf(),
            match old(self)@.instructions {
                None => r == Err::<(), AddLabelError>(AddLabelError::InstructionsNotSet) && final(self)@ == old(self)@,
                Some(is) => if instruction_index < is.len() {
                    r is Ok && final(self)@ == (BuilderModel {
                        flow: FlowModel { labels: old(self)@.flow.labels.insert(label@, instruction_index), ..old(self)@.flow },
                        ..old(self)@
                    })
                } else {
                    r == Err::<(), AddLabelError>(AddLabelError::IndexOutOfBounds) && final(self)@ == old(self)@
                },
            },
    {
        let n = match &self.instructions {
            None => {
                return Err(AddLabelError::InstructionsNotSet);
            },
            Some(v) => v.len(),
        };
        if n <= instruction_index {
            Err(AddLabelError::IndexOutOfBounds)
        } else {
            self.control_flow.insert_label(label, instruction_index);
            Ok(())
        }
    }
}

} // verus!

verus! {

/// The source lines joined by line breaks.
fn join_source(lines: &Vec<&str>) -> (r: String)
    ensures
        r@ == join_lines(line_texts(lines@)),
{
    let ghost texts = line_texts(lines@);
    let mut r = String::new();
    let mut i: usize = 0;
    proof {
        reveal_strlit("\n");
        assert(texts.take(0) =~= Seq::<Seq<char>>::empty());
    }
    while i < lines.len()
        invariant
            texts == line_texts(lines@),
            i <= lines@.len(),
            r@ == join_lines(texts.take(i as int)),
        decreases lines@.len() - i,
    {
        proof {
            reveal_strlit("\n");
        }
        assert(texts.take(i + 1).drop_last() =~= texts.take(i as int));
        if i > 0 {
            r.append("\n");
            assert("\n"@ =~= seq!['\n']);
        }
        r.append(lines[i]);
        i = i + 1;
        proof {
            if i == 1 {
                assert(r@ =~= texts.take(1)[0]);
            }
        }
    }
    assert(texts.take(lines@.len() as int) =~= texts);
    r
}

/// A parse error on the 0-based line `index`, with what a diagnostic needs.
fn parse_failure(lines: &Vec<&str>, file_name: &str, index: usize, reason: InstructionParseError) -> (r: BuildProgramError)
    requires
        index < lines@.len() <= usize::MAX,
    ensures
        r@ == ProgramFault::Parse(index as int, reason),
        locates(r, line_texts(lines@), file_name@),
{
    let source = join_source(lines);
    let (a, b) = reason.range();
    let column = if a < usize::MAX {
        a + 1
    } else {
        a
    };
    let line = index + 1;
    let offset = source_offset(source.as_str(), line, column);
    let length = if a <= b {
        b - a
    } else {
        0
    };
    BuildProgramError {
        reason: BuildProgramErrorTypes::ParseError {
            file_name: file_name.to_owned(),
            source,
            line,
            column,
            offset,
            length,
            reason,
        },
    }
}

} // verus!

verus! {

/// Reads the source lines into labels and instructions.
fn read_source(lines: &Vec<&str>, file_name: &str) -> (r: Result<(ControlFlow, Vec<Instruction>), BuildProgramError>)
    ensures
        match read_program(line_texts(lines@)) {
            Ok((ls, is)) => r matches Ok((cf, v)) && cf.wf()
                && cf@ == (FlowModel { labels: ls, ..ControlFlow::new_model() })
                && instruction_models(v@) == is,
            Err(f) => r matches Err(e) && e@ == f && locates(e, line_texts(lines@), file_name@),
        },
{
    let ghost texts = line_texts(lines@);
    let mut cf = ControlFlow::new();
    let mut instructions: Vec<Instruction> = Vec::new();
    let mut index: usize = 0;
    assert(instruction_models(instructions@) =~= Seq::<InstructionModel>::empty());
    while index < lines.len()
        invariant
            texts == line_texts(lines@),
            index <= lines@.len(),
            cf.wf(),
            read_lines(texts, index as int) == Ok::<_, ProgramFault>((cf@.labels, instruction_models(instructions@))),
            cf@ == (FlowModel { labels: cf@.labels, ..ControlFlow::new_model() }),
        decreases lines@.len() - index,
    {
        assert(texts[index as int] == lines@[index as int]@);
        let ghost before = instruction_models(instructions@);
        if let Some(l) = defined_label(lines[index]) {
            if cf.contains_label(l.as_str()) {
                proof {
                    lemma_read_lines_fault_stays(texts, index + 1, texts.len() as int);
                }
                if crate::keyed::str_eq(l.as_str(), "main") || crate::keyed::str_eq(l.as_str(), "MAIN") {
                    return Err(BuildProgramError { reason: BuildProgramErrorTypes::MainLabelDefinedMultipleTimes });
                }
                return Err(BuildProgramError { reason: BuildProgramErrorTypes::LabelDefinedMultipleTimes(l) });
            }
        }
        match parse_line(lines[index]) {
            Err(e) => {
                proof {
                    lemma_read_lines_fault_stays(texts, index + 1, texts.len() as int);
                }
                return Err(parse_failure(lines, file_name, index, e));
            },
            Ok((label, instruction)) => {
                match label {
                    Some(l) => {
                        cf.insert_label(l, index);
                    },
                    None => {},
                }
                instructions.push(instruction);
                assert(instruction_models(instructions@) =~= before.push(instructions@.last()@));
            },
        }
        index = index + 1;
    }
    assert(texts.len() == lines@.len());
    if cf.contains_label("main") && cf.contains_label("MAIN") {
        return Err(BuildProgramError { reason: BuildProgramErrorTypes::MainLabelDefinedMultipleTimes });
    }
    Ok((cf, instructions))
}

/// Finds the first instruction permitted by none of `allowed`; lines
/// without an instruction are always permitted.
fn find_forbidden(instructions: &Vec<Instruction>, allowed: &Vec<Instruction>) -> (r: Option<usize>)
    ensures
        match r {
            Some(x) => first_forbidden(instruction_models(instructions@), instruction_models(allowed@), instructions@.len() as int) == Some(x as int),
            None => first_forbidden(instruction_models(instructions@), instruction_models(allowed@), instructions@.len() as int) is None,
        },
{
    let ghost is = instruction_models(instructions@);
    let ghost al = instruction_models(allowed@);
    let mut i: usize = 0;
    while i < instructions.len()
        invariant
            is == instruction_models(instructions@),
            al == instruction_models(allowed@),
            i <= instructions@.len(),
            first_forbidden(is, al, i as int) is None,
        decreases instructions@.len() - i,
    {
        let ins = &instructions[i];
        let mut ok = matches!(ins, Instruction::Noop);
        let mut k: usize = 0;
        while k < allowed.len() && !ok
            invariant
                al == instruction_models(allowed@),
                k <= allowed@.len(),
                ok == (ins@ == InstructionModel::Noop || exists|j: int| 0 <= j < k && al[j] == ins@),
            decreases allowed@.len() - k,
        {
            assert(al[k as int] == allowed@[k as int]@);
            if allowed[k].same_as(ins) {
                ok = true;
            }
            k = k + 1;
        }
        proof {
            if ok && ins@ != InstructionModel::Noop {
                let j = choose|j: int| 0 <= j < k && al[j] == ins@;
                assert(al.contains(ins@));
            }
            if !ok {
                assert(k == allowed@.len());
                if al.contains(ins@) {
                    let j = choose|j: int| 0 <= j < al.len() && al[j] == ins@;
                    assert(false);
                }
            }
        }
        assert(is[i as int] == ins@);
        if !ok {
            proof {
                lemma_forbidden_stays(is, al, i + 1, is.len() as int);
            }
            return Some(i);
        }
        i = i + 1;
    }
    None
}

/// The first label that a jump or call names and that is not defined.
fn undefined_label(instructions: &Vec<Instruction>, control_flow: &ControlFlow) -> (r: Result<(), String>)
    requires
        control_flow.wf(),
    ensures
        match first_undefined_label(instruction_models(instructions@), control_flow@.labels, instructions@.len() as int) {
            Some(l) => r matches Err(s) && s@ == l,
            None => r is Ok,
        },
{
    let ghost is = instruction_models(instructions@);
    let mut i: usize = 0;
    while i < instructions.len()
        invariant
            is == instruction_models(instructions@),
            control_flow.wf(),
            i <= instructions@.len(),
            first_undefined_label(is, control_flow@.labels, i as int) is None,
        decreases instructions@.len() - i,
    {
        assert(is[i as int] == instructions@[i as int]@);
        match &instructions[i] {
            Instruction::Goto(label) | Instruction::Call(label) | Instruction::JumpIf(_, _, _, label) => {
                if let Err(l) = check_label(control_flow, label) {
                    proof {
                        lemma_undefined_label_stays(is, control_flow@.labels, i + 1, is.len() as int);
                    }
                    return Err(l);
                }
            },
            _ => {},
        }
        i = i + 1;
    }
    Ok(())
}

/// Makes sure every register the instructions use exists, in order.
fn declare_missing(instructions: &Vec<Instruction>, runtime_args: &mut RuntimeArgs, add_missing: bool) -> (r: Result<(), RuntimeBuildError>)
    requires
        old(runtime_args).wf(),
    ensures
        final(runtime_args).wf(),
        match declare_all(old(runtime_args)@, instruction_models(instructions@), add_missing, instructions@.len() as int) {
            Ok(m) => r is Ok && final(runtime_args)@ == m,
            Err(e) => r is Err && r->Err_0@ == e,
        },
{
    let ghost is = instruction_models(instructions@);
    let ghost m0 = old(runtime_args)@;
    assert(is.len() == instructions@.len());
    let mut i: usize = 0;
    while i < instructions.len()
        invariant
            is == instruction_models(instructions@),
            is.len() == instructions@.len(),
            m0 == old(runtime_args)@,
            runtime_args.wf(),
            i <= instructions@.len(),
            declare_all(m0, is, add_missing, i as int) == Ok::<Memory, BuildFault>(runtime_args@),
        decreases instructions@.len() - i,
    {
        assert(is[i as int] == instructions@[i as int]@);
        if let Err(e) = check_instruction(&instructions[i], runtime_args, add_missing) {
            assert(declare_all(m0, is, add_missing, (i + 1) as int) == Err::<Memory, BuildFault>(e@));
            proof {
                lemma_declare_fault_stays(m0, is, add_missing, i + 1, is.len() as int);
            }
            return Err(e);
        }
        i = i + 1;
    }
    Ok(())
}

impl RuntimeBuilder {
    /// Reads the source lines, one instruction per line, into instructions
    /// and labels; control flow starts afresh. On an error the builder is
    /// left as it was.
    pub fn build_instructions(&mut self, instructions_input: &Vec<&str>, file_name: &str) -> (r: Result<(), BuildProgramError>)
        requires
            old(self).wf(),
        ensures
            final(self).wf(),
            match read_program(line_texts(instructions_input@)) {
                Ok((ls, is)) => r is Ok && final(self)@ == (BuilderModel {
                    instructions: Some(is),
                    flow: FlowModel { labels: ls, ..ControlFlow::new_model() },
                    ..old(self)@
                }),
                Err(f) => r matches Err(e) && e@ == f && locates(e, line_texts(instructions_input@), file_name@)
                    && final(self)@ == old(self)@,
            },
    {
        let (cf, instructions) = read_source(instructions_input, file_name)?;
        self.control_flow = cf;
        self.instructions = Some(instructions);
        Ok(())
    }

    /// Like [`RuntimeBuilder::build_instructions`], and each instruction
    /// must also equal one of `allowed`, operands included.
    pub fn build_instructions_whitelist(&mut self, instructions_input: &Vec<&str>, file_name: &str, allowed: &Vec<Instruction>) -> (r: Result<(), BuildProgramError>)
        requires
            old(self).wf(),
        ensures
            final(self).wf(),
            match read_program(line_texts(instructions_input@)) {
                Ok((ls, is)) => match first_forbidden(is, instruction_models(allowed@), is.len() as int) {
                    None => r is Ok && final(self)@ == (BuilderModel {
                        instructions: Some(is),
                        flow: FlowModel { labels: ls, ..ControlFlow::new_model() },
                        ..old(self)@
                    }),
                    Some(j) => r is Err && r->Err_0@ == ProgramFault::NotAllowed(j) && final(self)@ == old(self)@,
                },
                Err(f) => r matches Err(e) && e@ == f && locates(e, line_texts(instructions_input@), file_name@)
                    && final(self)@ == old(self)@,
            },
    {
        let (cf, instructions) = read_source(instructions_input, file_name)?;
        let ghost is = instruction_models(instructions@);
        assert(is.len() == instructions@.len());
        assert(read_program(line_texts(instructions_input@)) == Ok::<_, ProgramFault>((cf@.labels, is)));
        if let Some(j) = find_forbidden(&instructions, allowed) {
            let e = BuildProgramError { reason: BuildProgramErrorTypes::InstructionNotAllowed(j) };
            assert(first_forbidden(is, instruction_models(allowed@), is.len() as int) == Some(j as int));
            return Err(e);
        }
        self.control_flow = cf;
        self.instructions = Some(instructions);
        Ok(())
    }

    /// Builds the runtime: adds the end labels, checks that every label a
    /// jump or call names is defined, makes sure every register the
    /// program uses exists (adding missing ones if so configured), and
    /// starts at `main` or `MAIN` if defined, else at 0. The builder itself
    /// is not changed.
    pub fn build(&self) -> (r: Result<Runtime, RuntimeBuildError>)
        requires
            self.wf(),
        ensures
            match build_spec(self@) {
                Ok(m) => r matches Ok(rt) && rt.wf() && rt@ == m,
                Err(e) => r matches Err(x) && x@ == e,
            },
    {
        let args = match &self.runtime_args {
            None => {
                return Err(RuntimeBuildError::RuntimeArgsMissing);
            },
            Some(a) => a,
        };
        let instructions = match &self.instructions {
            None => {
                return Err(RuntimeBuildError::InstructionsMissing);
            },
            Some(v) => v,
        };
        if instructions.len() == 0 {
            return Err(RuntimeBuildError::InstructionsMissing);
        }
        let mut cf = self.control_flow.duplicate();
        inject_end_labels(&mut cf, instructions.len());
        if let Err(l) = undefined_label(instructions, &cf) {
            return Err(RuntimeBuildError::LabelUndefined(l));
        }
        let mut memory = args.duplicate();
        declare_missing(instructions, &mut memory, self.add_missing)?;
        let main = cf.label_index("main");
        let main_upper = cf.label_index("MAIN");
        let start = match (main, main_upper) {
            (Some(_), Some(_)) => {
                return Err(RuntimeBuildError::MainLabelDefinedMultipleTimes);
            },
            (Some(i), None) => i,
            (None, Some(i)) => i,
            (None, None) => 0,
        };
        cf.next_instruction_index = start;
        cf.initial_instruction = start;
        cf.call_stack = Vec::new();
        let rt = Runtime { runtime_args: memory, instructions: duplicate_instructions(instructions), control_flow: cf };
        assert(rt@.flow.call_stack =~= Seq::<usize>::empty());
        Ok(rt)
    }
}

} // verus!

verus! {

// ---------------------------------------------------------------------
// The first fault stays the first

proof fn lemma_read_lines_fault_stays(lines: Seq<Seq<char>>, k: int, n: int)
    requires
        0 <= k <= n,
        read_lines(lines, k) is Err,
    ensures
        read_lines(lines, n) == read_lines(lines, k),
    decreases n - k,
{
    if k < n {
        lemma_read_lines_fault_stays(lines, k, n - 1);
    }
}

proof fn lemma_undefined_label_stays(is: Seq<InstructionModel>, labels: Map<Seq<char>, usize>, k: int, n: int)
    requires
        0 <= k <= n,
        first_undefined_label(is, labels, k) is Some,
    ensures
        first_undefined_label(is, labels, n) == first_undefined_label(is, labels, k),
    decreases n - k,
{
    if k < n {
        lemma_undefined_label_stays(is, labels, k, n - 1);
    }
}

proof fn lemma_declare_fault_stays(m: Memory, is: Seq<InstructionModel>, add: bool, k: int, n: int)
    requires
        0 <= k <= n,
        declare_all(m, is, add, k) is Err,
    ensures
        declare_all(m, is, add, n) == declare_all(m, is, add, k),
    decreases n - k,
{
    if k < n {
        lemma_declare_fault_stays(m, is, add, k, n - 1);
    }
}

proof fn lemma_forbidden_stays(is: Seq<InstructionModel>, allowed: Seq<InstructionModel>, k: int, n: int)
    requires
        0 <= k <= n,
        first_forbidden(is, allowed, k) is Some,
    ensures
        first_forbidden(is, allowed, n) == first_forbidden(is, allowed, k),
    decreases n - k,
{
    if k < n {
        lemma_forbidden_stays(is, allowed, k, n - 1);
    }
}

} // verus!


verus! {

// ---------------------------------------------------------------------
// Laws

proof fn lemma_reserved_names_differ()
    ensures
        "main"@ != "END"@,
        "main"@ != "ENDE"@,
        "main"@ != "end"@,
        "main"@ != "ende"@,
        "MAIN"@ != "END"@,
        "MAIN"@ != "ENDE"@,
        "MAIN"@ != "end"@,
        "MAIN"@ != "ende"@,
        "main"@ != "MAIN"@,
{
    reveal_strlit("main");
    reveal_strlit("MAIN");
    reveal_strlit("END");
    reveal_strlit("ENDE");
    reveal_strlit("end");
    reveal_strlit("ende");
    assert("main"@[0] != "END"@[0]);
    assert("main"@[0] != "ENDE"@[0]);
    assert("main"@[0] != "end"@[0]);
    assert("main"@[0] != "ende"@[0]);
    assert("MAIN"@[0] != "END"@[0]);
    assert("MAIN"@[0] != "ENDE"@[0]);
    assert("MAIN"@[0] != "end"@[0]);
    assert("MAIN"@[0] != "ende"@[0]);
    assert("main"@[0] != "MAIN"@[0]);
}

/// The end labels leave `main` and `MAIN` as they were.
proof fn lemma_end_labels_keep_main(labels: Map<Seq<char>, usize>, n: usize)
    ensures
        with_end_labels(labels, n).contains_key("main"@) == labels.contains_key("main"@),
        with_end_labels(labels, n).contains_key("MAIN"@) == labels.contains_key("MAIN"@),
        labels.contains_key("main"@) ==> with_end_labels(labels, n)["main"@] == labels["main"@],
        labels.contains_key("MAIN"@) ==> with_end_labels(labels, n)["MAIN"@] == labels["MAIN"@],
        with_end_labels(labels, n).contains_key("END"@),
        with_end_labels(labels, n)["END"@] == n,
{
    lemma_reserved_names_differ();
    reveal_strlit("END");
    reveal_strlit("ENDE");
    reveal_strlit("end");
    reveal_strlit("ende");
    assert("END"@.len() != "ENDE"@.len());
    assert("END"@[0] != "end"@[0]);
    assert("END"@[0] != "ende"@[0]);
}

/// Once a program is built, it starts at `main` or `MAIN` if one of them is
/// defined, and at instruction 0 if neither is.
pub proof fn law_entry_point(b: BuilderModel)
    requires
        build_spec(b) is Ok,
    ensures
        !b.flow.labels.contains_key("main"@) && !b.flow.labels.contains_key("MAIN"@) ==>
            build_spec(b)->Ok_0.flow.next == 0 && build_spec(b)->Ok_0.flow.initial == 0,
        b.flow.labels.contains_key("main"@) ==>
            build_spec(b)->Ok_0.flow.next == b.flow.labels["main"@]
            && build_spec(b)->Ok_0.flow.initial == b.flow.labels["main"@],
        b.flow.labels.contains_key("MAIN"@) ==>
            build_spec(b)->Ok_0.flow.next == b.flow.labels["MAIN"@]
            && build_spec(b)->Ok_0.flow.initial == b.flow.labels["MAIN"@],
{
    let n = b.instructions->Some_0.len() as usize;
    lemma_end_labels_keep_main(b.flow.labels, n);
}

/// A label that the check reports is not defined.
proof fn lemma_undefined_is_missing(is: Seq<InstructionModel>, labels: Map<Seq<char>, usize>, k: int)
    ensures
        first_undefined_label(is, labels, k) matches Some(l) ==> !labels.contains_key(l),
    decreases k,
{
    if k > 0 {
        lemma_undefined_is_missing(is, labels, k - 1);
    }
}

/// `goto END` never makes a build fail, whether or not the program defines
/// an end label itself; in a built program `END` marks one past the last
/// instruction, and `goto END` goes there from anywhere.
pub proof fn law_goto_end(b: BuilderModel)
    requires
        b.instructions matches Some(is) && is.len() > 0,
    ensures
        first_undefined_label(
            b.instructions->Some_0,
            with_end_labels(b.flow.labels, b.instructions->Some_0.len() as usize),
            b.instructions->Some_0.len() as int,
        ) != Some("END"@),
        build_spec(b) is Ok ==> ({
            let r = build_spec(b)->Ok_0;
            &&& r.flow.labels["END"@] == r.instructions.len() as usize
            &&& forall|m: Memory, cs: Seq<usize>, idx: usize| #[trigger] crate::runtime::execute(
                InstructionModel::Goto("END"@), m, r.flow.labels, cs, idx)
                == Ok::<_, crate::memory::RuntimeErrorType>((m, cs, r.instructions.len() as usize))
        }),
{
    let is = b.instructions->Some_0;
    let n = is.len() as usize;
    lemma_end_labels_keep_main(b.flow.labels, n);
    lemma_undefined_is_missing(is, with_end_labels(b.flow.labels, n), is.len() as int);
    if build_spec(b) is Ok {
        let r = build_spec(b)->Ok_0;
        assert(r.flow.labels == with_end_labels(b.flow.labels, n));
        assert forall|m: Memory, cs: Seq<usize>, idx: usize| #[trigger] crate::runtime::execute(
            InstructionModel::Goto("END"@), m, r.flow.labels, cs, idx)
            == Ok::<_, crate::memory::RuntimeErrorType>((m, cs, r.instructions.len() as usize)) by {
            assert(entry(r.flow.labels, "END"@) == Some(n));
        }
    }
}

/// Every label defined by one of the first `k` lines is among the labels
/// they yield.
proof fn lemma_read_lines_labels(lines: Seq<Seq<char>>, k: int, i: int, l: Seq<char>)
    requires
        0 <= i < k,
        read_lines(lines, k) is Ok,
        label_of_line(lines[i]) == Some(l),
    ensures
        read_lines(lines, k)->Ok_0.0.contains_key(l),
    decreases k,
{
    if i < k - 1 {
        lemma_read_lines_labels(lines, k - 1, i, l);
    }
}

#[verifier::rlimit(60)]
/// A label defined on two lines makes reading the program fail with an
/// error that names it (for `main` and `MAIN`, the error for the entry
/// label), whatever else the second line holds, unless a line before it
/// already failed.
pub proof fn law_duplicate_label(lines: Seq<Seq<char>>, i: int, j: int, l: Seq<char>)
    requires
        0 <= i < j < lines.len(),
        label_of_line(lines[i]) == Some(l),
        label_of_line(lines[j]) == Some(l),
        read_lines(lines, j) is Ok,
    ensures
        read_program(lines) == Err::<(Map<Seq<char>, usize>, Seq<InstructionModel>), ProgramFault>(
            if is_main_label(l) { ProgramFault::DuplicateMain } else { ProgramFault::DuplicateLabel(l) },
        ),
{
    lemma_read_lines_labels(lines, j, i, l);
    let ls = read_lines(lines, j)->Ok_0.0;
    let fault = if is_main_label(l) { ProgramFault::DuplicateMain } else { ProgramFault::DuplicateLabel(l) };
    assert(ls.contains_key(l));
    assert(read_lines(lines, j + 1) == Err::<(Map<Seq<char>, usize>, Seq<InstructionModel>), ProgramFault>(fault));
    lemma_read_lines_fault_stays(lines, j + 1, lines.len() as int);
}

} // verus!

verus! {

/// Whether an addressing mode reads accumulator `id`.
pub open spec fn index_uses_accumulator(t: IndexModel, id: usize) -> bool {
    t == IndexModel::Accumulator(id)
}

/// Whether a target names accumulator `id`.
pub open spec fn target_uses_accumulator(t: TargetModel, id: usize) -> bool {
    match t {
        TargetModel::Accumulator(a) => a == id,
        TargetModel::IndexMemoryCell(it) => index_uses_accumulator(it, id),
        _ => false,
    }
}

/// Whether an operand names accumulator `id`.
pub open spec fn value_uses_accumulator(v: ValueModel, id: usize) -> bool {
    match v {
        ValueModel::Accumulator(a) => a == id,
        ValueModel::IndexMemoryCell(it) => index_uses_accumulator(it, id),
        _ => false,
    }
}

/// Whether an instruction uses accumulator `id`; `push` and `pop` use
/// accumulator 0.
pub open spec fn uses_accumulator(i: InstructionModel, id: usize) -> bool {
    match i {
        InstructionModel::Assign(t, v) => target_uses_accumulator(t, id) || value_uses_accumulator(v, id),
        InstructionModel::Calc(t, a, _, b) => target_uses_accumulator(t, id)
            || value_uses_accumulator(a, id) || value_uses_accumulator(b, id),
        InstructionModel::JumpIf(a, _, b, _) => value_uses_accumulator(a, id) || value_uses_accumulator(b, id),
        InstructionModel::Push => id == 0,
        InstructionModel::Pop => id == 0,
        _ => false,
    }
}

/// `m2` has the accumulators of `m`, unchanged, and those for which `used`
/// holds, the new ones unset; and no others.
pub open spec fn adds_accumulators(m: Memory, m2: Memory, used: spec_fn(usize) -> bool) -> bool {
    &&& forall|id: usize| #[trigger] m2.accumulators.contains_key(id)
        <==> (m.accumulators.contains_key(id) || used(id))
    &&& forall|id: usize| #[trigger] m.accumulators.contains_key(id)
        ==> m2.accumulators[id] == m.accumulators[id]
    &&& forall|id: usize| #[trigger] m2.accumulators.contains_key(id) && !m.accumulators.contains_key(id)
        ==> m2.accumulators[id] is None
}

proof fn lemma_adds_compose(m1: Memory, m2: Memory, m3: Memory, u1: spec_fn(usize) -> bool, u2: spec_fn(usize) -> bool)
    requires
        adds_accumulators(m1, m2, u1),
        adds_accumulators(m2, m3, u2),
    ensures
        adds_accumulators(m1, m3, |id: usize| u1(id) || u2(id)),
{
    let u = |id: usize| u1(id) || u2(id);
    assert forall|id: usize| #[trigger] m3.accumulators.contains_key(id)
        <==> (m1.accumulators.contains_key(id) || u(id)) by {
        assert(m2.accumulators.contains_key(id) <==> (m1.accumulators.contains_key(id) || u1(id)));
    }
    assert forall|id: usize| #[trigger] m1.accumulators.contains_key(id)
        implies m3.accumulators[id] == m1.accumulators[id] by {
        assert(m2.accumulators.contains_key(id));
    }
    assert forall|id: usize| #[trigger] m3.accumulators.contains_key(id) && !m1.accumulators.contains_key(id)
        implies m3.accumulators[id] is None by {
        if m2.accumulators.contains_key(id) {
            assert(m3.accumulators[id] == m2.accumulators[id]);
        }
    }
}

proof fn lemma_declare_accumulator_adds(m: Memory, id: usize)
    ensures
        declare_accumulator(m, id, true) is Ok,
        adds_accumulators(m, declare_accumulator(m, id, true)->Ok_0, |a: usize| a == id),
{
}

proof fn lemma_declare_others_keep(m: Memory, add: bool)
    ensures
        declare_gamma(m, true) is Ok,
        adds_accumulators(m, declare_gamma(m, true)->Ok_0, |a: usize| false),
        forall|l: Seq<char>| #[trigger] declare_memory_cell(m, l, true) is Ok
            && adds_accumulators(m, declare_memory_cell(m, l, true)->Ok_0, |a: usize| false),
        adds_accumulators(m, m, |a: usize| false),
{
}

proof fn lemma_declare_index_adds(m: Memory, t: IndexModel)
    ensures
        declare_index(m, t, true) is Ok,
        adds_accumulators(m, declare_index(m, t, true)->Ok_0, |a: usize| index_uses_accumulator(t, a)),
{
    lemma_declare_others_keep(m, true);
    match t {
        IndexModel::Accumulator(id) => lemma_declare_accumulator_adds(m, id),
        IndexModel::MemoryCell(l) => {
            assert(declare_memory_cell(m, l, true) is Ok);
        },
        _ => {},
    }
}

proof fn lemma_declare_target_adds(m: Memory, t: TargetModel)
    ensures
        declare_target(m, t, true) is Ok,
        adds_accumulators(m, declare_target(m, t, true)->Ok_0, |a: usize| target_uses_accumulator(t, a)),
{
    lemma_declare_others_keep(m, true);
    match t {
        TargetModel::Accumulator(id) => lemma_declare_accumulator_adds(m, id),
        TargetModel::MemoryCell(l) => {
            assert(declare_memory_cell(m, l, true) is Ok);
        },
        TargetModel::IndexMemoryCell(it) => lemma_declare_index_adds(m, it),
        _ => {},
    }
}

proof fn lemma_declare_value_adds(m: Memory, v: ValueModel)
    ensures
        declare_value(m, v, true) is Ok,
        adds_accumulators(m, declare_value(m, v, true)->Ok_0, |a: usize| value_uses_accumulator(v, a)),
{
    lemma_declare_others_keep(m, true);
    match v {
        ValueModel::Accumulator(id) => lemma_declare_accumulator_adds(m, id),
        ValueModel::MemoryCell(l) => {
            assert(declare_memory_cell(m, l, true) is Ok);
        },
        ValueModel::IndexMemoryCell(it) => lemma_declare_index_adds(m, it),
        _ => {},
    }
}

proof fn lemma_adds_same(m: Memory, m2: Memory, u1: spec_fn(usize) -> bool, u2: spec_fn(usize) -> bool)
    requires
        adds_accumulators(m, m2, u1),
        forall|a: usize| #[trigger] u1(a) == u2(a),
    ensures
        adds_accumulators(m, m2, u2),
{
}

proof fn lemma_declare_instruction_adds(m: Memory, i: InstructionModel)
    ensures
        declare_instruction(m, i, true) is Ok,
        adds_accumulators(m, declare_instruction(m, i, true)->Ok_0, |a: usize| uses_accumulator(i, a)),
{
    lemma_declare_others_keep(m, true);
    let u = |a: usize| uses_accumulator(i, a);
    match i {
        InstructionModel::Assign(t, v) => {
            lemma_declare_target_adds(m, t);
            let m1 = declare_target(m, t, true)->Ok_0;
            lemma_declare_value_adds(m1, v);
            let u1 = |a: usize| target_uses_accumulator(t, a);
            let u2 = |a: usize| value_uses_accumulator(v, a);
            lemma_adds_compose(m, m1, declare_value(m1, v, true)->Ok_0, u1, u2);
            lemma_adds_same(m, declare_value(m1, v, true)->Ok_0, |a: usize| u1(a) || u2(a), u);
        },
        InstructionModel::Calc(t, x, _, y) => {
            lemma_declare_target_adds(m, t);
            let m1 = declare_target(m, t, true)->Ok_0;
            lemma_declare_value_adds(m1, x);
            let m2 = declare_value(m1, x, true)->Ok_0;
            lemma_declare_value_adds(m2, y);
            let m3 = declare_value(m2, y, true)->Ok_0;
            let u1 = |a: usize| target_uses_accumulator(t, a);
            let u2 = |a: usize| value_uses_accumulator(x, a);
            let u3 = |a: usize| value_uses_accumulator(y, a);
            lemma_adds_compose(m, m1, m2, u1, u2);
            lemma_adds_compose(m, m2, m3, |a: usize| u1(a) || u2(a), u3);
            lemma_adds_same(m, m3, |a: usize| (u1(a) || u2(a)) || u3(a), u);
        },
        InstructionModel::JumpIf(x, _, y, _) => {
            lemma_declare_value_adds(m, x);
            let m1 = declare_value(m, x, true)->Ok_0;
            lemma_declare_value_adds(m1, y);
            let u1 = |a: usize| value_uses_accumulator(x, a);
            let u2 = |a: usize| value_uses_accumulator(y, a);
            lemma_adds_compose(m, m1, declare_value(m1, y, true)->Ok_0, u1, u2);
            lemma_adds_same(m, declare_value(m1, y, true)->Ok_0, |a: usize| u1(a) || u2(a), u);
        },
        InstructionModel::Push => {
            lemma_declare_accumulator_adds(m, 0);
            lemma_adds_same(m, declare_accumulator(m, 0, true)->Ok_0, |a: usize| a == 0, u);
        },
        InstructionModel::Pop => {
            lemma_declare_accumulator_adds(m, 0);
            lemma_adds_same(m, declare_accumulator(m, 0, true)->Ok_0, |a: usize| a == 0, u);
        },
        _ => {
            lemma_adds_same(m, m, |a: usize| false, u);
        },
    }
}

/// With missing registers added, making sure a program's registers exist
/// never fails: afterwards exactly the accumulators that were there and
/// those that the first `k` instructions use exist; those that were there
/// keep their values, and the added ones hold nothing.
pub proof fn law_auto_add_accumulators(m: Memory, is: Seq<InstructionModel>, k: int)
    requires
        0 <= k <= is.len(),
    ensures
        declare_all(m, is, true, k) is Ok,
        adds_accumulators(m, declare_all(m, is, true, k)->Ok_0,
            |id: usize| exists|j: int| 0 <= j < k && #[trigger] uses_accumulator(is[j], id)),
    decreases k,
{
    let u = |id: usize| exists|j: int| 0 <= j < k && #[trigger] uses_accumulator(is[j], id);
    if k == 0 {
        lemma_declare_others_keep(m, true);
        lemma_adds_same(m, m, |a: usize| false, u);
    } else {
        law_auto_add_accumulators(m, is, k - 1);
        let m1 = declare_all(m, is, true, k - 1)->Ok_0;
        lemma_declare_instruction_adds(m1, is[k - 1]);
        let u1 = |id: usize| exists|j: int| 0 <= j < k - 1 && #[trigger] uses_accumulator(is[j], id);
        let u2 = |id: usize| uses_accumulator(is[k - 1], id);
        lemma_adds_compose(m, m1, declare_instruction(m1, is[k - 1], true)->Ok_0, u1, u2);
        assert forall|a: usize| (u1(a) || u2(a)) == #[trigger] u(a) by {
            if u(a) {
                let j = choose|j: int| 0 <= j < k && #[trigger] uses_accumulator(is[j], a);
                if j < k - 1 {
                    assert(u1(a));
                }
            }
        }
        lemma_adds_same(m, declare_instruction(m1, is[k - 1], true)->Ok_0, |a: usize| u1(a) || u2(a), u);
    }
}

} // verus!

verus! {

proof fn lemma_refuse_instruction(m: Memory, i: InstructionModel)
    ensures
        declare_instruction(m, i, false) is Ok ==> declare_instruction(m, i, false) == Ok::<Memory, BuildFault>(m)
            && forall|id: usize| #[trigger] uses_accumulator(i, id) ==> m.accumulators.contains_key(id),
{
}

/// With missing registers refused, making sure a program's registers exist
/// succeeds only where every accumulator that the first `k` instructions
/// use exists, and then changes nothing. So a program that uses an
/// accumulator that does not exist is refused.
pub proof fn law_refuse_missing_accumulators(m: Memory, is: Seq<InstructionModel>, k: int)
    requires
        0 <= k <= is.len(),
    ensures
        declare_all(m, is, false, k) is Ok ==> declare_all(m, is, false, k) == Ok::<Memory, BuildFault>(m)
            && forall|j: int, id: usize| 0 <= j < k && #[trigger] uses_accumulator(is[j], id)
                ==> m.accumulators.contains_key(id),
    decreases k,
{
    if k > 0 {
        law_refuse_missing_accumulators(m, is, k - 1);
        if declare_all(m, is, false, k - 1) is Ok {
            lemma_refuse_instruction(m, is[k - 1]);
        }
    }
}

} // verus!

verus! {

/// Whether `l` holds no `#` and no `//`.
pub open spec fn comment_free(l: Seq<char>) -> bool {
    &&& forall|i: int| 0 <= i < l.len() ==> #[trigger] l[i] != '#'
    &&& forall|i: int| 0 <= i < l.len() - 1 ==> !(#[trigger] l[i] == '/' && l[i + 1] == '/')
}

proof fn lemma_comment_after(l: Seq<char>, m: Seq<char>, c: Seq<char>, i: int)
    requires
        comment_free(l),
        l.len() == 0 || l.last() != '/',
        m == seq!['/', '/'] || m == seq!['#'],
        0 <= i <= l.len(),
    ensures
        crate::parser::comment_start(l + m + c, i) == l.len(),
    decreases l.len() - i,
{
    let s = l + m + c;
    if i < l.len() {
        assert(s[i] == l[i]);
        assert(s[i + 1] == if i + 1 < l.len() { l[i + 1] } else { m[0] });
        lemma_comment_after(l, m, c, i + 1);
    } else {
        assert(s[i] == m[0]);
        if m == seq!['/', '/'] {
            assert(s[i + 1] == m[1]);
        }
    }
}

proof fn lemma_no_comment(l: Seq<char>, i: int)
    requires
        comment_free(l),
        0 <= i <= l.len(),
    ensures
        crate::parser::comment_start(l, i) == l.len(),
    decreases l.len() - i,
{
    if i < l.len() {
        lemma_no_comment(l, i + 1);
    }
}

/// A comment, `//` or `#` and any text after it, changes neither the label
/// nor the instruction of a line that holds no comment marker and does not
/// end in `/` (which would make the comment start one character earlier).
pub proof fn law_comment_ignored(l: Seq<char>, m: Seq<char>, c: Seq<char>)
    requires
        comment_free(l),
        l.len() == 0 || l.last() != '/',
        m == seq!['/', '/'] || m == seq!['#'],
    ensures
        parse_line_spec(l + m + c) == parse_line_spec(l),
        label_of_line(l + m + c) == label_of_line(l),
{
    lemma_comment_after(l, m, c, 0);
    lemma_no_comment(l, 0);
    assert(crate::parser::strip_comment(l + m + c) =~= l);
    assert(crate::parser::strip_comment(l) =~= l);
}

proof fn lemma_read_lines_same(lines: Seq<Seq<char>>, lines2: Seq<Seq<char>>, k: int)
    requires
        lines.len() == lines2.len(),
        0 <= k <= lines.len(),
        forall|j: int| 0 <= j < lines.len() ==> #[trigger] parse_line_spec(lines[j]) == parse_line_spec(lines2[j])
            && label_of_line(lines[j]) == label_of_line(lines2[j]),
    ensures
        read_lines(lines, k) == read_lines(lines2, k),
    decreases k,
{
    if k > 0 {
        lemma_read_lines_same(lines, lines2, k - 1);
        assert(parse_line_spec(lines[k - 1]) == parse_line_spec(lines2[k - 1]));
    }
}

/// Adding a comment to a line of a program, as in
/// [`law_comment_ignored`], changes nothing about reading the program.
pub proof fn law_program_comment_ignored(lines: Seq<Seq<char>>, i: int, m: Seq<char>, c: Seq<char>)
    requires
        0 <= i < lines.len(),
        comment_free(lines[i]),
        lines[i].len() == 0 || lines[i].last() != '/',
        m == seq!['/', '/'] || m == seq!['#'],
    ensures
        read_program(lines.update(i, lines[i] + m + c)) == read_program(lines),
{
    let lines2 = lines.update(i, lines[i] + m + c);
    law_comment_ignored(lines[i], m, c);
    assert forall|j: int| 0 <= j < lines.len() implies #[trigger] parse_line_spec(lines[j]) == parse_line_spec(lines2[j])
        && label_of_line(lines[j]) == label_of_line(lines2[j]) by {
        if j != i {
            assert(lines2[j] == lines[j]);
        }
    }
    lemma_read_lines_same(lines, lines2, lines.len() as int);
}

} // verus!

verus! {

/// The builder's program passes the label check: it has instructions, every
/// label a jump or call names is defined, and not both `main` and `MAIN` are.
pub open spec fn labels_resolve(b: BuilderModel) -> bool {
    &&& b.instructions matches Some(is) && is.len() > 0
    &&& first_undefined_label(
        b.instructions->Some_0,
        with_end_labels(b.flow.labels, b.instructions->Some_0.len() as usize),
        b.instructions->Some_0.len() as int,
    ) is None
    &&& !(b.flow.labels.contains_key("main"@) && b.flow.labels.contains_key("MAIN"@))
}

/// Whether some instruction of `is` uses accumulator `id`.
pub open spec fn program_uses_accumulator(is: Seq<InstructionModel>, id: usize) -> bool {
    exists|j: int| 0 <= j < is.len() && #[trigger] uses_accumulator(is[j], id)
}

/// With missing registers added, a program whose labels resolve builds; its
/// memory has the accumulators there were, unchanged, and those that the
/// program uses, unset, and no others.
pub proof fn law_build_adds_accumulators(b: BuilderModel)
    requires
        b.memory is Some,
        labels_resolve(b),
    ensures
        build_spec(BuilderModel { add_missing: true, ..b }) is Ok,
        adds_accumulators(b.memory->Some_0, build_spec(BuilderModel { add_missing: true, ..b })->Ok_0.memory,
            |id: usize| program_uses_accumulator(b.instructions->Some_0, id)),
{
    let is = b.instructions->Some_0;
    let m = b.memory->Some_0;
    lemma_end_labels_keep_main(b.flow.labels, is.len() as usize);
    law_auto_add_accumulators(m, is, is.len() as int);
    let m2 = declare_all(m, is, true, is.len() as int)->Ok_0;
    lemma_adds_same(m, m2,
        |id: usize| exists|j: int| 0 <= j < is.len() as int && #[trigger] uses_accumulator(is[j], id),
        |id: usize| program_uses_accumulator(is, id));
}

/// With missing registers refused, a program that uses an accumulator that
/// does not exist does not build.
pub proof fn law_build_refuses_missing(b: BuilderModel, id: usize)
    requires
        b.memory is Some,
        b.instructions is Some,
        program_uses_accumulator(b.instructions->Some_0, id),
        !b.memory->Some_0.accumulators.contains_key(id),
    ensures
        build_spec(BuilderModel { add_missing: false, ..b }) is Err,
{
    let is = b.instructions->Some_0;
    let m = b.memory->Some_0;
    law_refuse_missing_accumulators(m, is, is.len() as int);
    let j = choose|j: int| 0 <= j < is.len() && #[trigger] uses_accumulator(is[j], id);
}

/// With missing registers refused, where the instructions before line `j`
/// find all they use, and line `j` assigns to, pushes or pops an
/// accumulator that does not exist, the build fails naming it.
pub proof fn law_build_names_missing_accumulator(b: BuilderModel, j: int, id: usize)
    requires
        b.memory is Some,
        labels_resolve(b),
        0 <= j < b.instructions->Some_0.len(),
        declare_all(b.memory->Some_0, b.instructions->Some_0, false, j) == Ok::<Memory, BuildFault>(b.memory->Some_0),
        !b.memory->Some_0.accumulators.contains_key(id),
        match b.instructions->Some_0[j] {
            InstructionModel::Assign(TargetModel::Accumulator(a), _) => a == id,
            InstructionModel::Calc(TargetModel::Accumulator(a), _, _, _) => a == id,
            InstructionModel::Push => id == 0,
            InstructionModel::Pop => id == 0,
            _ => false,
        },
    ensures
        build_spec(BuilderModel { add_missing: false, ..b }) == Err::<RuntimeModel, BuildFault>(BuildFault::AccumulatorMissing(id)),
{
    let is = b.instructions->Some_0;
    let m = b.memory->Some_0;
    assert(declare_all(m, is, false, j + 1) == Err::<Memory, BuildFault>(BuildFault::AccumulatorMissing(id)));
    lemma_declare_fault_stays(m, is, false, j + 1, is.len() as int);
}

} // verus!
