use vstd::prelude::*;

use crate::base::{calc_spec, compare_spec};
use crate::instructions::{Instruction, InstructionModel, TargetModel, TargetType};
use crate::keyed::{keyed_map, lemma_keyed_lookup, lemma_keyed_push, lemma_keyed_update, str_eq, unique_keys};
use crate::memory::{entry, read_value, write_target, Memory, RuntimeArgs, RuntimeErrorType};

verus! {

/// Labels, the call stack and the instruction pointer of a program.
#[derive(Debug, Clone)]
pub struct ControlFlow {
    /// Each label with the index of the instruction it marks; no label
    /// occurs twice.
    pub instruction_labels: Vec<(String, usize)>,
    /// Return addresses, the most recent last.
    pub call_stack: Vec<usize>,
    /// The index of the instruction that runs next.
    pub next_instruction_index: usize,
    /// The index at which the program starts.
    pub initial_instruction: usize,
}

/// The mathematical form of [`ControlFlow`].
pub struct FlowModel {
    pub labels: Map<Seq<char>, usize>,
    pub call_stack: Seq<usize>,
    pub next: usize,
    pub initial: usize,
}

/// The names of a sequence of labels.
pub open spec fn label_names(ls: Seq<(String, usize)>) -> Seq<Seq<char>> {
    ls.map_values(|p: (String, usize)| p.0@)
}

/// The indices of a sequence of labels.
pub open spec fn label_targets(ls: Seq<(String, usize)>) -> Seq<usize> {
    ls.map_values(|p: (String, usize)| p.1)
}

impl View for ControlFlow {
    type V = FlowModel;

    open spec fn view(&self) -> FlowModel {
        FlowModel {
            labels: keyed_map(label_names(self.instruction_labels@), label_targets(self.instruction_labels@)),
            call_stack: self.call_stack@,
            next: self.next_instruction_index,
            initial: self.initial_instruction,
        }
    }
}

impl ControlFlow {
    /// No label occurs twice.
    pub open spec fn wf(&self) -> bool {
        unique_keys(label_names(self.instruction_labels@))
    }

    /// The model of a fresh control flow: no labels, an empty call stack,
    /// starting at 0.
    pub open spec fn new_model() -> FlowModel {
        FlowModel { labels: Map::empty(), call_stack: Seq::empty(), next: 0, initial: 0 }
    }

    /// Control flow with no labels, an empty call stack, starting at 0.
    pub fn new() -> (r: Self)
        ensures
            r.wf(),
            r@ == Self::new_model(),
    {
        let r = Self {
            instruction_labels: Vec::new(),
            call_stack: Vec::new(),
            next_instruction_index: 0,
            initial_instruction: 0,
        };
        assert(r@.labels =~= Map::empty());
        assert(r@.call_stack =~= Seq::empty());
        r
    }

    /// Forgets all labels and calls and returns to index 0.
    pub fn reset(&mut self)
        ensures
            final(self).wf(),
            final(self)@ == Self::new_model(),
    {
        *self = Self::new();
    }

    /// Where the label named `label` stands in the list, if it does.
    fn find_label(&self, label: &str) -> (r: Option<usize>)
        requires
            self.wf(),
        ensures
            match r {
                Some(i) => i < self.instruction_labels@.len()
                    && self.instruction_labels@[i as int].0@ == label@,
                None => !self@.labels.contains_key(label@),
            },
    {
        let mut i: usize = 0;
        while i < self.instruction_labels.len()
            invariant
                i <= self.instruction_labels@.len(),
                forall|j: int| 0 <= j < i ==> self.instruction_labels@[j].0@ != label@,
            decreases self.instruction_labels@.len() - i,
        {
            if str_eq(self.instruction_labels[i].0.as_str(), label) {
                return Some(i);
            }
            i = i + 1;
        }
        proof {
            if self@.labels.contains_key(label@) {
                let ks = label_names(self.instruction_labels@);
                let j = choose|j: int| 0 <= j < ks.len() && ks[j] == label@;
                assert(self.instruction_labels@[j].0@ == label@);
            }
        }
        None
    }

    /// The index that `label` marks, if it is defined.
    pub fn label_index(&self, label: &str) -> (r: Option<usize>)
        requires
            self.wf(),
        ensures
            r == entry(self@.labels, label@),
    {
        match self.find_label(label) {
            Some(i) => {
                proof {
                    lemma_keyed_lookup(label_names(self.instruction_labels@), label_targets(self.instruction_labels@), i as int);
                }
                Some(self.instruction_labels[i].1)
            },
            None => None,
        }
    }

    /// Whether `label` is defined.
    pub fn contains_label(&self, label: &str) -> (r: bool)
        requires
            self.wf(),
        ensures
            r == self@.labels.contains_key(label@),
    {
        self.label_index(label).is_some()
    }

    /// Lets `label` mark `index`, replacing what it marked before; returns
    /// what it marked before.
    pub fn insert_label(&mut self, label: String, index: usize) -> (r: Option<usize>)
        requires
            old(self).wf(),
        ensures
            final(self).wf(),
            r == entry(old(self)@.labels, label@),
            final(self)@ == (FlowModel { labels: old(self)@.labels.insert(label@, index), ..old(self)@ }),
    {
        let ghost ls = self.instruction_labels@;
        match self.find_label(label.as_str()) {
            Some(i) => {
                let prev = self.instruction_labels[i].1;
                proof {
                    lemma_keyed_lookup(label_names(ls), label_targets(ls), i as int);
                    lemma_keyed_update(label_names(ls), label_targets(ls), i as int, index);
                }
                self.instruction_labels.set(i, (label, index));
                proof {
                    assert(label_names(self.instruction_labels@) =~= label_names(ls));
                    assert(label_targets(self.instruction_labels@) =~= label_targets(ls).update(i as int, index));
                }
                Some(prev)
            },
            None => {
                let ghost l = label@;
                proof {
                    if label_names(ls).contains(l) {
                        assert(keyed_map(label_names(ls), label_targets(ls)).contains_key(l));
                    }
                    lemma_keyed_push(label_names(ls), label_targets(ls), l, index);
                }
                self.instruction_labels.push((label, index));
                proof {
                    assert(label_names(self.instruction_labels@) =~= label_names(ls).push(l));
                    assert(label_targets(self.instruction_labels@) =~= label_targets(ls).push(index));
                }
                None
            },
        }
    }
}

/// A built program with its storage and control flow.
#[derive(Debug, Clone)]
pub struct Runtime {
    pub runtime_args: RuntimeArgs,
    pub instructions: Vec<Instruction>,
    pub control_flow: ControlFlow,
}

/// The mathematical form of [`Runtime`].
pub struct RuntimeModel {
    pub memory: Memory,
    pub instructions: Seq<InstructionModel>,
    pub flow: FlowModel,
}

/// The models of a sequence of instructions.
pub open spec fn instruction_models(s: Seq<Instruction>) -> Seq<InstructionModel> {
    s.map_values(|i: Instruction| i@)
}

impl View for Runtime {
    type V = RuntimeModel;

    open spec fn view(&self) -> RuntimeModel {
        RuntimeModel {
            memory: self.runtime_args@,
            instructions: instruction_models(self.instructions@),
            flow: self.control_flow@,
        }
    }
}

/// What executing `ins`, the instruction at `idx`, does to memory `m` and
/// the call stack `cs`, and which index runs next. A failed step changes
/// nothing.
pub open spec fn execute(
    ins: InstructionModel,
    m: Memory,
    labels: Map<Seq<char>, usize>,
    cs: Seq<usize>,
    idx: usize,
) -> Result<(Memory, Seq<usize>, usize), RuntimeErrorType> {
    let following = (idx + 1) as usize;
    match ins {
        InstructionModel::Assign(t, v) => match read_value(m, v) {
            Ok(x) => match write_target(m, t, x) {
                Ok(m2) => Ok((m2, cs, following)),
                Err(e) => Err(e),
            },
            Err(e) => Err(e),
        },
        InstructionModel::Calc(t, a, op, b) => match read_value(m, a) {
            Err(e) => Err(e),
            Ok(x) => match read_value(m, b) {
                Err(e) => Err(e),
                Ok(y) => match calc_spec(op, x as int, y as int) {
                    Err(c) => Err(RuntimeErrorType::IllegalCalculation { cause: c }),
                    Ok(z) => match write_target(m, t, z) {
                        Ok(m2) => Ok((m2, cs, following)),
                        Err(e) => Err(e),
                    },
                },
            },
        },
        InstructionModel::Call(l) => match entry(labels, l) {
            Some(j) => Ok((m, cs.push(following), j)),
            None => Err(RuntimeErrorType::LabelMissing),
        },
        InstructionModel::Goto(l) => match entry(labels, l) {
            Some(j) => Ok((m, cs, j)),
            None => Err(RuntimeErrorType::LabelMissing),
        },
        InstructionModel::JumpIf(a, c, b, l) => match read_value(m, a) {
            Err(e) => Err(e),
            Ok(x) => match read_value(m, b) {
                Err(e) => Err(e),
                Ok(y) => if compare_spec(c, x as int, y as int) {
                    match entry(labels, l) {
                        Some(j) => Ok((m, cs, j)),
                        None => Err(RuntimeErrorType::LabelMissing),
                    }
                } else {
                    Ok((m, cs, following))
                },
            },
        },
        InstructionModel::Noop => Ok((m, cs, following)),
        InstructionModel::Pop => if m.stack.len() == 0 {
            Err(RuntimeErrorType::StackEmpty)
        } else {
            match write_target(Memory { stack: m.stack.drop_last(), ..m }, TargetModel::Accumulator(0), m.stack.last()) {
                Ok(m2) => Ok((m2, cs, following)),
                Err(e) => Err(e),
            }
        },
        InstructionModel::Push => if m.accumulators.contains_key(0) {
            let v = match m.accumulators[0] {
                Some(v) => v,
                None => 0,
            };
            Ok((Memory { stack: m.stack.push(v), ..m }, cs, following))
        } else {
            Err(RuntimeErrorType::AccumulatorMissing(0))
        },
        InstructionModel::Return => if cs.len() == 0 {
            Err(RuntimeErrorType::CallStackEmpty)
        } else {
            Ok((m, cs.drop_last(), cs.last()))
        },
        InstructionModel::StackOp(op) => if m.stack.len() < 2 {
            Err(RuntimeErrorType::StackEmpty)
        } else {
            let x = m.stack[m.stack.len() - 2];
            let y = m.stack.last();
            match calc_spec(op, x as int, y as int) {
                Err(c) => Err(RuntimeErrorType::IllegalCalculation { cause: c }),
                Ok(z) => Ok((Memory { stack: m.stack.drop_last().drop_last().push(z), ..m }, cs, following)),
            }
        },
    }
}

/// The state after one step of `r`, or the error that stops it. A finished
/// program stays as it is.
pub open spec fn step_spec(r: RuntimeModel) -> Result<RuntimeModel, RuntimeErrorType> {
    if r.flow.next >= r.instructions.len() {
        Ok(r)
    } else {
        match execute(r.instructions[r.flow.next as int], r.memory, r.flow.labels, r.flow.call_stack, r.flow.next) {
            Ok((m, cs, next)) => Ok(RuntimeModel {
                memory: m,
                flow: FlowModel { call_stack: cs, next, ..r.flow },
                ..r
            }),
            Err(e) => Err(e),
        }
    }
}

impl Runtime {
    /// Storage and control flow are well formed.
    pub open spec fn wf(&self) -> bool {
        self.runtime_args.wf() && self.control_flow.wf()
    }

    /// Whether the program has run past its last instruction.
    pub fn finished(&self) -> (r: bool)
        ensures
            r == (self@.flow.next >= self@.instructions.len()),
    {
        self.control_flow.next_instruction_index >= self.instructions.len()
    }

    /// The index of the instruction that runs next.
    pub fn next_instruction_index(&self) -> (r: usize)
        ensures
            r == self@.flow.next,
    {
        self.control_flow.next_instruction_index
    }

    /// The storage of the program.
    pub fn runtime_args(&self) -> (r: &RuntimeArgs)
        ensures
            r@ == self@.memory,
    {
        &self.runtime_args
    }

    /// The control flow of the program.
    pub fn control_flow(&self) -> (r: &ControlFlow)
        ensures
            r@ == self@.flow,
    {
        &self.control_flow
    }

    /// Runs the next instruction. On an error nothing changes; a finished
    /// program stays as it is.
    pub fn step(&mut self) -> (r: Result<(), RuntimeErrorType>)
        requires
            old(self).wf(),
        ensures
            final(self).wf(),
            match step_spec(old(self)@) {
                Ok(n) => r is Ok && final(self)@ == n,
                Err(e) => r == Err::<(), RuntimeErrorType>(e) && final(self)@ == old(self)@,
            },
    {
        let idx = self.control_flow.next_instruction_index;
        if idx >= self.instructions.len() {
            return Ok(());
        }
        let ghost ins = self.instructions@[idx as int]@;
        assert(self@.instructions[idx as int] == ins);
        match self.execute_at(idx) {
            Ok(next) => {
                self.control_flow.next_instruction_index = next;
                Ok(())
            },
            Err(e) => Err(e),
        }
    }

    /// Executes the instruction at `idx` on memory and call stack; returns
    /// the index that runs next. On an error nothing changes.
    fn execute_at(&mut self, idx: usize) -> (r: Result<usize, RuntimeErrorType>)
        requires
            old(self).wf(),
            idx < old(self).instructions@.len(),
        ensures
            final(self).wf(),
            final(self).instructions == old(self).instructions,
            final(self).control_flow.instruction_labels == old(self).control_flow.instruction_labels,
            final(self).control_flow.next_instruction_index == old(self).control_flow.next_instruction_index,
            final(self).control_flow.initial_instruction == old(self).control_flow.initial_instruction,
            match execute(old(self).instructions@[idx as int]@, old(self)@.memory, old(self)@.flow.labels, old(self)@.flow.call_stack, idx) {
                Ok((m, cs, next)) => r == Ok::<usize, RuntimeErrorType>(next)
                    && final(self)@.memory == m && final(self)@.flow.call_stack == cs,
                Err(e) => r == Err::<usize, RuntimeErrorType>(e)
                    && final(self)@.memory == old(self)@.memory
                    && final(self)@.flow.call_stack == old(self)@.flow.call_stack,
            },
    {
        let len = self.instructions.len();
        execute_instruction(&mut self.runtime_args, &mut self.control_flow, &self.instructions[idx], idx)
    }

    /// Runs `ins` as if it stood at the index that runs next, then goes on
    /// where it leads. On an error nothing changes.
    pub fn execute_custom(&mut self, ins: &Instruction) -> (r: Result<(), RuntimeErrorType>)
        requires
            old(self).wf(),
        ensures
            final(self).wf(),
            final(self).instructions == old(self).instructions,
            match custom_spec(old(self)@, ins@) {
                Ok(n) => r is Ok && final(self)@ == n,
                Err(e) => r == Err::<(), RuntimeErrorType>(e) && final(self)@ == old(self)@,
            },
    {
        let idx = self.control_flow.next_instruction_index;
        if idx == usize::MAX {
            return Err(RuntimeErrorType::InstructionIndexOverflow);
        }
        let next = execute_instruction(&mut self.runtime_args, &mut self.control_flow, ins, idx)?;
        self.control_flow.next_instruction_index = next;
        Ok(())
    }
}

/// The state after running `ins` as if it stood at the index that runs
/// next, or the error that stops it.
pub open spec fn custom_spec(r: RuntimeModel, ins: InstructionModel) -> Result<RuntimeModel, RuntimeErrorType> {
    if r.flow.next == usize::MAX {
        Err(RuntimeErrorType::InstructionIndexOverflow)
    } else {
        match execute(ins, r.memory, r.flow.labels, r.flow.call_stack, r.flow.next) {
            Ok((m, cs, next)) => Ok(RuntimeModel {
                memory: m,
                flow: FlowModel { call_stack: cs, next, ..r.flow },
                ..r
            }),
            Err(e) => Err(e),
        }
    }
}

/// Executes `ins`, standing at `idx`, on `args` and the call stack of
/// `flow`; returns the index that runs next. On an error nothing changes.
fn execute_instruction(args: &mut RuntimeArgs, flow: &mut ControlFlow, ins: &Instruction, idx: usize) -> (r: Result<usize, RuntimeErrorType>)
    requires
        old(args).wf(),
        old(flow).wf(),
        idx < usize::MAX,
    ensures
        final(args).wf(),
        final(flow).wf(),
        final(flow).instruction_labels == old(flow).instruction_labels,
        final(flow).next_instruction_index == old(flow).next_instruction_index,
        final(flow).initial_instruction == old(flow).initial_instruction,
        match execute(ins@, old(args)@, old(flow)@.labels, old(flow)@.call_stack, idx) {
            Ok((m, cs, next)) => r == Ok::<usize, RuntimeErrorType>(next)
                && final(args)@ == m && final(flow)@.call_stack == cs,
            Err(e) => r == Err::<usize, RuntimeErrorType>(e)
                && final(args)@ == old(args)@
                && final(flow)@.call_stack == old(flow)@.call_stack,
        },
{
    let following = idx + 1;
    match ins {
        Instruction::Assign(t, v) => {
            let x = args.read_value(v)?;
            args.write_target(t, x)?;
            Ok(following)
        },
        Instruction::Calc(t, a, op, b) => {
            let x = args.read_value(a)?;
            let y = args.read_value(b)?;
            let z = match op.calc(x, y) {
                Ok(z) => z,
                Err(c) => {
                    return Err(RuntimeErrorType::IllegalCalculation { cause: c });
                },
            };
            args.write_target(t, z)?;
            Ok(following)
        },
        Instruction::Call(l) => match flow.label_index(l.as_str()) {
            Some(j) => {
                flow.call_stack.push(following);
                Ok(j)
            },
            None => Err(RuntimeErrorType::LabelMissing),
        },
        Instruction::Goto(l) => match flow.label_index(l.as_str()) {
            Some(j) => Ok(j),
            None => Err(RuntimeErrorType::LabelMissing),
        },
        Instruction::JumpIf(a, c, b, l) => {
            let x = args.read_value(a)?;
            let y = args.read_value(b)?;
            if c.cmp(x, y) {
                match flow.label_index(l.as_str()) {
                    Some(j) => Ok(j),
                    None => Err(RuntimeErrorType::LabelMissing),
                }
            } else {
                Ok(following)
            }
        },
        Instruction::Noop => Ok(following),
        Instruction::Pop => {
            if args.stack.len() == 0 {
                return Err(RuntimeErrorType::StackEmpty);
            }
            if !args.exists_accumulator(0) {
                return Err(RuntimeErrorType::AccumulatorMissing(0));
            }
            let ghost before = args@;
            let top = args.stack.pop().unwrap();
            assert(args@ == (Memory { stack: before.stack.drop_last(), ..before }));
            let w = args.write_target(&TargetType::Accumulator(0), top);
            assert(w is Ok);
            Ok(following)
        },
        Instruction::Push => {
            let v = match args.accumulator_value(0) {
                Ok(v) => v,
                Err(RuntimeErrorType::ValueUnset) => 0,
                Err(e) => {
                    return Err(e);
                },
            };
            assert(args@.accumulators.contains_key(0));
            args.stack.push(v);
            Ok(following)
        },
        Instruction::Return => match flow.call_stack.pop() {
            Some(j) => Ok(j),
            None => Err(RuntimeErrorType::CallStackEmpty),
        },
        Instruction::StackOp(op) => {
            let n = args.stack.len();
            if n < 2 {
                return Err(RuntimeErrorType::StackEmpty);
            }
            let x = args.stack[n - 2];
            let y = args.stack[n - 1];
            let z = match op.calc(x, y) {
                Ok(z) => z,
                Err(c) => {
                    return Err(RuntimeErrorType::IllegalCalculation { cause: c });
                },
            };
            args.stack.pop();
            args.stack.pop();
            args.stack.push(z);
            Ok(following)
        },
    }
}

} // verus!
