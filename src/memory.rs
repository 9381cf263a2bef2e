use std::collections::HashMap;

use vstd::prelude::*;

use crate::base::{Accumulator, CalcError, MemoryCell};
use crate::instructions::{
    IndexMemoryCellIndexType, IndexModel, TargetModel, TargetType, Value, ValueModel,
};
use crate::keyed::{
    keyed_map, lemma_keyed_lookup, lemma_keyed_push, lemma_keyed_update, str_eq, unique_keys,
};

verus! {

broadcast use vstd::std_specs::hash::group_hash_axioms;

/// Why executing an instruction failed.
#[derive(Debug, Clone, Copy, PartialEq, Eq, Structural)]
pub enum RuntimeErrorType {
    /// An accumulator that the instruction names does not exist.
    AccumulatorMissing(usize),
    /// The instruction uses gamma, which does not exist.
    GammaMissing,
    /// A memory cell that the instruction names does not exist.
    MemoryCellMissing,
    /// An indexed memory cell that was read has never been written.
    IndexMemoryCellMissing(usize),
    /// A register that was read holds no value yet.
    ValueUnset,
    /// A value used as an index is negative.
    NegativeIndex(i32),
    /// The calculation failed.
    IllegalCalculation { cause: CalcError },
    /// `pop` or a stack operation found too few values on the stack.
    StackEmpty,
    /// `return` found no return address on the call stack.
    CallStackEmpty,
    /// A jump names a label that is not defined.
    LabelMissing,
    /// The index after the current one does not fit a `usize`.
    InstructionIndexOverflow,
}

/// The contents of all registers and of the stack.
pub struct Memory {
    pub accumulators: Map<usize, Option<i32>>,
    /// `None` where gamma does not exist.
    pub gamma: Option<Option<i32>>,
    pub memory_cells: Map<Seq<char>, Option<i32>>,
    pub index_memory_cells: Map<usize, Option<i32>>,
    /// The bottom of the stack comes first.
    pub stack: Seq<i32>,
}

/// All storage of a running program.
#[derive(Debug, Clone)]
pub struct RuntimeArgs {
    /// Accumulators by id.
    pub accumulators: HashMap<usize, Accumulator>,
    /// `None` where gamma does not exist, `Some(None)` while it is unset.
    pub gamma: Option<Option<i32>>,
    /// Memory cells, each label at most once.
    pub memory_cells: Vec<MemoryCell>,
    /// Indexed memory cells by index.
    pub index_memory_cells: HashMap<usize, Option<i32>>,
    /// The value stack, the top last.
    pub stack: Vec<i32>,
}

/// The labels of a sequence of memory cells.
pub open spec fn cell_labels(cells: Seq<MemoryCell>) -> Seq<Seq<char>> {
    cells.map_values(|c: MemoryCell| c.label@)
}

/// The values of a sequence of memory cells.
pub open spec fn cell_values(cells: Seq<MemoryCell>) -> Seq<Option<i32>> {
    cells.map_values(|c: MemoryCell| c.data)
}

impl View for RuntimeArgs {
    type V = Memory;

    open spec fn view(&self) -> Memory {
        Memory {
            accumulators: self.accumulators@.map_values(|a: Accumulator| a.data),
            gamma: self.gamma,
            memory_cells: keyed_map(cell_labels(self.memory_cells@), cell_values(self.memory_cells@)),
            index_memory_cells: self.index_memory_cells@,
            stack: self.stack@,
        }
    }
}

/// The entry of `m` at `k`, if any.
pub open spec fn entry<K, V>(m: Map<K, V>, k: K) -> Option<V> {
    if m.contains_key(k) {
        Some(m[k])
    } else {
        None
    }
}

/// The value of a register: `missing` where it does not exist, `ValueUnset`
/// where it holds nothing.
pub open spec fn stored(o: Option<Option<i32>>, missing: RuntimeErrorType) -> Result<i32, RuntimeErrorType> {
    match o {
        None => Err(missing),
        Some(None) => Err(RuntimeErrorType::ValueUnset),
        Some(Some(v)) => Ok(v),
    }
}

/// A value read for use as an index: refused where negative.
pub open spec fn as_index(r: Result<i32, RuntimeErrorType>) -> Result<usize, RuntimeErrorType> {
    match r {
        Ok(v) => if v < 0 {
            Err(RuntimeErrorType::NegativeIndex(v))
        } else {
            Ok(v as usize)
        },
        Err(e) => Err(e),
    }
}

/// The value of accumulator `id` in `m`.
pub open spec fn accumulator_value(m: Memory, id: usize) -> Result<i32, RuntimeErrorType> {
    stored(entry(m.accumulators, id), RuntimeErrorType::AccumulatorMissing(id))
}

/// The value of gamma in `m`.
pub open spec fn gamma_value(m: Memory) -> Result<i32, RuntimeErrorType> {
    stored(m.gamma, RuntimeErrorType::GammaMissing)
}

/// The value of the memory cell labelled `l` in `m`.
pub open spec fn memory_cell_value(m: Memory, l: Seq<char>) -> Result<i32, RuntimeErrorType> {
    stored(entry(m.memory_cells, l), RuntimeErrorType::MemoryCellMissing)
}

/// The value of the indexed memory cell at `i` in `m`.
pub open spec fn index_cell_value(m: Memory, i: usize) -> Result<i32, RuntimeErrorType> {
    stored(entry(m.index_memory_cells, i), RuntimeErrorType::IndexMemoryCellMissing(i))
}

/// The index that an addressing mode resolves to in `m`. One level of
/// indirection at most: `Index(n)` reads the cell at `n` and stops there.
pub open spec fn resolve_index(m: Memory, t: IndexModel) -> Result<usize, RuntimeErrorType> {
    match t {
        IndexModel::Accumulator(id) => as_index(accumulator_value(m, id)),
        IndexModel::Direct(n) => Ok(n),
        IndexModel::Gamma => as_index(gamma_value(m)),
        IndexModel::MemoryCell(l) => as_index(memory_cell_value(m, l)),
        IndexModel::Index(n) => as_index(index_cell_value(m, n)),
    }
}

/// The value that an operand reads in `m`.
pub open spec fn read_value(m: Memory, v: ValueModel) -> Result<i32, RuntimeErrorType> {
    match v {
        ValueModel::Accumulator(id) => accumulator_value(m, id),
        ValueModel::Constant(c) => Ok(c),
        ValueModel::Gamma => gamma_value(m),
        ValueModel::MemoryCell(l) => memory_cell_value(m, l),
        ValueModel::IndexMemoryCell(t) => match resolve_index(m, t) {
            Ok(i) => index_cell_value(m, i),
            Err(e) => Err(e),
        },
    }
}

/// `m` after storing `x` at `t`. Accumulators, gamma and memory cells must
/// exist; an indexed memory cell is created by the first write.
pub open spec fn write_target(m: Memory, t: TargetModel, x: i32) -> Result<Memory, RuntimeErrorType> {
    match t {
        TargetModel::Accumulator(id) => if m.accumulators.contains_key(id) {
            Ok(Memory { accumulators: m.accumulators.insert(id, Some(x)), ..m })
        } else {
            Err(RuntimeErrorType::AccumulatorMissing(id))
        },
        TargetModel::Gamma => if m.gamma is Some {
            Ok(Memory { gamma: Some(Some(x)), ..m })
        } else {
            Err(RuntimeErrorType::GammaMissing)
        },
        TargetModel::MemoryCell(l) => if m.memory_cells.contains_key(l) {
            Ok(Memory { memory_cells: m.memory_cells.insert(l, Some(x)), ..m })
        } else {
            Err(RuntimeErrorType::MemoryCellMissing)
        },
        TargetModel::IndexMemoryCell(it) => match resolve_index(m, it) {
            Ok(i) => Ok(Memory { index_memory_cells: m.index_memory_cells.insert(i, Some(x)), ..m }),
            Err(e) => Err(e),
        },
    }
}

impl RuntimeArgs {
    /// Each accumulator sits under its own id, and no two memory cells share
    /// a label.
    pub open spec fn wf(&self) -> bool {
        &&& forall|k: usize| #[trigger]
            self.accumulators@.contains_key(k) ==> self.accumulators@[k].id == k
        &&& unique_keys(cell_labels(self.memory_cells@))
    }

    /// Storage with no registers and an empty stack.
    pub fn new_empty() -> (r: Self)
        ensures
            r.wf(),
            r@.accumulators.is_empty(),
            r@.gamma is None,
            r@.memory_cells.is_empty(),
            r@.index_memory_cells == Map::<usize, Option<i32>>::empty(),
            r@.stack == Seq::<i32>::empty(),
    {
        let r = Self {
            accumulators: HashMap::new(),
            gamma: None,
            memory_cells: Vec::new(),
            index_memory_cells: HashMap::new(),
            stack: Vec::new(),
        };
        assert(r@.accumulators =~= Map::empty());
        assert(r@.memory_cells =~= Map::empty());
        assert(r@.stack =~= Seq::empty());
        r
    }

    /// The storage that [`RuntimeArgs::new_debug`] makes.
    pub open spec fn new_debug_model(memory_cells: Seq<&str>) -> Memory {
        Memory {
            accumulators: Map::<usize, Option<i32>>::empty().insert(0, None),
            gamma: Some(None),
            memory_cells: Map::new(
                |l: Seq<char>| exists|i: int| 0 <= i < memory_cells.len() && memory_cells[i]@ == l,
                |l: Seq<char>| None::<i32>,
            ),
            index_memory_cells: Map::empty(),
            stack: Seq::empty(),
        }
    }

    /// Storage for testing: accumulator 0, gamma and the given memory
    /// cells, all unset.
    pub fn new_debug(memory_cells: &[&str]) -> (r: Self)
        ensures
            r.wf(),
            r@ == Self::new_debug_model(memory_cells@),
    {
        let mut r = Self::new_empty();
        r.add_accumulator(0);
        r.gamma = Some(None);
        let mut i: usize = 0;
        while i < memory_cells.len()
            invariant
                r.wf(),
                i <= memory_cells@.len(),
                r@.accumulators == Map::<usize, Option<i32>>::empty().insert(0, None),
                r@.gamma == Some(None::<i32>),
                forall|l: Seq<char>| #[trigger] r@.memory_cells.contains_key(l) <==> exists|j: int|
                    0 <= j < i && memory_cells@[j]@ == l,
                forall|l: Seq<char>| #[trigger] r@.memory_cells.contains_key(l) ==> r@.memory_cells[l] is None,
                r@.index_memory_cells.is_empty(),
                r@.stack.len() == 0,
            decreases memory_cells@.len() - i,
        {
            let label: &str = memory_cells[i];
            if !r.exists_memory_cell(label) {
                r.add_memory_cell(label);
            }
            proof {
                assert forall|l: Seq<char>| #[trigger] r@.memory_cells.contains_key(l) <==> exists|j: int|
                    0 <= j < i + 1 && memory_cells@[j]@ == l by {
                    if l == label@ {
                        assert(memory_cells@[i as int]@ == l);
                    }
                }
            }
            i = i + 1;
        }
        proof {
            let m = Self::new_debug_model(memory_cells@);
            assert(r@.memory_cells =~= m.memory_cells);
            assert(r@.index_memory_cells =~= m.index_memory_cells);
            assert(r@.stack =~= m.stack);
        }
        r
    }

    /// Whether accumulator `id` exists.
    pub fn exists_accumulator(&self, id: usize) -> (r: bool)
        ensures
            r == self@.accumulators.contains_key(id),
    {
        self.accumulators.contains_key(&id)
    }

    /// Adds accumulator `id`, unset; an existing one is reset to unset.
    pub fn add_accumulator(&mut self, id: usize)
        requires
            old(self).wf(),
        ensures
            final(self).wf(),
            final(self)@ == (Memory { accumulators: old(self)@.accumulators.insert(id, None), ..old(self)@ }),
    {
        self.accumulators.insert(id, Accumulator::new(id));
        assert(self@.accumulators =~= old(self)@.accumulators.insert(id, None));
    }

    /// Whether gamma exists.
    pub fn exists_gamma(&self) -> (r: bool)
        ensures
            r == self@.gamma is Some,
    {
        self.gamma.is_some()
    }

    /// The position of the memory cell labelled `label`, if any.
    fn find_memory_cell(&self, label: &str) -> (r: Option<usize>)
        requires
            self.wf(),
        ensures
            match r {
                Some(i) => i < self.memory_cells@.len() && self.memory_cells@[i as int].label@ == label@,
                None => !self@.memory_cells.contains_key(label@),
            },
    {
        let mut i: usize = 0;
        while i < self.memory_cells.len()
            invariant
                i <= self.memory_cells@.len(),
                forall|j: int| 0 <= j < i ==> self.memory_cells@[j].label@ != label@,
            decreases self.memory_cells@.len() - i,
        {
            if str_eq(self.memory_cells[i].label.as_str(), label) {
                return Some(i);
            }
            i = i + 1;
        }
        proof {
            if self@.memory_cells.contains_key(label@) {
                let ks = cell_labels(self.memory_cells@);
                let j = choose|j: int| 0 <= j < ks.len() && ks[j] == label@;
                assert(self.memory_cells@[j].label@ == label@);
            }
        }
        None
    }

    /// Whether the memory cell labelled `label` exists.
    pub fn exists_memory_cell(&self, label: &str) -> (r: bool)
        requires
            self.wf(),
        ensures
            r == self@.memory_cells.contains_key(label@),
    {
        match self.find_memory_cell(label) {
            Some(i) => {
                proof {
                    lemma_keyed_lookup(cell_labels(self.memory_cells@), cell_values(self.memory_cells@), i as int);
                }
                true
            },
            None => false,
        }
    }

    /// Adds the memory cell labelled `label`, unset.
    pub fn add_memory_cell(&mut self, label: &str)
        requires
            old(self).wf(),
            !old(self)@.memory_cells.contains_key(label@),
        ensures
            final(self).wf(),
            final(self)@ == (Memory { memory_cells: old(self)@.memory_cells.insert(label@, None), ..old(self)@ }),
    {
        let ghost old_cells = self.memory_cells@;
        proof {
            if cell_labels(old_cells).contains(label@) {
                let j = choose|j: int| 0 <= j < cell_labels(old_cells).len() && cell_labels(old_cells)[j] == label@;
                assert(keyed_map(cell_labels(old_cells), cell_values(old_cells)).contains_key(label@));
            }
        }
        let cell = MemoryCell::new(label);
        self.memory_cells.push(cell);
        proof {
            lemma_keyed_push(cell_labels(old_cells), cell_values(old_cells), label@, None);
            assert(cell_labels(self.memory_cells@) =~= cell_labels(old_cells).push(label@));
            assert(cell_values(self.memory_cells@) =~= cell_values(old_cells).push(None));
        }
    }

    /// The value of accumulator `id`.
    pub fn accumulator_value(&self, id: usize) -> (r: Result<i32, RuntimeErrorType>)
        ensures
            r == accumulator_value(self@, id),
    {
        match self.accumulators.get(&id) {
            Some(a) => match a.data {
                Some(v) => Ok(v),
                None => Err(RuntimeErrorType::ValueUnset),
            },
            None => Err(RuntimeErrorType::AccumulatorMissing(id)),
        }
    }

    /// The value of gamma.
    pub fn gamma_value(&self) -> (r: Result<i32, RuntimeErrorType>)
        ensures
            r == gamma_value(self@),
    {
        match self.gamma {
            Some(Some(v)) => Ok(v),
            Some(None) => Err(RuntimeErrorType::ValueUnset),
            None => Err(RuntimeErrorType::GammaMissing),
        }
    }

    /// The value of the memory cell labelled `label`.
    pub fn memory_cell_value(&self, label: &str) -> (r: Result<i32, RuntimeErrorType>)
        requires
            self.wf(),
        ensures
            r == memory_cell_value(self@, label@),
    {
        match self.find_memory_cell(label) {
            Some(i) => {
                proof {
                    lemma_keyed_lookup(cell_labels(self.memory_cells@), cell_values(self.memory_cells@), i as int);
                }
                match self.memory_cells[i].data {
                    Some(v) => Ok(v),
                    None => Err(RuntimeErrorType::ValueUnset),
                }
            },
            None => Err(RuntimeErrorType::MemoryCellMissing),
        }
    }

    /// The value of the indexed memory cell at `i`.
    pub fn index_cell_value(&self, i: usize) -> (r: Result<i32, RuntimeErrorType>)
        ensures
            r == index_cell_value(self@, i),
    {
        match self.index_memory_cells.get(&i) {
            Some(Some(v)) => Ok(*v),
            Some(None) => Err(RuntimeErrorType::ValueUnset),
            None => Err(RuntimeErrorType::IndexMemoryCellMissing(i)),
        }
    }

    /// The index that an addressing mode resolves to.
    pub fn resolve_index(&self, t: &IndexMemoryCellIndexType) -> (r: Result<usize, RuntimeErrorType>)
        requires
            self.wf(),
        ensures
            r == resolve_index(self@, t@),
    {
        let v = match t {
            IndexMemoryCellIndexType::Direct(n) => {
                return Ok(*n);
            },
            IndexMemoryCellIndexType::Accumulator(id) => self.accumulator_value(*id),
            IndexMemoryCellIndexType::Gamma => self.gamma_value(),
            IndexMemoryCellIndexType::MemoryCell(l) => self.memory_cell_value(l.as_str()),
            IndexMemoryCellIndexType::Index(n) => self.index_cell_value(*n),
        };
        match v {
            Ok(x) => if x < 0 {
                Err(RuntimeErrorType::NegativeIndex(x))
            } else {
                Ok(x as usize)
            },
            Err(e) => Err(e),
        }
    }

    /// The value that an operand reads.
    pub fn read_value(&self, v: &Value) -> (r: Result<i32, RuntimeErrorType>)
        requires
            self.wf(),
        ensures
            r == read_value(self@, v@),
    {
        match v {
            Value::Accumulator(id) => self.accumulator_value(*id),
            Value::Constant(c) => Ok(*c),
            Value::Gamma => self.gamma_value(),
            Value::MemoryCell(l) => self.memory_cell_value(l.as_str()),
            Value::IndexMemoryCell(t) => match self.resolve_index(t) {
                Ok(i) => self.index_cell_value(i),
                Err(e) => Err(e),
            },
        }
    }

    /// Stores `x` at `t`. On failure nothing changes.
    pub fn write_target(&mut self, t: &TargetType, x: i32) -> (r: Result<(), RuntimeErrorType>)
        requires
            old(self).wf(),
        ensures
            final(self).wf(),
            match write_target(old(self)@, t@, x) {
                Ok(m) => r is Ok && final(self)@ == m,
                Err(e) => r == Err::<(), RuntimeErrorType>(e) && final(self)@ == old(self)@,
            },
    {
        match t {
            TargetType::Accumulator(id) => {
                if self.accumulators.contains_key(id) {
                    self.accumulators.insert(*id, Accumulator { id: *id, data: Some(x) });
                    assert(self@.accumulators =~= old(self)@.accumulators.insert(*id, Some(x)));
                    Ok(())
                } else {
                    Err(RuntimeErrorType::AccumulatorMissing(*id))
                }
            },
            TargetType::Gamma => {
                if self.gamma.is_some() {
                    self.gamma = Some(Some(x));
                    Ok(())
                } else {
                    Err(RuntimeErrorType::GammaMissing)
                }
            },
            TargetType::MemoryCell(l) => {
                match self.find_memory_cell(l.as_str()) {
                    Some(i) => {
                        let ghost old_cells = self.memory_cells@;
                        let label = self.memory_cells[i].label.clone();
                        self.memory_cells.set(i, MemoryCell { label, data: Some(x) });
                        proof {
                            lemma_keyed_lookup(cell_labels(old_cells), cell_values(old_cells), i as int);
                            lemma_keyed_update(cell_labels(old_cells), cell_values(old_cells), i as int, Some(x));
                            assert(cell_labels(self.memory_cells@) =~= cell_labels(old_cells));
                            assert(cell_values(self.memory_cells@) =~= cell_values(old_cells).update(i as int, Some(x)));
                        }
                        Ok(())
                    },
                    None => Err(RuntimeErrorType::MemoryCellMissing),
                }
            },
            TargetType::IndexMemoryCell(it) => {
                match self.resolve_index(it) {
                    Ok(i) => {
                        self.index_memory_cells.insert(i, Some(x));
                        Ok(())
                    },
                    Err(e) => Err(e),
                }
            },
        }
    }
}

} // verus!
