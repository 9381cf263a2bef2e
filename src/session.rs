use vstd::prelude::*;

use crate::builder::permitted;
use crate::instructions::Instruction;
use crate::memory::RuntimeErrorType;
use crate::parser::{parse_line_spec, InstructionParseError};
use crate::runtime::{custom_spec, instruction_models, step_spec, Runtime, RuntimeModel};

verus! {

/// Where a debugging session stands.
#[derive(Debug, Clone, Copy, PartialEq, Eq, Structural)]
pub enum State {
    /// The program runs, one command at a time.
    Running,
    /// Breakpoints are being chosen.
    DebugSelect,
    /// Single instructions are tried on a copy of the program's state.
    Playground,
    /// An instruction failed; the flag tells whether it was tried in the
    /// playground.
    RuntimeError(RuntimeErrorType, bool),
    /// A typed instruction could not be read; the flag tells whether it
    /// was typed in the playground.
    CustomInstructionError(InstructionParseError, bool),
    /// A typed instruction is not among the permitted ones.
    BuildProgramError,
    /// The program ran past its last instruction; the flag tells whether
    /// that has been acknowledged.
    Finished(bool),
}

/// Why running on stopped.
#[derive(Debug, Clone, Copy, PartialEq, Eq, Structural)]
pub enum Halt {
    /// The next instruction carries a breakpoint.
    Breakpoint,
    /// The program finished.
    Finished,
    /// An instruction failed.
    Error,
    /// The step budget ran out.
    Budget,
    /// The session was not running.
    NotRunning,
}

/// A debugging session over a built program.
#[derive(Debug)]
pub struct Session {
    /// The program as it runs.
    pub runtime: Runtime,
    /// The program as it was built, for resets.
    pub initial: Runtime,
    /// One flag per instruction: whether a breakpoint stands there.
    pub breakpoints: Vec<bool>,
    pub state: State,
    /// The copy that playground instructions run on, while in the
    /// playground.
    pub playground: Option<Runtime>,
    /// If set, the only instructions that may be typed in the playground.
    pub allowed: Option<Vec<Instruction>>,
}

/// Whether a breakpoint stands at index `i`.
pub open spec fn has_breakpoint(bps: Seq<bool>, i: usize) -> bool {
    i < bps.len() && bps[i as int]
}

/// Whether a program has run past its last instruction.
pub open spec fn is_finished(r: RuntimeModel) -> bool {
    r.flow.next >= r.instructions.len()
}

/// Running `r` for at most `fuel` steps: it stops before an instruction
/// with a breakpoint (but for the first one), when finished, or on an
/// error, which leaves the state as it was before the failing step.
pub open spec fn run_spec(r: RuntimeModel, bps: Seq<bool>, fuel: nat, first: bool) -> (RuntimeModel, Halt, Option<RuntimeErrorType>)
    decreases fuel,
{
    if is_finished(r) {
        (r, Halt::Finished, None)
    } else if !first && has_breakpoint(bps, r.flow.next) {
        (r, Halt::Breakpoint, None)
    } else if fuel == 0 {
        (r, Halt::Budget, None)
    } else {
        match step_spec(r) {
            Err(e) => (r, Halt::Error, Some(e)),
            Ok(n) => run_spec(n, bps, (fuel - 1) as nat, false),
        }
    }
}

/// The state that running ends in.
pub open spec fn state_after_run(h: Halt, e: Option<RuntimeErrorType>) -> State {
    match h {
        Halt::Finished => State::Finished(false),
        Halt::Error => State::RuntimeError(e->Some_0, false),
        _ => State::Running,
    }
}

/// The flags for `n` instructions where the 1-based `lines` carry a
/// breakpoint.
pub open spec fn breakpoint_flags(n: nat, lines: Seq<usize>) -> Seq<bool> {
    Seq::new(n, |i: int| lines.contains((i + 1) as usize))
}

impl Session {
    /// The programs are well formed, and there is a flag per instruction.
    pub open spec fn wf(&self) -> bool {
        &&& self.runtime.wf()
        &&& self.initial.wf()
        &&& self.playground matches Some(p) ==> p.wf()
        &&& self.breakpoints@.len() == self.runtime@.instructions.len()
        &&& self.runtime@.instructions == self.initial@.instructions
    }

    /// A session over `runtime`, running, with breakpoints on the 1-based
    /// lines `breakpoints`.
    pub fn new(runtime: Runtime, breakpoints: &Vec<usize>) -> (r: Self)
        requires
            runtime.wf(),
        ensures
            r.wf(),
            r.runtime@ == runtime@,
            r.initial@ == runtime@,
            r.breakpoints@ == breakpoint_flags(runtime.instructions@.len(), breakpoints@),
            r.state == State::Running,
            r.playground is None,
            r.allowed is None,
    {
        let n = runtime.instructions.len();
        let mut flags: Vec<bool> = Vec::new();
        let mut i: usize = 0;
        while i < n
            invariant
                n == runtime.instructions@.len(),
                i <= n,
                flags@ == breakpoint_flags(n as nat, breakpoints@).take(i as int),
            decreases n - i,
        {
            let mut found = false;
            let mut k: usize = 0;
            while k < breakpoints.len()
                invariant
                    i < n,
                    k <= breakpoints@.len(),
                    found == exists|j: int| 0 <= j < k && breakpoints@[j] == (i + 1) as usize,
                decreases breakpoints@.len() - k,
            {
                if breakpoints[k] == i + 1 {
                    found = true;
                }
                k = k + 1;
            }
            proof {
                if breakpoints@.contains((i + 1) as usize) {
                    let j = choose|j: int| 0 <= j < breakpoints@.len() && breakpoints@[j] == (i + 1) as usize;
                    assert(found);
                }
            }
            flags.push(found);
            i = i + 1;
            assert(flags@ =~= breakpoint_flags(n as nat, breakpoints@).take(i as int));
        }
        assert(flags@ =~= breakpoint_flags(n as nat, breakpoints@));
        let initial = runtime.duplicate();
        Session {
            runtime,
            initial,
            breakpoints: flags,
            state: State::Running,
            playground: None,
            allowed: None,
        }
    }

    /// Lets only instructions equal to one of `allowed` be typed in the
    /// playground.
    pub fn set_allowed(&mut self, allowed: Vec<Instruction>)
        ensures
            final(self).allowed == Some(allowed),
            final(self).runtime == old(self).runtime,
            final(self).initial == old(self).initial,
            final(self).breakpoints == old(self).breakpoints,
            final(self).state == old(self).state,
            final(self).playground == old(self).playground,
    {
        self.allowed = Some(allowed);
    }

    /// Sets or clears the breakpoint at the 0-based index `n`; an index
    /// past the last instruction is ignored.
    pub fn toggle_breakpoint(&mut self, n: usize)
        ensures
            final(self).breakpoints@ == if n < old(self).breakpoints@.len() {
                old(self).breakpoints@.update(n as int, !old(self).breakpoints@[n as int])
            } else {
                old(self).breakpoints@
            },
            final(self).runtime == old(self).runtime,
            final(self).initial == old(self).initial,
            final(self).state == old(self).state,
            final(self).playground == old(self).playground,
            final(self).allowed == old(self).allowed,
    {
        if n < self.breakpoints.len() {
            let v = self.breakpoints[n];
            self.breakpoints.set(n, !v);
        }
    }

    /// Whether a breakpoint stands at the 0-based index `n`.
    pub fn is_breakpoint(&self, n: usize) -> (r: bool)
        ensures
            r == has_breakpoint(self.breakpoints@, n),
    {
        n < self.breakpoints.len() && self.breakpoints[n]
    }

    /// Whether at least one breakpoint is set.
    pub fn breakpoints_set(&self) -> (r: bool)
        ensures
            r == exists|i: int| 0 <= i < self.breakpoints@.len() && self.breakpoints@[i],
    {
        let mut i: usize = 0;
        while i < self.breakpoints.len()
            invariant
                i <= self.breakpoints@.len(),
                forall|j: int| 0 <= j < i ==> !self.breakpoints@[j],
            decreases self.breakpoints@.len() - i,
        {
            if self.breakpoints[i] {
                return true;
            }
            i = i + 1;
        }
        false
    }

    /// Runs the next instruction of the program, whatever breakpoints
    /// say. Only while running; otherwise nothing changes.
    pub fn step(&mut self)
        requires
            old(self).wf(),
        ensures
            final(self).wf(),
            final(self).initial == old(self).initial,
            final(self).breakpoints == old(self).breakpoints,
            final(self).playground == old(self).playground,
            final(self).allowed == old(self).allowed,
            old(self).state != State::Running ==> final(self).state == old(self).state
                && final(self).runtime == old(self).runtime,
            old(self).state == State::Running ==> if is_finished(old(self).runtime@) {
                final(self).state == State::Finished(false) && final(self).runtime == old(self).runtime
            } else {
                match step_spec(old(self).runtime@) {
                    Ok(n) => final(self).runtime@ == n
                        && final(self).state == (if is_finished(n) { State::Finished(false) } else { State::Running }),
                    Err(e) => final(self).runtime@ == old(self).runtime@
                        && final(self).state == State::RuntimeError(e, false),
                }
            },
    {
        if self.state != State::Running {
            return;
        }
        if self.runtime.finished() {
            self.state = State::Finished(false);
            return;
        }
        match self.runtime.step() {
            Ok(()) => {
                if self.runtime.finished() {
                    self.state = State::Finished(false);
                }
            },
            Err(e) => {
                self.state = State::RuntimeError(e, false);
            },
        }
    }

    /// Runs on for at most `max_steps` instructions: stops before the next
    /// instruction that carries a breakpoint (the one it starts on runs),
    /// when the program finishes, or on an error. Only while running;
    /// otherwise nothing changes.
    pub fn continue_run(&mut self, max_steps: usize) -> (h: Halt)
        requires
            old(self).wf(),
        ensures
            final(self).wf(),
            final(self).initial == old(self).initial,
            final(self).breakpoints == old(self).breakpoints,
            final(self).playground == old(self).playground,
            final(self).allowed == old(self).allowed,
            old(self).state != State::Running ==> h == Halt::NotRunning && final(self).state == old(self).state
                && final(self).runtime == old(self).runtime,
            old(self).state == State::Running ==> ({
                let (m, halt, e) = run_spec(old(self).runtime@, old(self).breakpoints@, max_steps as nat, true);
                &&& h == halt
                &&& final(self).runtime@ == m
                &&& final(self).state == state_after_run(halt, e)
            }),
    {
        if self.state != State::Running {
            return Halt::NotRunning;
        }
        let ghost r0 = self.runtime@;
        let ghost bps = self.breakpoints@;
        let mut fuel: usize = max_steps;
        let mut first = true;
        loop
            invariant
                old(self).state == State::Running,
                self.wf(),
                self.initial == old(self).initial,
                self.breakpoints == old(self).breakpoints,
                self.playground == old(self).playground,
                self.allowed == old(self).allowed,
                self.state == State::Running,
                bps == self.breakpoints@,
                r0 == old(self).runtime@,
                run_spec(self.runtime@, bps, fuel as nat, first) == run_spec(r0, bps, max_steps as nat, true),
            decreases fuel,
        {
            if self.runtime.finished() {
                self.state = State::Finished(false);
                return Halt::Finished;
            }
            if !first && self.is_breakpoint(self.runtime.next_instruction_index()) {
                return Halt::Breakpoint;
            }
            if fuel == 0 {
                return Halt::Budget;
            }
            match self.runtime.step() {
                Ok(()) => {},
                Err(e) => {
                    self.state = State::RuntimeError(e, false);
                    return Halt::Error;
                },
            }
            fuel = fuel - 1;
            first = false;
        }
    }

    /// Enters the playground with a copy of the program's current state.
    /// Only while running; otherwise nothing changes.
    pub fn enter_playground(&mut self)
        requires
            old(self).wf(),
        ensures
            final(self).wf(),
            final(self).runtime == old(self).runtime,
            final(self).initial == old(self).initial,
            final(self).breakpoints == old(self).breakpoints,
            final(self).allowed == old(self).allowed,
            old(self).state == State::Running ==> final(self).state == State::Playground
                && final(self).playground is Some && final(self).playground->Some_0@ == old(self).runtime@,
            old(self).state != State::Running ==> final(self).state == old(self).state
                && final(self).playground == old(self).playground,
    {
        if self.state == State::Running {
            self.playground = Some(self.runtime.duplicate());
            self.state = State::Playground;
        }
    }

    /// Reads `line` and runs it on the playground's copy. A line that
    /// cannot be read, or is not permitted, or fails leads to the matching
    /// error state; the copy then stays as it was. The program itself is
    /// never touched. Only in the playground; otherwise nothing changes.
    pub fn playground_instruction(&mut self, line: &str)
        requires
            old(self).wf(),
        ensures
            final(self).wf(),
            final(self).runtime == old(self).runtime,
            final(self).initial == old(self).initial,
            final(self).breakpoints == old(self).breakpoints,
            final(self).allowed == old(self).allowed,
            !(old(self).state == State::Playground && old(self).playground is Some) ==>
                final(self).state == old(self).state && final(self).playground == old(self).playground,
            (old(self).state == State::Playground && old(self).playground is Some) ==> ({
                let p = old(self).playground->Some_0@;
                match parse_line_spec(line@) {
                    Err(e) => final(self).state == State::CustomInstructionError(e, true)
                        && final(self).playground == old(self).playground,
                    Ok((_, ins)) => if old(self).allowed matches Some(a) && !permitted(ins, instruction_models(a@)) {
                        final(self).state == State::BuildProgramError && final(self).playground == old(self).playground
                    } else {
                        match custom_spec(p, ins) {
                            Ok(n) => final(self).state == State::Playground
                                && final(self).playground is Some && final(self).playground->Some_0@ == n,
                            Err(e) => final(self).state == State::RuntimeError(e, true)
                                && final(self).playground is Some && final(self).playground->Some_0@ == p,
                        }
                    },
                }
            }),
    {
        if self.state != State::Playground || self.playground.is_none() {
            return;
        }
        let ins = match Instruction::from_line(line) {
            Ok(i) => i,
            Err(e) => {
                self.state = State::CustomInstructionError(e, true);
                return;
            },
        };
        if let Some(a) = &self.allowed {
            let mut ok = matches!(ins, Instruction::Noop);
            let mut k: usize = 0;
            let ghost al = instruction_models(a@);
            while k < a.len() && !ok
                invariant
                    al == instruction_models(a@),
                    k <= a@.len(),
                    ok == (ins@ == crate::instructions::InstructionModel::Noop || exists|j: int| 0 <= j < k && al[j] == ins@),
                decreases a@.len() - k,
            {
                assert(al[k as int] == a@[k as int]@);
                if a[k].same_as(&ins) {
                    ok = true;
                }
                k = k + 1;
            }
            proof {
                if ok && ins@ != crate::instructions::InstructionModel::Noop {
                    let j = choose|j: int| 0 <= j < k && al[j] == ins@;
                    assert(al.contains(ins@));
                }
                if !ok && al.contains(ins@) {
                    let j = choose|j: int| 0 <= j < al.len() && al[j] == ins@;
                    assert(false);
                }
            }
            if !ok {
                self.state = State::BuildProgramError;
                return;
            }
        }
        let mut p = self.playground.take().unwrap();
        match p.execute_custom(&ins) {
            Ok(()) => {},
            Err(e) => {
                self.state = State::RuntimeError(e, true);
            },
        }
        self.playground = Some(p);
    }

    /// Leaves the playground; its copy is dropped. Only in the playground;
    /// otherwise nothing changes.
    pub fn exit_playground(&mut self)
        requires
            old(self).wf(),
        ensures
            final(self).wf(),
            final(self).runtime == old(self).runtime,
            final(self).initial == old(self).initial,
            final(self).breakpoints == old(self).breakpoints,
            final(self).allowed == old(self).allowed,
            old(self).state == State::Playground ==> final(self).state == State::Running && final(self).playground is None,
            old(self).state != State::Playground ==> final(self).state == old(self).state
                && final(self).playground == old(self).playground,
    {
        if self.state == State::Playground {
            self.playground = None;
            self.state = State::Running;
        }
    }

    /// Enters breakpoint selection. Only while running.
    pub fn enter_debug_select(&mut self)
        ensures
            final(self).runtime == old(self).runtime,
            final(self).initial == old(self).initial,
            final(self).breakpoints == old(self).breakpoints,
            final(self).playground == old(self).playground,
            final(self).allowed == old(self).allowed,
            final(self).state == if old(self).state == State::Running { State::DebugSelect } else { old(self).state },
    {
        if self.state == State::Running {
            self.state = State::DebugSelect;
        }
    }

    /// Acknowledges the current state: a finished program keeps its state
    /// and loses its notice; an error returns to where it arose, the
    /// playground or the running program, which the error left as it was;
    /// breakpoint selection ends.
    pub fn dismiss(&mut self)
        requires
            old(self).wf(),
        ensures
            final(self).wf(),
            final(self).runtime == old(self).runtime,
            final(self).initial == old(self).initial,
            final(self).breakpoints == old(self).breakpoints,
            final(self).allowed == old(self).allowed,
            final(self).state == dismissed(old(self).state, old(self).playground is Some),
            final(self).playground == if final(self).state == State::Running { None } else { old(self).playground },
    {
        let in_playground = self.playground.is_some();
        let next = match self.state {
            State::Finished(_) => State::Finished(true),
            State::RuntimeError(_, true) | State::CustomInstructionError(_, true) | State::BuildProgramError => {
                if in_playground {
                    State::Playground
                } else {
                    State::Running
                }
            },
            State::RuntimeError(_, false) | State::CustomInstructionError(_, false) | State::DebugSelect => State::Running,
            s => s,
        };
        if next == State::Running {
            self.playground = None;
        }
        self.state = next;
    }

    /// Returns the program and its memory to how they were built, from
    /// any state, and runs on from there.
    pub fn reset(&mut self)
        requires
            old(self).wf(),
        ensures
            final(self).wf(),
            final(self).runtime@ == old(self).initial@,
            final(self).initial == old(self).initial,
            final(self).breakpoints == old(self).breakpoints,
            final(self).allowed == old(self).allowed,
            final(self).state == State::Running,
            final(self).playground is None,
    {
        self.runtime = self.initial.duplicate();
        self.playground = None;
        self.state = State::Running;
    }
}

/// The state that acknowledging `s` leads to; `playground` tells whether a
/// playground copy exists.
pub open spec fn dismissed(s: State, playground: bool) -> State {
    match s {
        State::Finished(_) => State::Finished(true),
        State::RuntimeError(_, true) => if playground { State::Playground } else { State::Running },
        State::CustomInstructionError(_, true) => if playground { State::Playground } else { State::Running },
        State::BuildProgramError => if playground { State::Playground } else { State::Running },
        State::RuntimeError(_, false) => State::Running,
        State::CustomInstructionError(_, false) => State::Running,
        State::DebugSelect => State::Running,
        _ => s,
    }
}

} // verus!

verus! {

/// In the playground, an instruction that divides by zero fails with the
/// division error; `Session::playground_instruction` then enters the
/// playground's error state and leaves the program itself untouched.
pub proof fn law_playground_division_by_zero(
    p: RuntimeModel,
    t: crate::instructions::TargetModel,
    a: crate::instructions::ValueModel,
    b: crate::instructions::ValueModel,
)
    requires
        p.flow.next < usize::MAX,
        crate::memory::read_value(p.memory, a) is Ok,
        crate::memory::read_value(p.memory, b) == Ok::<i32, RuntimeErrorType>(0),
    ensures
        custom_spec(p, crate::instructions::InstructionModel::Calc(t, a, crate::base::Operation::Div, b))
            == Err::<RuntimeModel, RuntimeErrorType>(RuntimeErrorType::IllegalCalculation {
                cause: crate::base::CalcError::AttemptToDivideByZero,
            }),
{
}

/// Running stops only before an instruction that carries a breakpoint and
/// has not run yet; and from such a stop, nothing moves on until running is
/// started anew.
pub proof fn law_breakpoint_pauses(r: RuntimeModel, bps: Seq<bool>, fuel: nat, first: bool)
    ensures
        run_spec(r, bps, fuel, first).1 == Halt::Breakpoint ==>
            has_breakpoint(bps, run_spec(r, bps, fuel, first).0.flow.next)
            && !is_finished(run_spec(r, bps, fuel, first).0),
        !is_finished(r) && has_breakpoint(bps, r.flow.next) ==>
            run_spec(r, bps, fuel, false) == (r, Halt::Breakpoint, None::<RuntimeErrorType>),
    decreases fuel,
{
    if !is_finished(r) && !(!first && has_breakpoint(bps, r.flow.next)) && fuel > 0 {
        if let Ok(n) = step_spec(r) {
            law_breakpoint_pauses(n, bps, (fuel - 1) as nat, false);
        }
    }
}

} // verus!
