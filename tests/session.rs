use ams::base::CalcError;
use ams::builder::RuntimeBuilder;
use ams::instructions::Instruction;
use ams::memory::RuntimeErrorType;
use ams::parser::InstructionParseError;
use ams::session::{Halt, Session, State};

fn session(lines: &[&str], breakpoints: &Vec<usize>) -> Session {
    let mut rb = RuntimeBuilder::new_debug(&["h1"]);
    rb.build_instructions(&lines.to_vec(), "t").unwrap();
    Session::new(rb.build().unwrap(), breakpoints)
}

#[test]
fn playground_division_by_zero_leaves_program_untouched() {
    let mut s = session(&["a0 := 5", "a1 := 0", "a2 := 1"], &vec![]);
    s.step();
    s.step();
    let before = s.runtime.clone();
    s.enter_playground();
    assert_eq!(s.state, State::Playground);
    s.playground_instruction("a2 := a0 * 3");
    assert_eq!(s.state, State::Playground);
    assert_eq!(s.playground.as_ref().unwrap().runtime_args().accumulator_value(2), Ok(15));
    s.playground_instruction("a0 := a0 / a1");
    assert_eq!(
        s.state,
        State::RuntimeError(RuntimeErrorType::IllegalCalculation { cause: CalcError::AttemptToDivideByZero }, true)
    );
    assert_eq!(s.runtime.runtime_args.accumulators, before.runtime_args.accumulators);
    assert_eq!(s.runtime.runtime_args.stack, before.runtime_args.stack);
    assert_eq!(s.runtime.next_instruction_index(), before.next_instruction_index());
    s.dismiss();
    assert_eq!(s.state, State::Playground);
    s.exit_playground();
    assert_eq!(s.state, State::Running);
    assert_eq!(s.runtime.runtime_args().accumulator_value(2), Err(RuntimeErrorType::ValueUnset));
}

#[test]
fn playground_parse_error_and_whitelist() {
    let mut s = session(&["a0 := 5"], &vec![]);
    s.enter_playground();
    s.playground_instruction("a0 := %");
    assert_eq!(s.state, State::CustomInstructionError(InstructionParseError::InvalidExpression(6, 7), true));
    s.dismiss();
    s.set_allowed(vec![Instruction::from_line("a0 := 1").unwrap()]);
    s.playground_instruction("a0 := 2");
    assert_eq!(s.state, State::BuildProgramError);
    s.dismiss();
    s.playground_instruction("a0 := 1");
    assert_eq!(s.state, State::Playground);
}

#[test]
fn breakpoint_pauses_before_instruction() {
    let mut s = session(&["a0 := 1", "a0 := 2", "a0 := 3", "a0 := 4"], &vec![]);
    s.toggle_breakpoint(2);
    assert!(s.is_breakpoint(2));
    assert!(s.breakpoints_set());
    assert_eq!(s.continue_run(100), Halt::Breakpoint);
    assert_eq!(s.runtime.next_instruction_index(), 2);
    assert_eq!(s.runtime.runtime_args().accumulator_value(0), Ok(2));
    assert_eq!(s.continue_run(100), Halt::Finished);
    assert_eq!(s.runtime.runtime_args().accumulator_value(0), Ok(4));
    assert_eq!(s.state, State::Finished(false));
    s.dismiss();
    assert_eq!(s.state, State::Finished(true));
    s.reset();
    assert_eq!(s.state, State::Running);
    assert_eq!(s.runtime.next_instruction_index(), 0);
    assert_eq!(s.runtime.runtime_args().accumulator_value(0), Err(RuntimeErrorType::ValueUnset));
    s.toggle_breakpoint(2);
    assert!(!s.breakpoints_set());
}

#[test]
fn breakpoints_from_one_based_lines() {
    let s = session(&["a0 := 1", "a0 := 2", "a0 := 3"], &vec![2]);
    assert!(!s.is_breakpoint(0));
    assert!(s.is_breakpoint(1));
    assert!(!s.is_breakpoint(2));
}

#[test]
fn runtime_error_state_and_recovery() {
    let mut s = session(&["pop", "a0 := 1"], &vec![]);
    s.step();
    assert_eq!(s.state, State::RuntimeError(RuntimeErrorType::StackEmpty, false));
    s.step();
    assert_eq!(s.runtime.next_instruction_index(), 0);
    s.dismiss();
    assert_eq!(s.state, State::Running);
    assert_eq!(s.runtime.next_instruction_index(), 0);
}

#[test]
fn budget_and_debug_select() {
    let mut s = session(&["l: goto l"], &vec![]);
    assert_eq!(s.continue_run(5), Halt::Budget);
    assert_eq!(s.state, State::Running);
    s.enter_debug_select();
    assert_eq!(s.state, State::DebugSelect);
    assert_eq!(s.continue_run(5), Halt::NotRunning);
    s.dismiss();
    assert_eq!(s.state, State::Running);
}

#[test]
fn playground_reports_missing_storage_and_labels() {
    let mut rb = ams::builder::RuntimeBuilder::from_args(&ams::builder::MachineConfig {
        accumulators: 1,
        gamma: false,
        memory_cells: vec![],
        add_missing: false,
    });
    rb.build_instructions(&vec!["a0 := 1"], "t").unwrap();
    let mut s = Session::new(rb.build().unwrap(), &vec![]);
    s.enter_playground();
    for (line, expected) in [
        ("a9 := 1", RuntimeErrorType::AccumulatorMissing(9)),
        ("y := 1", RuntimeErrorType::GammaMissing),
        ("p(zz) := 1", RuntimeErrorType::MemoryCellMissing),
        ("goto nowhere", RuntimeErrorType::LabelMissing),
    ] {
        s.playground_instruction(line);
        assert_eq!(s.state, State::RuntimeError(expected, true), "{line}");
        s.dismiss();
        assert_eq!(s.state, State::Playground);
    }
    s.playground_instruction("goto END");
    assert_eq!(s.state, State::Playground);
    assert_eq!(s.playground.as_ref().unwrap().next_instruction_index(), 1);
    assert_eq!(s.runtime.next_instruction_index(), 0);
}
