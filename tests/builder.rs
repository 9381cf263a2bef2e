use ams::builder::{
    check_accumulator, check_memory_cell, AddLabelError, BuildProgramErrorTypes, MachineConfig,
    RuntimeBuildError, RuntimeBuilder,
};
use ams::instructions::{Instruction, TargetType, Value};
use ams::memory::RuntimeArgs;
use ams::parser::InstructionParseError;

/// Used to set the available memory cells during testing.
const TEST_MEMORY_CELL_LABELS: &[&str] = &[
    "a", "b", "c", "d", "e", "f", "w", "x", "y", "z", "h1", "h2", "h3", "h4",
];

fn strict_builder() -> RuntimeBuilder {
    RuntimeBuilder::from_args(&MachineConfig {
        accumulators: 2,
        gamma: false,
        memory_cells: vec!["h1".to_string()],
        add_missing: false,
    })
}

#[test]
fn test_instruction_building_with_comments() {
    let instructions = vec![
        "a0 := 4 // Set alpha to 4",
        "p(h1) := a0 # Set memory cell h1 to 4",
        "a0 := a1 # Just some stuff",
        "a1 := a2 // Just some more stuff",
    ];
    let mut rb = RuntimeBuilder::new_debug(TEST_MEMORY_CELL_LABELS);
    assert!(rb.build_instructions(&instructions, "test").is_ok());
}

#[test]
fn test_only_label_line() {
    let mut rb = RuntimeBuilder::new_debug(TEST_MEMORY_CELL_LABELS);
    assert!(rb
        .build_instructions(&vec!["a0 := 5", "my_label:", "a1 := 5"], "")
        .is_ok());
}

#[test]
fn test_accumulator_auto_add_working() {
    let instructions = vec!["a1 := a2 + a3"];
    let mut rb = RuntimeBuilder::new_debug(TEST_MEMORY_CELL_LABELS);
    assert!(rb.build_instructions(&instructions, "test").is_ok());
    let rt = rb.build();
    assert!(rt.is_ok());
    let rt = rt.unwrap();
    assert!(rt.runtime_args.accumulators.contains_key(&1));
    assert!(rt.runtime_args.accumulators.contains_key(&2));
    assert!(rt.runtime_args.accumulators.contains_key(&3));
    assert!(!rt.runtime_args.accumulators.contains_key(&4));
}

#[test]
fn comments_are_stripped_from_instructions() {
    let mut rb = RuntimeBuilder::new_debug(TEST_MEMORY_CELL_LABELS);
    rb.build_instructions(&vec!["a0 := 4 // Set alpha to 4", "p(h1) := a0 # cell"], "test")
        .unwrap();
    let is = rb.instructions.as_ref().unwrap();
    assert_eq!(is[0], Instruction::Assign(TargetType::Accumulator(0), Value::Constant(4)));
    assert_eq!(
        is[1],
        Instruction::Assign(TargetType::MemoryCell("h1".to_string()), Value::Accumulator(0))
    );
}

#[test]
fn missing_accumulator_refused_without_auto_add() {
    let mut rb = strict_builder();
    rb.build_instructions(&vec!["a5 := 1"], "f").unwrap();
    assert_eq!(rb.build().unwrap_err(), RuntimeBuildError::AccumulatorMissing(5));
    rb.set_add_missing(true);
    let rt = rb.build().unwrap();
    assert_eq!(rt.runtime_args.accumulators.get(&5).unwrap().data, None);
}

#[test]
fn missing_memory_cell_and_gamma_refused() {
    let mut rb = strict_builder();
    rb.build_instructions(&vec!["p(q) := 1"], "f").unwrap();
    assert_eq!(rb.build().unwrap_err(), RuntimeBuildError::MemoryCellMissing("q".to_string()));
    rb.build_instructions(&vec!["y := 1"], "f").unwrap();
    assert_eq!(rb.build().unwrap_err(), RuntimeBuildError::GammaMissing);
    rb.build_instructions(&vec!["p(h1) := a1"], "f").unwrap();
    assert!(rb.build().is_ok());
}

#[test]
fn label_defined_twice_is_refused() {
    let mut rb = RuntimeBuilder::new_debug(TEST_MEMORY_CELL_LABELS);
    let e = rb.build_instructions(&vec!["loop: a0 := 1", "loop: a0 := 2"], "f").unwrap_err();
    assert_eq!(e.reason, BuildProgramErrorTypes::LabelDefinedMultipleTimes("loop".to_string()));
    let e = rb.build_instructions(&vec!["main: a0 := 1", "main: a0 := 2"], "f").unwrap_err();
    assert_eq!(e.reason, BuildProgramErrorTypes::MainLabelDefinedMultipleTimes);
    let e = rb.build_instructions(&vec!["main: a0 := 1", "MAIN: a0 := 2"], "f").unwrap_err();
    assert_eq!(e.reason, BuildProgramErrorTypes::MainLabelDefinedMultipleTimes);
}

#[test]
fn entry_point_follows_main_label() {
    let mut rb = RuntimeBuilder::new_debug(TEST_MEMORY_CELL_LABELS);
    rb.build_instructions(&vec!["a0 := 1", "a0 := 2"], "f").unwrap();
    let rt = rb.build().unwrap();
    assert_eq!(rt.next_instruction_index(), 0);
    assert_eq!(rt.control_flow.initial_instruction, 0);
    rb.build_instructions(&vec!["a0 := 1", "", "main: a0 := 2"], "f").unwrap();
    let rt = rb.build().unwrap();
    assert_eq!(rt.next_instruction_index(), 2);
    assert_eq!(rt.control_flow.initial_instruction, 2);
    rb.build_instructions(&vec!["a0 := 1", "MAIN:", "a0 := 2"], "f").unwrap();
    assert_eq!(rb.build().unwrap().next_instruction_index(), 1);
}

#[test]
fn goto_end_is_always_defined() {
    let mut rb = RuntimeBuilder::new_debug(TEST_MEMORY_CELL_LABELS);
    rb.build_instructions(&vec!["goto END", "a0 := 1", "a0 := 2"], "f").unwrap();
    let mut rt = rb.build().unwrap();
    for name in ["END", "ENDE", "end", "ende"] {
        assert_eq!(rt.control_flow.label_index(name), Some(3));
    }
    rt.step().unwrap();
    assert_eq!(rt.next_instruction_index(), 3);
    assert!(rt.finished());
}

#[test]
fn undefined_label_is_refused() {
    let mut rb = RuntimeBuilder::new_debug(TEST_MEMORY_CELL_LABELS);
    rb.build_instructions(&vec!["goto nowhere"], "f").unwrap();
    assert_eq!(rb.build().unwrap_err(), RuntimeBuildError::LabelUndefined("nowhere".to_string()));
    rb.build_instructions(&vec!["if a0 < 1 then goto away"], "f").unwrap();
    assert_eq!(rb.build().unwrap_err(), RuntimeBuildError::LabelUndefined("away".to_string()));
}

#[test]
fn parse_error_carries_position() {
    let mut rb = RuntimeBuilder::new_debug(TEST_MEMORY_CELL_LABELS);
    let e = rb.build_instructions(&vec!["a0 := 1", "a0 := 1 % 2"], "prog.txt").unwrap_err();
    match e.reason {
        BuildProgramErrorTypes::ParseError { file_name, source, line, column, offset, length, reason } => {
            assert_eq!(file_name, "prog.txt");
            assert_eq!(source, "a0 := 1\na0 := 1 % 2");
            assert_eq!(line, 2);
            assert_eq!(column, 9);
            assert_eq!(offset, 16);
            assert_eq!(length, 1);
            assert_eq!(reason, InstructionParseError::UnknownOperation(8, 9));
        }
        other => panic!("unexpected {other:?}"),
    }
    assert!(rb.instructions.is_none());
}

#[test]
fn building_needs_storage_and_instructions() {
    let mut rb = RuntimeBuilder::new();
    assert_eq!(rb.build().unwrap_err(), RuntimeBuildError::RuntimeArgsMissing);
    rb.set_runtime_args(RuntimeArgs::new_debug(&[]));
    assert_eq!(rb.build().unwrap_err(), RuntimeBuildError::InstructionsMissing);
    rb.set_instructions(Vec::new());
    assert_eq!(rb.build().unwrap_err(), RuntimeBuildError::InstructionsMissing);
    rb.reset();
    assert!(rb.runtime_args.is_none() && rb.instructions.is_none());
}

#[test]
fn labels_added_by_hand() {
    let mut rb = RuntimeBuilder::new();
    assert_eq!(rb.add_label("x".to_string(), 0), Err(AddLabelError::InstructionsNotSet));
    rb.set_runtime_args(RuntimeArgs::new_debug(&[]));
    rb.set_instructions(vec![Instruction::Noop, Instruction::Goto("x".to_string())]);
    assert_eq!(rb.add_label("x".to_string(), 2), Err(AddLabelError::IndexOutOfBounds));
    assert_eq!(rb.add_label("x".to_string(), 0), Ok(()));
    let rt = rb.build().unwrap();
    assert_eq!(rt.control_flow.label_index("x"), Some(0));
}

#[test]
fn whitelist_refuses_other_instructions() {
    let allowed = vec![
        Instruction::from_line("a0 := 1").unwrap(),
        Instruction::from_line("push").unwrap(),
    ];
    let mut rb = RuntimeBuilder::new_debug(TEST_MEMORY_CELL_LABELS);
    assert!(rb.build_instructions_whitelist(&vec!["a0 := 1", "", "push"], "f", &allowed).is_ok());
    let e = rb.build_instructions_whitelist(&vec!["a0 := 1", "a0 := 2"], "f", &allowed).unwrap_err();
    assert_eq!(e.reason, BuildProgramErrorTypes::InstructionNotAllowed(1));
}

#[test]
fn storage_checks_add_or_refuse() {
    let mut args = RuntimeArgs::new_debug(&["a"]);
    assert_eq!(check_accumulator(&mut args, 3, false), Err(RuntimeBuildError::AccumulatorMissing(3)));
    assert!(!args.exists_accumulator(3));
    assert_eq!(check_accumulator(&mut args, 3, true), Ok(()));
    assert!(args.exists_accumulator(3));
    assert_eq!(check_memory_cell(&mut args, "b", false), Err(RuntimeBuildError::MemoryCellMissing("b".to_string())));
    assert_eq!(check_memory_cell(&mut args, "b", true), Ok(()));
    assert!(args.exists_memory_cell("b"));
    assert_eq!(check_memory_cell(&mut args, "a", false), Ok(()));
}

#[test]
fn main_and_main_upper_added_by_hand_are_refused() {
    let mut rb = RuntimeBuilder::new_debug(&[]);
    rb.set_instructions(vec![Instruction::Noop, Instruction::Noop]);
    rb.add_label("main".to_string(), 0).unwrap();
    rb.add_label("MAIN".to_string(), 1).unwrap();
    assert_eq!(rb.build().unwrap_err(), RuntimeBuildError::MainLabelDefinedMultipleTimes);
}

#[test]
fn repeated_label_is_refused_before_the_line_is_parsed() {
    let mut rb = RuntimeBuilder::new_debug(TEST_MEMORY_CELL_LABELS);
    let e = rb.build_instructions(&vec!["L: push", "L: foo"], "f").unwrap_err();
    assert_eq!(e.reason, BuildProgramErrorTypes::LabelDefinedMultipleTimes("L".to_string()));
    let e = rb.build_instructions(&vec!["main: push", "main: a0 := %"], "f").unwrap_err();
    assert_eq!(e.reason, BuildProgramErrorTypes::MainLabelDefinedMultipleTimes);
    assert!(rb.instructions.is_none());
}

#[test]
fn comments_do_not_change_a_program() {
    let mut a = RuntimeBuilder::new_debug(TEST_MEMORY_CELL_LABELS);
    let mut b = RuntimeBuilder::new_debug(TEST_MEMORY_CELL_LABELS);
    a.build_instructions(&vec!["l: a0 := 1", "goto l"], "f").unwrap();
    b.build_instructions(&vec!["l: a0 := 1 # one", "goto l // again"], "f").unwrap();
    assert_eq!(a.instructions, b.instructions);
    assert_eq!(a.control_flow.label_index("l"), b.control_flow.label_index("l"));
}
