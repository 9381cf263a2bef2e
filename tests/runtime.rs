use ams::base::{CalcError, Operation};
use ams::builder::RuntimeBuilder;
use ams::memory::RuntimeErrorType;
use ams::runtime::Runtime;

fn build(lines: &[&str]) -> Runtime {
    let mut rb = RuntimeBuilder::new_debug(&["h1", "h2"]);
    rb.build_instructions(&lines.to_vec(), "t").unwrap();
    rb.build().unwrap()
}

fn run(rt: &mut Runtime) -> Result<(), RuntimeErrorType> {
    let mut n = 0;
    while !rt.finished() {
        rt.step()?;
        n += 1;
        assert!(n < 10_000, "program does not end");
    }
    Ok(())
}

#[test]
fn runs_a_loop() {
    let mut rt = build(&[
        "a0 := 0",
        "a1 := 5",
        "loop: a0 := a0 + a1",
        "a1 := a1 - 1",
        "if a1 > 0 then goto loop",
    ]);
    run(&mut rt).unwrap();
    assert_eq!(rt.runtime_args().accumulator_value(0), Ok(15));
    assert_eq!(rt.runtime_args().accumulator_value(1), Ok(0));
}

#[test]
fn call_and_return() {
    let mut rt = build(&["goto main", "f: a0 := 7", "return", "main: call f", "p(h1) := a0"]);
    run(&mut rt).unwrap();
    assert_eq!(rt.runtime_args().memory_cell_value("h1"), Ok(7));
    assert!(rt.control_flow().call_stack.is_empty());
}

#[test]
fn stack_operations() {
    let mut rt = build(&["a0 := 10", "push", "a0 := 4", "push", "stack -", "pop"]);
    run(&mut rt).unwrap();
    assert_eq!(rt.runtime_args().accumulator_value(0), Ok(6));
    assert!(rt.runtime_args().stack.is_empty());
}

#[test]
fn push_of_unset_accumulator_pushes_zero() {
    let mut rt = build(&["push"]);
    run(&mut rt).unwrap();
    assert_eq!(rt.runtime_args().stack, vec![0]);
}

#[test]
fn indexed_memory() {
    let mut rt = build(&["a0 := 3", "p(a0) := 9", "p(h1) := 3", "a1 := p(p(h1))", "p(4) := p(3)", "y := p(p(4))"]);
    let r = run(&mut rt);
    assert_eq!(r, Err(RuntimeErrorType::IndexMemoryCellMissing(9)));
    assert_eq!(rt.runtime_args().accumulator_value(1), Ok(9));
    assert_eq!(rt.runtime_args().index_cell_value(4), Ok(9));
}

#[test]
fn runtime_errors_leave_state_unchanged() {
    let mut rt = build(&["a0 := 1", "a1 := 0", "a0 := a0 / a1"]);
    rt.step().unwrap();
    rt.step().unwrap();
    let before = rt.clone();
    assert_eq!(
        rt.step(),
        Err(RuntimeErrorType::IllegalCalculation { cause: CalcError::AttemptToDivideByZero })
    );
    assert_eq!(rt.next_instruction_index(), before.next_instruction_index());
    assert_eq!(rt.runtime_args().accumulator_value(0), Ok(1));

    let mut rt = build(&["pop"]);
    assert_eq!(rt.step(), Err(RuntimeErrorType::StackEmpty));
    let mut rt = build(&["return"]);
    assert_eq!(rt.step(), Err(RuntimeErrorType::CallStackEmpty));
    let mut rt = build(&["a0 := a1"]);
    assert_eq!(rt.step(), Err(RuntimeErrorType::ValueUnset));
    let mut rt = build(&["a0 := 2147483647", "a0 := a0 * 2"]);
    rt.step().unwrap();
    assert_eq!(
        rt.step(),
        Err(RuntimeErrorType::IllegalCalculation { cause: CalcError::AttemptToOverflow(Operation::Mul) })
    );
    let mut rt = build(&["a0 := -1", "a1 := p(a0)"]);
    rt.step().unwrap();
    assert_eq!(rt.step(), Err(RuntimeErrorType::NegativeIndex(-1)));
}
