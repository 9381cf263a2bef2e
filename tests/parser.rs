use ams::base::{Comparison, Operation};
use ams::instructions::{IndexMemoryCellIndexType, Instruction, TargetType, Value};
use ams::parser::{defined_label, parse_line, InstructionParseError};

fn ins(line: &str) -> Instruction {
    Instruction::from_line(line).unwrap()
}

fn err(line: &str) -> InstructionParseError {
    Instruction::from_line(line).unwrap_err()
}

#[test]
fn parses_each_instruction_form() {
    assert_eq!(ins("a1 := a2"), Instruction::Assign(TargetType::Accumulator(1), Value::Accumulator(2)));
    assert_eq!(
        ins("a1 := a2 + a3"),
        Instruction::Calc(TargetType::Accumulator(1), Value::Accumulator(2), Operation::Add, Value::Accumulator(3))
    );
    assert_eq!(ins("goto loop"), Instruction::Goto("loop".to_string()));
    assert_eq!(ins("call f"), Instruction::Call("f".to_string()));
    assert_eq!(
        ins("if a0 <= 10 then goto end"),
        Instruction::JumpIf(Value::Accumulator(0), Comparison::LessOrEqual, Value::Constant(10), "end".to_string())
    );
    assert_eq!(ins("push"), Instruction::Push);
    assert_eq!(ins("pop"), Instruction::Pop);
    assert_eq!(ins("return"), Instruction::Return);
    assert_eq!(ins("stack *"), Instruction::StackOp(Operation::Mul));
    assert_eq!(ins("   "), Instruction::Noop);
    assert_eq!(ins("// only a comment"), Instruction::Noop);
}

#[test]
fn parses_operands() {
    assert_eq!(ins("y := -42"), Instruction::Assign(TargetType::Gamma, Value::Constant(-42)));
    assert_eq!(ins("γ := α3"), Instruction::Assign(TargetType::Gamma, Value::Accumulator(3)));
    assert_eq!(
        ins("p(7) := p(a1)"),
        Instruction::Assign(
            TargetType::IndexMemoryCell(IndexMemoryCellIndexType::Direct(7)),
            Value::IndexMemoryCell(IndexMemoryCellIndexType::Accumulator(1))
        )
    );
    assert_eq!(
        ins("p(y) := p(p(h1))"),
        Instruction::Assign(
            TargetType::IndexMemoryCell(IndexMemoryCellIndexType::Gamma),
            Value::IndexMemoryCell(IndexMemoryCellIndexType::MemoryCell("h1".to_string()))
        )
    );
    assert_eq!(
        ins("ρ(p(3)) := 2147483647"),
        Instruction::Assign(
            TargetType::IndexMemoryCell(IndexMemoryCellIndexType::Index(3)),
            Value::Constant(i32::MAX)
        )
    );
    assert_eq!(ins("a0 := -2147483648"), Instruction::Assign(TargetType::Accumulator(0), Value::Constant(i32::MIN)));
}

#[test]
fn parse_errors_carry_spans() {
    assert_eq!(err("jump x"), InstructionParseError::UnknownInstruction(0, 4));
    assert_eq!(err("a0 := 2147483648"), InstructionParseError::NotANumber(6, 16));
    assert_eq!(err("a0 := q"), InstructionParseError::InvalidExpression(6, 7));
    assert_eq!(err("5 := a0"), InstructionParseError::InvalidExpression(0, 1));
    assert_eq!(err("a0 := a1 % a2"), InstructionParseError::UnknownOperation(9, 10));
    assert_eq!(err("a0 :="), InstructionParseError::MissingExpression(5, 5));
    assert_eq!(err("a0 := a1 +"), InstructionParseError::MissingExpression(10, 10));
    assert_eq!(err("if a0 ~ 1 then goto x"), InstructionParseError::UnknownComparison(6, 7));
    assert_eq!(err("if a0 < 1 goto x"), InstructionParseError::MissingExpression(16, 16));
    assert_eq!(err("if a0 < 1 than goto x"), InstructionParseError::InvalidExpression(10, 14));
    assert_eq!(err("goto"), InstructionParseError::MissingExpression(4, 4));
    assert_eq!(err("goto a b"), InstructionParseError::InvalidExpression(7, 8));
    assert_eq!(err("stack %"), InstructionParseError::UnknownOperation(6, 7));
}

#[test]
fn labels_are_read_off_the_line() {
    assert_eq!(parse_line("loop: a0 := 1 # x").unwrap(), (Some("loop".to_string()), ins("a0 := 1")));
    assert_eq!(parse_line("  done:").unwrap(), (Some("done".to_string()), Instruction::Noop));
    assert_eq!(parse_line("a0 := 1").unwrap(), (None, ins("a0 := 1")));
}

#[test]
fn defined_label_ignores_the_rest_of_the_line() {
    assert_eq!(defined_label("L: foo bar"), Some("L".to_string()));
    assert_eq!(defined_label("  x:"), Some("x".to_string()));
    assert_eq!(defined_label("a0 := 1"), None);
    assert_eq!(defined_label("# l: push"), None);
}
