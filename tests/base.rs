use ams::base::{Accumulator, CalcError, Comparison, MemoryCell, Operation};

#[test]
fn test_accumultor_display() {
    let mut acc = Accumulator::new(0);
    acc.data = Some(5);
    assert_eq!(acc.display(), " 0: 5");
    acc.data = None;
    assert_eq!(acc.display(), " 0: None");
}

#[test]
fn test_memory_cell_display() {
    let mut acc = MemoryCell::new("a");
    acc.data = Some(5);
    assert_eq!(acc.display(), "a : 5");
    acc.data = None;
    assert_eq!(acc.display(), "a : None");
}

#[test]
fn test_comparison() {
    assert!(Comparison::Less.cmp(5, 10));
    assert!(Comparison::LessOrEqual.cmp(5, 10));
    assert!(Comparison::LessOrEqual.cmp(5, 5));
    assert!(Comparison::Equal.cmp(5, 5));
    assert!(Comparison::NotEqual.cmp(5, 6));
    assert!(!Comparison::NotEqual.cmp(6, 6));
    assert!(Comparison::MoreOrEqual.cmp(5, 5));
    assert!(Comparison::MoreOrEqual.cmp(10, 5));
    assert!(Comparison::More.cmp(10, 5));
}

#[test]
fn test_comparison_try_from_str() {
    assert_eq!(Comparison::try_from("<"), Ok(Comparison::Less));
    assert_eq!(Comparison::try_from("<="), Ok(Comparison::LessOrEqual));
    assert_eq!(Comparison::try_from("=<"), Ok(Comparison::LessOrEqual));
    assert_eq!(Comparison::try_from("="), Ok(Comparison::Equal));
    assert_eq!(Comparison::try_from("=="), Ok(Comparison::Equal));
    assert_eq!(Comparison::try_from("!="), Ok(Comparison::NotEqual));
    assert_eq!(Comparison::try_from(">="), Ok(Comparison::MoreOrEqual));
    assert_eq!(Comparison::try_from("=>"), Ok(Comparison::MoreOrEqual));
    assert_eq!(Comparison::try_from(">"), Ok(Comparison::More));
}

#[test]
fn test_operation() {
    assert_eq!(Operation::Add.calc(20, 5).unwrap(), 25);
    assert_eq!(Operation::Sub.calc(20, 5).unwrap(), 15);
    assert_eq!(Operation::Mul.calc(20, 5).unwrap(), 100);
    assert_eq!(Operation::Div.calc(20, 5).unwrap(), 4);
}

#[test]
fn test_operation_try_from_str() {
    assert_eq!(Operation::try_from("+"), Ok(Operation::Add));
    assert_eq!(Operation::try_from("-"), Ok(Operation::Sub));
    assert_eq!(Operation::try_from("*"), Ok(Operation::Mul));
    assert_eq!(Operation::try_from("/"), Ok(Operation::Div));
    assert_eq!(Operation::try_from("P"), Err(()));
}

#[test]
fn comparison_rejects_other_symbols() {
    for s in ["", "<<", "=!", "<>", "lt", " <", "≤", "==="] {
        assert_eq!(Comparison::try_from(s), Err(()), "{s}");
    }
}

#[test]
fn operation_rejects_other_symbols() {
    for s in ["", "++", "%", "x", " +", "//", "^"] {
        assert_eq!(Operation::try_from(s), Err(()), "{s}");
    }
}

#[test]
fn comparison_boundaries() {
    assert!(!Comparison::Less.cmp(5, 5));
    assert!(!Comparison::More.cmp(5, 5));
    assert!(!Comparison::Equal.cmp(5, 6));
    assert!(Comparison::Less.cmp(i32::MIN, i32::MAX));
    assert!(!Comparison::LessOrEqual.cmp(6, 5));
    assert!(!Comparison::MoreOrEqual.cmp(4, 5));
}

#[test]
fn checked_arithmetic_overflows() {
    assert_eq!(Operation::Add.calc(i32::MAX, 1), Err(CalcError::AttemptToOverflow(Operation::Add)));
    assert_eq!(Operation::Add.calc(i32::MAX - 1, 1), Ok(i32::MAX));
    assert_eq!(Operation::Sub.calc(i32::MIN, 1), Err(CalcError::AttemptToOverflow(Operation::Sub)));
    assert_eq!(Operation::Sub.calc(0, i32::MIN), Err(CalcError::AttemptToOverflow(Operation::Sub)));
    assert_eq!(Operation::Mul.calc(65536, 32768), Err(CalcError::AttemptToOverflow(Operation::Mul)));
    assert_eq!(Operation::Mul.calc(-65536, 32768), Ok(i32::MIN));
    assert_eq!(Operation::Div.calc(i32::MIN, -1), Err(CalcError::AttemptToOverflow(Operation::Div)));
}

#[test]
fn division_by_zero_and_truncation() {
    assert_eq!(Operation::Div.calc(7, 0), Err(CalcError::AttemptToDivideByZero));
    assert_eq!(Operation::Div.calc(0, 0), Err(CalcError::AttemptToDivideByZero));
    assert_eq!(Operation::Div.calc(5, 5), Ok(1));
    assert_eq!(Operation::Div.calc(-7, 2), Ok(-3));
    assert_eq!(Operation::Div.calc(7, -2), Ok(-3));
    assert_eq!(Operation::Div.calc(-7, -2), Ok(3));
    assert_eq!(Operation::Div.calc(i32::MIN, 1), Ok(i32::MIN));
}

#[test]
fn display_of_wide_and_negative_values() {
    let mut acc = Accumulator::new(12);
    acc.data = Some(-2147483648);
    assert_eq!(acc.display(), "12: -2147483648");
    let mut cell = MemoryCell::new("abc");
    cell.data = Some(1234567890);
    assert_eq!(cell.display(), "abc: 1234567890");
    assert_eq!(Accumulator::new(100).display(), "100: None");
}
