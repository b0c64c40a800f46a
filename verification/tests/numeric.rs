use penguin::call::PengCell;
use penguin::numeric::{binary_numeric_cells, PengNumericOperation, PengNumericResult};

fn op(l: PengCell, r: PengCell, o: PengNumericOperation) -> PengNumericResult {
    binary_numeric_cells(&l, &r, o)
}

#[test]
fn integer_arithmetic_is_checked() {
    assert_eq!(op(PengCell::Int(7), PengCell::Int(-2), PengNumericOperation::Divide), PengNumericResult::Value(PengCell::Int(-3)));
    assert_eq!(op(PengCell::Int(-7), PengCell::Int(2), PengNumericOperation::Remainder), PengNumericResult::Value(PengCell::Int(-1)));
    assert_eq!(op(PengCell::Int(isize::MAX), PengCell::Int(1), PengNumericOperation::Add), PengNumericResult::Undefined);
    assert_eq!(op(PengCell::Int(1), PengCell::Int(0), PengNumericOperation::Divide), PengNumericResult::Undefined);
    assert_eq!(op(PengCell::Int(isize::MIN), PengCell::Int(-1), PengNumericOperation::Remainder), PengNumericResult::Undefined);
    assert_eq!(op(PengCell::Int(2), PengCell::Int(10), PengNumericOperation::Power), PengNumericResult::Value(PengCell::Int(1024)));
    assert_eq!(op(PengCell::Int(2), PengCell::Int(-1), PengNumericOperation::Power), PengNumericResult::NeedsFloat);
}

#[test]
fn mixed_and_narrow_integers() {
    assert_eq!(op(PengCell::Uint(3), PengCell::Int(-5), PengNumericOperation::Add), PengNumericResult::Value(PengCell::Int(-2)));
    assert_eq!(op(PengCell::Uint(usize::MAX), PengCell::Int(0), PengNumericOperation::Add), PengNumericResult::Undefined);
    assert_eq!(op(PengCell::Byte(200), PengCell::Byte(100), PengNumericOperation::Add), PengNumericResult::Undefined);
    assert_eq!(op(PengCell::Byte(200), PengCell::Uint(100), PengNumericOperation::Add), PengNumericResult::Value(PengCell::Uint(300)));
    assert_eq!(op(PengCell::Byte(3), PengCell::Int(-5), PengNumericOperation::Multiply), PengNumericResult::Value(PengCell::Int(-15)));
    assert_eq!(op(PengCell::Uint(2), PengCell::Uint(3), PengNumericOperation::Subtract), PengNumericResult::Undefined);
}

#[test]
fn floats_and_other_cells() {
    assert_eq!(op(PengCell::Float32(0), PengCell::Int(1), PengNumericOperation::Add), PengNumericResult::NeedsFloat);
    assert_eq!(op(PengCell::Bool(true), PengCell::Int(1), PengNumericOperation::Add), PengNumericResult::Undefined);
    assert_eq!(op(PengCell::Nil, PengCell::Nil, PengNumericOperation::Multiply), PengNumericResult::Undefined);
}
