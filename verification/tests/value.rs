use penguin::binding::PengBinded;
use penguin::call::PengCell;
use penguin::error::PengError;
use penguin::heap::PengHeapValue;
use penguin::typing::{PengCustomType, PengType};
use penguin::utils::PengNamePoolPtr;

fn cell(c: PengCell) -> PengHeapValue {
    PengHeapValue::Cell(c)
}

#[test]
fn numbers_convert_when_they_fit() {
    assert!(matches!(cell(PengCell::Int(7)).convert(PengType::Uint), Ok(PengHeapValue::Cell(PengCell::Uint(7)))));
    assert!(matches!(cell(PengCell::Int(-1)).convert(PengType::Uint), Err(PengError::InvalidConversion { .. })));
    assert!(matches!(cell(PengCell::Uint(300)).convert(PengType::Byte), Err(PengError::InvalidConversion { .. })));
    assert!(matches!(cell(PengCell::Byte(9)).convert(PengType::Int), Ok(PengHeapValue::Cell(PengCell::Int(9)))));
    assert!(matches!(cell(PengCell::Bool(true)).convert(PengType::Int), Err(PengError::InvalidConversion { .. })));
    assert!(matches!(cell(PengCell::Nil).convert(PengType::Any), Ok(PengHeapValue::Cell(PengCell::Nil))));
}

#[test]
fn cells_are_written_as_strings() {
    match cell(PengCell::Int(-42)).convert(PengType::String) {
        Ok(PengHeapValue::String(s)) => assert_eq!(s, "-42"),
        _ => panic!("expected a string"),
    }
    match cell(PengCell::Bool(false)).convert(PengType::String) {
        Ok(PengHeapValue::String(s)) => assert_eq!(s, "false"),
        _ => panic!("expected a string"),
    }
    match cell(PengCell::Nil).convert(PengType::String) {
        Ok(PengHeapValue::String(s)) => assert_eq!(s, "nil"),
        _ => panic!("expected a string"),
    }
}

#[test]
fn vectors_and_objects() {
    let v = PengHeapValue::Vector(vec![PengBinded::Mutable(PengCell::Int(-1)), PengBinded::Mutable(PengCell::Uint(2))]);
    assert!(v.convert(PengType::Vector(Box::new(PengType::Uint))).is_err());
    let v = PengHeapValue::Vector(vec![PengBinded::Mutable(PengCell::Int(1)), PengBinded::Mutable(PengCell::Uint(2))]);
    assert!(v.convert(PengType::Vector(Box::new(PengType::Int))).is_ok());
    let object = PengHeapValue::Object(vec![(PengNamePoolPtr(1), PengBinded::Mutable(PengCell::Nil))]);
    let wants = |names: Vec<usize>| PengType::Custom(PengCustomType { fields: names.into_iter().map(|n| (PengNamePoolPtr(n), None)).collect() });
    match object.convert(wants(vec![2])) {
        Err(PengError::InvalidConversion { from, .. }) => assert!(matches!(from, PengHeapValue::Object(_))),
        _ => panic!("expected a refusal"),
    }
    let object = PengHeapValue::Object(vec![(PengNamePoolPtr(1), PengBinded::Mutable(PengCell::Nil))]);
    assert!(object.convert(wants(vec![1])).is_ok());
}
