use penguin::binding::PengBinded;
use penguin::call::PengCell;
use penguin::error::PengError;
use penguin::utils::PengHeapPtr;

#[test]
fn cells_compare_by_value() {
    assert!(PengCell::Int(3).equals(&PengCell::Uint(3)));
    assert!(!PengCell::Int(-1).equals(&PengCell::Uint(usize::MAX)));
    assert!(PengCell::Byte(7).equals(&PengCell::Int(7)));
    assert!(PengCell::Reference(PengHeapPtr(2)).equals(&PengCell::Reference(PengHeapPtr(2))));
    assert!(!PengCell::Nil.equals(&PengCell::Bool(false)));
    assert!(matches!(PengCell::Uint(5).greater_than(&PengCell::Int(-1)), Ok(true)));
    assert!(matches!(PengCell::Int(-1).greater_equals_than(&PengCell::Uint(0)), Ok(false)));
    assert!(matches!(PengCell::Byte(1).less_than(&PengCell::Uint(2)), Ok(true)));
    assert!(matches!(PengCell::Int(2).less_equals_than(&PengCell::Int(2)), Ok(true)));
    match PengCell::Bool(true).greater_than(&PengCell::Int(1)) {
        Err(PengError::InvalidBinaryOperationCell { operator, .. }) => assert_eq!(operator, ">"),
        _ => panic!("expected a refusal"),
    }
    assert!(PengBinded::Mutable(PengCell::Int(1)).equals(&PengBinded::Mutable(PengCell::Int(1))));
    assert!(!PengBinded::Mutable(PengCell::Int(1)).equals(&PengBinded::Immutable(PengCell::Int(1))));
}
