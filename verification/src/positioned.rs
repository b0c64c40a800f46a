use vstd::prelude::*;
use crate::position::PengPosition;

verus! {

/// A value together with the position it was read from.
#[derive(Debug, Clone)]
pub struct PengPositioned<T> {
    pub value: T,
    pub position: PengPosition,
}

impl<T> PengPositioned<T> {
    pub fn new(value: T, position: PengPosition) -> (res: Self)
        ensures
            res.value == value,
            res.position == position,
    {
        Self { value, position }
    }
}

} // verus!
