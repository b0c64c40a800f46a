use vstd::prelude::*;

verus! {

/// A place in a source: the source's id, its line and, where it is known, its column.
#[derive(Debug, Clone, Copy, PartialEq, Eq, Structural)]
pub struct PengPosition {
    pub id: usize,
    pub line: usize,
    pub column: Option<usize>,
}

impl PengPosition {
    pub fn new(id: usize, line: usize, column: Option<usize>) -> (res: Self)
        ensures
            res.id == id,
            res.line == line,
            res.column == column,
    {
        Self { id, line, column }
    }

    /// Two positions are equal when id, line and column all agree.
    pub fn equals(&self, rhs: &Self) -> (res: bool)
        ensures
            res <==> *self == *rhs,
    {
        let same_column = match (self.column, rhs.column) {
            (Some(a), Some(b)) => a == b,
            (None, None) => true,
            _ => false,
        };
        self.id == rhs.id && self.line == rhs.line && same_column
    }
}

} // verus!
