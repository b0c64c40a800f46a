use vstd::prelude::*;
use vstd::string::StringExecFns;
use crate::binding::PengBinded;
use crate::call::PengCell;
use crate::error::PengError;

verus! {

/// The integer a cell holds, when it holds one.
pub open spec fn integer_of(c: PengCell) -> Option<int> {
    match c {
        PengCell::Int(v) => Some(v as int),
        PengCell::Uint(v) => Some(v as int),
        PengCell::Byte(v) => Some(v as int),
        _ => None,
    }
}

/// Comparing the two cells computes with floating-point values: a float meets a number.
pub open spec fn float_comparison(l: PengCell, r: PengCell) -> bool {
    ((l is Float32 || l is Float64) && (r is Float32 || r is Float64 || integer_of(r) is Some)) || ((r is Float32
        || r is Float64) && integer_of(l) is Some)
}

/// Whether two cells are equal: nil to nil, booleans and references by value, numbers by
/// their value whatever their kind; nothing else is equal.
pub open spec fn cells_equal(l: PengCell, r: PengCell) -> bool {
    match (l, r) {
        (PengCell::Nil, PengCell::Nil) => true,
        (PengCell::Bool(a), PengCell::Bool(b)) => a == b,
        (PengCell::Reference(a), PengCell::Reference(b)) => a == b,
        _ => match (integer_of(l), integer_of(r)) {
            (Some(a), Some(b)) => a == b,
            _ => false,
        },
    }
}

/// The result of an ordering comparison of two cells: numbers compare by value; other
/// cells cannot be compared.
pub open spec fn cells_compare(l: PengCell, r: PengCell, greater: bool, or_equal: bool) -> Option<bool> {
    match (integer_of(l), integer_of(r)) {
        (Some(a), Some(b)) => Some(
            if greater {
                if or_equal {
                    a >= b
                } else {
                    a > b
                }
            } else {
                if or_equal {
                    a <= b
                } else {
                    a < b
                }
            },
        ),
        _ => None,
    }
}

fn integer_value(c: PengCell) -> (res: Option<i128>)
    ensures
        match integer_of(c) {
            Some(v) => res == Some(v as i128),
            None => res is None,
        },
{
    match c {
        PengCell::Int(v) => Some(v as i128),
        PengCell::Uint(v) => Some(v as i128),
        PengCell::Byte(v) => Some(v as i128),
        _ => None,
    }
}

fn compare_cells(l: &PengCell, r: &PengCell, greater: bool, or_equal: bool, operator: &str) -> (res: Result<bool, PengError>)
    requires
        !float_comparison(*l, *r),
    ensures
        match cells_compare(*l, *r, greater, or_equal) {
            Some(b) => res == Ok::<bool, PengError>(b),
            None => res matches Err(PengError::InvalidBinaryOperationCell { operator: o, left, right }) && o@
                == operator@ && left == *l && right == *r,
        },
{
    match (integer_value(*l), integer_value(*r)) {
        (Some(a), Some(b)) => Ok(
            if greater {
                if or_equal {
                    a >= b
                } else {
                    a > b
                }
            } else {
                if or_equal {
                    a <= b
                } else {
                    a < b
                }
            },
        ),
        _ => Err(PengError::InvalidBinaryOperationCell { operator: String::from_str(operator), left: *l, right: *r }),
    }
}

impl PengCell {
    /// Cell equality (see `cells_equal`); comparisons that compute with floating-point
    /// values are not done here.
    pub fn equals(&self, rhs: &Self) -> (res: bool)
        requires
            !float_comparison(*self, *rhs),
        ensures
            res == cells_equal(*self, *rhs),
    {
        match (self, rhs) {
            (PengCell::Nil, PengCell::Nil) => true,
            (PengCell::Bool(a), PengCell::Bool(b)) => *a == *b,
            (PengCell::Reference(a), PengCell::Reference(b)) => a.0 == b.0,
            _ => match (integer_value(*self), integer_value(*rhs)) {
                (Some(a), Some(b)) => a == b,
                _ => false,
            },
        }
    }

    pub fn greater_than(&self, rhs: &Self) -> (res: Result<bool, PengError>)
        requires
            !float_comparison(*self, *rhs),
        ensures
            match cells_compare(*self, *rhs, true, false) {
                Some(b) => res == Ok::<bool, PengError>(b),
                None => res matches Err(PengError::InvalidBinaryOperationCell { operator: o, left, right }) && o@
                    == ">"@ && left == *self && right == *rhs,
            },
    {
        compare_cells(self, rhs, true, false, ">")
    }

    pub fn greater_equals_than(&self, rhs: &Self) -> (res: Result<bool, PengError>)
        requires
            !float_comparison(*self, *rhs),
        ensures
            match cells_compare(*self, *rhs, true, true) {
                Some(b) => res == Ok::<bool, PengError>(b),
                None => res matches Err(PengError::InvalidBinaryOperationCell { operator: o, left, right }) && o@
                    == ">="@ && left == *self && right == *rhs,
            },
    {
        compare_cells(self, rhs, true, true, ">=")
    }

    pub fn less_than(&self, rhs: &Self) -> (res: Result<bool, PengError>)
        requires
            !float_comparison(*self, *rhs),
        ensures
            match cells_compare(*self, *rhs, false, false) {
                Some(b) => res == Ok::<bool, PengError>(b),
                None => res matches Err(PengError::InvalidBinaryOperationCell { operator: o, left, right }) && o@
                    == "<"@ && left == *self && right == *rhs,
            },
    {
        compare_cells(self, rhs, false, false, "<")
    }

    pub fn less_equals_than(&self, rhs: &Self) -> (res: Result<bool, PengError>)
        requires
            !float_comparison(*self, *rhs),
        ensures
            match cells_compare(*self, *rhs, false, true) {
                Some(b) => res == Ok::<bool, PengError>(b),
                None => res matches Err(PengError::InvalidBinaryOperationCell { operator: o, left, right }) && o@
                    == "<="@ && left == *self && right == *rhs,
            },
    {
        compare_cells(self, rhs, false, true, "<=")
    }
}

impl PengBinded<PengCell> {
    /// Two bound cells are equal when they are bound alike and their cells are equal.
    pub fn equals(&self, rhs: &Self) -> (res: bool)
        requires
            !float_comparison(self.bound(), rhs.bound()),
        ensures
            res == ((*self is Mutable == *rhs is Mutable) && cells_equal(self.bound(), rhs.bound())),
    {
        match (self, rhs) {
            (PengBinded::Mutable(l), PengBinded::Mutable(r)) => l.equals(r),
            (PengBinded::Immutable(l), PengBinded::Immutable(r)) => l.equals(r),
            _ => false,
        }
    }
}

} // verus!
