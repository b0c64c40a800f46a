use vstd::prelude::*;

verus! {

/// How many parameters a bytecode function takes: exactly `n`, or `n` and a rest.
#[derive(Debug, Clone, Copy, PartialEq, Eq, Structural)]
pub enum PengBytecodeFunctionParams {
    Fixed(usize),
    Variadic(usize),
}

impl PengBytecodeFunctionParams {
    pub fn equals(&self, rhs: &Self) -> (res: bool)
        ensures
            res <==> *self == *rhs,
    {
        match (self, rhs) {
            (Self::Fixed(left), Self::Fixed(right)) => *left == *right,
            (Self::Variadic(left), Self::Variadic(right)) => *left == *right,
            _ => false,
        }
    }
}

} // verus!
