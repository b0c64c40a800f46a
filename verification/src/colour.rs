use vstd::prelude::*;

verus! {

/// The mark of the collector: red for a value not yet reached, black for one reached.
#[derive(Debug, Clone, Copy, PartialEq, Eq, Structural)]
pub enum PengColour {
    Red,
    Black,
}

/// A value carrying a collector mark.
#[derive(Debug, Clone)]
pub struct PengColoured<T> {
    pub colour: PengColour,
    pub value: T,
}

impl<T> PengColoured<T> {
    pub fn new(value: T) -> (res: Self)
        ensures
            res.colour == PengColour::Black,
            res.value == value,
    {
        Self { colour: PengColour::Black, value: value }
    }

    pub fn paint(&mut self, colour: PengColour)
        ensures
            final(self).colour == colour,
            final(self).value == old(self).value,
    {
        self.colour = colour
    }
}

} // verus!
