use vstd::prelude::*;

verus! {

/// A value bound either mutably or immutably.
#[derive(Debug, Clone)]
pub enum PengBinded<T> {
    Mutable(T),
    Immutable(T),
}

impl<T> PengBinded<T> {
    /// The bound value, whatever the binding.
    pub open spec fn bound(self) -> T {
        match self {
            PengBinded::Mutable(v) => v,
            PengBinded::Immutable(v) => v,
        }
    }

    pub fn value(&self) -> (res: &T)
        ensures
            *res == self.bound(),
    {
        match self {
            Self::Mutable(v) => v,
            Self::Immutable(v) => v,
        }
    }

    pub fn value_mut(&mut self) -> (res: &mut T)
        ensures
            *res == old(self).bound(),
            *final(self) == (match *old(self) {
                PengBinded::Mutable(_) => PengBinded::Mutable(*final(res)),
                PengBinded::Immutable(_) => PengBinded::Immutable(*final(res)),
            }),
    {
        match self {
            Self::Mutable(v) => v,
            Self::Immutable(v) => v,
        }
    }
}

} // verus!
