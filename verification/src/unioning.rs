use vstd::prelude::*;
use crate::typing::{PengType, type_wf, types_equal};

verus! {

/// A union of types, in the order they were written.
#[derive(Debug, Clone)]
pub struct PengUnion {
    pub unions: Vec<PengType>,
}

impl PengUnion {
    /// Same length, and the types equal pairwise in order.
    pub open spec fn same_unions(self, rhs: Self) -> bool {
        &&& self.unions@.len() == rhs.unions@.len()
        &&& forall|i: int|
            0 <= i < self.unions@.len() ==> #[trigger] types_equal(self.unions@[i], rhs.unions@[i])
    }

    /// Unions whose custom types have no field name twice are compared.
    pub fn equals(&self, rhs: &Self) -> (res: bool)
        requires
            forall|i: int| 0 <= i < self.unions@.len() ==> type_wf(#[trigger] self.unions@[i]),
            forall|i: int| 0 <= i < rhs.unions@.len() ==> type_wf(#[trigger] rhs.unions@[i]),
        ensures
            res <==> self.same_unions(*rhs),
    {
        if self.unions.len() != rhs.unions.len() {
            return false;
        }
        let mut i: usize = 0;
        while i < self.unions.len()
            invariant
                i <= self.unions@.len(),
                self.unions@.len() == rhs.unions@.len(),
                forall|k: int| 0 <= k < i ==> #[trigger] types_equal(self.unions@[k], rhs.unions@[k]),
                forall|k: int| 0 <= k < self.unions@.len() ==> type_wf(#[trigger] self.unions@[k]),
                forall|k: int| 0 <= k < rhs.unions@.len() ==> type_wf(#[trigger] rhs.unions@[k]),
            decreases self.unions@.len() - i,
        {
            if !self.unions[i].equals(&rhs.unions[i]) {
                return false;
            }
            i = i + 1;
        }
        true
    }
}

} // verus!
