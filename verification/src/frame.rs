use vstd::prelude::*;
use crate::position::PengPosition;
use crate::utils::PengHeapPtr;

verus! {

/// One activation record of a running thread.
#[derive(Debug, Clone)]
pub struct PengFrame {
    pub program_counter: usize,
    pub base: usize,
    pub procedure: PengHeapPtr,
    pub params_count: usize,
    pub is_try: bool,
    pub reserved_locals: Vec<usize>,
    pub call_position: Option<PengPosition>,
}

impl PengFrame {
    /// A fresh frame: counter at 0, no reserved locals.
    pub open spec fn fresh(
        self,
        procedure: PengHeapPtr,
        base: usize,
        params_count: usize,
        is_try: bool,
        call_position: Option<PengPosition>,
    ) -> bool {
        &&& self.program_counter == 0
        &&& self.base == base
        &&& self.procedure == procedure
        &&& self.params_count == params_count
        &&& self.is_try == is_try
        &&& self.reserved_locals@ == Seq::<usize>::empty()
        &&& self.call_position == call_position
    }

    pub fn new(procedure: PengHeapPtr, base: usize, params_count: usize) -> (res: Self)
        ensures
            res.fresh(procedure, base, params_count, false, None),
    {
        PengFrame {
            program_counter: 0,
            base,
            procedure,
            params_count,
            is_try: false,
            reserved_locals: Vec::new(),
            call_position: None,
        }
    }

    pub fn new_positioned(
        procedure: PengHeapPtr,
        base: usize,
        params_count: usize,
        position: PengPosition,
    ) -> (res: Self)
        ensures
            res.fresh(procedure, base, params_count, false, Some(position)),
    {
        PengFrame {
            program_counter: 0,
            base,
            procedure,
            params_count,
            is_try: false,
            reserved_locals: Vec::new(),
            call_position: Some(position),
        }
    }

    pub fn new_try(procedure: PengHeapPtr, base: usize, params_count: usize) -> (res: Self)
        ensures
            res.fresh(procedure, base, params_count, true, None),
    {
        Self {
            program_counter: 0,
            base,
            procedure,
            params_count,
            is_try: true,
            reserved_locals: Vec::new(),
            call_position: None,
        }
    }

    pub fn new_try_positioned(
        procedure: PengHeapPtr,
        base: usize,
        params_count: usize,
        position: PengPosition,
    ) -> (res: Self)
        ensures
            res.fresh(procedure, base, params_count, true, Some(position)),
    {
        Self {
            program_counter: 0,
            base,
            procedure,
            params_count,
            is_try: true,
            reserved_locals: Vec::new(),
            call_position: Some(position),
        }
    }

    pub fn new_positioned_optional(
        procedure: PengHeapPtr,
        base: usize,
        params_count: usize,
        call_position: Option<PengPosition>,
    ) -> (res: Self)
        ensures
            res.fresh(procedure, base, params_count, false, call_position),
    {
        Self {
            procedure,
            base,
            params_count,
            program_counter: 0,
            is_try: false,
            reserved_locals: Vec::new(),
            call_position,
        }
    }

    pub fn new_try_positioned_optional(
        procedure: PengHeapPtr,
        base: usize,
        params_count: usize,
        position: Option<PengPosition>,
    ) -> (res: Self)
        ensures
            res.fresh(procedure, base, params_count, true, position),
    {
        Self {
            procedure,
            base,
            params_count,
            program_counter: 0,
            is_try: true,
            reserved_locals: Vec::new(),
            call_position: position,
        }
    }

    /// Frames compare by counter, base, procedure, parameter count and reserved locals;
    /// whether the frame is a try frame and where it was called from are not compared.
    pub open spec fn same_frame(self, rhs: Self) -> bool {
        &&& self.program_counter == rhs.program_counter
        &&& self.base == rhs.base
        &&& self.procedure == rhs.procedure
        &&& self.params_count == rhs.params_count
        &&& self.reserved_locals@ == rhs.reserved_locals@
    }

    pub fn equals(&self, rhs: &Self) -> (res: bool)
        ensures
            res <==> self.same_frame(*rhs),
    {
        if !(self.program_counter == rhs.program_counter && self.base == rhs.base
            && self.procedure.0 == rhs.procedure.0 && self.params_count == rhs.params_count) {
            return false;
        }
        if self.reserved_locals.len() != rhs.reserved_locals.len() {
            return false;
        }
        let mut i: usize = 0;
        while i < self.reserved_locals.len()
            invariant
                i <= self.reserved_locals@.len(),
                self.reserved_locals@.len() == rhs.reserved_locals@.len(),
                forall|j: int| 0 <= j < i ==> self.reserved_locals@[j] == rhs.reserved_locals@[j],
            decreases self.reserved_locals@.len() - i,
        {
            if self.reserved_locals[i] != rhs.reserved_locals[i] {
                return false;
            }
            i = i + 1;
        }
        assert(self.reserved_locals@ =~= rhs.reserved_locals@);
        true
    }
}

} // verus!
