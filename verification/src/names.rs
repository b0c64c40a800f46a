use vstd::prelude::*;
use crate::utils::PengNamePoolPtr;

verus! {

/// Where `name` first stands in `pool` at or after `i`.
pub open spec fn first_name(pool: Seq<Seq<char>>, name: Seq<char>, i: int) -> Option<int>
    decreases pool.len() - i,
{
    if i < 0 || i >= pool.len() {
        None
    } else if pool[i] == name {
        Some(i)
    } else {
        first_name(pool, name, i + 1)
    }
}

/// The address `name` gets in `pool`: where it first stands, or the end when it is new.
pub open spec fn pooled_ptr(pool: Seq<Seq<char>>, name: Seq<char>) -> usize {
    match first_name(pool, name, 0) {
        Some(i) => i as usize,
        None => pool.len() as usize,
    }
}

/// The pool once `name` is in it.
pub open spec fn pooled(pool: Seq<Seq<char>>, name: Seq<char>) -> Seq<Seq<char>> {
    match first_name(pool, name, 0) {
        Some(_) => pool,
        None => pool.push(name),
    }
}

/// The names of a program, each at the address code refers to it by.
pub struct PengNamePool {
    names: Vec<String>,
}

impl View for PengNamePool {
    type V = Seq<Seq<char>>;

    closed spec fn view(&self) -> Seq<Seq<char>> {
        Seq::new(self.names@.len(), |i: int| self.names@[i]@)
    }
}

impl PengNamePool {
    pub fn new() -> (res: Self)
        ensures
            res@ == Seq::<Seq<char>>::empty(),
    {
        let res = PengNamePool { names: Vec::new() };
        assert(res@ =~= Seq::<Seq<char>>::empty());
        res
    }

    /// The address of `name`, put in the pool when it is new.
    pub fn ensure_pooled_name_ptr(&mut self, name: String) -> (res: PengNamePoolPtr)
        requires
            old(self)@.len() < usize::MAX,
        ensures
            res.0 == pooled_ptr(old(self)@, name@),
            final(self)@ == pooled(old(self)@, name@),
    {
        let mut i: usize = 0;
        while i < self.names.len()
            invariant
                i <= self.names@.len(),
                self@ == old(self)@,
                first_name(self@, name@, 0) == first_name(self@, name@, i as int),
            decreases self.names@.len() - i,
        {
            if self.names[i] == name {
                return PengNamePoolPtr(i);
            }
            i = i + 1;
        }
        let ghost v0 = self@;
        let n = self.names.len();
        self.names.push(name);
        assert(self@ =~= v0.push(name@));
        PengNamePoolPtr(n)
    }

    /// The name at `name`, if there is one.
    pub fn get_pooled_name(&self, name: PengNamePoolPtr) -> (res: Option<&String>)
        ensures
            res is Some <==> name.0 < self@.len(),
            res matches Some(s) ==> s@ == self@[name.0 as int],
    {
        if name.0 < self.names.len() {
            Some(&self.names[name.0])
        } else {
            None
        }
    }
}

} // verus!
