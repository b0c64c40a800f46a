use vstd::prelude::*;

verus! {

/// A slot that is either initialized with a value or not yet.
#[derive(Debug, Clone)]
pub enum PengStated<T> {
    Initialized(T),
    Uninitialized,
}

} // verus!
