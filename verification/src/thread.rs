use vstd::prelude::*;
use crate::utils::PengHeapPtr;
use std::time::Instant;

verus! {

/// `std::time::Instant`, a point in time that the scheduler only carries.
#[verifier::external_type_specification]
#[verifier::external_body]
pub struct ExInstant(Instant);

/// Where a runtime thread stands.
#[derive(Debug, Clone, Copy)]
pub enum PengThreadState {
    Running,
    Finished,
    Paused,
    Waiting(PengHeapPtr),
    Cancelled,
    Failed,
    Sleeping(Instant),
}

} // verus!
