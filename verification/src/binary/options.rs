use vstd::prelude::*;

verus! {

/// What to leave out when a unit is turned into a binary.
#[derive(Debug, Clone, Copy, PartialEq, Eq, Structural)]
pub struct PengBinaryBuildOptions {
    pub strip_positions: bool,
    pub keep_debug_names: bool,
}

impl PengBinaryBuildOptions {
    pub fn default() -> (res: Self)
        ensures
            res == (PengBinaryBuildOptions { strip_positions: false, keep_debug_names: false }),
    {
        Self { strip_positions: false, keep_debug_names: false }
    }
}

} // verus!
