use vstd::prelude::*;

verus! {

/// Which passes the optimizer runs.
#[derive(Debug, Clone, Copy, PartialEq, Eq, Structural)]
pub struct PengOptimizerConfig {
    pub constant_folding: bool,
    pub boolean_simplification: bool,
    pub dead_code: bool,
    pub empty_blocks: bool,
    pub constant_propagation: bool,
}

impl PengOptimizerConfig {
    /// No pass at all.
    pub fn none() -> (res: Self)
        ensures
            res == (PengOptimizerConfig {
                constant_folding: false,
                boolean_simplification: false,
                dead_code: false,
                empty_blocks: false,
                constant_propagation: false,
            }),
    {
        Self {
            constant_folding: false,
            boolean_simplification: false,
            dead_code: false,
            empty_blocks: false,
            constant_propagation: false,
        }
    }

    /// Every pass but constant propagation.
    pub fn safe() -> (res: Self)
        ensures
            res == (PengOptimizerConfig {
                constant_folding: true,
                boolean_simplification: true,
                dead_code: true,
                empty_blocks: true,
                constant_propagation: false,
            }),
    {
        Self {
            constant_folding: true,
            boolean_simplification: true,
            dead_code: true,
            empty_blocks: true,
            constant_propagation: false,
        }
    }

    /// Every pass.
    pub fn aggressive() -> (res: Self)
        ensures
            res == (PengOptimizerConfig {
                constant_folding: true,
                boolean_simplification: true,
                dead_code: true,
                empty_blocks: true,
                constant_propagation: true,
            }),
    {
        Self {
            constant_folding: true,
            boolean_simplification: true,
            dead_code: true,
            empty_blocks: true,
            constant_propagation: true,
        }
    }
}

} // verus!
