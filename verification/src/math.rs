//! Handle to the peak-fitting numerics.

use vstd::prelude::*;

verus! {

/// Handle to the peak-fitting numerics; it holds no state.
#[derive(Debug, Clone, Copy, PartialEq, Eq, Structural, Default)]
pub struct MathService;

impl MathService {
    /// A handle.
    pub fn new() -> (r: Self)
        ensures
            r == MathService,
    {
        MathService
    }
}

} // verus!
