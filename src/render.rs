//! The physically based drawing pass with separate vertex buffers.

use vstd::prelude::*;

verus! {

/// Draw mesh with physically based lighting
#[derive(Default, Clone, Copy, Debug, PartialEq, Eq, Structural)]
pub struct DrawPbmSeparate;

impl DrawPbmSeparate {
    /// Create instance of `DrawPbm` pass
    pub fn new() -> (r: Self)
        ensures
            r == DrawPbmSeparate,
    {
        DrawPbmSeparate
    }
}

} // verus!
