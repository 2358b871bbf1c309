use vstd::prelude::*;

verus! {

/// Draws every shader of the frame.
#[derive(Debug, Clone, Copy, PartialEq, Eq, Structural)]
pub struct ShaderSystem {}

/// One instance of a drawn quad; it carries no data of its own.
#[derive(Debug, Clone, Copy, PartialEq, Eq, Structural)]
pub struct Instance {}

impl ShaderSystem {
    /// The shader system.
    pub fn new() -> (res: ShaderSystem)
        ensures
            res == (ShaderSystem {}),
    {
        ShaderSystem {}
    }
}

} // verus!
