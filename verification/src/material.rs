//! Materials, as far as the geometry needs them.

use vstd::prelude::*;

verus! {

/// What a surface is made of. The geometry never looks inside: it keeps
/// a material, hands it on to children of a group and compares it. The
/// value is the key under which the renderer holds the shading
/// parameters.
#[derive(Clone, Copy, Debug, PartialEq, Eq, Structural)]
pub struct Material {
    pub id: u64,
}

impl Material {
    pub fn new(id: u64) -> (m: Material)
        ensures
            m.id == id,
    {
        Material { id }
    }
}

impl Default for Material {
    /// The renderer's default material, under key zero.
    fn default() -> (m: Material)
        ensures
            m.id == 0,
    {
        Material { id: 0 }
    }
}

} // verus!
