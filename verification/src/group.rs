//! Groups: the nodes of the scene hierarchy.

use vstd::prelude::*;
use crate::material::Material;
use crate::matrix::Matrix4x4;
use crate::smooth_triangle::SmoothTriangle;

verus! {

/// Anything a group can hold.
#[derive(Debug)]
pub enum Object {
    SmoothTriangle(SmoothTriangle),
    Group(Group),
}

/// A node of the scene: a transform, a material that its members fall
/// back on, and the members themselves.
#[derive(Debug)]
pub struct Group {
    /// The inverse of the transform that places the group in its parent.
    pub inverse_transform: Matrix4x4,
    pub material: Material,
    pub objects: Vec<Object>,
}

impl Group {
    /// An empty group.
    pub fn new(inverse_transform: Matrix4x4, material: Material) -> (g: Group)
        ensures
            g.inverse_transform == inverse_transform,
            g.material == material,
            g.objects@.len() == 0,
    {
        Group { inverse_transform, material, objects: Vec::new() }
    }

    pub fn get_inverse(&self) -> (m: &Matrix4x4)
        ensures
            *m == self.inverse_transform,
    {
        &self.inverse_transform
    }
}

} // verus!
