//! What a ray/triangle test reports.

use vstd::prelude::*;
use crate::smooth_triangle::SmoothTriangle;
use crate::vector::Vec4;

verus! {

/// One meeting of a ray with a triangle.
#[derive(Clone, Debug)]
pub struct Intersection<'a> {
    /// Distance along the ray, in units of the ray's direction.
    pub t: i64,
    /// Where the ray is at that distance.
    pub point: Vec4,
    /// The shading normal there, carried out through the triangle's
    /// ancestors.
    pub normal: Vec4,
    /// The triangle that was hit.
    pub object: &'a SmoothTriangle,
    /// Barycentric weight of the triangle's second vertex.
    pub u: i64,
    /// Barycentric weight of the triangle's third vertex.
    pub v: i64,
}

impl<'a> Intersection<'a> {
    pub fn new_uv(
        t: i64,
        point: Vec4,
        normal: Vec4,
        object: &'a SmoothTriangle,
        u: i64,
        v: i64,
    ) -> (r: Intersection<'a>)
        ensures
            r.t == t,
            r.point == point,
            r.normal == normal,
            r.object == object,
            r.u == u,
            r.v == v,
    {
        Intersection { t, point, normal, object, u, v }
    }
}

} // verus!
