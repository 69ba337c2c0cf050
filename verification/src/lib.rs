//! Ray/triangle intersection for smooth-shaded triangles, over fixed-point
//! coordinates.

pub mod fixed;
pub mod vector;
pub mod material;
pub mod ray;
pub mod matrix;
pub mod algebra;
pub mod moller_trumbore;
pub mod intersection;
pub mod group;
pub mod smooth_triangle;
