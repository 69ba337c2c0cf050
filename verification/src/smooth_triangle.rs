//! Triangles with a shading normal at each vertex.

use vstd::prelude::*;
use crate::fixed::COORD_LIMIT;
use crate::fixed::DISTANCE_LIMIT;
use crate::fixed::lemma_product_bound;
use crate::fixed::magnitude;
use crate::fixed::ONE;
use crate::group::Group;
use crate::group::Object;
use crate::intersection::Intersection;
use crate::material::Material;
use crate::matrix::chain_within;
use crate::matrix::Matrix4x4;
use crate::matrix::normal_to_world;
use crate::matrix::normal_to_world_spec;
use crate::moller_trumbore::cross_exact;
use crate::moller_trumbore::DET_EPSILON;
use crate::moller_trumbore::determinant;
use crate::moller_trumbore::distance;
use crate::moller_trumbore::dot_exact;
use crate::moller_trumbore::lemma_distance_bound;
use crate::moller_trumbore::lemma_flat_triangle_misses;
use crate::moller_trumbore::lemma_parallel_ray_misses;
use crate::moller_trumbore::lemma_reversed_ray;
use crate::moller_trumbore::lemma_sides_agree;
use crate::moller_trumbore::lemma_weights_in_range;
use crate::moller_trumbore::meets;
use crate::moller_trumbore::t_numerator;
use crate::moller_trumbore::weight_u;
use crate::moller_trumbore::weight_v;
use crate::ray::Ray;
use crate::vector::lemma_unit_scale;
use crate::vector::Triple;
use crate::vector::Vec4;

verus! {

/// A triangle whose shading normal varies over its face.
///
/// The geometry is fixed when the triangle is made. What changes
/// afterwards is only what the triangle inherits when it is put into a
/// group: the chain of ancestor transforms and the fallback material.
#[derive(Clone, Debug)]
pub struct SmoothTriangle {
    pub p1: Vec4,
    pub p2: Vec4,
    pub p3: Vec4,
    pub n1: Vec4,
    pub n2: Vec4,
    pub n3: Vec4,
    /// `p2 - p1`.
    pub e1: Vec4,
    /// `p3 - p1`.
    pub e2: Vec4,
    pub material: Material,
    /// The inverse transform of each enclosing group, the innermost
    /// group first.
    pub parent_inverses: Vec<Matrix4x4>,
    /// The material of the enclosing group, once there is one.
    pub parent_material: Option<Material>,
}

/// A triangle as a mathematical value.
pub struct TriangleView {
    pub p1: Vec4,
    pub p2: Vec4,
    pub p3: Vec4,
    pub n1: Vec4,
    pub n2: Vec4,
    pub n3: Vec4,
    pub e1: Vec4,
    pub e2: Vec4,
    pub material: Material,
    pub parent_inverses: Seq<Matrix4x4>,
    pub parent_material: Option<Material>,
}

impl View for SmoothTriangle {
    type V = TriangleView;

    open spec fn view(&self) -> TriangleView {
        TriangleView {
            p1: self.p1,
            p2: self.p2,
            p3: self.p3,
            n1: self.n1,
            n2: self.n2,
            n3: self.n3,
            e1: self.e1,
            e2: self.e2,
            material: self.material,
            parent_inverses: self.parent_inverses@,
            parent_material: self.parent_material,
        }
    }
}

impl TriangleView {
    /// Vertices and normals lie within the coordinate range, and the
    /// edges are the differences of the vertices.
    pub open spec fn geometry_wf(self) -> bool {
        &&& self.p1.within(COORD_LIMIT as int)
        &&& self.p2.within(COORD_LIMIT as int)
        &&& self.p3.within(COORD_LIMIT as int)
        &&& self.n1.within(COORD_LIMIT as int)
        &&& self.n2.within(COORD_LIMIT as int)
        &&& self.n3.within(COORD_LIMIT as int)
        &&& self.e1 == self.p2.minus_spec(self.p1)
        &&& self.e2 == self.p3.minus_spec(self.p1)
    }

    /// The geometry is well formed and every ancestor transform lies
    /// within the coordinate range.
    pub open spec fn wf(self) -> bool {
        &&& self.geometry_wf()
        &&& chain_within(self.parent_inverses)
    }

    /// The triangle with vertices `(0, 1, 0)`, `(-1, 0, 0)` and
    /// `(1, 0, 0)`, each vertex's normal pointing the way the vertex
    /// lies from the origin, of the default material and in no group.
    pub open spec fn standard() -> TriangleView {
        TriangleView {
            p1: Vec4 { x: 0, y: ONE, z: 0, w: ONE },
            p2: Vec4 { x: (-ONE) as i64, y: 0, z: 0, w: ONE },
            p3: Vec4 { x: ONE, y: 0, z: 0, w: ONE },
            n1: Vec4 { x: 0, y: ONE, z: 0, w: 0 },
            n2: Vec4 { x: (-ONE) as i64, y: 0, z: 0, w: 0 },
            n3: Vec4 { x: ONE, y: 0, z: 0, w: 0 },
            e1: Vec4 { x: (-ONE) as i64, y: (-ONE) as i64, z: 0, w: 0 },
            e2: Vec4 { x: ONE, y: (-ONE) as i64, z: 0, w: 0 },
            material: Material { id: 0 },
            parent_inverses: Seq::empty(),
            parent_material: None,
        }
    }

    /// In no group yet.
    pub open spec fn unattached(self) -> bool {
        self.parent_inverses.len() == 0 && self.parent_material is None
    }

    /// The step from the first vertex to the ray's origin.
    pub open spec fn offset(self, ray: Ray) -> Triple {
        ray.origin.exact().minus(self.p1.exact())
    }

    /// The ray meets the triangle: see `meets`.
    pub open spec fn hits(self, ray: Ray) -> bool {
        meets(self.e1.exact(), self.e2.exact(), ray.direction.exact(), self.offset(ray))
    }

    /// Barycentric weight of the second vertex at the point that the ray
    /// meets.
    pub open spec fn hit_u(self, ray: Ray) -> int {
        weight_u(self.e1.exact(), self.e2.exact(), ray.direction.exact(), self.offset(ray))
    }

    /// Barycentric weight of the third vertex at the point that the ray
    /// meets.
    pub open spec fn hit_v(self, ray: Ray) -> int {
        weight_v(self.e1.exact(), self.e2.exact(), ray.direction.exact(), self.offset(ray))
    }

    /// Distance along the ray to the point that it meets.
    pub open spec fn hit_t(self, ray: Ray) -> int {
        distance(self.e1.exact(), self.e2.exact(), ray.direction.exact(), self.offset(ray))
    }

    /// The vertex normals weighted by `u`, `v` and `1 - u - v`: `n2` by
    /// `u`, `n3` by `v` and `n1` by the rest. Exact, and so `ONE` times
    /// as long as the fixed-point vector it stands for.
    pub open spec fn blended(self, u: int, v: int) -> Triple {
        self.n2.exact().scale(u).plus(self.n3.exact().scale(v)).plus(
            self.n1.exact().scale(ONE - u - v),
        )
    }

    /// The shading normal in the triangle's own space.
    pub open spec fn local_normal(self, u: int, v: int) -> Vec4 {
        self.blended(u, v).unit()
    }

    /// The shading normal carried out through the triangle's ancestors.
    pub open spec fn normal_spec(self, u: int, v: int) -> Vec4 {
        normal_to_world_spec(self.parent_inverses, self.local_normal(u, v))
    }

    /// The triangle once it has joined a group with the given inverse
    /// transform and material.
    pub open spec fn attached(self, inverse: Matrix4x4, material: Material) -> TriangleView {
        TriangleView {
            parent_inverses: self.parent_inverses.push(inverse),
            parent_material: Some(material),
            ..self
        }
    }

    /// The same triangle wound the other way: the second and the third
    /// vertex, with their normals, have changed places.
    pub open spec fn rewound(self) -> TriangleView {
        TriangleView {
            p2: self.p3,
            p3: self.p2,
            n2: self.n3,
            n3: self.n2,
            e1: self.e2,
            e2: self.e1,
            ..self
        }
    }

    /// The dot product of the ray's direction with the normal of the
    /// triangle's plane, `e1 x e2`: zero for a ray parallel to the
    /// plane.
    pub open spec fn slope(self, ray: Ray) -> int {
        ray.direction.exact().dot(self.e1.exact().cross(self.e2.exact()))
    }

    /// Where a ray meets a triangle, the weights of the point lie
    /// between zero and one, and so does their sum; the distance lies
    /// within `DISTANCE_LIMIT`.
    pub proof fn lemma_hit_in_range(self, ray: Ray)
        requires
            self.hits(ray),
        ensures
            0 <= self.hit_u(ray) <= ONE,
            0 <= self.hit_v(ray) <= ONE,
            self.hit_u(ray) + self.hit_v(ray) <= ONE,
            self.wf() && ray.wf() ==> -DISTANCE_LIMIT <= self.hit_t(ray) <= DISTANCE_LIMIT,
    {
        let (e1, e2) = (self.e1.exact(), self.e2.exact());
        lemma_weights_in_range(e1, e2, ray.direction.exact(), self.offset(ray));
        if self.wf() && ray.wf() {
            lemma_distance_bound(e1, e2, ray.direction.exact(), self.offset(ray));
        }
    }

    /// A ray parallel to the triangle's plane meets nothing, wherever it
    /// starts, and neither does a ray that leaves the plane by no more
    /// than the threshold.
    pub proof fn lemma_parallel_ray_misses(self, ray: Ray)
        requires
            magnitude(self.slope(ray)) <= DET_EPSILON,
        ensures
            !self.hits(ray),
    {
        lemma_parallel_ray_misses(
            self.e1.exact(),
            self.e2.exact(),
            ray.direction.exact(),
            self.offset(ray),
        );
    }

    /// A triangle without area meets no ray.
    pub proof fn lemma_flat_triangle_misses(self, ray: Ray)
        requires
            self.e1.exact().cross(self.e2.exact()) == (Triple { x: 0, y: 0, z: 0 }),
        ensures
            !self.hits(ray),
    {
        lemma_flat_triangle_misses(
            self.e1.exact(),
            self.e2.exact(),
            ray.direction.exact(),
            self.offset(ray),
        );
    }

    /// At a vertex the shading normal is that vertex's own normal,
    /// brought to unit length and carried out through the ancestors.
    pub proof fn lemma_normal_at_vertices(self)
        ensures
            self.local_normal(0, 0) == self.n1.normalized(),
            self.local_normal(ONE as int, 0) == self.n2.normalized(),
            self.local_normal(0, ONE as int) == self.n3.normalized(),
            self.normal_spec(0, 0) == normal_to_world_spec(
                self.parent_inverses,
                self.n1.normalized(),
            ),
            self.normal_spec(ONE as int, 0) == normal_to_world_spec(
                self.parent_inverses,
                self.n2.normalized(),
            ),
            self.normal_spec(0, ONE as int) == normal_to_world_spec(
                self.parent_inverses,
                self.n3.normalized(),
            ),
            self.unattached() ==> self.normal_spec(0, 0) == self.n1.normalized(),
            self.unattached() ==> self.normal_spec(ONE as int, 0) == self.n2.normalized(),
            self.unattached() ==> self.normal_spec(0, ONE as int) == self.n3.normalized(),
    {
        let rest = ONE - ONE - 0;
        assert(self.n1.exact().scale(rest) == (Triple { x: 0, y: 0, z: 0 })
            && self.n1.exact().scale(ONE - 0 - ONE) == (Triple { x: 0, y: 0, z: 0 }))
            by (nonlinear_arith)
            requires
                rest == 0,
                ONE - 0 - ONE == 0,
        ;
        assert(self.blended(0, 0) == self.n1.exact().scale(ONE as int));
        assert(self.blended(ONE as int, 0) == self.n2.exact().scale(ONE as int));
        assert(self.blended(0, ONE as int) == self.n3.exact().scale(ONE as int));
        lemma_unit_scale(self.n1.exact(), ONE as int);
        lemma_unit_scale(self.n2.exact(), ONE as int);
        lemma_unit_scale(self.n3.exact(), ONE as int);
    }

    /// A triangle has two faces. A ray turned round, from an origin `k`
    /// steps further along the first ray, meets the triangle exactly
    /// where the first ray does, with the same weights. Where the second
    /// origin lies as far behind the triangle as the first lies in front
    /// of it, the two distances are the same.
    pub proof fn lemma_both_faces(self, ray: Ray, back: Ray, k: int)
        requires
            back.direction.exact() == ray.direction.exact().negated(),
            back.origin.exact() == ray.origin.exact().plus(ray.direction.exact().scale(k)),
        ensures
            self.hits(back) == self.hits(ray),
            self.hits(ray) ==> self.hit_u(back) == self.hit_u(ray),
            self.hits(ray) ==> self.hit_v(back) == self.hit_v(ray),
            self.hits(ray) && 2 * t_numerator(self.e1.exact(), self.e2.exact(), self.offset(ray))
                == k * determinant(self.e1.exact(), self.e2.exact(), ray.direction.exact())
                ==> self.hit_t(back) == self.hit_t(ray),
    {
        let d = ray.direction.exact();
        let s = self.offset(ray);
        assert(self.offset(back) == s.plus(d.scale(k)));
        lemma_reversed_ray(self.e1.exact(), self.e2.exact(), d, s, k);
    }

    /// Which way a triangle is wound makes no difference to what meets
    /// it. With the second and third vertex exchanged the same rays meet
    /// it, at the same distance; the two weights change places with the
    /// vertices, and the shading normal is the same.
    pub proof fn lemma_winding_is_free(self, ray: Ray)
        ensures
            self.rewound().hits(ray) == self.hits(ray),
            self.hits(ray) ==> self.rewound().hit_t(ray) == self.hit_t(ray),
            self.hits(ray) ==> self.rewound().hit_u(ray) == self.hit_v(ray),
            self.hits(ray) ==> self.rewound().hit_v(ray) == self.hit_u(ray),
            forall|u: int, v: int| #[trigger]
                self.rewound().normal_spec(v, u) == self.normal_spec(u, v),
    {
        lemma_sides_agree(
            self.e1.exact(),
            self.e2.exact(),
            ray.direction.exact(),
            self.offset(ray),
        );
        assert forall|u: int, v: int| #[trigger]
            self.rewound().normal_spec(v, u) == self.normal_spec(u, v) by {
            assert(self.rewound().blended(v, u) == self.blended(u, v));
        }
    }

    /// What joining a group does to the shading normal: the normal that
    /// the triangle had before is carried through the group's inverse
    /// transform, by the transpose of the inverse, and brought back to
    /// unit length.
    pub proof fn lemma_attached_normal(self, inverse: Matrix4x4, material: Material, u: int, v: int)
        ensures
            self.attached(inverse, material).normal_spec(u, v) == inverse.carry_normal(
                self.normal_spec(u, v),
            ),
    {
        let chain = self.parent_inverses.push(inverse);
        assert(chain.drop_last() == self.parent_inverses);
        assert(chain.last() == inverse);
    }

    /// Joining a group moves nothing: the triangle is met by the same
    /// rays, at the same distance and with the same weights, and it stays
    /// well formed where the group's inverse transform lies within the
    /// coordinate range.
    pub proof fn lemma_attached_geometry(self, inverse: Matrix4x4, material: Material, ray: Ray)
        ensures
            self.attached(inverse, material).hits(ray) == self.hits(ray),
            self.attached(inverse, material).hit_t(ray) == self.hit_t(ray),
            self.attached(inverse, material).hit_u(ray) == self.hit_u(ray),
            self.attached(inverse, material).hit_v(ray) == self.hit_v(ray),
            self.wf() && inverse.within(COORD_LIMIT as int) ==> self.attached(
                inverse,
                material,
            ).wf(),
            !self.attached(inverse, material).unattached(),
    {
    }
}

impl SmoothTriangle {
    /// The standard triangle: see `TriangleView::standard`.
    pub fn default() -> (t: SmoothTriangle)
        ensures
            t@ == TriangleView::standard(),
            t@.wf(),
            t@.unattached(),
    {
        SmoothTriangle {
            p1: Vec4 { x: 0, y: ONE, z: 0, w: ONE },
            p2: Vec4 { x: -ONE, y: 0, z: 0, w: ONE },
            p3: Vec4 { x: ONE, y: 0, z: 0, w: ONE },
            n1: Vec4 { x: 0, y: ONE, z: 0, w: 0 },
            n2: Vec4 { x: -ONE, y: 0, z: 0, w: 0 },
            n3: Vec4 { x: ONE, y: 0, z: 0, w: 0 },
            e1: Vec4 { x: -ONE, y: -ONE, z: 0, w: 0 },
            e2: Vec4 { x: ONE, y: -ONE, z: 0, w: 0 },
            material: Material::default(),
            parent_inverses: Vec::new(),
            parent_material: None,
        }
    }

    /// A triangle with the given vertices, vertex normals and material,
    /// in no group.
    pub fn new(
        p1: Vec4,
        p2: Vec4,
        p3: Vec4,
        n1: Vec4,
        n2: Vec4,
        n3: Vec4,
        material: Material,
    ) -> (t: SmoothTriangle)
        requires
            p1.within(COORD_LIMIT as int),
            p2.within(COORD_LIMIT as int),
            p3.within(COORD_LIMIT as int),
            n1.within(COORD_LIMIT as int),
            n2.within(COORD_LIMIT as int),
            n3.within(COORD_LIMIT as int),
        ensures
            t@ == (TriangleView {
                p1,
                p2,
                p3,
                n1,
                n2,
                n3,
                e1: p2.minus_spec(p1),
                e2: p3.minus_spec(p1),
                material,
                parent_inverses: Seq::empty(),
                parent_material: None,
            }),
            t.e1.exact() == p2.exact().minus(p1.exact()),
            t.e2.exact() == p3.exact().minus(p1.exact()),
            t@.wf(),
            t@.unattached(),
    {
        SmoothTriangle {
            e1: p2.minus(&p1),
            e2: p3.minus(&p1),
            p1,
            p2,
            p3,
            n1,
            n2,
            n3,
            material,
            parent_inverses: Vec::new(),
            parent_material: None,
        }
    }

    pub fn get_material(&self) -> (m: &Material)
        ensures
            *m == self.material,
    {
        &self.material
    }

    /// The triangle's own inverse transform. A triangle has no transform
    /// of its own: where it stands is a matter of its ancestors alone.
    pub fn get_inverse(&self) -> (m: Matrix4x4)
        ensures
            m == Matrix4x4::identity_spec(),
    {
        Matrix4x4::identity()
    }

    /// Where the ray meets the triangle, if it does: at most one place,
    /// on either face.
    ///
    /// The test is decided on exact determinants. A ray so nearly
    /// parallel to the triangle's plane that the determinant lies within
    /// `EPSILON_BUMP` of zero misses, and so does every ray against a
    /// triangle without area.
    pub fn intersect<'a>(&'a self, ray: &Ray) -> (found: Option<Vec<Intersection<'a>>>)
        requires
            self@.wf(),
            ray.wf(),
        ensures
            found is Some <==> self@.hits(*ray),
            found matches Some(list) ==> {
                &&& list@.len() == 1
                &&& list@[0].t == self@.hit_t(*ray)
                &&& list@[0].u == self@.hit_u(*ray)
                &&& list@[0].v == self@.hit_v(*ray)
                &&& 0 <= list@[0].u <= ONE
                &&& 0 <= list@[0].v <= ONE
                &&& list@[0].u + list@[0].v <= ONE
                &&& list@[0].point == ray.position_spec(list@[0].t)
                &&& list@[0].normal == self@.normal_spec(list@[0].u as int, list@[0].v as int)
                &&& -DISTANCE_LIMIT <= list@[0].t <= DISTANCE_LIMIT
                &&& *list@[0].object == *self
            },
    {
        let p1_to_origin = ray.origin.minus(&self.p1);
        let dir_cross_e2 = cross_exact(&ray.direction, &self.e2);
        let det = dot_exact(&self.e1, &dir_cross_e2);
        if -DET_EPSILON <= det && det <= DET_EPSILON {
            return None;
        }
        let facing: bool = det > 0;
        let span: i128 = if facing { det } else { -det };
        let u_num = dot_exact(&p1_to_origin, &dir_cross_e2);
        let u_part: i128 = if facing { u_num } else { -u_num };
        if u_part < 0 || u_part > span {
            return None;
        }
        let origin_cross_e1 = cross_exact(&p1_to_origin, &self.e1);
        let v_num = dot_exact(&ray.direction, &origin_cross_e1);
        let v_part: i128 = if facing { v_num } else { -v_num };
        if v_part < 0 || u_part + v_part > span {
            return None;
        }
        let t_num = dot_exact(&self.e2, &origin_cross_e1);
        let t_part: i128 = if facing { t_num } else { -t_num };
        proof {
            lemma_weights_in_range(
                self.e1.exact(),
                self.e2.exact(),
                ray.direction.exact(),
                self@.offset(*ray),
            );
            lemma_distance_bound(
                self.e1.exact(),
                self.e2.exact(),
                ray.direction.exact(),
                self@.offset(*ray),
            );
        }
        let u: i64 = ((u_part * 65536) / span) as i64;
        let v: i64 = ((v_part * 65536) / span) as i64;
        let t: i64 = ((t_part * 65536) / span) as i64;
        let point = ray.position(t);
        let normal = self.normal(&point, u, v);
        let mut list: Vec<Intersection<'a>> = Vec::new();
        list.push(Intersection::new_uv(t, point, normal, self, u, v));
        Some(list)
    }

    /// The shading normal at the point with barycentric weights `u` and
    /// `v`, carried out through the triangle's ancestors. The point
    /// itself is not consulted: the weights say where it lies.
    pub fn normal(&self, world_point: &Vec4, u: i64, v: i64) -> (n: Vec4)
        requires
            self@.wf(),
            0 <= u,
            0 <= v,
            u + v <= ONE,
        ensures
            n == self@.normal_spec(u as int, v as int),
            n.within(ONE as int),
    {
        let w: i64 = ONE - u - v;
        let blended = Vec4 {
            x: blend(self.n2.x, u, self.n3.x, v, self.n1.x, w),
            y: blend(self.n2.y, u, self.n3.y, v, self.n1.y, w),
            z: blend(self.n2.z, u, self.n3.z, v, self.n1.z, w),
            w: 0,
        };
        assert(blended.exact() == self@.blended(u as int, v as int));
        let local = blended.normalize();
        normal_to_world(&self.parent_inverses, &local)
    }

    pub fn get_parent_inverses(&self) -> (chain: &Vec<Matrix4x4>)
        ensures
            chain@ == self.parent_inverses@,
    {
        &self.parent_inverses
    }

    /// Adds the inverse transform of one more ancestor, outside those
    /// already there.
    pub fn push_parent_inverse(&mut self, inverse: Matrix4x4)
        ensures
            final(self)@ == (TriangleView {
                parent_inverses: old(self)@.parent_inverses.push(inverse),
                ..old(self)@
            }),
            old(self)@.wf() && inverse.within(COORD_LIMIT as int) ==> final(self)@.wf(),
    {
        self.parent_inverses.push(inverse);
    }

    pub fn get_parent_material(&self) -> (m: &Option<Material>)
        ensures
            *m == self.parent_material,
    {
        &self.parent_material
    }

    pub fn set_parent_material(&mut self, material: &Material)
        ensures
            final(self)@ == (TriangleView { parent_material: Some(*material), ..old(self)@ }),
    {
        self.parent_material = Some(*material);
    }

    /// Puts a triangle that is in no group yet into `group`. The triangle
    /// takes up the group's inverse transform as its first ancestor and
    /// the group's material as its fallback; then it becomes the group's
    /// last member. The group takes the triangle over, so that no
    /// triangle joins a second group. Ancestors further out are added
    /// with `push_parent_inverse`.
    pub fn add_to_group(self, group: &mut Group)
        requires
            self@.unattached(),
        ensures
            final(group).inverse_transform == old(group).inverse_transform,
            final(group).material == old(group).material,
            final(group).objects@.len() == old(group).objects@.len() + 1,
            forall|i: int|
                0 <= i < old(group).objects@.len() ==> final(group).objects@[i]
                    == old(group).objects@[i],
            final(group).objects@.last() matches Object::SmoothTriangle(member) && member@
                == self@.attached(old(group).inverse_transform, old(group).material),
            self@.wf() && old(group).inverse_transform.within(COORD_LIMIT as int) ==> (
            final(group).objects@.last() matches Object::SmoothTriangle(member) && member@.wf()),
    {
        let mut member = self;
        member.push_parent_inverse(*group.get_inverse());
        member.set_parent_material(&group.material);
        group.objects.push(Object::SmoothTriangle(member));
    }

    /// Tells whether `other` is a triangle equal to this one. An object
    /// of another kind is never equal to a triangle.
    pub fn eq(&self, other: &Object) -> (r: bool)
        ensures
            r == (other matches Object::SmoothTriangle(t) && t@ == self@),
    {
        match other {
            Object::SmoothTriangle(t) => t.same_as(self),
            Object::Group(_) => false,
        }
    }

    /// Tells whether two triangles agree in every field.
    pub fn same_as(&self, other: &SmoothTriangle) -> (r: bool)
        ensures
            r == (self@ == other@),
    {
        if !(self.p1 == other.p1 && self.p2 == other.p2 && self.p3 == other.p3 && self.n1
            == other.n1 && self.n2 == other.n2 && self.n3 == other.n3 && self.e1 == other.e1
            && self.e2 == other.e2 && self.material == other.material && self.parent_material
            == other.parent_material) {
            return false;
        }
        if self.parent_inverses.len() != other.parent_inverses.len() {
            return false;
        }
        let mut i: usize = 0;
        while i < self.parent_inverses.len()
            invariant
                i <= self.parent_inverses.len(),
                self.parent_inverses.len() == other.parent_inverses.len(),
                forall|j: int| 0 <= j < i ==> self.parent_inverses@[j] == other.parent_inverses@[j],
            decreases self.parent_inverses.len() - i,
        {
            if !(self.parent_inverses[i] == other.parent_inverses[i]) {
                return false;
            }
            i = i + 1;
        }
        assert(self.parent_inverses@ =~= other.parent_inverses@);
        true
    }

    /// Tells whether the triangle is well formed: see `TriangleView::wf`.
    pub fn is_wf(&self) -> (r: bool)
        ensures
            r == self@.wf(),
    {
        if !(self.p1.is_within(COORD_LIMIT) && self.p2.is_within(COORD_LIMIT)
            && self.p3.is_within(COORD_LIMIT) && self.n1.is_within(COORD_LIMIT)
            && self.n2.is_within(COORD_LIMIT) && self.n3.is_within(COORD_LIMIT)) {
            return false;
        }
        if !(self.e1 == self.p2.minus(&self.p1) && self.e2 == self.p3.minus(&self.p1)) {
            return false;
        }
        let mut i: usize = 0;
        while i < self.parent_inverses.len()
            invariant
                i <= self.parent_inverses.len(),
                forall|j: int|
                    0 <= j < i ==> (#[trigger] self.parent_inverses@[j]).within(COORD_LIMIT as int),
            decreases self.parent_inverses.len() - i,
        {
            if !self.parent_inverses[i].is_within(COORD_LIMIT) {
                return false;
            }
            i = i + 1;
        }
        true
    }
}

impl PartialEq for SmoothTriangle {
    fn eq(&self, other: &SmoothTriangle) -> (r: bool) {
        self.same_as(other)
    }
}

impl vstd::std_specs::cmp::PartialEqSpecImpl for SmoothTriangle {
    open spec fn obeys_eq_spec() -> bool {
        true
    }

    /// Two triangles are equal where they agree in every field.
    open spec fn eq_spec(&self, other: &SmoothTriangle) -> bool {
        self@ == other@
    }
}

/// One component of three vertex normals weighted by `u`, `v` and `w`.
fn blend(a: i64, u: i64, b: i64, v: i64, c: i64, w: i64) -> (r: i64)
    requires
        -COORD_LIMIT <= a <= COORD_LIMIT,
        -COORD_LIMIT <= b <= COORD_LIMIT,
        -COORD_LIMIT <= c <= COORD_LIMIT,
        0 <= u <= ONE,
        0 <= v <= ONE,
        0 <= w <= ONE,
    ensures
        r == u * a + v * b + w * c,
        -3 * (ONE * COORD_LIMIT) <= r <= 3 * (ONE * COORD_LIMIT),
{
    proof {
        lemma_product_bound(u as int, a as int, ONE as int, COORD_LIMIT as int);
        lemma_product_bound(v as int, b as int, ONE as int, COORD_LIMIT as int);
        lemma_product_bound(w as int, c as int, ONE as int, COORD_LIMIT as int);
    }
    u * a + v * b + w * c
}

} // verus!
