use smooth_triangles::fixed::COORD_LIMIT;
use smooth_triangles::fixed::ONE;
use smooth_triangles::group::Group;
use smooth_triangles::group::Object;
use smooth_triangles::material::Material;
use smooth_triangles::matrix::normal_to_world;
use smooth_triangles::matrix::Matrix4x4;
use smooth_triangles::ray::Ray;
use smooth_triangles::smooth_triangle::SmoothTriangle;
use smooth_triangles::vector::Vec4;

fn rows(m: [[i64; 3]; 3]) -> Matrix4x4 {
    Matrix4x4 {
        r0: Vec4::new(m[0][0], m[0][1], m[0][2], 0),
        r1: Vec4::new(m[1][0], m[1][1], m[1][2], 0),
        r2: Vec4::new(m[2][0], m[2][1], m[2][2], 0),
        r3: Vec4::new(0, 0, 0, ONE),
    }
}

/// The inverse of doubling along y.
fn halve_y() -> Matrix4x4 {
    rows([[ONE, 0, 0], [0, ONE / 2, 0], [0, 0, ONE]])
}

/// The inverse of a quarter turn about z.
fn turn_back() -> Matrix4x4 {
    rows([[0, ONE, 0], [-ONE, 0, 0], [0, 0, ONE]])
}

fn tilted() -> SmoothTriangle {
    let n = Vec4::new(ONE, ONE, 0, 0);
    SmoothTriangle::new(
        Vec4::new(0, ONE, 0, ONE),
        Vec4::new(-ONE, 0, 0, ONE),
        Vec4::new(ONE, 0, 0, ONE),
        n,
        n,
        n,
        Material::default(),
    )
}

fn member(group: &Group, index: usize) -> &SmoothTriangle {
    match &group.objects[index] {
        Object::SmoothTriangle(t) => t,
        Object::Group(_) => panic!("a triangle was put there"),
    }
}

#[test]
fn normal_at_each_vertex_is_that_vertex_normal() {
    let triangle = SmoothTriangle::new(
        Vec4::new(0, ONE, 0, ONE),
        Vec4::new(-ONE, 0, 0, ONE),
        Vec4::new(ONE, 0, 0, ONE),
        Vec4::new(0, 3 * ONE, 0, 0),
        Vec4::new(-5, 0, 0, 0),
        Vec4::new(0, 0, 7 * ONE, 0),
        Material::default(),
    );
    let anywhere = Vec4::new(0, 0, 0, ONE);
    assert_eq!(triangle.normal(&anywhere, 0, 0), triangle.n1.normalize());
    assert_eq!(triangle.normal(&anywhere, ONE, 0), triangle.n2.normalize());
    assert_eq!(triangle.normal(&anywhere, 0, ONE), triangle.n3.normalize());
    assert_eq!(triangle.normal(&anywhere, 0, 0), Vec4::new(0, ONE, 0, 0));
    assert_eq!(triangle.normal(&anywhere, ONE, 0), Vec4::new(-ONE, 0, 0, 0));
    assert_eq!(triangle.normal(&anywhere, 0, ONE), Vec4::new(0, 0, ONE, 0));
}

#[test]
fn normal_at_a_vertex_with_a_slanted_normal() {
    let triangle = SmoothTriangle::new(
        Vec4::new(0, ONE, 0, ONE),
        Vec4::new(-ONE, 0, 0, ONE),
        Vec4::new(ONE, 0, 0, ONE),
        Vec4::new(ONE, 2 * ONE, 2 * ONE, 0),
        Vec4::new(-ONE, 0, 0, 0),
        Vec4::new(ONE, 0, 0, 0),
        Material::default(),
    );
    let anywhere = Vec4::new(0, 0, 0, ONE);
    assert_eq!(triangle.normal(&anywhere, 0, 0), Vec4::new(21845, 43690, 43690, 0));
}

#[test]
fn normal_inside_blends_the_vertex_normals() {
    let triangle = SmoothTriangle::default();
    let anywhere = Vec4::new(0, 0, 0, ONE);
    assert_eq!(triangle.normal(&anywhere, ONE / 4, ONE / 4), Vec4::new(0, ONE, 0, 0));
    assert_eq!(triangle.normal(&anywhere, 29491, 16384), Vec4::new(-36352, 54529, 0, 0));
}

#[test]
fn normal_ignores_the_point() {
    let triangle = SmoothTriangle::default();
    let here = Vec4::new(0, 0, 0, ONE);
    let there = Vec4::new(COORD_LIMIT, -7, 12, ONE);
    assert_eq!(triangle.normal(&here, 1000, 2000), triangle.normal(&there, 1000, 2000));
}

#[test]
fn normal_of_opposed_vertex_normals_can_vanish() {
    let triangle = SmoothTriangle::default();
    let anywhere = Vec4::new(0, 0, 0, ONE);
    assert_eq!(triangle.normal(&anywhere, ONE / 2, ONE / 2), Vec4::new(0, 0, 0, 0));
}

#[test]
fn transform_normal_applies_the_transposed_inverse() {
    let before = Vec4::new(46340, 46340, 0, 0);
    assert_eq!(halve_y().transform_normal(&before), Vec4::new(58617, 29308, 0, 0));
    assert_eq!(turn_back().transform_normal(&before), Vec4::new(-ONE, ONE, 0, 0).normalize());
    assert!(Matrix4x4::identity().is_within(COORD_LIMIT));
    assert_eq!(Matrix4x4::identity().transform_normal(&before), before.normalize());
}

#[test]
fn transform_normal_uses_columns_not_rows() {
    let shear = rows([[ONE, ONE, 0], [0, ONE, 0], [0, 0, ONE]]);
    let along_x = Vec4::new(ONE, 0, 0, 0);
    assert_eq!(shear.transform_normal(&along_x), Vec4::new(46340, 46340, 0, 0));
    let along_y = Vec4::new(0, ONE, 0, 0);
    assert_eq!(shear.transform_normal(&along_y), Vec4::new(0, ONE, 0, 0));
}

#[test]
fn attached_triangle_carries_its_normal_through_the_group() {
    let standalone = tilted();
    let anywhere = Vec4::new(0, 0, 0, ONE);
    let before = standalone.normal(&anywhere, ONE / 4, ONE / 4);
    assert_eq!(before, Vec4::new(46340, 46340, 0, 0));
    let mut group = Group::new(halve_y(), Material::new(3));
    standalone.add_to_group(&mut group);
    let after = member(&group, 0).normal(&anywhere, ONE / 4, ONE / 4);
    assert_eq!(after, halve_y().transform_normal(&before));
    assert_eq!(after, Vec4::new(58617, 29308, 0, 0));
}

#[test]
fn attached_triangle_reports_the_carried_normal_when_hit() {
    let mut group = Group::new(halve_y(), Material::new(3));
    tilted().add_to_group(&mut group);
    let ray = Ray::new(Vec4::new(0, ONE / 2, -2 * ONE, ONE), Vec4::new(0, 0, ONE, 0));
    let triangle = member(&group, 0);
    assert!(triangle.is_wf());
    let found = triangle.intersect(&ray).unwrap();
    assert_eq!(found[0].normal, Vec4::new(58617, 29308, 0, 0));
    assert_eq!(found[0].t, 2 * ONE);
}

#[test]
fn nested_groups_apply_the_innermost_first() {
    let anywhere = Vec4::new(0, 0, 0, ONE);
    let mut inner = Group::new(halve_y(), Material::new(1));
    tilted().add_to_group(&mut inner);
    match &mut inner.objects[0] {
        Object::SmoothTriangle(t) => t.push_parent_inverse(turn_back()),
        Object::Group(_) => panic!("a triangle was put there"),
    }
    let nested = member(&inner, 0);
    assert_eq!(nested.parent_inverses, vec![halve_y(), turn_back()]);
    let local = Vec4::new(46340, 46340, 0, 0);
    let expected = turn_back().transform_normal(&halve_y().transform_normal(&local));
    assert_eq!(nested.normal(&anywhere, ONE / 4, ONE / 4), expected);
    assert_eq!(expected, Vec4::new(-29308, 58617, 0, 0));
    let other_order = halve_y().transform_normal(&turn_back().transform_normal(&local));
    assert_eq!(other_order, Vec4::new(-58617, 29308, 0, 0));
    assert_ne!(expected, other_order);
}

#[test]
fn normal_to_world_of_no_ancestors_changes_nothing() {
    let n = Vec4::new(1234, -5, 99, 0);
    assert_eq!(normal_to_world(&Vec::new(), &n), n);
}

#[test]
fn normal_to_world_walks_the_chain_in_order() {
    let n = Vec4::new(46340, 46340, 0, 0);
    assert_eq!(normal_to_world(&vec![halve_y(), turn_back()], &n), Vec4::new(-29308, 58617, 0, 0));
    assert_eq!(normal_to_world(&vec![turn_back(), halve_y()], &n), Vec4::new(-58617, 29308, 0, 0));
}
