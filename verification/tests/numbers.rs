use smooth_triangles::fixed::isqrt;
use smooth_triangles::fixed::COORD_LIMIT;
use smooth_triangles::fixed::DISTANCE_LIMIT;
use smooth_triangles::fixed::NORMALIZE_LIMIT;
use smooth_triangles::fixed::ONE;
use smooth_triangles::ray::Ray;
use smooth_triangles::vector::Vec4;

#[test]
fn isqrt_rounds_down() {
    assert_eq!(isqrt(0), 0);
    assert_eq!(isqrt(1), 1);
    assert_eq!(isqrt(3), 1);
    assert_eq!(isqrt(4), 2);
    assert_eq!(isqrt(99), 9);
    assert_eq!(isqrt(100), 10);
    assert_eq!(isqrt(1 << 31), 46340);
    assert_eq!(isqrt(u128::MAX), u64::MAX as u128);
    assert_eq!(isqrt((u64::MAX as u128) * (u64::MAX as u128) - 1), u64::MAX as u128 - 1);
}

#[test]
fn normalize_truncates_the_unit_vector() {
    let v = Vec4::new(3 * ONE, 4 * ONE, 0, 0);
    assert_eq!(v.normalize(), Vec4::new(39321, 52428, 0, 0));
    let w = Vec4::new(-ONE, 2 * ONE, -2 * ONE, 0);
    assert_eq!(w.normalize(), Vec4::new(-21845, 43690, -43690, 0));
    let axis = Vec4::new(0, 0, -5, 0);
    assert_eq!(axis.normalize(), Vec4::new(0, 0, -ONE, 0));
}

#[test]
fn normalize_does_not_depend_on_length() {
    let small = Vec4::new(3, 4, 0, 0);
    let large = Vec4::new(3 * 1000003, 4 * 1000003, 0, 0);
    assert_eq!(small.normalize(), Vec4::new(39321, 52428, 0, 0));
    assert_eq!(large.normalize(), small.normalize());
    let diagonal = Vec4::new(1, 1, 1, 0);
    assert_eq!(diagonal.normalize(), Vec4::new(37837, 37837, 37837, 0));
    let huge = Vec4::new(NORMALIZE_LIMIT, NORMALIZE_LIMIT, NORMALIZE_LIMIT, 0);
    assert_eq!(huge.normalize(), diagonal.normalize());
}

#[test]
fn normalize_of_nothing_is_nothing() {
    assert_eq!(Vec4::new(0, 0, 0, ONE).normalize(), Vec4::new(0, 0, 0, 0));
}

#[test]
fn normalize_drops_the_homogeneous_component() {
    assert_eq!(Vec4::new(0, 7, 0, ONE).normalize(), Vec4::new(0, ONE, 0, 0));
}

#[test]
fn minus_is_componentwise() {
    let a = Vec4::new(5, -7, 9, ONE);
    let b = Vec4::new(-1, 2, 10, ONE);
    assert_eq!(a.minus(&b), Vec4::new(6, -9, -1, 0));
}

#[test]
fn is_within_takes_the_bound_itself() {
    let edge = Vec4::new(COORD_LIMIT, -COORD_LIMIT, 0, 0);
    assert!(edge.is_within(COORD_LIMIT));
    assert!(!Vec4::new(COORD_LIMIT + 1, 0, 0, 0).is_within(COORD_LIMIT));
    assert!(!Vec4::new(0, 0, 0, -COORD_LIMIT - 1).is_within(COORD_LIMIT));
}

#[test]
fn position_steps_along_the_direction() {
    let ray = Ray::new(Vec4::new(2 * ONE, 3 * ONE, 4 * ONE, ONE), Vec4::new(ONE, 0, -ONE / 2, 0));
    assert_eq!(ray.position(0), ray.origin);
    assert_eq!(ray.position(ONE), Vec4::new(3 * ONE, 3 * ONE, 7 * ONE / 2, ONE));
    assert_eq!(ray.position(-2 * ONE), Vec4::new(0, 3 * ONE, 5 * ONE, ONE));
    assert_eq!(ray.position(5 * ONE / 2), Vec4::new(9 * ONE / 2, 3 * ONE, 11 * ONE / 4, ONE));
}

#[test]
fn position_rounds_each_product_toward_zero() {
    let ray = Ray::new(Vec4::new(0, 0, 0, ONE), Vec4::new(3, -3, 1, 0));
    assert_eq!(ray.position(ONE / 2), Vec4::new(1, -1, 0, ONE));
    assert_eq!(ray.position(-ONE / 2), Vec4::new(-1, 1, 0, ONE));
}

#[test]
fn position_reaches_the_limits() {
    let ray = Ray::new(
        Vec4::new(COORD_LIMIT, -COORD_LIMIT, 0, ONE),
        Vec4::new(COORD_LIMIT, -COORD_LIMIT, 1, 0),
    );
    assert!(ray.is_wf());
    let far = ray.position(DISTANCE_LIMIT);
    assert_eq!(far.x, COORD_LIMIT + (1i64 << 62));
    assert_eq!(far.y, -COORD_LIMIT - (1i64 << 62));
    assert_eq!(far.z, 1i64 << 32);
}

#[test]
fn ray_outside_the_range_is_not_well_formed() {
    let ray = Ray::new(Vec4::new(COORD_LIMIT + 1, 0, 0, ONE), Vec4::new(0, 0, ONE, 0));
    assert!(!ray.is_wf());
}
