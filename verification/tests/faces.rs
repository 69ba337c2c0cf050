use smooth_triangles::fixed::ONE;
use smooth_triangles::material::Material;
use smooth_triangles::ray::Ray;
use smooth_triangles::smooth_triangle::SmoothTriangle;
use smooth_triangles::vector::Vec4;

fn spot(x: i64, y: i64, z: i64) -> Vec4 {
    Vec4::new(x, y, z, ONE)
}

fn way(x: i64, y: i64, z: i64) -> Vec4 {
    Vec4::new(x, y, z, 0)
}

fn unit_corner() -> SmoothTriangle {
    let up = way(0, 0, ONE);
    SmoothTriangle::new(
        spot(0, 0, 0),
        spot(ONE, 0, 0),
        spot(0, ONE, 0),
        up,
        up,
        up,
        Material::default(),
    )
}

#[test]
fn front_and_back_hit_alike() {
    let triangle = SmoothTriangle::default();
    let front = Ray::new(spot(0, ONE / 2, -2 * ONE), way(0, 0, ONE));
    let back = Ray::new(spot(0, ONE / 2, 2 * ONE), way(0, 0, -ONE));
    let a = triangle.intersect(&front).unwrap();
    let b = triangle.intersect(&back).unwrap();
    assert_eq!(a[0].t, 2 * ONE);
    assert_eq!(a[0].t, b[0].t);
    assert_eq!((a[0].u, a[0].v), (b[0].u, b[0].v));
    assert_eq!(a[0].point, b[0].point);
    assert_eq!(a[0].normal, b[0].normal);
}

#[test]
fn front_and_back_hit_alike_on_a_slant() {
    let triangle = SmoothTriangle::default();
    let step = way(-6554, 6554, ONE);
    let front = Ray::new(spot(19661, 13107, -3 * ONE), step);
    let a = triangle.intersect(&front).unwrap();
    assert_eq!(a[0].t, 3 * ONE);
    let behind = spot(19661 + 6 * step.x, 13107 + 6 * step.y, -3 * ONE + 6 * step.z);
    let back = Ray::new(behind, way(-step.x, -step.y, -step.z));
    let b = triangle.intersect(&back).unwrap();
    assert_eq!(b[0].t, a[0].t);
    assert_eq!((b[0].u, b[0].v), (a[0].u, a[0].v));
}

#[test]
fn front_and_back_miss_alike() {
    let triangle = SmoothTriangle::default();
    let front = Ray::new(spot(ONE, ONE, -2 * ONE), way(0, 0, ONE));
    let back = Ray::new(spot(ONE, ONE, 2 * ONE), way(0, 0, -ONE));
    assert!(triangle.intersect(&front).is_none());
    assert!(triangle.intersect(&back).is_none());
}

#[test]
fn winding_does_not_matter() {
    let one = SmoothTriangle::default();
    let other = SmoothTriangle::new(
        one.p1,
        one.p3,
        one.p2,
        one.n1,
        one.n3,
        one.n2,
        Material::default(),
    );
    let ray = Ray::new(spot(19661, 13107, -3 * ONE), way(-6554, 6554, ONE));
    let a = one.intersect(&ray).unwrap();
    let b = other.intersect(&ray).unwrap();
    assert_eq!((a[0].t, a[0].u, a[0].v), (196608, 16384, 16383));
    assert_eq!((b[0].t, b[0].u, b[0].v), (196608, 16383, 16384));
    assert_eq!(a[0].point, b[0].point);
    assert_eq!(a[0].normal, b[0].normal);
}

#[test]
fn ray_in_the_plane_misses() {
    let triangle = SmoothTriangle::default();
    let along = Ray::new(spot(-2 * ONE, ONE / 2, 0), way(ONE, 0, 0));
    assert!(triangle.intersect(&along).is_none());
    let askew = Ray::new(spot(0, ONE / 2, -ONE), way(ONE, ONE, 0));
    assert!(triangle.intersect(&askew).is_none());
    let still = Ray::new(spot(0, ONE / 2, 0), way(0, 0, 0));
    assert!(triangle.intersect(&still).is_none());
}

#[test]
fn ray_within_the_threshold_of_the_plane_misses() {
    let triangle = unit_corner();
    let at_threshold = Ray::new(spot(100, 100, -35), way(0, 0, 7));
    assert!(triangle.intersect(&at_threshold).is_none());
    let turned = Ray::new(spot(100, 100, 35), way(0, 0, -7));
    assert!(triangle.intersect(&turned).is_none());
}

#[test]
fn ray_just_clear_of_the_threshold_hits() {
    let triangle = unit_corner();
    let clear = Ray::new(spot(100, 100, -40), way(0, 0, 8));
    let found = triangle.intersect(&clear).unwrap();
    assert_eq!((found[0].t, found[0].u, found[0].v), (5 * ONE, 100, 100));
    assert_eq!(found[0].point, spot(100, 100, 0));
    let turned = Ray::new(spot(100, 100, 40), way(0, 0, -8));
    let again = triangle.intersect(&turned).unwrap();
    assert_eq!((again[0].t, again[0].u, again[0].v), (5 * ONE, 100, 100));
}

#[test]
fn triangle_without_area_is_never_hit() {
    let up = way(0, 0, ONE);
    let line = SmoothTriangle::new(
        spot(-ONE, 0, 0),
        spot(0, 0, 0),
        spot(ONE, 0, 0),
        up,
        up,
        up,
        Material::default(),
    );
    assert!(line.is_wf());
    assert!(line.intersect(&Ray::new(spot(0, 0, -ONE), way(0, 0, ONE))).is_none());
    assert!(line.intersect(&Ray::new(spot(ONE / 2, 0, -ONE), way(0, 0, ONE))).is_none());
    let dot = SmoothTriangle::new(
        spot(0, 0, 0),
        spot(0, 0, 0),
        spot(0, 0, 0),
        up,
        up,
        up,
        Material::default(),
    );
    assert!(dot.intersect(&Ray::new(spot(0, 0, -ONE), way(0, 0, ONE))).is_none());
}

#[test]
fn new_derives_the_edges() {
    let up = way(0, 0, ONE);
    let triangle = SmoothTriangle::new(
        spot(10, 20, 30),
        spot(11, 18, 35),
        spot(-4, 20, 0),
        up,
        up,
        up,
        Material::new(9),
    );
    assert_eq!(triangle.e1, way(1, -2, 5));
    assert_eq!(triangle.e2, way(-14, 0, -30));
    assert_eq!(triangle.material, Material::new(9));
    assert!(triangle.parent_inverses.is_empty());
    assert_eq!(triangle.parent_material, None);
    assert!(triangle.is_wf());
}
