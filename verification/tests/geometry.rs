use rusty_ray::datastructures::AlignedBox3d;
use rusty_ray::fixed::{fx_add, fx_div, fx_mul, fx_pow, fx_sqrt, FX_SCALE};
use rusty_ray::primitives::{Parallelogram, Ray, Sphere, Triangle};
use rusty_ray::vec3::Vec3;

const S: i64 = FX_SCALE;

fn v(x: i64, y: i64, z: i64) -> Vec3 {
    Vec3 { x, y, z }
}

#[test]
fn fixed_point_basics() {
    assert_eq!(fx_add(S, S), 2 * S);
    assert_eq!(fx_mul(2 * S, 3 * S), 6 * S);
    assert_eq!(fx_div(S, 4 * S), S / 4);
    assert_eq!(fx_sqrt(4 * S), 2 * S);
    assert_eq!(fx_pow(2 * S, 10), 1024 * S);
    assert_eq!(fx_pow(S, 4), S);
}

#[test]
fn vector_ops() {
    let a = v(S, 2 * S, 3 * S);
    let b = v(4 * S, 5 * S, 6 * S);
    assert_eq!(a.add(&b), v(5 * S, 7 * S, 9 * S));
    assert_eq!(a.dot(&b), 32 * S);
    assert_eq!(a.cross(&b), v(-3 * S, 6 * S, -3 * S));
    assert_eq!(v(0, 0, 2 * S).normalize(), v(0, 0, S));
    assert_eq!(v(3 * S, 4 * S, 0).norm(), 5 * S);
}

#[test]
fn sphere_axis_hit() {
    // Unit sphere at the origin, ray from (0,0,5) toward -z: hit at t = 4,
    // point (0,0,1), normal (0,0,1), all exactly.
    let sphere = Sphere::new(v(0, 0, 0), S);
    let ray = Ray::new(v(0, 0, 5 * S), v(0, 0, -S));
    let hit = sphere.intersects(&ray).unwrap();
    assert_eq!(hit.t, 4 * S);
    assert_eq!(hit.point, v(0, 0, S));
    assert_eq!(hit.normal, v(0, 0, S));
}

#[test]
fn sphere_miss_and_inside() {
    let sphere = Sphere::new(v(0, 0, 0), S);
    // Ray pointing away: no hit.
    let away = Ray::new(v(0, 0, 5 * S), v(0, 0, S));
    assert!(sphere.intersects(&away).is_none());
    // Ray starting inside: the smaller root is behind the origin, no hit.
    let inside = Ray::new(v(0, 0, 0), v(0, 0, -S));
    assert!(sphere.intersects(&inside).is_none());
    // Degenerate zero direction: no hit, no panic.
    let zero = Ray::new(v(0, 0, 5 * S), v(0, 0, 0));
    assert!(sphere.intersects(&zero).is_none());
}

#[test]
fn triangle_straight_hit() {
    let tri = Triangle::new(v(-S, -S, 0), v(S, -S, 0), v(0, S, 0));
    let ray = Ray::new(v(0, 0, 3 * S), v(0, 0, -S));
    let hit = tri.intersects(&ray).unwrap();
    assert_eq!(hit.t, 3 * S);
    assert_eq!(hit.point, v(0, 0, 0));
    // The plane normal faces the ray.
    assert_eq!(hit.normal, v(0, 0, S));
}

#[test]
fn triangle_parallel_ray_misses() {
    // A ray exactly parallel to the triangle's plane reports no
    // intersection, whatever its origin.
    let tri = Triangle::new(v(-S, -S, 0), v(S, -S, 0), v(0, S, 0));
    let dir = v(S, 0, 0);
    for &oz in &[-3 * S, 0, S / 2, 5 * S] {
        for &oy in &[-2 * S, 0, S] {
            let ray = Ray::new(v(-10 * S, oy, oz), dir);
            assert!(tri.intersects(&ray).is_none());
        }
    }
}

#[test]
fn triangle_outside_and_edge() {
    let tri = Triangle::new(v(-S, -S, 0), v(S, -S, 0), v(0, S, 0));
    // Outside the triangle: miss.
    let ray = Ray::new(v(3 * S, 0, 3 * S), v(0, 0, -S));
    assert!(tri.intersects(&ray).is_none());
    // Degenerate (zero-area) triangle: singular system, miss, no panic.
    let degenerate = Triangle::new(v(0, 0, 0), v(S, 0, 0), v(2 * S, 0, 0));
    let ray2 = Ray::new(v(S, 0, 3 * S), v(0, 0, -S));
    assert!(degenerate.intersects(&ray2).is_none());
}

#[test]
fn parallelogram_plane_hit() {
    let par = Parallelogram::new(v(-S, 0, -S), v(S, 0, -S), v(-S, 0, S));
    let ray = Ray::new(v(0, 2 * S, 0), v(0, -S, 0));
    let hit = par.intersects(&ray).unwrap();
    assert_eq!(hit.t, 2 * S);
    assert_eq!(hit.point, v(0, 0, 0));
    // Parallel ray: singular, no hit.
    let ray2 = Ray::new(v(0, 2 * S, 0), v(S, 0, 0));
    assert!(par.intersects(&ray2).is_none());
}

#[test]
fn aabb_extend_and_contains() {
    let mut b = AlignedBox3d::default();
    b.extend(v(-S, 0, S));
    b.extend(v(S, -S, 2 * S));
    assert_eq!(b.min, v(-S, -S, S));
    assert_eq!(b.max, v(S, 0, 2 * S));
    assert!(b.contains(v(0, 0, S)));
    assert!(b.contains(v(-S, -S, S)));
    assert!(!b.contains(v(0, S, S)));
}

#[test]
fn aabb_slab_test() {
    let b = AlignedBox3d::new(v(-S, -S, -S), v(S, S, S));
    // Through the contained origin.
    assert!(b.intersects(&Ray::new(v(0, 0, 5 * S), v(0, 0, -S))));
    // Offset parallel ray that misses.
    assert!(!b.intersects(&Ray::new(v(3 * S, 0, 5 * S), v(0, 0, -S))));
    // Box behind the origin: exit is behind, reject.
    assert!(!b.intersects(&Ray::new(v(0, 0, 5 * S), v(0, 0, S))));
    // Axis-aligned direction with a zero component, origin inside the slab.
    assert!(b.intersects(&Ray::new(v(0, 0, 5 * S), v(0, 0, -S))));
    // Zero direction component, origin outside that slab: reject.
    assert!(!b.intersects(&Ray::new(v(3 * S, 0, 5 * S), v(0, -S, 0))));
}
