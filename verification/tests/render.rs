use rusty_ray::composites::Mesh;
use rusty_ray::datastructures::{AlignedBox3d, BVH};
use rusty_ray::fixed::FX_SCALE;
use rusty_ray::primitives::{Camera, CameraKind, Light, Material, Ray, Sphere, Triangle};
use rusty_ray::utils::{find_closest_point, is_light_visible, shoot_ray, Rgba, Scene, SceneObject};
use rusty_ray::vec3::Vec3;

const S: i64 = FX_SCALE;

fn v(x: i64, y: i64, z: i64) -> Vec3 {
    Vec3 { x, y, z }
}

fn quad_triangles(z: i64, half: i64) -> Vec<Triangle> {
    vec![
        Triangle::new(v(-half, -half, z), v(half, -half, z), v(half, half, z)),
        Triangle::new(v(-half, -half, z), v(half, half, z), v(-half, half, z)),
    ]
}

fn sample_mesh() -> Vec<Triangle> {
    let mut tris = quad_triangles(0, S);
    tris.extend(quad_triangles(-2 * S, 2 * S));
    tris.push(Triangle::new(v(-S, -S, 3 * S), v(S, -S, 3 * S), v(0, S, 3 * S)));
    tris
}

#[test]
fn bvh_shape_counts() {
    // n triangles yield n leaves and n-1 internal nodes: 2n-1 nodes in all.
    let tris = sample_mesh();
    let n = tris.len();
    let bvh = BVH::new(&tris);
    assert_eq!(bvh.nodes.len(), 2 * n - 1);
    let leaves = bvh.nodes.iter().filter(|nd| nd.object_idx.is_some()).count();
    let internal = bvh.nodes.iter().filter(|nd| nd.object_idx.is_none()).count();
    assert_eq!(leaves, n);
    assert_eq!(internal, n - 1);
    // Every leaf owns exactly one triangle index, and each exactly once.
    let mut seen = vec![false; n];
    for nd in bvh.nodes.iter() {
        if let Some(k) = nd.object_idx {
            assert!(nd.left.is_none() && nd.right.is_none());
            assert!(!seen[k]);
            seen[k] = true;
        } else {
            assert!(nd.left.is_some() && nd.right.is_some());
        }
    }
    // The root box contains every vertex.
    let root = &bvh.nodes[bvh.root];
    for t in &tris {
        assert!(root.bbox.contains(t.point1));
        assert!(root.bbox.contains(t.point2));
        assert!(root.bbox.contains(t.point3));
    }
}

#[test]
fn bvh_single_triangle_leaf() {
    // A hierarchy over one triangle is a single leaf whose box equals the
    // triangle's own box exactly.
    let tri = Triangle::new(v(-S, 0, 0), v(S, 0, 0), v(0, S, 0));
    let tris = vec![tri];
    let bvh = BVH::new(&tris);
    assert_eq!(bvh.nodes.len(), 1);
    let root = &bvh.nodes[bvh.root];
    assert_eq!(root.object_idx, Some(0));
    assert!(root.left.is_none() && root.right.is_none());
    let mut own = AlignedBox3d::default();
    own.extend_triangle(&tri);
    assert_eq!(root.bbox.min, own.min);
    assert_eq!(root.bbox.max, own.max);
}

#[test]
fn mesh_matches_linear_scan() {
    // The traversal is exactly the linear-scan oracle: same misses, same
    // hit distance.
    let tris = sample_mesh();
    let mesh = Mesh::new(tris.clone());
    let dirs = [
        v(0, 0, -S),
        v(0, 0, S),
        v(S / 2, S / 3, -S),
        v(-S / 4, S / 5, -S),
        v(S, 0, 0),
    ];
    let origins = [v(0, 0, 5 * S), v(S / 2, -S / 2, 4 * S), v(3 * S, 3 * S, 5 * S)];
    for o in origins.iter() {
        for d in dirs.iter() {
            let ray = Ray::new(*o, *d);
            let through_bvh = mesh.intersects(&ray);
            let mut best: Option<i64> = None;
            for t in &tris {
                if let Some(h) = t.intersects(&ray) {
                    best = Some(match best {
                        None => h.t,
                        Some(b) => {
                            if h.t < b {
                                h.t
                            } else {
                                b
                            }
                        },
                    });
                }
            }
            match (through_bvh, best) {
                (Some(h), Some(b)) => assert_eq!(h.t, b),
                (None, None) => {},
                _ => panic!("hierarchy and linear scan disagree"),
            }
        }
    }
}

#[test]
fn closest_object_wins() {
    let objects = vec![
        SceneObject::Sphere(Sphere::new(v(0, 0, -4 * S), S)),
        SceneObject::Sphere(Sphere::new(v(0, 0, 0), S)),
    ];
    let ray = Ray::new(v(0, 0, 5 * S), v(0, 0, -S));
    let (idx, hit) = find_closest_point(&ray, &objects).unwrap();
    assert_eq!(idx, 1);
    assert_eq!(hit.t, 4 * S);
}

#[test]
fn light_occlusion() {
    // A light fully behind an opaque occluder contributes nothing.
    let occluder = Triangle::new(v(-8 * S, -8 * S, 2 * S), v(8 * S, -8 * S, 2 * S), v(0, 8 * S, 2 * S));
    let objects = vec![SceneObject::Triangle(occluder)];
    let light_behind = Light::new(v(0, 0, 3 * S), v(S, S, S));
    let light_front = Light::new(v(0, 0, S), v(S, S, S));
    let point = v(0, 0, 0);
    assert!(!is_light_visible(&light_behind, &point, &objects));
    assert!(is_light_visible(&light_front, &point, &objects));
}

#[test]
fn blinn_phong_exact_value() {
    // Unit sphere at the origin, light straight along the ray: every factor
    // is exact in fixed point, so the color is exactly (1/4, 1/4, 0).
    let objects = vec![SceneObject::Sphere(Sphere::new(v(0, 0, 0), S))];
    let lights = vec![Light::new(v(0, 0, 3 * S), v(S, S, S))];
    let scene = Scene::new(objects, lights, v(0, 0, 0));
    let material = Material::new(v(0, 0, 0), v(S, 0, 0), v(0, S, 0), 4, v(0, 0, 0));
    let ray = Ray::new(v(0, 0, 5 * S), v(0, 0, -S));
    let color = shoot_ray(&ray, &scene, &material, 0);
    assert_eq!(color.alpha, S);
    assert_eq!(color.color, v(S / 4, S / 4, 0));
}

#[test]
fn occluded_light_adds_nothing() {
    // A floor lit from straight above, seen through an oblique camera ray.
    // Slipping a small occluder between the hit point and the light removes
    // the light's whole contribution, leaving exactly the ambient term.
    let floor = Triangle::new(v(-8 * S, -8 * S, 0), v(8 * S, -8 * S, 0), v(0, 8 * S, 0));
    let lights = vec![Light::new(v(0, 0, 2 * S), v(S, S, S))];
    let ambient = v(S / 2, S / 2, S / 2);
    let material = Material::new(v(S, S, S), v(S, 0, 0), v(0, 0, 0), 4, v(0, 0, 0));
    let ray = Ray::new(v(4 * S, 0, 5 * S), v(-4 * S, 0, -5 * S));
    let open_scene = Scene::new(vec![SceneObject::Triangle(floor)], lights.clone(), ambient);
    let lit = shoot_ray(&ray, &open_scene, &material, 0);
    // Hit at the origin, light straight above at distance 2: the diffuse
    // term is exactly diffuse_color / 4.
    assert_eq!(lit.color, v(S / 2 + S / 4, S / 2, S / 2));
    let occluder = Triangle::new(v(-S, -S, S), v(S, -S, S), v(0, S, S));
    let blocked_scene = Scene::new(
        vec![SceneObject::Triangle(floor), SceneObject::Triangle(occluder)],
        lights,
        ambient,
    );
    let shadowed = shoot_ray(&ray, &blocked_scene, &material, 0);
    assert_eq!(shadowed.color, v(S / 2, S / 2, S / 2));
}

#[test]
fn zero_bounce_skips_reflection() {
    // With a bounce budget of zero the reflection branch is never taken: a
    // perfectly mirroring material changes nothing at budget zero, while a
    // single bounce picks up the second sphere's color.
    let objects = vec![
        SceneObject::Sphere(Sphere::new(v(0, 0, 0), S)),
        SceneObject::Sphere(Sphere::new(v(0, 0, 4 * S), S)),
    ];
    let lights = vec![Light::new(v(0, 0, 2 * S), v(S, S, S))];
    let ambient = v(S / 4, S / 4, S / 4);
    let mirror = Material::new(v(S, S, S), v(S / 2, S / 2, S / 2), v(0, 0, 0), 4, v(S, S, S));
    let matte = Material::new(v(S, S, S), v(S / 2, S / 2, S / 2), v(0, 0, 0), 4, v(0, 0, 0));
    let scene = Scene::new(objects, lights, ambient);
    let ray = Ray::new(v(0, 0, 5 * S), v(0, 0, -S));
    let mirror_zero = shoot_ray(&ray, &scene, &mirror, 0);
    let matte_zero = shoot_ray(&ray, &scene, &matte, 0);
    let mirror_one = shoot_ray(&ray, &scene, &mirror, 1);
    assert_eq!(mirror_zero.color, matte_zero.color);
    assert_ne!(mirror_one.color, mirror_zero.color);
}

#[test]
fn background_is_transparent() {
    let scene = Scene::new(Vec::new(), Vec::new(), v(0, 0, 0));
    let material = Material::new(v(S, S, S), v(S, S, S), v(S, S, S), 4, v(0, 0, 0));
    let ray = Ray::new(v(0, 0, 5 * S), v(0, 0, -S));
    let c: Rgba = shoot_ray(&ray, &scene, &material, 3);
    assert_eq!(c.color, v(0, 0, 0));
    assert_eq!(c.alpha, 0);
}

#[test]
fn mesh_in_scene() {
    let mesh = Mesh::new(sample_mesh());
    let objects = vec![SceneObject::Mesh(mesh)];
    let ray = Ray::new(v(0, 0, 5 * S), v(0, 0, -S));
    let (_, hit) = find_closest_point(&ray, &objects).unwrap();
    // Nearest surface is the quad at z = 3 (the lone triangle), t = 2.
    assert_eq!(hit.t, 2 * S);
}

#[test]
fn camera_rays() {
    // Orthographic rays all point along -z; a perspective ray from the
    // center of the image goes through the image plane.
    let ortho = Camera::new(S / 2, S / 4, 2 * S, 4, 4, v(0, 0, 2 * S), CameraKind::ORTHOGRAPHIC);
    let r = ortho.ray(1, 2);
    assert_eq!(r.direction, v(0, 0, -S));
    let persp = Camera::new(S / 2, S / 4, 2 * S, 4, 4, v(0, 0, 2 * S), CameraKind::PERSPECTIVE);
    let r2 = persp.ray(2, 2);
    assert_eq!(r2.origin, v(0, 0, 2 * S));
    // The direction is a unit vector pointing forward (negative z).
    assert!(r2.direction.z < 0);
    let n = r2.direction.norm();
    assert!((n - S).abs() <= 4);
}
