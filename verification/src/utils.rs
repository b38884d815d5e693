//! The scene and the recursive Whitted shading integrator: nearest hit over
//! the scene's objects, shadow rays, Blinn-Phong lighting and one mirror
//! reflection per bounce, bounded by the bounce budget.
//!
//! Secondary rays (shadow and reflection) are traced only while they stay in
//! the coordinate range the exact intersection arithmetic supports; a
//! secondary ray that leaves it contributes nothing.

use vstd::prelude::*;

use crate::composites::{tri_scan, Mesh};
use crate::fixed::{fx_max, fx_max_spec, fx_mul, fx_mul_spec, fx_pow, fx_pow_spec, FX_SCALE};
use crate::primitives::{
    par_accepts, par_hit, sphere_accepts, sphere_hit, tri_accepts, tri_hit, HitPoint, HitV, Light,
    Material, Parallelogram, Ray, Sphere, Triangle,
};
use crate::vec3::{
    v3_add, v3_cmul, v3_dot, v3_in_geom, v3_normalize, v3_scale, v3_sdiv, v3_sub, Vec3, V3,
};

verus! {

/// Offset of a spawned reflection ray along its direction, about `1e-5`.
pub const REFL_EPS: i64 = 10;

/// Rebuild a vector from its mathematical view; for views of real vectors
/// this is the inverse of `@`.
pub open spec fn v3_to_vec3(v: V3) -> Vec3 {
    Vec3 { x: v.x as i64, y: v.y as i64, z: v.z as i64 }
}

/// One object of a scene: a closed set of shapes dispatched by variant.
pub enum SceneObject {
    Sphere(Sphere),
    Parallelogram(Parallelogram),
    Triangle(Triangle),
    Mesh(Mesh),
}

impl SceneObject {
    pub open spec fn valid(&self) -> bool {
        match *self {
            SceneObject::Sphere(s) => s.valid(),
            SceneObject::Parallelogram(p) => p.valid(),
            SceneObject::Triangle(t) => t.valid(),
            SceneObject::Mesh(ref m) => m.wf(),
        }
    }
}

/// Whether the ray hits the object at all.
pub open spec fn obj_accepts(o: SceneObject, r: Ray) -> bool {
    match o {
        SceneObject::Sphere(s) => sphere_accepts(s, r),
        SceneObject::Parallelogram(p) => par_accepts(p, r),
        SceneObject::Triangle(t) => tri_accepts(t, r),
        SceneObject::Mesh(m) => tri_scan(m.triangles@, r, m.triangles@.len() as int) is Some,
    }
}

/// The distance of the object's nearest hit.
pub open spec fn obj_hit_t(o: SceneObject, r: Ray) -> int {
    match o {
        SceneObject::Sphere(s) => sphere_hit(s, r).t,
        SceneObject::Parallelogram(p) => par_hit(p, r).t,
        SceneObject::Triangle(t) => tri_hit(t, r).t,
        SceneObject::Mesh(m) => tri_scan(m.triangles@, r, m.triangles@.len() as int)->Some_0.t,
    }
}

/// `h` is a legitimate nearest-hit record for the object: an exact hit of
/// the shape (for a mesh, of one of its nearest triangles), lying on the ray.
pub open spec fn obj_good_hit(o: SceneObject, r: Ray, h: HitV) -> bool {
    &&& match o {
        SceneObject::Sphere(s) => h == sphere_hit(s, r),
        SceneObject::Parallelogram(p) => h == par_hit(p, r),
        SceneObject::Triangle(t) => h == tri_hit(t, r),
        SceneObject::Mesh(m) => (exists|k: int|
            0 <= k < m.triangles@.len() && tri_accepts(#[trigger] m.triangles@[k], r) && h
                == tri_hit(m.triangles@[k], r)),
    }
    &&& h.t == obj_hit_t(o, r)
    &&& h.point == crate::primitives::ray_at(r.origin@, r.direction@, h.t)
}

/// Nearest hit of a scan over the first `n` objects: the index of the
/// winning object and the hit distance, earlier objects winning exact ties.
pub open spec fn scene_scan(objs: Seq<SceneObject>, r: Ray, n: int) -> Option<(int, int)>
    decreases n,
{
    if n <= 0 {
        None
    } else {
        let prev = scene_scan(objs, r, n - 1);
        if obj_accepts(objs[n - 1], r) {
            let t = obj_hit_t(objs[n - 1], r);
            match prev {
                None => Some((n - 1, t)),
                Some(pr) => if t < pr.1 {
                    Some((n - 1, t))
                } else {
                    Some(pr)
                },
            }
        } else {
            prev
        }
    }
}

impl SceneObject {
    /// Nearest-hit test, dispatched to the variant's own test.
    pub fn intersects(&self, ray: &Ray) -> (r: Option<HitPoint>)
        requires
            self.valid(),
            ray.valid(),
        ensures
            (r is Some) == obj_accepts(*self, *ray),
            r matches Some(h) ==> obj_good_hit(*self, *ray, h@),
    {
        match self {
            SceneObject::Sphere(s) => s.intersects(ray),
            SceneObject::Parallelogram(p) => p.intersects(ray),
            SceneObject::Triangle(t) => t.intersects(ray),
            SceneObject::Mesh(m) => m.intersects(ray),
        }
    }
}

/// A scene: objects, point lights and an ambient color, read-only while
/// rendering.
pub struct Scene {
    pub objects: Vec<SceneObject>,
    pub lights: Vec<Light>,
    pub ambient_color: Vec3,
}

impl Scene {
    pub open spec fn wf(&self) -> bool {
        &&& forall|i: int| 0 <= i < self.objects@.len() ==> (#[trigger] self.objects@[i]).valid()
        &&& forall|i: int| 0 <= i < self.lights@.len() ==> (#[trigger] self.lights@[i]).valid()
    }

    pub fn new(objects: Vec<SceneObject>, lights: Vec<Light>, ambient_color: Vec3) -> (r: Scene)
        requires
            forall|i: int| 0 <= i < objects@.len() ==> (#[trigger] objects@[i]).valid(),
            forall|i: int| 0 <= i < lights@.len() ==> (#[trigger] lights@[i]).valid(),
        ensures
            r.wf(),
            r.objects@ == objects@,
            r.lights@ == lights@,
            r.ambient_color == ambient_color,
    {
        Scene { objects, lights, ambient_color }
    }
}

/// Nearest hit over the scene's objects by linear scan, keeping the first
/// object on exact ties.
pub fn find_closest_point(ray: &Ray, objects: &Vec<SceneObject>) -> (r: Option<(usize, HitPoint)>)
    requires
        ray.valid(),
        forall|i: int| 0 <= i < objects@.len() ==> (#[trigger] objects@[i]).valid(),
    ensures
        match (r, scene_scan(objects@, *ray, objects@.len() as int)) {
            (Some((i, h)), Some(sc)) => i as int == sc.0 && h@.t == sc.1 && obj_good_hit(
                objects@[i as int],
                *ray,
                h@,
            ),
            (None, None) => true,
            _ => false,
        },
{
    let mut closest: Option<(usize, HitPoint)> = None;
    let n = objects.len();
    let mut i: usize = 0;
    while i < n
        invariant
            i <= n,
            n == objects@.len(),
            ray.valid(),
            forall|j: int| 0 <= j < objects@.len() ==> (#[trigger] objects@[j]).valid(),
            match (closest, scene_scan(objects@, *ray, i as int)) {
                (Some((ci, h)), Some(sc)) => ci as int == sc.0 && h@.t == sc.1 && obj_good_hit(
                    objects@[ci as int],
                    *ray,
                    h@,
                ),
                (None, None) => true,
                _ => false,
            },
        decreases n - i,
    {
        let hit = objects[i].intersects(ray);
        match hit {
            Some(h) => {
                let take = match &closest {
                    None => true,
                    Some((_, c)) => h.t < c.t,
                };
                if take {
                    closest = Some((i, h));
                }
            },
            None => {},
        }
        i = i + 1;
    }
    closest
}

/// The shadow ray from a point toward a light.
pub open spec fn shadow_ray(light: Light, point: Vec3) -> Ray {
    Ray {
        origin: point,
        direction: v3_to_vec3(v3_normalize(v3_sub(light.position@, point@))),
    }
}

/// The light is visible from the point: the shadow ray stays in range, and
/// no object's hit lies closer to the point than the light is.
pub open spec fn light_visible(light: Light, point: Vec3, objs: Seq<SceneObject>) -> bool {
    let lr = shadow_ray(light, point);
    if !lr.valid() {
        false
    } else {
        match scene_scan(objs, lr, objs.len() as int) {
            None => true,
            Some(sc) => {
                let hp = crate::primitives::ray_at(lr.origin@, lr.direction@, sc.1);
                let dh = v3_sub(hp, point@);
                let dl = v3_sub(light.position@, point@);
                v3_dot(dh, dh) > v3_dot(dl, dl)
            },
        }
    }
}

/// Cast a shadow ray from `point` toward the light and report whether the
/// light contributes: no intersection may lie between the point and the
/// light.
pub fn is_light_visible(light: &Light, point: &Vec3, objects: &Vec<SceneObject>) -> (r: bool)
    requires
        forall|i: int| 0 <= i < objects@.len() ==> (#[trigger] objects@[i]).valid(),
    ensures
        r == light_visible(*light, *point, objects@),
{
    let dir = light.position.sub(point).normalize();
    let light_ray = Ray::new(*point, dir);
    proof {
        assert(light_ray == shadow_ray(*light, *point));
    }
    if !light_ray.is_valid() {
        return false;
    }
    let ans = find_closest_point(&light_ray, objects);
    match ans {
        Some((_, hit_point)) => {
            let dh = hit_point.point.sub(point);
            let dl = light.position.sub(point);
            dh.dot(&dh) > dl.dot(&dl)
        },
        None => true,
    }
}

/// Diffuse-plus-specular contribution of one visible light at a hit,
/// modulated by the light's color and attenuated by squared distance.
pub open spec fn light_term(light: Light, mat: Material, ray: Ray, h: HitV) -> V3 {
    let lv = v3_normalize(v3_sub(light.position@, h.point));
    let bisector = v3_normalize(v3_sub(lv, ray.direction@));
    let diffuse_coeff = fx_max_spec(v3_dot(h.normal, lv), 0);
    let specular_coeff = fx_pow_spec(
        fx_max_spec(v3_dot(h.normal, bisector), 0),
        mat.specular_exponent as nat,
    );
    let diffuse = v3_scale(diffuse_coeff, mat.diffuse_color@);
    let specular = v3_scale(specular_coeff, mat.specular_color@);
    v3_sdiv(
        v3_cmul(light.color@, v3_add(diffuse, specular)),
        light_att(light, h),
    )
}

/// Squared distance from the hit to the light, the attenuation divisor.
pub open spec fn light_att(light: Light, h: HitV) -> int {
    let dv = v3_sub(light.position@, h.point);
    v3_dot(dv, dv)
}

/// Sum of the contributions of the first `n` lights, in order; an occluded
/// light, or one at zero squared distance, contributes nothing.
pub open spec fn lights_acc(
    objs: Seq<SceneObject>,
    lights: Seq<Light>,
    mat: Material,
    ray: Ray,
    h: HitV,
    n: int,
) -> V3
    decreases n,
{
    if n <= 0 {
        V3 { x: 0, y: 0, z: 0 }
    } else {
        let prev = lights_acc(objs, lights, mat, ray, h, n - 1);
        let light = lights[n - 1];
        if light_visible(light, v3_to_vec3(h.point), objs) && light_att(light, h) != 0 {
            v3_add(prev, light_term(light, mat, ray, h))
        } else {
            prev
        }
    }
}

/// The nearest scene hit `h` that `find_closest_point` reports for this ray.
pub open spec fn closest_hit_ok(objs: Seq<SceneObject>, ray: Ray, h: HitV) -> bool {
    match scene_scan(objs, ray, objs.len() as int) {
        None => false,
        Some(sc) => obj_good_hit(objs[sc.0], ray, h) && h.t == sc.1,
    }
}

/// Direction of the mirror reflection of `ray` at the hit.
pub open spec fn reflect_dir(ray: Ray, h: HitV) -> V3 {
    v3_normalize(
        v3_sub(
            ray.direction@,
            v3_scale(fx_mul_spec(2 * FX_SCALE, v3_dot(h.normal, ray.direction@)), h.normal),
        ),
    )
}

/// The spawned reflection ray, offset from the hit point along its
/// direction.
pub open spec fn reflect_ray(ray: Ray, h: HitV) -> Ray {
    Ray {
        origin: v3_to_vec3(v3_add(h.point, v3_scale(REFL_EPS as int, reflect_dir(ray, h)))),
        direction: v3_to_vec3(reflect_dir(ray, h)),
    }
}

/// The zero color.
pub open spec fn v3_zero() -> V3 {
    V3 { x: 0, y: 0, z: 0 }
}

/// Modulating the zero color yields the zero color.
pub proof fn lemma_cmul_zero(c: V3)
    ensures
        v3_cmul(c, v3_zero()) == v3_zero(),
{
}

/// A color with an alpha channel, in fixed point.
#[derive(Clone, Copy, Debug, PartialEq, Eq, Structural)]
pub struct Rgba {
    pub color: Vec3,
    pub alpha: i64,
}

/// Shoot a ray into the scene and shade what it hits: nearest hit, ambient
/// term, per-light shadowed Blinn-Phong contributions, and one mirror
/// reflection per remaining bounce.
///
/// The contract pins the result: a miss is the transparent background; a
/// hit is `material.ambient (.) scene.ambient`, plus the sum over visible
/// lights of the Blinn-Phong terms, plus the reflection color modulated by
/// the color `sub_c` of the bounced ray. With a bounce budget of zero the
/// reflection branch is never evaluated and `sub_c` is exactly zero, as it
/// also is for a reflection ray that leaves the supported coordinate range.
#[verifier::spinoff_prover]
#[verifier::rlimit(60)]
pub fn shoot_ray(ray: &Ray, scene: &Scene, material: &Material, max_bounce: usize) -> (r: Rgba)
    requires
        scene.wf(),
        ray.valid(),
    ensures
        (scene_scan(scene.objects@, *ray, scene.objects@.len() as int) is None) ==> (r.color@
            == v3_zero() && r.alpha == 0),
        (scene_scan(scene.objects@, *ray, scene.objects@.len() as int) is Some) ==> r.alpha
            == FX_SCALE,
        (scene_scan(scene.objects@, *ray, scene.objects@.len() as int) is Some) ==> (exists|
            h: HitV,
            sub_c: V3,
        |
            #![trigger closest_hit_ok(scene.objects@, *ray, h), v3_cmul(material.reflection_color@, sub_c)]
            closest_hit_ok(scene.objects@, *ray, h) && r.color@ == v3_add(
                v3_add(
                    v3_cmul(material.ambient_color@, scene.ambient_color@),
                    lights_acc(
                        scene.objects@,
                        scene.lights@,
                        *material,
                        *ray,
                        h,
                        scene.lights@.len() as int,
                    ),
                ),
                v3_cmul(material.reflection_color@, sub_c),
            ) && (max_bounce == 0 ==> sub_c == v3_zero()) && (!reflect_ray(*ray, h).valid()
                ==> sub_c == v3_zero())),
    decreases max_bounce,
{
    let ans = find_closest_point(ray, &scene.objects);
    match ans {
        Some((_, hit_point)) => {
            let ghost h = hit_point@;
            let ambient = material.ambient_color.cmul(&scene.ambient_color);
            let mut lights_color = Vec3 { x: 0, y: 0, z: 0 };
            let nl = scene.lights.len();
            let mut li: usize = 0;
            while li < nl
                invariant
                    scene.wf(),
                    nl == scene.lights@.len(),
                    li <= nl,
                    lights_color@ == lights_acc(
                        scene.objects@,
                        scene.lights@,
                        *material,
                        *ray,
                        h,
                        li as int,
                    ),
                    hit_point@ == h,
                decreases nl - li,
            {
                let light = &scene.lights[li];
                if is_light_visible(light, &hit_point.point, &scene.objects) {
                    let light_vector = light.position.sub(&hit_point.point).normalize();
                    let bisector_direction = light_vector.sub(&ray.direction).normalize();
                    let diffuse_coeff = fx_max(hit_point.normal.dot(&light_vector), 0);
                    let specular_coeff = fx_pow(
                        fx_max(hit_point.normal.dot(&bisector_direction), 0),
                        material.specular_exponent,
                    );
                    let diffuse = material.diffuse_color.scale(diffuse_coeff);
                    let specular = material.specular_color.scale(specular_coeff);
                    let att_vec = light.position.sub(&hit_point.point);
                    let attenuation = att_vec.dot(&att_vec);
                    if attenuation != 0 {
                        let lterm = light.color.cmul(&diffuse.add(&specular)).sdiv(attenuation);
                        lights_color = lights_color.add(&lterm);
                    }
                }
                li = li + 1;
            }
            let mut reflection_color = Vec3 { x: 0, y: 0, z: 0 };
            let ghost mut sub_color = v3_zero();
            let ghost mut refl_traced = false;
            if max_bounce > 0 {
                let ndotd = hit_point.normal.dot(&ray.direction);
                let reflection_direction = ray.direction.sub(
                    &hit_point.normal.scale(fx_mul(2 * FX_SCALE, ndotd)),
                ).normalize();
                let adjusted_origin = hit_point.point.add(
                    &reflection_direction.scale(REFL_EPS),
                );
                let reflection_ray = Ray::new(adjusted_origin, reflection_direction);
                proof {
                    assert(reflection_ray == reflect_ray(*ray, h));
                }
                if reflection_ray.is_valid() {
                    let refl = shoot_ray(&reflection_ray, scene, material, max_bounce - 1);
                    reflection_color = material.reflection_color.cmul(&refl.color);
                    proof {
                        sub_color = refl.color@;
                        refl_traced = true;
                        assert(reflect_ray(*ray, h).valid());
                    }
                } else {
                    proof {
                        assert(!reflect_ray(*ray, h).valid());
                    }
                }
            }
            let color = ambient.add(&lights_color).add(&reflection_color);
            let result = Rgba { color, alpha: FX_SCALE };
            proof {
                let objs = scene.objects@;
                let ls = scene.lights@;
                assert(closest_hit_ok(objs, *ray, h));
                lemma_cmul_zero(material.reflection_color@);
                if !refl_traced {
                    assert(reflection_color@ == v3_cmul(material.reflection_color@, v3_zero()));
                }
                assert(reflection_color@ == v3_cmul(material.reflection_color@, sub_color));
                assert(result.color@ == v3_add(
                    v3_add(
                        v3_cmul(material.ambient_color@, scene.ambient_color@),
                        lights_acc(objs, ls, *material, *ray, h, ls.len() as int),
                    ),
                    v3_cmul(material.reflection_color@, sub_color),
                ));
            }
            result
        },
        None => {
            Rgba { color: Vec3 { x: 0, y: 0, z: 0 }, alpha: 0 }
        },
    }
}

} // verus!
