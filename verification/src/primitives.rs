//! Rays, hit records and the geometric primitives: sphere, triangle and
//! parallelogram, each with an exact ray-intersection contract, plus lights,
//! materials and the camera.
//!
//! Ray–triangle and ray–parallelogram tests solve the 3x3 linear system with
//! columns `(P1-P2, P1-P3, d)` by Cramer's rule. All acceptance decisions are
//! made on exact integer determinants, so the contracts are exact rational
//! statements; only the returned distance, point and normal are rounded to
//! fixed point.

use vstd::prelude::*;

use crate::fixed::{
    div_trunc, fx_clip, fx_clip_exec, fx_div, fx_div_spec, fx_max_spec, fx_mul, fx_mul_spec,
    fx_neg, fx_sub, fx_sub_spec, isqrt_spec, isqrt_u128, lemma_mul_bound, div_trunc_i128,
    FX_SCALE, GEOM_MAX,
};
use crate::vec3::{
    det3, v3_add, v3_cross, v3_dot, v3_dot_exact, v3_in_geom, v3_neg, v3_normalize, v3_scale,
    v3_sub, v3_sub_exact, Vec3, V3,
};

verus! {

#[derive(Clone, Copy, Debug)]
pub enum CameraKind {
    ORTHOGRAPHIC,
    PERSPECTIVE,
}

#[derive(Clone, Copy, Debug, PartialEq, Eq, Structural)]
pub struct Ray {
    pub origin: Vec3,
    pub direction: Vec3,
}

/// The mathematical view of a `Ray`.
pub ghost struct RayV {
    pub origin: V3,
    pub direction: V3,
}

impl View for Ray {
    type V = RayV;

    open spec fn view(&self) -> RayV {
        RayV { origin: self.origin@, direction: self.direction@ }
    }
}

impl Ray {
    pub open spec fn valid(&self) -> bool {
        v3_in_geom(self.origin@) && v3_in_geom(self.direction@)
    }

    pub fn new(origin: Vec3, direction: Vec3) -> (r: Ray)
        ensures
            r.origin == origin,
            r.direction == direction,
    {
        Ray { origin, direction }
    }

    /// Runtime check of `valid`, for callers outside verified code.
    pub fn is_valid(&self) -> (r: bool)
        ensures
            r == self.valid(),
    {
        self.origin.in_geom() && self.direction.in_geom()
    }
}

#[derive(Clone, Copy, Debug, PartialEq, Eq, Structural)]
pub struct HitPoint {
    pub t: i64,
    pub point: Vec3,
    pub normal: Vec3,
}

/// The mathematical view of a `HitPoint`.
pub ghost struct HitV {
    pub t: int,
    pub point: V3,
    pub normal: V3,
}

impl View for HitPoint {
    type V = HitV;

    open spec fn view(&self) -> HitV {
        HitV { t: self.t as int, point: self.point@, normal: self.normal@ }
    }
}

/// `num / den >= 0`, stated without division (`den != 0`).
pub open spec fn ratio_nonneg(num: int, den: int) -> bool {
    if den > 0 {
        num >= 0
    } else {
        num <= 0
    }
}

/// `num / den >= 1 / FX_SCALE`, the epsilon test, stated without division.
pub open spec fn ratio_ge_eps(num: int, den: int) -> bool {
    if den > 0 {
        num * FX_SCALE >= den
    } else {
        num * FX_SCALE <= den
    }
}

/// Determinant of the system with columns `(p1-p2, p1-p3, d)`.
pub open spec fn sys_det(p1: V3, p2: V3, p3: V3, d: V3) -> int {
    det3(v3_sub_exact(p1, p2), v3_sub_exact(p1, p3), d)
}

/// Numerator of the barycentric coordinate `u`.
pub open spec fn sys_det_u(p1: V3, p2: V3, p3: V3, o: V3, d: V3) -> int {
    det3(v3_sub_exact(p1, o), v3_sub_exact(p1, p3), d)
}

/// Numerator of the barycentric coordinate `v`.
pub open spec fn sys_det_v(p1: V3, p2: V3, p3: V3, o: V3, d: V3) -> int {
    det3(v3_sub_exact(p1, p2), v3_sub_exact(p1, o), d)
}

/// Numerator of the hit distance `t`.
pub open spec fn sys_det_t(p1: V3, p2: V3, p3: V3, o: V3) -> int {
    det3(v3_sub_exact(p1, p2), v3_sub_exact(p1, p3), v3_sub_exact(p1, o))
}

/// Fixed-point hit distance `t = det_t / det`, rounded toward zero.
pub open spec fn sys_hit_t(num: int, den: int) -> int {
    fx_clip(div_trunc(num * FX_SCALE, den))
}

/// Plane normal of the triangle `(p1, p2, p3)`, oriented against `d`.
pub open spec fn plane_normal_against(p1: V3, p2: V3, p3: V3, d: V3) -> V3 {
    let n0 = v3_normalize(v3_cross(v3_sub(p2, p1), v3_sub(p3, p1)));
    if v3_dot(n0, d) > 0 {
        v3_neg(n0)
    } else {
        n0
    }
}

/// Point reached at fixed-point parameter `t` along the ray.
pub open spec fn ray_at(o: V3, d: V3, t: int) -> V3 {
    v3_add(o, v3_scale(t, d))
}

/// Exact 3x3 determinant with columns `a`, `b`, `c`, each component at most
/// `2^31` in magnitude; the result is bounded by `2^96`.
fn det3x(a: &Vec3, b: &Vec3, c: &Vec3) -> (r: i128)
    requires
        -0x80000000 <= a.x <= 0x80000000,
        -0x80000000 <= a.y <= 0x80000000,
        -0x80000000 <= a.z <= 0x80000000,
        -0x80000000 <= b.x <= 0x80000000,
        -0x80000000 <= b.y <= 0x80000000,
        -0x80000000 <= b.z <= 0x80000000,
        -0x80000000 <= c.x <= 0x80000000,
        -0x80000000 <= c.y <= 0x80000000,
        -0x80000000 <= c.z <= 0x80000000,
    ensures
        r as int == det3(a@, b@, c@),
        -0x1000000000000000000000000 <= r as int <= 0x1000000000000000000000000,
{
    proof {
        lemma_mul_bound(b.y as int, c.z as int, 0x80000000, 0x80000000);
        lemma_mul_bound(b.z as int, c.y as int, 0x80000000, 0x80000000);
        lemma_mul_bound(b.z as int, c.x as int, 0x80000000, 0x80000000);
        lemma_mul_bound(b.x as int, c.z as int, 0x80000000, 0x80000000);
        lemma_mul_bound(b.x as int, c.y as int, 0x80000000, 0x80000000);
        lemma_mul_bound(b.y as int, c.x as int, 0x80000000, 0x80000000);
    }
    let m1: i128 = (b.y as i128) * (c.z as i128) - (b.z as i128) * (c.y as i128);
    let m2: i128 = (b.z as i128) * (c.x as i128) - (b.x as i128) * (c.z as i128);
    let m3: i128 = (b.x as i128) * (c.y as i128) - (b.y as i128) * (c.x as i128);
    proof {
        lemma_mul_bound(a.x as int, m1 as int, 0x80000000, 0x8000000000000000);
        lemma_mul_bound(a.y as int, m2 as int, 0x80000000, 0x8000000000000000);
        lemma_mul_bound(a.z as int, m3 as int, 0x80000000, 0x8000000000000000);
    }
    (a.x as i128) * m1 + (a.y as i128) * m2 + (a.z as i128) * m3
}

/// Exact dot product of bounded vectors; `m` and `n` bound the components.
fn dot_raw(a: &Vec3, b: &Vec3, Ghost(m): Ghost<int>, Ghost(n): Ghost<int>) -> (r: i128)
    requires
        0 <= m <= 0x80000000,
        0 <= n <= 0x80000000,
        -m <= a.x <= m,
        -m <= a.y <= m,
        -m <= a.z <= m,
        -n <= b.x <= n,
        -n <= b.y <= n,
        -n <= b.z <= n,
    ensures
        r as int == v3_dot_exact(a@, b@),
        -(3 * (m * n)) <= r as int <= 3 * (m * n),
{
    proof {
        lemma_mul_bound(m, n, 0x80000000, 0x80000000);
        lemma_mul_bound(a.x as int, b.x as int, m, n);
        lemma_mul_bound(a.y as int, b.y as int, m, n);
        lemma_mul_bound(a.z as int, b.z as int, m, n);
    }
    let px: i128 = (a.x as i128) * (b.x as i128);
    let py: i128 = (a.y as i128) * (b.y as i128);
    let pz: i128 = (a.z as i128) * (b.z as i128);
    assert(px as int == (a.x as int) * (b.x as int));
    assert(py as int == (a.y as int) * (b.y as int));
    assert(pz as int == (a.z as int) * (b.z as int));
    assert(-(m * n) <= px as int <= m * n);
    assert(-(m * n) <= py as int <= m * n);
    assert(-(m * n) <= pz as int <= m * n);
    let r: i128 = px + py + pz;
    proof {
        let mn: int = m * n;
        assert(r as int <= 3 * mn);
        assert(r as int >= -(3 * mn));
    }
    r
}

#[derive(Clone, Copy, Debug, PartialEq, Eq, Structural)]
pub struct Triangle {
    pub point1: Vec3,
    pub point2: Vec3,
    pub point3: Vec3,
}

pub open spec fn tri_det(t: Triangle, r: Ray) -> int {
    sys_det(t.point1@, t.point2@, t.point3@, r.direction@)
}

pub open spec fn tri_det_u(t: Triangle, r: Ray) -> int {
    sys_det_u(t.point1@, t.point2@, t.point3@, r.origin@, r.direction@)
}

pub open spec fn tri_det_v(t: Triangle, r: Ray) -> int {
    sys_det_v(t.point1@, t.point2@, t.point3@, r.origin@, r.direction@)
}

pub open spec fn tri_det_t(t: Triangle, r: Ray) -> int {
    sys_det_t(t.point1@, t.point2@, t.point3@, r.origin@)
}

/// The ray hits the triangle: the system is regular, the barycentric
/// coordinates satisfy `u >= 0`, `v >= 0`, `u + v < 1`, and the distance
/// is at least the epsilon threshold.
pub open spec fn tri_accepts(t: Triangle, r: Ray) -> bool {
    let det = tri_det(t, r);
    &&& det != 0
    &&& ratio_nonneg(tri_det_u(t, r), det)
    &&& ratio_nonneg(tri_det_v(t, r), det)
    &&& (if det > 0 {
        tri_det_u(t, r) + tri_det_v(t, r) < det
    } else {
        tri_det_u(t, r) + tri_det_v(t, r) > det
    })
    &&& ratio_ge_eps(tri_det_t(t, r), det)
}

/// The hit record an accepted ray receives.
pub open spec fn tri_hit(t: Triangle, r: Ray) -> HitV {
    let tv = sys_hit_t(tri_det_t(t, r), tri_det(t, r));
    HitV {
        t: tv,
        point: ray_at(r.origin@, r.direction@, tv),
        normal: plane_normal_against(t.point1@, t.point2@, t.point3@, r.direction@),
    }
}

impl Triangle {
    pub open spec fn valid(&self) -> bool {
        v3_in_geom(self.point1@) && v3_in_geom(self.point2@) && v3_in_geom(self.point3@)
    }

    pub fn new(point1: Vec3, point2: Vec3, point3: Vec3) -> (r: Triangle)
        ensures
            r.point1 == point1,
            r.point2 == point2,
            r.point3 == point3,
    {
        Triangle { point1, point2, point3 }
    }

    /// Runtime check of `valid`, for callers outside verified code.
    pub fn is_valid(&self) -> (r: bool)
        ensures
            r == self.valid(),
    {
        self.point1.in_geom() && self.point2.in_geom() && self.point3.in_geom()
    }

    /// Centroid of the three vertices.
    pub fn centroid(&self) -> (r: Vec3)
        ensures
            r@ == crate::vec3::v3_sdiv(
                v3_add(v3_add(self.point1@, self.point2@), self.point3@),
                3 * FX_SCALE,
            ),
    {
        self.point1.add(&self.point2).add(&self.point3).sdiv(3 * FX_SCALE)
    }

    /// Unit plane normal `(p2 - p1) x (p3 - p1)`, normalized.
    pub fn normal(&self) -> (r: Vec3)
        ensures
            r@ == v3_normalize(
                v3_cross(
                    v3_sub(self.point2@, self.point1@),
                    v3_sub(self.point3@, self.point1@),
                ),
            ),
    {
        self.point2.sub(&self.point1).cross(&self.point3.sub(&self.point1)).normalize()
    }

    /// Nearest-hit test against the triangle.
    pub fn intersects(&self, ray: &Ray) -> (r: Option<HitPoint>)
        requires
            self.valid(),
            ray.valid(),
        ensures
            (r is Some) == tri_accepts(*self, *ray),
            r matches Some(h) ==> h@ == tri_hit(*self, *ray),
    {
        let c1 = Vec3 {
            x: self.point1.x - self.point2.x,
            y: self.point1.y - self.point2.y,
            z: self.point1.z - self.point2.z,
        };
        let c2 = Vec3 {
            x: self.point1.x - self.point3.x,
            y: self.point1.y - self.point3.y,
            z: self.point1.z - self.point3.z,
        };
        let rhs = Vec3 {
            x: self.point1.x - ray.origin.x,
            y: self.point1.y - ray.origin.y,
            z: self.point1.z - ray.origin.z,
        };
        let det = det3x(&c1, &c2, &ray.direction);
        if det == 0 {
            return None;
        }
        let det_u = det3x(&rhs, &c2, &ray.direction);
        let det_v = det3x(&c1, &rhs, &ray.direction);
        let det_t = det3x(&c1, &c2, &rhs);
        let u_ok = if det > 0 {
            det_u >= 0
        } else {
            det_u <= 0
        };
        let v_ok = if det > 0 {
            det_v >= 0
        } else {
            det_v <= 0
        };
        let uv_ok = if det > 0 {
            det_u + det_v < det
        } else {
            det_u + det_v > det
        };
        let t_ok = if det > 0 {
            det_t * (FX_SCALE as i128) >= det
        } else {
            det_t * (FX_SCALE as i128) <= det
        };
        if !(u_ok && v_ok && uv_ok && t_ok) {
            return None;
        }
        let t = fx_clip_exec(div_trunc_i128(det_t * (FX_SCALE as i128), det));
        let point = ray.origin.add(&ray.direction.scale(t));
        let n0 = self.normal();
        let normal = if n0.dot(&ray.direction) > 0 {
            n0.neg()
        } else {
            n0
        };
        Some(HitPoint { t, point, normal })
    }
}

#[derive(Clone, Copy, Debug, PartialEq, Eq, Structural)]
pub struct Parallelogram {
    pub point1: Vec3,
    pub point2: Vec3,
    pub point3: Vec3,
}

pub open spec fn par_det(p: Parallelogram, r: Ray) -> int {
    sys_det(p.point1@, p.point2@, p.point3@, r.direction@)
}

pub open spec fn par_det_t(p: Parallelogram, r: Ray) -> int {
    sys_det_t(p.point1@, p.point2@, p.point3@, r.origin@)
}

/// The ray hits the plane spanned at `point1`: the system is regular and the
/// distance is at least the epsilon threshold.
pub open spec fn par_accepts(p: Parallelogram, r: Ray) -> bool {
    &&& par_det(p, r) != 0
    &&& ratio_ge_eps(par_det_t(p, r), par_det(p, r))
}

pub open spec fn par_hit(p: Parallelogram, r: Ray) -> HitV {
    let tv = sys_hit_t(par_det_t(p, r), par_det(p, r));
    HitV {
        t: tv,
        point: ray_at(r.origin@, r.direction@, tv),
        normal: plane_normal_against(p.point1@, p.point2@, p.point3@, r.direction@),
    }
}

impl Parallelogram {
    pub open spec fn valid(&self) -> bool {
        v3_in_geom(self.point1@) && v3_in_geom(self.point2@) && v3_in_geom(self.point3@)
    }

    pub fn new(point1: Vec3, point2: Vec3, point3: Vec3) -> (r: Parallelogram)
        ensures
            r.point1 == point1,
            r.point2 == point2,
            r.point3 == point3,
    {
        Parallelogram { point1, point2, point3 }
    }

    /// Runtime check of `valid`, for callers outside verified code.
    pub fn is_valid(&self) -> (r: bool)
        ensures
            r == self.valid(),
    {
        self.point1.in_geom() && self.point2.in_geom() && self.point3.in_geom()
    }

    /// Unit plane normal.
    pub fn normal(&self) -> (r: Vec3)
        ensures
            r@ == v3_normalize(
                v3_cross(
                    v3_sub(self.point2@, self.point1@),
                    v3_sub(self.point3@, self.point1@),
                ),
            ),
    {
        self.point2.sub(&self.point1).cross(&self.point3.sub(&self.point1)).normalize()
    }

    /// Nearest-hit test; a singular system (ray parallel to the plane)
    /// yields no hit.
    pub fn intersects(&self, ray: &Ray) -> (r: Option<HitPoint>)
        requires
            self.valid(),
            ray.valid(),
        ensures
            (r is Some) == par_accepts(*self, *ray),
            r matches Some(h) ==> h@ == par_hit(*self, *ray),
    {
        let c1 = Vec3 {
            x: self.point1.x - self.point2.x,
            y: self.point1.y - self.point2.y,
            z: self.point1.z - self.point2.z,
        };
        let c2 = Vec3 {
            x: self.point1.x - self.point3.x,
            y: self.point1.y - self.point3.y,
            z: self.point1.z - self.point3.z,
        };
        let rhs = Vec3 {
            x: self.point1.x - ray.origin.x,
            y: self.point1.y - ray.origin.y,
            z: self.point1.z - ray.origin.z,
        };
        let det = det3x(&c1, &c2, &ray.direction);
        if det == 0 {
            return None;
        }
        let det_t = det3x(&c1, &c2, &rhs);
        let t_ok = if det > 0 {
            det_t * (FX_SCALE as i128) >= det
        } else {
            det_t * (FX_SCALE as i128) <= det
        };
        if !t_ok {
            return None;
        }
        let t = fx_clip_exec(div_trunc_i128(det_t * (FX_SCALE as i128), det));
        let point = ray.origin.add(&ray.direction.scale(t));
        let n0 = self.normal();
        let normal = if n0.dot(&ray.direction) > 0 {
            n0.neg()
        } else {
            n0
        };
        Some(HitPoint { t, point, normal })
    }
}

#[derive(Clone, Copy, Debug, PartialEq, Eq, Structural)]
pub struct Sphere {
    pub center: Vec3,
    pub radius: i64,
}

pub open spec fn sph_a(s: Sphere, r: Ray) -> int {
    v3_dot_exact(r.direction@, r.direction@)
}

pub open spec fn sph_b(s: Sphere, r: Ray) -> int {
    2 * v3_dot_exact(r.direction@, v3_sub_exact(r.origin@, s.center@))
}

pub open spec fn sph_c(s: Sphere, r: Ray) -> int {
    v3_dot_exact(v3_sub_exact(r.origin@, s.center@), v3_sub_exact(r.origin@, s.center@)) - s.radius
        * s.radius
}

pub open spec fn sph_disc(s: Sphere, r: Ray) -> int {
    sph_b(s, r) * sph_b(s, r) - 4 * sph_a(s, r) * sph_c(s, r)
}

/// Numerator of the smaller quadratic root, with the discriminant's
/// square root rounded down.
pub open spec fn sph_root_num(s: Sphere, r: Ray) -> int {
    -sph_b(s, r) - isqrt_spec(sph_disc(s, r) as nat)
}

/// The ray hits the sphere: the direction is not degenerate, the
/// discriminant is non-negative, and the smaller root is at least the
/// epsilon threshold.
pub open spec fn sphere_accepts(s: Sphere, r: Ray) -> bool {
    &&& sph_a(s, r) != 0
    &&& sph_disc(s, r) >= 0
    &&& sph_root_num(s, r) * FX_SCALE >= 2 * sph_a(s, r)
}

pub open spec fn sphere_hit_t(s: Sphere, r: Ray) -> int {
    fx_clip(div_trunc(sph_root_num(s, r) * FX_SCALE, 2 * sph_a(s, r)))
}

pub open spec fn sphere_hit(s: Sphere, r: Ray) -> HitV {
    let tv = sphere_hit_t(s, r);
    let p = ray_at(r.origin@, r.direction@, tv);
    HitV { t: tv, point: p, normal: v3_normalize(v3_sub(p, s.center@)) }
}

impl Sphere {
    pub open spec fn valid(&self) -> bool {
        v3_in_geom(self.center@) && 0 <= self.radius <= GEOM_MAX
    }

    pub fn new(center: Vec3, radius: i64) -> (r: Sphere)
        ensures
            r.center == center,
            r.radius == radius,
    {
        Sphere { center, radius }
    }

    /// Runtime check of `valid`, for callers outside verified code.
    pub fn is_valid(&self) -> (r: bool)
        ensures
            r == self.valid(),
    {
        self.center.in_geom() && 0 <= self.radius && self.radius <= GEOM_MAX
    }

    /// Outward unit normal at a surface point.
    pub fn normal(&self, point: &Vec3) -> (r: Vec3)
        ensures
            r@ == v3_normalize(v3_sub(point@, self.center@)),
    {
        point.sub(&self.center).normalize()
    }

    /// Nearest-hit test: solves the quadratic and takes the smaller root,
    /// so a ray starting inside the sphere reports no hit.
    pub fn intersects(&self, ray: &Ray) -> (r: Option<HitPoint>)
        requires
            self.valid(),
            ray.valid(),
        ensures
            (r is Some) == sphere_accepts(*self, *ray),
            r matches Some(h) ==> h@ == sphere_hit(*self, *ray),
    {
        let oc = Vec3 {
            x: ray.origin.x - self.center.x,
            y: ray.origin.y - self.center.y,
            z: ray.origin.z - self.center.z,
        };
        let a: i128 = dot_raw(&ray.direction, &ray.direction, Ghost(GEOM_MAX as int), Ghost(GEOM_MAX as int));
        proof {
            crate::vec3::lemma_square_nonneg(ray.direction.x as int);
            crate::vec3::lemma_square_nonneg(ray.direction.y as int);
            crate::vec3::lemma_square_nonneg(ray.direction.z as int);
            assert(a >= 0);
        }
        if a == 0 {
            return None;
        }
        let b: i128 = 2 * dot_raw(&ray.direction, &oc, Ghost(GEOM_MAX as int), Ghost(2 * GEOM_MAX as int));
        proof {
            lemma_mul_bound(self.radius as int, self.radius as int, GEOM_MAX as int, GEOM_MAX as int);
        }
        let c: i128 = dot_raw(&oc, &oc, Ghost(2 * GEOM_MAX as int), Ghost(2 * GEOM_MAX as int)) - (self.radius as i128) * (self.radius as i128);
        proof {
            lemma_mul_bound(b as int, b as int, 0x4000000000000000, 0x4000000000000000);
            lemma_mul_bound(4 * (a as int), c as int, 0x4000000000000000, 0x4000000000000000);
        }
        let disc: i128 = b * b - 4 * a * c;
        assert(disc as int == sph_disc(*self, *ray));
        if disc < 0 {
            return None;
        }
        let s = isqrt_u128(disc as u128);
        proof {
            crate::fixed::lemma_isqrt_bounds(disc as nat);
            assert((s as int) * (s as int) <= disc as int);
            assert(s as int <= 0x8000000000000000) by (nonlinear_arith)
                requires
                    (s as int) * (s as int) <= disc as int,
                    disc as int <= 0x40000000000000000000000000000000,
                    s >= 0,
            ;
        }
        let num: i128 = -b - (s as i128);
        let two_a: i128 = 2 * a;
        proof {
            lemma_mul_bound(num as int, FX_SCALE as int, 0x20000000000000000, 0x100000);
        }
        let accept = num * (FX_SCALE as i128) >= two_a;
        if !accept {
            return None;
        }
        let t = fx_clip_exec(div_trunc_i128(num * (FX_SCALE as i128), two_a));
        let point = ray.origin.add(&ray.direction.scale(t));
        let normal = self.normal(&point);
        Some(HitPoint { t, point, normal })
    }
}


/// Point on the image plane for pixel `(i, j)`, from the camera's stored
/// origin and per-pixel displacements.
pub open spec fn cam_screen_point(c: Camera, i: int, j: int) -> V3 {
    v3_add(
        v3_add(
            c.screen_origin@,
            v3_scale(fx_clip(i * FX_SCALE + FX_SCALE / 2), c.x_displacement@),
        ),
        v3_scale(fx_clip(j * FX_SCALE + FX_SCALE / 2), c.y_displacement@),
    )
}

/// The primary ray for pixel `(i, j)`: axis-aligned from the image plane for
/// an orthographic camera, from the eye through the image plane for a
/// perspective camera.
pub open spec fn cam_ray(c: Camera, i: int, j: int) -> RayV {
    let sp = cam_screen_point(c, i, j);
    match c.kind {
        CameraKind::ORTHOGRAPHIC => RayV {
            origin: v3_add(c.position@, V3 { x: sp.x, y: sp.y, z: 0 }),
            direction: V3 { x: 0, y: 0, z: -FX_SCALE as int },
        },
        CameraKind::PERSPECTIVE => RayV {
            origin: c.position@,
            direction: v3_normalize(v3_sub(sp, c.position@)),
        },
    }
}

/// A pinhole camera over a pixel grid. The caller supplies the tangent of
/// half the field-of-view angle, which fixes the image plane's extent.
pub struct Camera {
    pub fov: i64,
    pub focal_length: i64,
    pub width: usize,
    pub height: usize,
    pub position: Vec3,
    pub kind: CameraKind,
    pub screen_origin: Vec3,
    pub x_displacement: Vec3,
    pub y_displacement: Vec3,
}

impl Camera {
    /// The pixel grid is small enough for exact fixed-point arithmetic.
    pub open spec fn wf(&self) -> bool {
        0 < self.width <= 65536 && 0 < self.height <= 65536
    }

    pub fn new(
        fov: i64,
        tan_half_fov: i64,
        focal_length: i64,
        width: usize,
        height: usize,
        position: Vec3,
        kind: CameraKind,
    ) -> (r: Camera)
        requires
            0 < width <= 65536,
            0 < height <= 65536,
        ensures
            r.wf(),
            r.fov == fov,
            r.focal_length == focal_length,
            r.width == width,
            r.height == height,
            r.position == position,
            r.kind == kind,
            ({
                let image_y = fx_mul_spec(
                    fx_mul_spec(2 * FX_SCALE, tan_half_fov as int),
                    focal_length as int,
                );
                let image_x = fx_mul_spec(
                    image_y,
                    fx_div_spec(width * FX_SCALE, height * FX_SCALE),
                );
                &&& r.screen_origin@ == (V3 {
                    x: fx_clip(-image_x),
                    y: image_y,
                    z: fx_sub_spec(position@.z, focal_length as int),
                })
                &&& r.x_displacement@ == (V3 {
                    x: fx_mul_spec(fx_div_spec(2 * FX_SCALE, width * FX_SCALE), image_x),
                    y: 0,
                    z: 0,
                })
                &&& r.y_displacement@ == (V3 {
                    x: 0,
                    y: fx_clip(-fx_mul_spec(fx_div_spec(2 * FX_SCALE, height * FX_SCALE), image_y)),
                    z: 0,
                })
            }),
    {
        let w_fx: i64 = (width as i64) * FX_SCALE;
        let h_fx: i64 = (height as i64) * FX_SCALE;
        let image_y = fx_mul(fx_mul(2 * FX_SCALE, tan_half_fov), focal_length);
        let image_x = fx_mul(image_y, fx_div(w_fx, h_fx));
        let screen_origin = Vec3 {
            x: crate::fixed::fx_neg(image_x),
            y: image_y,
            z: fx_sub(position.z, focal_length),
        };
        let x_displacement = Vec3 { x: fx_mul(fx_div(2 * FX_SCALE, w_fx), image_x), y: 0, z: 0 };
        let y_displacement = Vec3 {
            x: 0,
            y: crate::fixed::fx_neg(fx_mul(fx_div(2 * FX_SCALE, h_fx), image_y)),
            z: 0,
        };
        Camera {
            fov,
            focal_length,
            width,
            height,
            position,
            kind,
            screen_origin,
            x_displacement,
            y_displacement,
        }
    }

    /// The primary ray through the center of pixel `(i, j)`.
    pub fn ray(&self, i: usize, j: usize) -> (r: Ray)
        requires
            self.wf(),
            i < self.width,
            j < self.height,
        ensures
            r@ == cam_ray(*self, i as int, j as int),
    {
        let i_fx: i64 = (i as i64) * FX_SCALE + FX_SCALE / 2;
        let j_fx: i64 = (j as i64) * FX_SCALE + FX_SCALE / 2;
        let screen_point = self.screen_origin.add(&self.x_displacement.scale(i_fx)).add(
            &self.y_displacement.scale(j_fx),
        );
        proof {
            assert(i_fx as int == fx_clip(i * FX_SCALE + FX_SCALE / 2));
            assert(j_fx as int == fx_clip(j * FX_SCALE + FX_SCALE / 2));
        }
        match self.kind {
            CameraKind::ORTHOGRAPHIC => {
                let origin = self.position.add(
                    &Vec3 { x: screen_point.x, y: screen_point.y, z: 0 },
                );
                proof {
                    assert(origin@ == v3_add(
                        self.position@,
                        V3 {
                            x: cam_screen_point(*self, i as int, j as int).x,
                            y: cam_screen_point(*self, i as int, j as int).y,
                            z: 0,
                        },
                    ));
                }
                let direction = Vec3 { x: 0, y: 0, z: -FX_SCALE };
                Ray { origin, direction }
            },
            CameraKind::PERSPECTIVE => {
                let origin = self.position;
                let direction = screen_point.sub(&self.position).normalize();
                Ray { origin, direction }
            },
        }
    }
}

#[derive(Clone, Copy, Debug, PartialEq, Eq, Structural)]
pub struct Light {
    pub position: Vec3,
    pub color: Vec3,
}

impl Light {
    pub open spec fn valid(&self) -> bool {
        v3_in_geom(self.position@)
    }

    pub fn new(position: Vec3, color: Vec3) -> (r: Light)
        ensures
            r.position == position,
            r.color == color,
    {
        Light { position, color }
    }
}

/// Surface reflectance coefficients: a plain value type.
#[derive(Clone, Copy, Debug, PartialEq, Eq, Structural)]
pub struct Material {
    pub ambient_color: Vec3,
    pub diffuse_color: Vec3,
    pub specular_color: Vec3,
    pub specular_exponent: u32,
    pub reflection_color: Vec3,
}

impl Material {
    pub fn new(
        ambient_color: Vec3,
        diffuse_color: Vec3,
        specular_color: Vec3,
        specular_exponent: u32,
        reflection_color: Vec3,
    ) -> (r: Material)
        ensures
            r == (Material {
                ambient_color,
                diffuse_color,
                specular_color,
                specular_exponent,
                reflection_color,
            }),
    {
        Material { ambient_color, diffuse_color, specular_color, specular_exponent, reflection_color }
    }
}

} // verus!
