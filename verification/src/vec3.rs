//! Three-component vectors of fixed-point scalars.
//!
//! `Vec3` is the executable type; its view is `V3`, the same vector over
//! mathematical integers, and every operation has a spec twin over `V3`.

use vstd::prelude::*;

use crate::fixed::{
    fx_add, fx_add_spec, fx_clip, fx_div, fx_div_spec, fx_max, fx_max_spec, fx_min, fx_min_spec,
    fx_mul, fx_mul_spec, fx_neg, fx_sqrt, fx_sqrt_spec, fx_sub, fx_sub_spec, FX_SCALE,
};

verus! {

/// A vector of fixed-point scalars.
#[derive(Clone, Copy, Debug, PartialEq, Eq, Structural)]
pub struct Vec3 {
    pub x: i64,
    pub y: i64,
    pub z: i64,
}

/// The mathematical view of a `Vec3`: the same components as integers.
pub ghost struct V3 {
    pub x: int,
    pub y: int,
    pub z: int,
}

impl View for Vec3 {
    type V = V3;

    open spec fn view(&self) -> V3 {
        V3 { x: self.x as int, y: self.y as int, z: self.z as int }
    }
}

pub open spec fn v3_add(a: V3, b: V3) -> V3 {
    V3 { x: fx_add_spec(a.x, b.x), y: fx_add_spec(a.y, b.y), z: fx_add_spec(a.z, b.z) }
}

pub open spec fn v3_sub(a: V3, b: V3) -> V3 {
    V3 { x: fx_sub_spec(a.x, b.x), y: fx_sub_spec(a.y, b.y), z: fx_sub_spec(a.z, b.z) }
}

pub open spec fn v3_neg(a: V3) -> V3 {
    V3 { x: fx_clip(-a.x), y: fx_clip(-a.y), z: fx_clip(-a.z) }
}

/// Componentwise product, the color modulation operator.
pub open spec fn v3_cmul(a: V3, b: V3) -> V3 {
    V3 { x: fx_mul_spec(a.x, b.x), y: fx_mul_spec(a.y, b.y), z: fx_mul_spec(a.z, b.z) }
}

pub open spec fn v3_scale(s: int, a: V3) -> V3 {
    V3 { x: fx_mul_spec(s, a.x), y: fx_mul_spec(s, a.y), z: fx_mul_spec(s, a.z) }
}

/// Componentwise division by a scalar.
pub open spec fn v3_sdiv(a: V3, s: int) -> V3 {
    V3 { x: fx_div_spec(a.x, s), y: fx_div_spec(a.y, s), z: fx_div_spec(a.z, s) }
}

/// Fixed-point dot product, folded left to right.
pub open spec fn v3_dot(a: V3, b: V3) -> int {
    fx_add_spec(
        fx_add_spec(fx_mul_spec(a.x, b.x), fx_mul_spec(a.y, b.y)),
        fx_mul_spec(a.z, b.z),
    )
}

pub open spec fn v3_cross(a: V3, b: V3) -> V3 {
    V3 {
        x: fx_sub_spec(fx_mul_spec(a.y, b.z), fx_mul_spec(a.z, b.y)),
        y: fx_sub_spec(fx_mul_spec(a.z, b.x), fx_mul_spec(a.x, b.z)),
        z: fx_sub_spec(fx_mul_spec(a.x, b.y), fx_mul_spec(a.y, b.x)),
    }
}

pub open spec fn v3_norm(a: V3) -> int {
    fx_sqrt_spec(v3_dot(a, a))
}

/// Unit vector along `a`; the zero vector is returned unchanged.
pub open spec fn v3_normalize(a: V3) -> V3 {
    if v3_norm(a) == 0 {
        a
    } else {
        v3_sdiv(a, v3_norm(a))
    }
}

/// Exact (unclipped) dot product over the integers.
pub open spec fn v3_dot_exact(a: V3, b: V3) -> int {
    a.x * b.x + a.y * b.y + a.z * b.z
}

/// Exact (unclipped) difference over the integers.
pub open spec fn v3_sub_exact(a: V3, b: V3) -> V3 {
    V3 { x: a.x - b.x, y: a.y - b.y, z: a.z - b.z }
}

/// Exact (unclipped) cross product over the integers.
pub open spec fn v3_cross_exact(a: V3, b: V3) -> V3 {
    V3 {
        x: a.y * b.z - a.z * b.y,
        y: a.z * b.x - a.x * b.z,
        z: a.x * b.y - a.y * b.x,
    }
}

/// Scalar triple product: the determinant of the matrix with columns
/// `a`, `b`, `c`.
pub open spec fn det3(a: V3, b: V3, c: V3) -> int {
    v3_dot_exact(a, v3_cross_exact(b, c))
}

/// All components within the coordinate range the intersection math accepts.
pub open spec fn v3_in_geom(a: V3) -> bool {
    &&& -(crate::fixed::GEOM_MAX as int) <= a.x <= crate::fixed::GEOM_MAX as int
    &&& -(crate::fixed::GEOM_MAX as int) <= a.y <= crate::fixed::GEOM_MAX as int
    &&& -(crate::fixed::GEOM_MAX as int) <= a.z <= crate::fixed::GEOM_MAX as int
}

pub proof fn lemma_square_nonneg(a: int)
    by (nonlinear_arith)
    ensures
        a * a >= 0,
{
}

/// A clipped self-dot-product is never negative.
pub proof fn lemma_v3_dot_self_nonneg(a: V3)
    ensures
        v3_dot(a, a) >= 0,
{
    lemma_square_nonneg(a.x);
    lemma_square_nonneg(a.y);
    lemma_square_nonneg(a.z);
    assert(fx_mul_spec(a.x, a.x) >= 0);
    assert(fx_mul_spec(a.y, a.y) >= 0);
    assert(fx_mul_spec(a.z, a.z) >= 0);
}

impl Vec3 {
    pub fn new(x: i64, y: i64, z: i64) -> (r: Vec3)
        ensures
            r@ == (V3 { x: x as int, y: y as int, z: z as int }),
    {
        Vec3 { x, y, z }
    }

    pub fn add(&self, other: &Vec3) -> (r: Vec3)
        ensures
            r@ == v3_add(self@, other@),
    {
        Vec3 {
            x: fx_add(self.x, other.x),
            y: fx_add(self.y, other.y),
            z: fx_add(self.z, other.z),
        }
    }

    pub fn sub(&self, other: &Vec3) -> (r: Vec3)
        ensures
            r@ == v3_sub(self@, other@),
    {
        Vec3 {
            x: fx_sub(self.x, other.x),
            y: fx_sub(self.y, other.y),
            z: fx_sub(self.z, other.z),
        }
    }

    pub fn neg(&self) -> (r: Vec3)
        ensures
            r@ == v3_neg(self@),
    {
        Vec3 { x: fx_neg(self.x), y: fx_neg(self.y), z: fx_neg(self.z) }
    }

    pub fn cmul(&self, other: &Vec3) -> (r: Vec3)
        ensures
            r@ == v3_cmul(self@, other@),
    {
        Vec3 {
            x: fx_mul(self.x, other.x),
            y: fx_mul(self.y, other.y),
            z: fx_mul(self.z, other.z),
        }
    }

    pub fn scale(&self, s: i64) -> (r: Vec3)
        ensures
            r@ == v3_scale(s as int, self@),
    {
        Vec3 { x: fx_mul(s, self.x), y: fx_mul(s, self.y), z: fx_mul(s, self.z) }
    }

    pub fn sdiv(&self, s: i64) -> (r: Vec3)
        requires
            s != 0,
        ensures
            r@ == v3_sdiv(self@, s as int),
    {
        Vec3 { x: fx_div(self.x, s), y: fx_div(self.y, s), z: fx_div(self.z, s) }
    }

    pub fn dot(&self, other: &Vec3) -> (r: i64)
        ensures
            r as int == v3_dot(self@, other@),
    {
        fx_add(
            fx_add(fx_mul(self.x, other.x), fx_mul(self.y, other.y)),
            fx_mul(self.z, other.z),
        )
    }

    pub fn cross(&self, other: &Vec3) -> (r: Vec3)
        ensures
            r@ == v3_cross(self@, other@),
    {
        Vec3 {
            x: fx_sub(fx_mul(self.y, other.z), fx_mul(self.z, other.y)),
            y: fx_sub(fx_mul(self.z, other.x), fx_mul(self.x, other.z)),
            z: fx_sub(fx_mul(self.x, other.y), fx_mul(self.y, other.x)),
        }
    }

    /// Euclidean length.
    pub fn norm(&self) -> (r: i64)
        ensures
            r as int == v3_norm(self@),
            r >= 0,
    {
        proof {
            lemma_v3_dot_self_nonneg(self@);
        }
        fx_sqrt(self.dot(self))
    }

    /// Runtime check that the vector lies in the accepted coordinate range.
    pub fn in_geom(&self) -> (r: bool)
        ensures
            r == v3_in_geom(self@),
    {
        let g = crate::fixed::GEOM_MAX;
        -g <= self.x && self.x <= g && -g <= self.y && self.y <= g && -g <= self.z && self.z
            <= g
    }

    pub fn normalize(&self) -> (r: Vec3)
        ensures
            r@ == v3_normalize(self@),
    {
        let n = self.norm();
        if n == 0 {
            *self
        } else {
            self.sdiv(n)
        }
    }
}

} // verus!
