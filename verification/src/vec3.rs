//! 3D points and vectors over fixed-point scalars.

use vstd::prelude::*;
use crate::fix::{
    add_fix, div_fix, fadd, fdiv, fmul, fsqrt, fsub, iabs, in_range, is_sqrt, mul_fix, sat,
    sqrt_fix, sub_fix, SCALE,
};

verus! {

/// A position or direction: three fixed-point coordinates.
#[derive(Clone, Copy, Debug, PartialEq, Eq, Structural)]
#[verifier::ext_equal]
pub struct Point3D {
    pub x: i64,
    pub y: i64,
    pub z: i64,
}

/// All three coordinates are representable scalars.
pub open spec fn p_ok(p: Point3D) -> bool {
    in_range(p.x as int) && in_range(p.y as int) && in_range(p.z as int)
}

pub open spec fn v_add(a: Point3D, b: Point3D) -> Point3D {
    Point3D {
        x: fadd(a.x as int, b.x as int) as i64,
        y: fadd(a.y as int, b.y as int) as i64,
        z: fadd(a.z as int, b.z as int) as i64,
    }
}

pub open spec fn v_sub(a: Point3D, b: Point3D) -> Point3D {
    Point3D {
        x: fsub(a.x as int, b.x as int) as i64,
        y: fsub(a.y as int, b.y as int) as i64,
        z: fsub(a.z as int, b.z as int) as i64,
    }
}

pub open spec fn v_mul(a: Point3D, b: Point3D) -> Point3D {
    Point3D {
        x: fmul(a.x as int, b.x as int) as i64,
        y: fmul(a.y as int, b.y as int) as i64,
        z: fmul(a.z as int, b.z as int) as i64,
    }
}

pub open spec fn v_div(a: Point3D, b: Point3D) -> Point3D {
    Point3D {
        x: fdiv(a.x as int, b.x as int) as i64,
        y: fdiv(a.y as int, b.y as int) as i64,
        z: fdiv(a.z as int, b.z as int) as i64,
    }
}

pub open spec fn v_scale(a: Point3D, t: int) -> Point3D {
    Point3D {
        x: fmul(a.x as int, t) as i64,
        y: fmul(a.y as int, t) as i64,
        z: fmul(a.z as int, t) as i64,
    }
}

pub open spec fn v_div_s(a: Point3D, t: int) -> Point3D {
    Point3D {
        x: fdiv(a.x as int, t) as i64,
        y: fdiv(a.y as int, t) as i64,
        z: fdiv(a.z as int, t) as i64,
    }
}

pub open spec fn v_neg(a: Point3D) -> Point3D {
    Point3D { x: (-(a.x as int)) as i64, y: (-(a.y as int)) as i64, z: (-(a.z as int)) as i64 }
}

pub open spec fn v_dot(a: Point3D, b: Point3D) -> int {
    fadd(
        fadd(fmul(a.x as int, b.x as int), fmul(a.y as int, b.y as int)),
        fmul(a.z as int, b.z as int),
    )
}

pub open spec fn v_len_sq(a: Point3D) -> int {
    v_dot(a, a)
}

pub open spec fn v_len(a: Point3D) -> int {
    fsqrt(v_len_sq(a))
}

pub open spec fn v_unit(a: Point3D) -> Point3D {
    v_div_s(a, v_len(a))
}

impl Point3D {
    pub fn new(x: i64, y: i64, z: i64) -> (r: Point3D)
        ensures
            r == (Point3D { x, y, z }),
    {
        Point3D { x, y, z }
    }

    pub fn x(&self) -> (r: i64)
        ensures
            r == self.x,
    {
        self.x
    }

    pub fn y(&self) -> (r: i64)
        ensures
            r == self.y,
    {
        self.y
    }

    pub fn z(&self) -> (r: i64)
        ensures
            r == self.z,
    {
        self.z
    }

    pub fn add(self, other: Point3D) -> (r: Point3D)
        requires
            p_ok(self),
            p_ok(other),
        ensures
            r == v_add(self, other),
            p_ok(r),
    {
        Point3D {
            x: add_fix(self.x, other.x),
            y: add_fix(self.y, other.y),
            z: add_fix(self.z, other.z),
        }
    }

    pub fn sub(self, other: Point3D) -> (r: Point3D)
        requires
            p_ok(self),
            p_ok(other),
        ensures
            r == v_sub(self, other),
            p_ok(r),
    {
        Point3D {
            x: sub_fix(self.x, other.x),
            y: sub_fix(self.y, other.y),
            z: sub_fix(self.z, other.z),
        }
    }

    /// Componentwise product.
    pub fn mul(self, other: Point3D) -> (r: Point3D)
        requires
            p_ok(self),
            p_ok(other),
        ensures
            r == v_mul(self, other),
            p_ok(r),
    {
        Point3D {
            x: mul_fix(self.x, other.x),
            y: mul_fix(self.y, other.y),
            z: mul_fix(self.z, other.z),
        }
    }

    /// Componentwise quotient.
    pub fn div(self, other: Point3D) -> (r: Point3D)
        requires
            p_ok(self),
            p_ok(other),
            other.x != 0,
            other.y != 0,
            other.z != 0,
        ensures
            r == v_div(self, other),
            p_ok(r),
    {
        Point3D {
            x: div_fix(self.x, other.x),
            y: div_fix(self.y, other.y),
            z: div_fix(self.z, other.z),
        }
    }

    pub fn scale(self, t: i64) -> (r: Point3D)
        requires
            p_ok(self),
            in_range(t as int),
        ensures
            r == v_scale(self, t as int),
            p_ok(r),
    {
        Point3D { x: mul_fix(self.x, t), y: mul_fix(self.y, t), z: mul_fix(self.z, t) }
    }

    pub fn div_s(self, t: i64) -> (r: Point3D)
        requires
            p_ok(self),
            in_range(t as int),
            t != 0,
        ensures
            r == v_div_s(self, t as int),
            p_ok(r),
    {
        Point3D { x: div_fix(self.x, t), y: div_fix(self.y, t), z: div_fix(self.z, t) }
    }

    pub fn neg(self) -> (r: Point3D)
        requires
            p_ok(self),
        ensures
            r == v_neg(self),
            p_ok(r),
    {
        Point3D { x: -self.x, y: -self.y, z: -self.z }
    }

    pub fn dot(&self, other: &Point3D) -> (r: i64)
        requires
            p_ok(*self),
            p_ok(*other),
        ensures
            r == v_dot(*self, *other),
            in_range(r as int),
    {
        add_fix(add_fix(mul_fix(self.x, other.x), mul_fix(self.y, other.y)),
            mul_fix(self.z, other.z))
    }

    pub fn length_squared(&self) -> (r: i64)
        requires
            p_ok(*self),
        ensures
            r == v_len_sq(*self),
            0 <= r,
            in_range(r as int),
    {
        proof {
            lemma_len_sq_nonneg(*self);
        }
        self.dot(self)
    }

    pub fn length(&self) -> (r: i64)
        requires
            p_ok(*self),
        ensures
            r == v_len(*self),
            0 <= r,
            in_range(r as int),
    {
        let ls = self.length_squared();
        sqrt_fix(ls)
    }

    pub fn distance(&self, other: &Point3D) -> (r: i64)
        requires
            p_ok(*self),
            p_ok(*other),
        ensures
            r == v_len(v_sub(*self, *other)),
            0 <= r,
    {
        let d = self.sub(*other);
        d.length()
    }

    /// The vector scaled to unit length; the caller must never normalize a
    /// vector whose squared length rounds to zero.
    pub fn unit_vector(&self) -> (r: Point3D)
        requires
            p_ok(*self),
            v_len_sq(*self) > 0,
        ensures
            r == v_unit(*self),
            p_ok(r),
    {
        let ls = self.length_squared();
        let len = sqrt_fix(ls);
        proof {
            if len == 0 {
                assert(is_sqrt((ls as int) * (SCALE as int), len as int));
                assert((ls as int) * (SCALE as int) < (len as int + 1) * (len as int + 1));
                assert((len as int + 1) * (len as int + 1) == 1) by (nonlinear_arith)
                    requires len as int == 0;
                assert((ls as int) * (SCALE as int) >= SCALE as int) by (nonlinear_arith)
                    requires ls as int >= 1;
                assert(false);
            }
        }
        self.div_s(len)
    }
}

/// A dot product of a vector with itself is nonnegative.
pub proof fn lemma_len_sq_nonneg(a: Point3D)
    ensures
        v_len_sq(a) >= 0,
        fmul(a.x as int, a.x as int) >= 0,
        fmul(a.y as int, a.y as int) >= 0,
        fmul(a.z as int, a.z as int) >= 0,
{
    lemma_sq_nonneg(a.x as int);
    lemma_sq_nonneg(a.y as int);
    lemma_sq_nonneg(a.z as int);
}

proof fn lemma_sq_nonneg(x: int)
    ensures
        fmul(x, x) >= 0,
{
    assert(iabs(x * x) / (SCALE as int) >= 0) by (nonlinear_arith);
    assert(fmul(x, x) == sat(iabs(x * x) / (SCALE as int)));
}

} // verus!
