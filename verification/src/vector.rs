//! Small fixed-size vectors and matrices over fixed-point scalars.
//!
//! Every operation has a spec-level mirror that constructs the exact result
//! value, so contracts further up can state a whole pass as one equation.

use vstd::prelude::*;
use crate::fixed::{Fx, FX_ONE, fx_add_s, fx_sub_s, fx_mul_s, fx_div_s, fx_neg_s};

verus! {

/// Build a fixed-point scalar from its (already saturated) raw value.
pub open spec fn fx(v: int) -> Fx {
    Fx { raw: v as i64 }
}

#[derive(Clone, Copy, Debug, PartialEq, Eq, Structural)]
pub struct Vector2 {
    pub x: Fx,
    pub y: Fx,
}

/// A 2 x 2 matrix in row-major order.
#[derive(Clone, Copy, Debug, PartialEq, Eq, Structural)]
pub struct Matrix2 {
    pub a: Fx,
    pub b: Fx,
    pub c: Fx,
    pub d: Fx,
}

#[derive(Clone, Copy, Debug, PartialEq, Eq, Structural)]
pub struct Vector3 {
    pub x: Fx,
    pub y: Fx,
    pub z: Fx,
}

/// A 3 x 3 matrix in row-major order.
#[derive(Clone, Copy, Debug, PartialEq, Eq, Structural)]
pub struct Matrix3 {
    pub m00: Fx,
    pub m01: Fx,
    pub m02: Fx,
    pub m10: Fx,
    pub m11: Fx,
    pub m12: Fx,
    pub m20: Fx,
    pub m21: Fx,
    pub m22: Fx,
}

pub open spec fn v2_zero() -> Vector2 {
    Vector2 { x: fx(0), y: fx(0) }
}

pub open spec fn v3_zero() -> Vector3 {
    Vector3 { x: fx(0), y: fx(0), z: fx(0) }
}

pub open spec fn m2_zero() -> Matrix2 {
    Matrix2 { a: fx(0), b: fx(0), c: fx(0), d: fx(0) }
}

pub open spec fn m2_identity() -> Matrix2 {
    Matrix2 { a: fx(FX_ONE as int), b: fx(0), c: fx(0), d: fx(FX_ONE as int) }
}

pub open spec fn v2_add_s(a: Vector2, b: Vector2) -> Vector2 {
    Vector2 { x: fx(fx_add_s(a.x@, b.x@)), y: fx(fx_add_s(a.y@, b.y@)) }
}

pub open spec fn v2_sub_s(a: Vector2, b: Vector2) -> Vector2 {
    Vector2 { x: fx(fx_sub_s(a.x@, b.x@)), y: fx(fx_sub_s(a.y@, b.y@)) }
}

pub open spec fn v2_scale_s(a: Vector2, k: Fx) -> Vector2 {
    Vector2 { x: fx(fx_mul_s(a.x@, k@)), y: fx(fx_mul_s(a.y@, k@)) }
}

pub open spec fn v2_div_scalar_s(a: Vector2, m: Fx) -> Vector2 {
    Vector2 { x: fx(fx_div_s(a.x@, m@)), y: fx(fx_div_s(a.y@, m@)) }
}

/// Outer product of a column vector and a row vector.
pub open spec fn v2_outer_s(a: Vector2, b: Vector2) -> Matrix2 {
    Matrix2 {
        a: fx(fx_mul_s(a.x@, b.x@)),
        b: fx(fx_mul_s(a.x@, b.y@)),
        c: fx(fx_mul_s(a.y@, b.x@)),
        d: fx(fx_mul_s(a.y@, b.y@)),
    }
}

pub open spec fn m2_add_s(p: Matrix2, q: Matrix2) -> Matrix2 {
    Matrix2 {
        a: fx(fx_add_s(p.a@, q.a@)),
        b: fx(fx_add_s(p.b@, q.b@)),
        c: fx(fx_add_s(p.c@, q.c@)),
        d: fx(fx_add_s(p.d@, q.d@)),
    }
}

pub open spec fn m2_sub_s(p: Matrix2, q: Matrix2) -> Matrix2 {
    Matrix2 {
        a: fx(fx_sub_s(p.a@, q.a@)),
        b: fx(fx_sub_s(p.b@, q.b@)),
        c: fx(fx_sub_s(p.c@, q.c@)),
        d: fx(fx_sub_s(p.d@, q.d@)),
    }
}

pub open spec fn m2_scale_s(p: Matrix2, k: Fx) -> Matrix2 {
    Matrix2 {
        a: fx(fx_mul_s(p.a@, k@)),
        b: fx(fx_mul_s(p.b@, k@)),
        c: fx(fx_mul_s(p.c@, k@)),
        d: fx(fx_mul_s(p.d@, k@)),
    }
}

/// Each product entry is a dot of a row with a column, accumulated left to right.
pub open spec fn m2_mul_s(p: Matrix2, q: Matrix2) -> Matrix2 {
    Matrix2 {
        a: fx(fx_add_s(fx_mul_s(p.a@, q.a@), fx_mul_s(p.b@, q.c@))),
        b: fx(fx_add_s(fx_mul_s(p.a@, q.b@), fx_mul_s(p.b@, q.d@))),
        c: fx(fx_add_s(fx_mul_s(p.c@, q.a@), fx_mul_s(p.d@, q.c@))),
        d: fx(fx_add_s(fx_mul_s(p.c@, q.b@), fx_mul_s(p.d@, q.d@))),
    }
}

pub open spec fn m2_mul_v2_s(p: Matrix2, v: Vector2) -> Vector2 {
    Vector2 {
        x: fx(fx_add_s(fx_mul_s(p.a@, v.x@), fx_mul_s(p.b@, v.y@))),
        y: fx(fx_add_s(fx_mul_s(p.c@, v.x@), fx_mul_s(p.d@, v.y@))),
    }
}

pub open spec fn m2_transpose_s(p: Matrix2) -> Matrix2 {
    Matrix2 { a: p.a, b: p.c, c: p.b, d: p.d }
}

pub open spec fn m2_det_s(p: Matrix2) -> int {
    fx_sub_s(fx_mul_s(p.a@, p.d@), fx_mul_s(p.b@, p.c@))
}

pub open spec fn v3_add_s(a: Vector3, b: Vector3) -> Vector3 {
    Vector3 {
        x: fx(fx_add_s(a.x@, b.x@)),
        y: fx(fx_add_s(a.y@, b.y@)),
        z: fx(fx_add_s(a.z@, b.z@)),
    }
}

pub open spec fn v3_sub_s(a: Vector3, b: Vector3) -> Vector3 {
    Vector3 {
        x: fx(fx_sub_s(a.x@, b.x@)),
        y: fx(fx_sub_s(a.y@, b.y@)),
        z: fx(fx_sub_s(a.z@, b.z@)),
    }
}

pub open spec fn v3_scale_s(a: Vector3, k: Fx) -> Vector3 {
    Vector3 {
        x: fx(fx_mul_s(a.x@, k@)),
        y: fx(fx_mul_s(a.y@, k@)),
        z: fx(fx_mul_s(a.z@, k@)),
    }
}

pub open spec fn v3_neg_s(a: Vector3) -> Vector3 {
    Vector3 { x: fx(fx_neg_s(a.x@)), y: fx(fx_neg_s(a.y@)), z: fx(fx_neg_s(a.z@)) }
}

/// Dot product, accumulated left to right.
pub open spec fn v3_dot_s(a: Vector3, b: Vector3) -> int {
    fx_add_s(fx_add_s(fx_mul_s(a.x@, b.x@), fx_mul_s(a.y@, b.y@)), fx_mul_s(a.z@, b.z@))
}

pub open spec fn v3_cross_s(a: Vector3, b: Vector3) -> Vector3 {
    Vector3 {
        x: fx(fx_sub_s(fx_mul_s(a.y@, b.z@), fx_mul_s(a.z@, b.y@))),
        y: fx(fx_sub_s(fx_mul_s(a.z@, b.x@), fx_mul_s(a.x@, b.z@))),
        z: fx(fx_sub_s(fx_mul_s(a.x@, b.y@), fx_mul_s(a.y@, b.x@))),
    }
}

pub open spec fn v3_outer_s(a: Vector3, b: Vector3) -> Matrix3 {
    Matrix3 {
        m00: fx(fx_mul_s(a.x@, b.x@)),
        m01: fx(fx_mul_s(a.x@, b.y@)),
        m02: fx(fx_mul_s(a.x@, b.z@)),
        m10: fx(fx_mul_s(a.y@, b.x@)),
        m11: fx(fx_mul_s(a.y@, b.y@)),
        m12: fx(fx_mul_s(a.y@, b.z@)),
        m20: fx(fx_mul_s(a.z@, b.x@)),
        m21: fx(fx_mul_s(a.z@, b.y@)),
        m22: fx(fx_mul_s(a.z@, b.z@)),
    }
}

impl Vector2 {
    pub fn new(x: Fx, y: Fx) -> (r: Vector2)
        ensures
            r == (Vector2 { x, y }),
    {
        Vector2 { x, y }
    }

    pub fn zero() -> (r: Vector2)
        ensures
            r.x@ == 0 && r.y@ == 0,
    {
        Vector2 { x: Fx::zero(), y: Fx::zero() }
    }

    pub fn add(self, o: Vector2) -> (r: Vector2)
        ensures
            r == v2_add_s(self, o),
    {
        Vector2 { x: self.x.add(o.x), y: self.y.add(o.y) }
    }

    pub fn sub(self, o: Vector2) -> (r: Vector2)
        ensures
            r == v2_sub_s(self, o),
    {
        Vector2 { x: self.x.sub(o.x), y: self.y.sub(o.y) }
    }

    pub fn scale(self, k: Fx) -> (r: Vector2)
        ensures
            r == v2_scale_s(self, k),
    {
        Vector2 { x: self.x.mul(k), y: self.y.mul(k) }
    }

    /// Divide both components by a nonzero scalar.
    pub fn div_scalar(self, m: Fx) -> (r: Vector2)
        requires
            m@ != 0,
        ensures
            r == v2_div_scalar_s(self, m),
    {
        Vector2 { x: self.x.div(m), y: self.y.div(m) }
    }

    pub fn outer(self, o: Vector2) -> (r: Matrix2)
        ensures
            r == v2_outer_s(self, o),
    {
        Matrix2 {
            a: self.x.mul(o.x),
            b: self.x.mul(o.y),
            c: self.y.mul(o.x),
            d: self.y.mul(o.y),
        }
    }
}

impl Matrix2 {
    pub fn new(a: Fx, b: Fx, c: Fx, d: Fx) -> (r: Matrix2)
        ensures
            r == (Matrix2 { a, b, c, d }),
    {
        Matrix2 { a, b, c, d }
    }

    pub fn zero() -> (r: Matrix2)
        ensures
            r.a@ == 0 && r.b@ == 0 && r.c@ == 0 && r.d@ == 0,
    {
        Matrix2 { a: Fx::zero(), b: Fx::zero(), c: Fx::zero(), d: Fx::zero() }
    }

    pub fn identity() -> (r: Matrix2)
        ensures
            r.a@ == FX_ONE && r.b@ == 0 && r.c@ == 0 && r.d@ == FX_ONE,
    {
        Matrix2 { a: Fx::one(), b: Fx::zero(), c: Fx::zero(), d: Fx::one() }
    }

    pub fn add(self, o: Matrix2) -> (r: Matrix2)
        ensures
            r == m2_add_s(self, o),
    {
        Matrix2 {
            a: self.a.add(o.a),
            b: self.b.add(o.b),
            c: self.c.add(o.c),
            d: self.d.add(o.d),
        }
    }

    pub fn sub(self, o: Matrix2) -> (r: Matrix2)
        ensures
            r == m2_sub_s(self, o),
    {
        Matrix2 {
            a: self.a.sub(o.a),
            b: self.b.sub(o.b),
            c: self.c.sub(o.c),
            d: self.d.sub(o.d),
        }
    }

    pub fn scale(self, k: Fx) -> (r: Matrix2)
        ensures
            r == m2_scale_s(self, k),
    {
        Matrix2 {
            a: self.a.mul(k),
            b: self.b.mul(k),
            c: self.c.mul(k),
            d: self.d.mul(k),
        }
    }

    pub fn mul(self, o: Matrix2) -> (r: Matrix2)
        ensures
            r == m2_mul_s(self, o),
    {
        Matrix2 {
            a: self.a.mul(o.a).add(self.b.mul(o.c)),
            b: self.a.mul(o.b).add(self.b.mul(o.d)),
            c: self.c.mul(o.a).add(self.d.mul(o.c)),
            d: self.c.mul(o.b).add(self.d.mul(o.d)),
        }
    }

    pub fn mul_vec(self, v: Vector2) -> (r: Vector2)
        ensures
            r == m2_mul_v2_s(self, v),
    {
        Vector2 {
            x: self.a.mul(v.x).add(self.b.mul(v.y)),
            y: self.c.mul(v.x).add(self.d.mul(v.y)),
        }
    }

    pub fn transpose(self) -> (r: Matrix2)
        ensures
            r == m2_transpose_s(self),
    {
        Matrix2 { a: self.a, b: self.c, c: self.b, d: self.d }
    }

    pub fn determinant(self) -> (r: Fx)
        ensures
            r@ == m2_det_s(self),
    {
        self.a.mul(self.d).sub(self.b.mul(self.c))
    }
}

impl Vector3 {
    pub fn new(x: Fx, y: Fx, z: Fx) -> (r: Vector3)
        ensures
            r == (Vector3 { x, y, z }),
    {
        Vector3 { x, y, z }
    }

    pub fn zero() -> (r: Vector3)
        ensures
            r.x@ == 0 && r.y@ == 0 && r.z@ == 0,
    {
        Vector3 { x: Fx::zero(), y: Fx::zero(), z: Fx::zero() }
    }

    pub fn add(self, o: Vector3) -> (r: Vector3)
        ensures
            r == v3_add_s(self, o),
    {
        Vector3 { x: self.x.add(o.x), y: self.y.add(o.y), z: self.z.add(o.z) }
    }

    pub fn sub(self, o: Vector3) -> (r: Vector3)
        ensures
            r == v3_sub_s(self, o),
    {
        Vector3 { x: self.x.sub(o.x), y: self.y.sub(o.y), z: self.z.sub(o.z) }
    }

    pub fn scale(self, k: Fx) -> (r: Vector3)
        ensures
            r == v3_scale_s(self, k),
    {
        Vector3 { x: self.x.mul(k), y: self.y.mul(k), z: self.z.mul(k) }
    }

    pub fn neg(self) -> (r: Vector3)
        ensures
            r == v3_neg_s(self),
    {
        Vector3 { x: self.x.neg(), y: self.y.neg(), z: self.z.neg() }
    }

    pub fn dot(self, o: Vector3) -> (r: Fx)
        ensures
            r@ == v3_dot_s(self, o),
    {
        self.x.mul(o.x).add(self.y.mul(o.y)).add(self.z.mul(o.z))
    }

    pub fn cross(self, o: Vector3) -> (r: Vector3)
        ensures
            r == v3_cross_s(self, o),
    {
        Vector3 {
            x: self.y.mul(o.z).sub(self.z.mul(o.y)),
            y: self.z.mul(o.x).sub(self.x.mul(o.z)),
            z: self.x.mul(o.y).sub(self.y.mul(o.x)),
        }
    }
}

} // verus!
