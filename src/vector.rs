//! Two- and three-dimensional vectors of fixed-point components.
use crate::fixed::{
    div_spec, fx_add, fx_div, fx_mul, fx_sub, in_range, isqrt, mul_spec, sat, sat_i128, sqrt_spec, LIMIT,
};
use vstd::prelude::*;

verus! {

/// A point or direction in the table plane.
#[derive(Clone, Copy, Debug, PartialEq, Eq, Structural)]
pub struct Vec2 {
    pub x: i64,
    pub y: i64,
}

/// A point or direction in space: `x`, `y` in the table plane, `z` the height.
#[derive(Clone, Copy, Debug, PartialEq, Eq, Structural)]
pub struct Vec3 {
    pub x: i64,
    pub y: i64,
    pub z: i64,
}

impl Vec2 {
    pub open spec fn wf(self) -> bool {
        in_range(self.x as int) && in_range(self.y as int)
    }
}

impl Vec3 {
    pub open spec fn wf(self) -> bool {
        in_range(self.x as int) && in_range(self.y as int) && in_range(self.z as int)
    }
}

pub open spec fn v2(x: int, y: int) -> Vec2 {
    Vec2 { x: sat(x) as i64, y: sat(y) as i64 }
}

pub open spec fn v3(x: int, y: int, z: int) -> Vec3 {
    Vec3 { x: sat(x) as i64, y: sat(y) as i64, z: sat(z) as i64 }
}

pub open spec fn zero3() -> Vec3 {
    Vec3 { x: 0, y: 0, z: 0 }
}

pub open spec fn plus2(a: Vec2, b: Vec2) -> Vec2 {
    v2(a.x + b.x, a.y + b.y)
}

pub open spec fn minus2(a: Vec2, b: Vec2) -> Vec2 {
    v2(a.x - b.x, a.y - b.y)
}

pub open spec fn scaled2(a: Vec2, k: int) -> Vec2 {
    v2(mul_spec(a.x as int, k), mul_spec(a.y as int, k))
}

pub open spec fn length2(a: Vec2) -> int {
    sat(sqrt_spec(a.x * a.x + a.y * a.y))
}

/// `a` scaled to unit length; the zero vector where `a` has no length.
pub open spec fn normalized2(a: Vec2) -> Vec2 {
    let l = length2(a);
    if l == 0 {
        Vec2 { x: 0, y: 0 }
    } else {
        v2(div_spec(a.x as int, l), div_spec(a.y as int, l))
    }
}

pub open spec fn extend(a: Vec2, z: int) -> Vec3 {
    v3(a.x as int, a.y as int, z)
}

pub open spec fn plus3(a: Vec3, b: Vec3) -> Vec3 {
    v3(a.x + b.x, a.y + b.y, a.z + b.z)
}

pub open spec fn minus3(a: Vec3, b: Vec3) -> Vec3 {
    v3(a.x - b.x, a.y - b.y, a.z - b.z)
}

pub open spec fn scaled3(a: Vec3, k: int) -> Vec3 {
    v3(mul_spec(a.x as int, k), mul_spec(a.y as int, k), mul_spec(a.z as int, k))
}

pub open spec fn dot3(a: Vec3, b: Vec3) -> int {
    sat(
        mul_spec(a.x as int, b.x as int) + mul_spec(a.y as int, b.y as int) + mul_spec(
            a.z as int,
            b.z as int,
        ),
    )
}

pub open spec fn length3(a: Vec3) -> int {
    sat(sqrt_spec(a.x * a.x + a.y * a.y + a.z * a.z))
}

/// `a` scaled to unit length; the zero vector where `a` has no length.
pub open spec fn normalized3(a: Vec3) -> Vec3 {
    let l = length3(a);
    if l == 0 {
        zero3()
    } else {
        v3(div_spec(a.x as int, l), div_spec(a.y as int, l), div_spec(a.z as int, l))
    }
}

proof fn lemma_square_bound(a: int)
    requires
        in_range(a),
    ensures
        0 <= a * a <= LIMIT * LIMIT,
{
    assert(0 <= a * a <= LIMIT * LIMIT) by (nonlinear_arith)
        requires
            -LIMIT <= a <= LIMIT,
    ;
}

/// A saturated value is in range and fits an `i64`.
pub proof fn lemma_sat(x: int)
    ensures
        in_range(sat(x)),
        sat(x) == sat(x) as i64,
{
}

impl Vec2 {
    pub fn new(x: i64, y: i64) -> (r: Vec2)
        ensures
            r == (Vec2 { x, y }),
    {
        Vec2 { x, y }
    }

    pub fn plus(self, o: Vec2) -> (r: Vec2)
        ensures
            r == plus2(self, o),
            r.wf(),
    {
        Vec2 { x: fx_add(self.x, o.x), y: fx_add(self.y, o.y) }
    }

    pub fn minus(self, o: Vec2) -> (r: Vec2)
        ensures
            r == minus2(self, o),
            r.wf(),
    {
        Vec2 { x: fx_sub(self.x, o.x), y: fx_sub(self.y, o.y) }
    }

    pub fn scaled(self, k: i64) -> (r: Vec2)
        ensures
            r == scaled2(self, k as int),
            r.wf(),
    {
        proof {
            lemma_sat(mul_spec(self.x as int, k as int));
            lemma_sat(mul_spec(self.y as int, k as int));
        }
        Vec2 { x: fx_mul(self.x, k), y: fx_mul(self.y, k) }
    }

    pub fn length(self) -> (r: i64)
        requires
            self.wf(),
        ensures
            r == length2(self),
            0 <= r <= LIMIT,
    {
        proof {
            lemma_square_bound(self.x as int);
            lemma_square_bound(self.y as int);
        }
        let n: u128 = (self.x as i128 * self.x as i128 + self.y as i128 * self.y as i128) as u128;
        let s = isqrt(n);
        if s > LIMIT as u128 {
            LIMIT
        } else {
            s as i64
        }
    }

    pub fn normalized(self) -> (r: Vec2)
        requires
            self.wf(),
        ensures
            r == normalized2(self),
            r.wf(),
    {
        let l = self.length();
        if l == 0 {
            Vec2 { x: 0, y: 0 }
        } else {
            proof {
                lemma_sat(div_spec(self.x as int, l as int));
                lemma_sat(div_spec(self.y as int, l as int));
            }
            Vec2 { x: fx_div(self.x, l), y: fx_div(self.y, l) }
        }
    }

    pub fn extend(self, z: i64) -> (r: Vec3)
        ensures
            r == extend(self, z as int),
            r.wf(),
    {
        Vec3 {
            x: sat_i128(self.x as i128),
            y: sat_i128(self.y as i128),
            z: sat_i128(z as i128),
        }
    }
}

impl Vec3 {
    pub fn new(x: i64, y: i64, z: i64) -> (r: Vec3)
        ensures
            r == (Vec3 { x, y, z }),
    {
        Vec3 { x, y, z }
    }

    pub fn zero() -> (r: Vec3)
        ensures
            r == zero3(),
            r.wf(),
    {
        Vec3 { x: 0, y: 0, z: 0 }
    }

    pub fn plus(self, o: Vec3) -> (r: Vec3)
        ensures
            r == plus3(self, o),
            r.wf(),
    {
        Vec3 { x: fx_add(self.x, o.x), y: fx_add(self.y, o.y), z: fx_add(self.z, o.z) }
    }

    pub fn minus(self, o: Vec3) -> (r: Vec3)
        ensures
            r == minus3(self, o),
            r.wf(),
    {
        Vec3 { x: fx_sub(self.x, o.x), y: fx_sub(self.y, o.y), z: fx_sub(self.z, o.z) }
    }

    pub fn scaled(self, k: i64) -> (r: Vec3)
        ensures
            r == scaled3(self, k as int),
            r.wf(),
    {
        proof {
            lemma_sat(mul_spec(self.x as int, k as int));
            lemma_sat(mul_spec(self.y as int, k as int));
            lemma_sat(mul_spec(self.z as int, k as int));
        }
        Vec3 { x: fx_mul(self.x, k), y: fx_mul(self.y, k), z: fx_mul(self.z, k) }
    }

    pub fn dot(self, o: Vec3) -> (r: i64)
        ensures
            r == dot3(self, o),
            in_range(r as int),
    {
        let s: i128 = fx_mul(self.x, o.x) as i128 + fx_mul(self.y, o.y) as i128 + fx_mul(
            self.z,
            o.z,
        ) as i128;
        sat_i128(s)
    }

    pub fn length(self) -> (r: i64)
        requires
            self.wf(),
        ensures
            r == length3(self),
            0 <= r <= LIMIT,
    {
        proof {
            lemma_square_bound(self.x as int);
            lemma_square_bound(self.y as int);
            lemma_square_bound(self.z as int);
        }
        let n: u128 = (self.x as i128 * self.x as i128 + self.y as i128 * self.y as i128
            + self.z as i128 * self.z as i128) as u128;
        let s = isqrt(n);
        if s > LIMIT as u128 {
            LIMIT
        } else {
            s as i64
        }
    }

    pub fn normalized(self) -> (r: Vec3)
        requires
            self.wf(),
        ensures
            r == normalized3(self),
            r.wf(),
    {
        let l = self.length();
        if l == 0 {
            Vec3::zero()
        } else {
            proof {
                lemma_sat(div_spec(self.x as int, l as int));
                lemma_sat(div_spec(self.y as int, l as int));
                lemma_sat(div_spec(self.z as int, l as int));
            }
            Vec3 { x: fx_div(self.x, l), y: fx_div(self.y, l), z: fx_div(self.z, l) }
        }
    }

    pub fn truncate(self) -> (r: Vec2)
        ensures
            r == (Vec2 { x: self.x, y: self.y }),
    {
        Vec2 { x: self.x, y: self.y }
    }
}

} // verus!
