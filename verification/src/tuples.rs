//! Points, vectors and colors over fixed-point scalars.
//!
//! A `Tuple` is a homogeneous 4-vector: `w == SCALE` marks a point,
//! `w == 0` a vector.  Every operation is stated exactly by a spec-function
//! mirror over the saturating fixed-point arithmetic of `fx`.
use crate::fx::{
    fx_add, fx_div, fx_equal, fx_equal_s, fx_mul, fx_neg, fx_sqrt, fx_sub, sfadd, sfdiv, sfmul,
    sfneg, sfsqrt, sfsub, SCALE,
};
use vstd::prelude::*;

verus! {

#[derive(Clone, Copy, Debug, PartialEq, Eq, Structural, Hash)]
pub struct Tuple {
    pub x: i64,
    pub y: i64,
    pub z: i64,
    pub w: i64,
}

pub fn tuple(x: i64, y: i64, z: i64, w: i64) -> (r: Tuple)
    ensures
        r == (Tuple { x, y, z, w }),
{
    Tuple { x, y, z, w }
}

/// A point: `w` is one.
pub fn point(x: i64, y: i64, z: i64) -> (r: Tuple)
    ensures
        r == (Tuple { x, y, z, w: SCALE }),
{
    Tuple { x, y, z, w: SCALE }
}

/// A vector: `w` is zero.
pub fn vector(x: i64, y: i64, z: i64) -> (r: Tuple)
    ensures
        r == (Tuple { x, y, z, w: 0i64 }),
{
    Tuple { x, y, z, w: 0 }
}

pub open spec fn s_add(a: Tuple, b: Tuple) -> Tuple {
    Tuple { x: sfadd(a.x, b.x), y: sfadd(a.y, b.y), z: sfadd(a.z, b.z), w: sfadd(a.w, b.w) }
}

pub open spec fn s_sub(a: Tuple, b: Tuple) -> Tuple {
    Tuple { x: sfsub(a.x, b.x), y: sfsub(a.y, b.y), z: sfsub(a.z, b.z), w: sfsub(a.w, b.w) }
}

pub open spec fn s_neg(a: Tuple) -> Tuple {
    Tuple { x: sfneg(a.x), y: sfneg(a.y), z: sfneg(a.z), w: sfneg(a.w) }
}

pub open spec fn s_scale(a: Tuple, k: i64) -> Tuple {
    Tuple { x: sfmul(a.x, k), y: sfmul(a.y, k), z: sfmul(a.z, k), w: sfmul(a.w, k) }
}

pub open spec fn s_div(a: Tuple, k: i64) -> Tuple
    recommends
        k != 0,
{
    Tuple { x: sfdiv(a.x, k), y: sfdiv(a.y, k), z: sfdiv(a.z, k), w: sfdiv(a.w, k) }
}

pub open spec fn s_dot(a: Tuple, b: Tuple) -> i64 {
    sfadd(sfadd(sfadd(sfmul(a.x, b.x), sfmul(a.y, b.y)), sfmul(a.z, b.z)), sfmul(a.w, b.w))
}

pub open spec fn s_cross(a: Tuple, b: Tuple) -> Tuple {
    Tuple {
        x: sfsub(sfmul(a.y, b.z), sfmul(a.z, b.y)),
        y: sfsub(sfmul(a.z, b.x), sfmul(a.x, b.z)),
        z: sfsub(sfmul(a.x, b.y), sfmul(a.y, b.x)),
        w: 0i64,
    }
}

pub open spec fn s_magnitude(a: Tuple) -> i64 {
    sfsqrt(s_dot(a, a))
}

/// A normalized copy; the zero-magnitude vector is left as it is.
pub open spec fn s_normalize(a: Tuple) -> Tuple {
    let m = s_magnitude(a);
    if m == 0 {
        a
    } else {
        s_div(a, m)
    }
}

/// Reflection of `v` about a surface normal: the scalar `200_000` is the
/// fixed-point value two.
pub open spec fn s_reflect(v: Tuple, normal: Tuple) -> Tuple {
    s_sub(v, s_scale(s_scale(normal, 200_000i64), s_dot(v, normal)))
}

pub proof fn lemma_dot_self_nonneg(a: Tuple)
    ensures
        s_dot(a, a) >= 0,
{
    assert(a.x as int * a.x as int >= 0 && a.y as int * a.y as int >= 0 && a.z as int * a.z as int
        >= 0 && a.w as int * a.w as int >= 0) by (nonlinear_arith);
}

impl Tuple {
    pub fn is_point(&self) -> (r: bool)
        ensures
            r == fx_equal_s(self.w as int, SCALE as int),
    {
        fx_equal(self.w, SCALE)
    }

    pub fn is_vector(&self) -> (r: bool)
        ensures
            r == fx_equal_s(self.w as int, 0),
    {
        fx_equal(self.w, 0)
    }

    pub fn add(&self, b: &Tuple) -> (r: Tuple)
        ensures
            r == s_add(*self, *b),
    {
        Tuple {
            x: fx_add(self.x, b.x),
            y: fx_add(self.y, b.y),
            z: fx_add(self.z, b.z),
            w: fx_add(self.w, b.w),
        }
    }

    pub fn sub(&self, b: &Tuple) -> (r: Tuple)
        ensures
            r == s_sub(*self, *b),
    {
        Tuple {
            x: fx_sub(self.x, b.x),
            y: fx_sub(self.y, b.y),
            z: fx_sub(self.z, b.z),
            w: fx_sub(self.w, b.w),
        }
    }

    pub fn neg(&self) -> (r: Tuple)
        ensures
            r == s_neg(*self),
    {
        Tuple { x: fx_neg(self.x), y: fx_neg(self.y), z: fx_neg(self.z), w: fx_neg(self.w) }
    }

    pub fn scale(&self, k: i64) -> (r: Tuple)
        ensures
            r == s_scale(*self, k),
    {
        Tuple {
            x: fx_mul(self.x, k),
            y: fx_mul(self.y, k),
            z: fx_mul(self.z, k),
            w: fx_mul(self.w, k),
        }
    }

    pub fn div_by(&self, k: i64) -> (r: Tuple)
        requires
            k != 0,
        ensures
            r == s_div(*self, k),
    {
        Tuple {
            x: fx_div(self.x, k),
            y: fx_div(self.y, k),
            z: fx_div(self.z, k),
            w: fx_div(self.w, k),
        }
    }

    pub fn dot(&self, b: &Tuple) -> (r: i64)
        ensures
            r == s_dot(*self, *b),
    {
        fx_add(
            fx_add(fx_add(fx_mul(self.x, b.x), fx_mul(self.y, b.y)), fx_mul(self.z, b.z)),
            fx_mul(self.w, b.w),
        )
    }

    pub fn cross(&self, b: &Tuple) -> (r: Tuple)
        ensures
            r == s_cross(*self, *b),
    {
        Tuple {
            x: fx_sub(fx_mul(self.y, b.z), fx_mul(self.z, b.y)),
            y: fx_sub(fx_mul(self.z, b.x), fx_mul(self.x, b.z)),
            z: fx_sub(fx_mul(self.x, b.y), fx_mul(self.y, b.x)),
            w: 0,
        }
    }

    pub fn magnitude(&self) -> (r: i64)
        ensures
            r == s_magnitude(*self),
            r >= 0,
    {
        proof {
            lemma_dot_self_nonneg(*self);
        }
        let d: i64 = self.dot(self);
        fx_sqrt(d)
    }

    pub fn normalized(&self) -> (r: Tuple)
        ensures
            r == s_normalize(*self),
    {
        let m: i64 = self.magnitude();
        if m == 0 {
            *self
        } else {
            self.div_by(m)
        }
    }

    pub fn reflect(&self, normal: &Tuple) -> (r: Tuple)
        ensures
            r == s_reflect(*self, *normal),
    {
        let twice: Tuple = normal.scale(200_000);
        let d: i64 = self.dot(normal);
        self.sub(&twice.scale(d))
    }
}

pub fn dot(a: &Tuple, b: &Tuple) -> (r: i64)
    ensures
        r == s_dot(*a, *b),
{
    a.dot(b)
}

pub fn cross(a: &Tuple, b: &Tuple) -> (r: Tuple)
    ensures
        r == s_cross(*a, *b),
{
    a.cross(b)
}

pub fn magnitude(t: &Tuple) -> (r: i64)
    ensures
        r == s_magnitude(*t),
{
    t.magnitude()
}

pub fn normalize(t: &Tuple) -> (r: Tuple)
    ensures
        r == s_normalize(*t),
{
    t.normalized()
}

pub fn reflect(in_: &Tuple, normal: &Tuple) -> (r: Tuple)
    ensures
        r == s_reflect(*in_, *normal),
{
    in_.reflect(normal)
}

/// A color as a red/green/blue triple of fixed-point intensities.
#[derive(Clone, Copy, Debug, PartialEq, Eq, Structural, Hash)]
pub struct Color {
    pub red: i64,
    pub green: i64,
    pub blue: i64,
}

pub fn color(red: i64, green: i64, blue: i64) -> (r: Color)
    ensures
        r == (Color { red, green, blue }),
{
    Color { red, green, blue }
}

pub fn black() -> (r: Color)
    ensures
        r == (Color { red: 0i64, green: 0i64, blue: 0i64 }),
{
    Color { red: 0, green: 0, blue: 0 }
}

pub fn white() -> (r: Color)
    ensures
        r == (Color { red: SCALE, green: SCALE, blue: SCALE }),
{
    Color { red: SCALE, green: SCALE, blue: SCALE }
}

pub open spec fn c_add(a: Color, b: Color) -> Color {
    Color { red: sfadd(a.red, b.red), green: sfadd(a.green, b.green), blue: sfadd(a.blue, b.blue) }
}

pub open spec fn c_sub(a: Color, b: Color) -> Color {
    Color { red: sfsub(a.red, b.red), green: sfsub(a.green, b.green), blue: sfsub(a.blue, b.blue) }
}

pub open spec fn c_mul(a: Color, b: Color) -> Color {
    Color { red: sfmul(a.red, b.red), green: sfmul(a.green, b.green), blue: sfmul(a.blue, b.blue) }
}

pub open spec fn c_scale(a: Color, k: i64) -> Color {
    Color { red: sfmul(a.red, k), green: sfmul(a.green, k), blue: sfmul(a.blue, k) }
}

impl Color {
    pub fn add(&self, b: &Color) -> (r: Color)
        ensures
            r == c_add(*self, *b),
    {
        Color {
            red: fx_add(self.red, b.red),
            green: fx_add(self.green, b.green),
            blue: fx_add(self.blue, b.blue),
        }
    }

    pub fn sub(&self, b: &Color) -> (r: Color)
        ensures
            r == c_sub(*self, *b),
    {
        Color {
            red: fx_sub(self.red, b.red),
            green: fx_sub(self.green, b.green),
            blue: fx_sub(self.blue, b.blue),
        }
    }

    pub fn mul(&self, b: &Color) -> (r: Color)
        ensures
            r == c_mul(*self, *b),
    {
        Color {
            red: fx_mul(self.red, b.red),
            green: fx_mul(self.green, b.green),
            blue: fx_mul(self.blue, b.blue),
        }
    }

    pub fn scale(&self, k: i64) -> (r: Color)
        ensures
            r == c_scale(*self, k),
    {
        Color {
            red: fx_mul(self.red, k),
            green: fx_mul(self.green, k),
            blue: fx_mul(self.blue, k),
        }
    }
}

} // verus!
