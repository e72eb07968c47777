//! Affine transform constructors.
//!
//! Rotations take the sine and cosine of the angle as fixed-point scalars:
//! trigonometry itself is not computed here, only the matrices built from it.
use crate::fx::{fx_neg, sfneg, HUGE, SCALE};
use crate::matrices::{identity_matrix, s_identity, s_mat_mul, s_mat_tuple, Matrix};
use crate::tuples::{cross, normalize, s_cross, s_normalize, s_sub, Tuple};
use vstd::prelude::*;

verus! {

pub open spec fn s_translation(x: i64, y: i64, z: i64) -> Matrix {
    Matrix { m03: x, m13: y, m23: z, ..s_identity() }
}

pub fn translation(x: i64, y: i64, z: i64) -> (r: Matrix)
    ensures
        r == s_translation(x, y, z),
{
    let mut m: Matrix = identity_matrix();
    m.m03 = x;
    m.m13 = y;
    m.m23 = z;
    m
}

pub open spec fn s_scaling(x: i64, y: i64, z: i64) -> Matrix {
    Matrix { m00: x, m11: y, m22: z, ..s_identity() }
}

pub fn scaling(x: i64, y: i64, z: i64) -> (r: Matrix)
    ensures
        r == s_scaling(x, y, z),
{
    let mut m: Matrix = identity_matrix();
    m.m00 = x;
    m.m11 = y;
    m.m22 = z;
    m
}

/// Rotation about the x axis, from the angle's sine and cosine.
pub open spec fn s_rotation_x(sin: i64, cos: i64) -> Matrix {
    Matrix { m11: cos, m12: sfneg(sin), m21: sin, m22: cos, ..s_identity() }
}

pub fn rotation_x(sin: i64, cos: i64) -> (r: Matrix)
    ensures
        r == s_rotation_x(sin, cos),
{
    let mut m: Matrix = identity_matrix();
    m.m11 = cos;
    m.m12 = fx_neg(sin);
    m.m21 = sin;
    m.m22 = cos;
    m
}

/// Rotation about the y axis, from the angle's sine and cosine.
pub open spec fn s_rotation_y(sin: i64, cos: i64) -> Matrix {
    Matrix { m00: cos, m02: sin, m20: sfneg(sin), m22: cos, ..s_identity() }
}

pub fn rotation_y(sin: i64, cos: i64) -> (r: Matrix)
    ensures
        r == s_rotation_y(sin, cos),
{
    let mut m: Matrix = identity_matrix();
    m.m00 = cos;
    m.m02 = sin;
    m.m20 = fx_neg(sin);
    m.m22 = cos;
    m
}

/// Rotation about the z axis, from the angle's sine and cosine.
pub open spec fn s_rotation_z(sin: i64, cos: i64) -> Matrix {
    Matrix { m00: cos, m01: sfneg(sin), m10: sin, m11: cos, ..s_identity() }
}

pub fn rotation_z(sin: i64, cos: i64) -> (r: Matrix)
    ensures
        r == s_rotation_z(sin, cos),
{
    let mut m: Matrix = identity_matrix();
    m.m00 = cos;
    m.m01 = fx_neg(sin);
    m.m10 = sin;
    m.m11 = cos;
    m
}

pub open spec fn s_shearing(xy: i64, xz: i64, yx: i64, yz: i64, zx: i64, zy: i64) -> Matrix {
    Matrix { m01: xy, m02: xz, m10: yx, m12: yz, m20: zx, m21: zy, ..s_identity() }
}

pub fn shearing(xy: i64, xz: i64, yx: i64, yz: i64, zx: i64, zy: i64) -> (r: Matrix)
    ensures
        r == s_shearing(xy, xz, yx, yz, zx, zy),
{
    let mut m: Matrix = identity_matrix();
    m.m01 = xy;
    m.m02 = xz;
    m.m10 = yx;
    m.m12 = yz;
    m.m20 = zx;
    m.m21 = zy;
    m
}

/// A point carried through a translation moves by exactly the offsets, and
/// a vector is untouched, within the `HUGE` range of exact sums.
pub proof fn lemma_translate_tuple(x: i64, y: i64, z: i64, p: Tuple)
    requires
        -2 * HUGE <= p.x <= 2 * HUGE,
        -2 * HUGE <= p.y <= 2 * HUGE,
        -2 * HUGE <= p.z <= 2 * HUGE,
        p.w == SCALE || p.w == 0i64,
        -HUGE <= x <= HUGE,
        -HUGE <= y <= HUGE,
        -HUGE <= z <= HUGE,
    ensures
        p.w == SCALE ==> s_mat_tuple(s_translation(x, y, z), p) == (Tuple {
            x: (p.x + x) as i64,
            y: (p.y + y) as i64,
            z: (p.z + z) as i64,
            w: SCALE,
        }),
        p.w == 0i64 ==> s_mat_tuple(s_translation(x, y, z), p) == p,
{
    reveal(crate::matrices::s_mat_tuple);
    crate::fx::lemma_fmul_one(p.x);
    crate::fx::lemma_fmul_one(p.y);
    crate::fx::lemma_fmul_one(p.z);
    crate::fx::lemma_fmul_one(SCALE);
    crate::fx::lemma_fmul_zero(p.x);
    crate::fx::lemma_fmul_zero(p.y);
    crate::fx::lemma_fmul_zero(p.z);
    crate::fx::lemma_fmul_zero(p.w);
    crate::fx::lemma_fmul_one(x);
    crate::fx::lemma_fmul_one(y);
    crate::fx::lemma_fmul_one(z);
    crate::fx::lemma_fmul_zero(x);
    crate::fx::lemma_fmul_zero(y);
    crate::fx::lemma_fmul_zero(z);
}

/// Round trip: carrying a ray through a translation and back through the
/// opposite translation returns the ray exactly, within the `HUGE` range.
pub proof fn lemma_translation_round_trip(r: crate::rays::Ray, x: i64, y: i64, z: i64)
    requires
        -HUGE <= r.origin.x <= HUGE,
        -HUGE <= r.origin.y <= HUGE,
        -HUGE <= r.origin.z <= HUGE,
        r.origin.w == SCALE,
        -HUGE <= r.direction.x <= HUGE,
        -HUGE <= r.direction.y <= HUGE,
        -HUGE <= r.direction.z <= HUGE,
        r.direction.w == 0i64,
        -HUGE <= x <= HUGE,
        -HUGE <= y <= HUGE,
        -HUGE <= z <= HUGE,
    ensures
        crate::rays::s_transform(
            crate::rays::s_transform(r, s_translation(x, y, z)),
            s_translation(sfneg(x), sfneg(y), sfneg(z)),
        ) == r,
{
    lemma_translate_tuple(x, y, z, r.origin);
    lemma_translate_tuple(x, y, z, r.direction);
    let moved = Tuple {
        x: (r.origin.x + x) as i64,
        y: (r.origin.y + y) as i64,
        z: (r.origin.z + z) as i64,
        w: SCALE,
    };
    lemma_translate_tuple(sfneg(x), sfneg(y), sfneg(z), moved);
    lemma_translate_tuple(sfneg(x), sfneg(y), sfneg(z), r.direction);
}

/// The world-to-eye transform of a camera standing at `from`, looking at
/// `to`, with `up` fixing the roll.
pub open spec fn s_view_transform(from: Tuple, to: Tuple, up: Tuple) -> Matrix {
    let forward = s_normalize(s_sub(to, from));
    let upn = s_normalize(up);
    let left = s_cross(forward, upn);
    let true_up = s_cross(left, forward);
    let orientation = Matrix {
        m00: left.x,
        m01: left.y,
        m02: left.z,
        m03: 0i64,
        m10: true_up.x,
        m11: true_up.y,
        m12: true_up.z,
        m13: 0i64,
        m20: sfneg(forward.x),
        m21: sfneg(forward.y),
        m22: sfneg(forward.z),
        m23: 0i64,
        m30: 0i64,
        m31: 0i64,
        m32: 0i64,
        m33: SCALE,
    };
    s_mat_mul(orientation, s_translation(sfneg(from.x), sfneg(from.y), sfneg(from.z)))
}

pub fn view_transform(from: &Tuple, to: &Tuple, up: &Tuple) -> (r: Matrix)
    ensures
        r == s_view_transform(*from, *to, *up),
{
    let forward: Tuple = normalize(&to.sub(from));
    let upn: Tuple = normalize(up);
    let left: Tuple = cross(&forward, &upn);
    let true_up: Tuple = cross(&left, &forward);
    let orientation: Matrix = Matrix {
        m00: left.x,
        m01: left.y,
        m02: left.z,
        m03: 0,
        m10: true_up.x,
        m11: true_up.y,
        m12: true_up.z,
        m13: 0,
        m20: fx_neg(forward.x),
        m21: fx_neg(forward.y),
        m22: fx_neg(forward.z),
        m23: 0,
        m30: 0,
        m31: 0,
        m32: 0,
        m33: SCALE,
    };
    let t: Matrix = translation(fx_neg(from.x), fx_neg(from.y), fx_neg(from.z));
    orientation.mul(&t)
}

} // verus!
