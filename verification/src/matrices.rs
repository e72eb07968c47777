//! 4x4 matrices over fixed-point scalars, with exact spec-function mirrors.
//!
//! The sixteen entries are named fields `mRC` (row, column).  Determinants
//! and inverses follow cofactor expansion, written out entry by entry so
//! that each operation's contract is the operation itself, stated over the
//! saturating fixed-point arithmetic of `fx`.
use crate::fx::{fx_add, fx_div, fx_mul, fx_neg, fx_sub, sfadd, sfdiv, sfmul, sfneg, sfsub, SCALE};
use crate::tuples::Tuple;
use vstd::prelude::*;

verus! {

#[derive(Clone, Copy, Debug, PartialEq, Eq, Structural, Hash)]
pub struct Matrix {
    pub m00: i64,
    pub m01: i64,
    pub m02: i64,
    pub m03: i64,
    pub m10: i64,
    pub m11: i64,
    pub m12: i64,
    pub m13: i64,
    pub m20: i64,
    pub m21: i64,
    pub m22: i64,
    pub m23: i64,
    pub m30: i64,
    pub m31: i64,
    pub m32: i64,
    pub m33: i64,
}

/// The identity transform.
pub open spec fn s_identity() -> Matrix {
    Matrix {
        m00: SCALE,
        m01: 0i64,
        m02: 0i64,
        m03: 0i64,
        m10: 0i64,
        m11: SCALE,
        m12: 0i64,
        m13: 0i64,
        m20: 0i64,
        m21: 0i64,
        m22: SCALE,
        m23: 0i64,
        m30: 0i64,
        m31: 0i64,
        m32: 0i64,
        m33: SCALE,
    }
}

pub fn identity_matrix() -> (r: Matrix)
    ensures
        r == s_identity(),
{
    Matrix {
        m00: SCALE,
        m01: 0,
        m02: 0,
        m03: 0,
        m10: 0,
        m11: SCALE,
        m12: 0,
        m13: 0,
        m20: 0,
        m21: 0,
        m22: SCALE,
        m23: 0,
        m30: 0,
        m31: 0,
        m32: 0,
        m33: SCALE,
    }
}

/// A matrix from four rows of four scalars.
pub fn matrix4(rows: [[i64; 4]; 4]) -> (r: Matrix)
    ensures
        r.m00 == rows@[0]@[0],
        r.m01 == rows@[0]@[1],
        r.m02 == rows@[0]@[2],
        r.m03 == rows@[0]@[3],
        r.m10 == rows@[1]@[0],
        r.m11 == rows@[1]@[1],
        r.m12 == rows@[1]@[2],
        r.m13 == rows@[1]@[3],
        r.m20 == rows@[2]@[0],
        r.m21 == rows@[2]@[1],
        r.m22 == rows@[2]@[2],
        r.m23 == rows@[2]@[3],
        r.m30 == rows@[3]@[0],
        r.m31 == rows@[3]@[1],
        r.m32 == rows@[3]@[2],
        r.m33 == rows@[3]@[3],
{
    Matrix {
        m00: rows[0][0],
        m01: rows[0][1],
        m02: rows[0][2],
        m03: rows[0][3],
        m10: rows[1][0],
        m11: rows[1][1],
        m12: rows[1][2],
        m13: rows[1][3],
        m20: rows[2][0],
        m21: rows[2][1],
        m22: rows[2][2],
        m23: rows[2][3],
        m30: rows[3][0],
        m31: rows[3][1],
        m32: rows[3][2],
        m33: rows[3][3],
    }
}

pub open spec fn s_transpose(a: Matrix) -> Matrix {
    Matrix {
        m00: a.m00,
        m01: a.m10,
        m02: a.m20,
        m03: a.m30,
        m10: a.m01,
        m11: a.m11,
        m12: a.m21,
        m13: a.m31,
        m20: a.m02,
        m21: a.m12,
        m22: a.m22,
        m23: a.m32,
        m30: a.m03,
        m31: a.m13,
        m32: a.m23,
        m33: a.m33,
    }
}

pub fn transpose(a: &Matrix) -> (r: Matrix)
    ensures
        r == s_transpose(*a),
{
    Matrix {
        m00: a.m00,
        m01: a.m10,
        m02: a.m20,
        m03: a.m30,
        m10: a.m01,
        m11: a.m11,
        m12: a.m21,
        m13: a.m31,
        m20: a.m02,
        m21: a.m12,
        m22: a.m22,
        m23: a.m32,
        m30: a.m03,
        m31: a.m13,
        m32: a.m23,
        m33: a.m33,
    }
}

/// Matrix product, row by column.
#[verifier::opaque]
pub open spec fn s_mat_mul(a: Matrix, b: Matrix) -> Matrix {
    Matrix {
        m00: sfadd(sfadd(sfadd(sfmul(a.m00, b.m00), sfmul(a.m01, b.m10)), sfmul(a.m02, b.m20)), sfmul(a.m03, b.m30)),
        m01: sfadd(sfadd(sfadd(sfmul(a.m00, b.m01), sfmul(a.m01, b.m11)), sfmul(a.m02, b.m21)), sfmul(a.m03, b.m31)),
        m02: sfadd(sfadd(sfadd(sfmul(a.m00, b.m02), sfmul(a.m01, b.m12)), sfmul(a.m02, b.m22)), sfmul(a.m03, b.m32)),
        m03: sfadd(sfadd(sfadd(sfmul(a.m00, b.m03), sfmul(a.m01, b.m13)), sfmul(a.m02, b.m23)), sfmul(a.m03, b.m33)),
        m10: sfadd(sfadd(sfadd(sfmul(a.m10, b.m00), sfmul(a.m11, b.m10)), sfmul(a.m12, b.m20)), sfmul(a.m13, b.m30)),
        m11: sfadd(sfadd(sfadd(sfmul(a.m10, b.m01), sfmul(a.m11, b.m11)), sfmul(a.m12, b.m21)), sfmul(a.m13, b.m31)),
        m12: sfadd(sfadd(sfadd(sfmul(a.m10, b.m02), sfmul(a.m11, b.m12)), sfmul(a.m12, b.m22)), sfmul(a.m13, b.m32)),
        m13: sfadd(sfadd(sfadd(sfmul(a.m10, b.m03), sfmul(a.m11, b.m13)), sfmul(a.m12, b.m23)), sfmul(a.m13, b.m33)),
        m20: sfadd(sfadd(sfadd(sfmul(a.m20, b.m00), sfmul(a.m21, b.m10)), sfmul(a.m22, b.m20)), sfmul(a.m23, b.m30)),
        m21: sfadd(sfadd(sfadd(sfmul(a.m20, b.m01), sfmul(a.m21, b.m11)), sfmul(a.m22, b.m21)), sfmul(a.m23, b.m31)),
        m22: sfadd(sfadd(sfadd(sfmul(a.m20, b.m02), sfmul(a.m21, b.m12)), sfmul(a.m22, b.m22)), sfmul(a.m23, b.m32)),
        m23: sfadd(sfadd(sfadd(sfmul(a.m20, b.m03), sfmul(a.m21, b.m13)), sfmul(a.m22, b.m23)), sfmul(a.m23, b.m33)),
        m30: sfadd(sfadd(sfadd(sfmul(a.m30, b.m00), sfmul(a.m31, b.m10)), sfmul(a.m32, b.m20)), sfmul(a.m33, b.m30)),
        m31: sfadd(sfadd(sfadd(sfmul(a.m30, b.m01), sfmul(a.m31, b.m11)), sfmul(a.m32, b.m21)), sfmul(a.m33, b.m31)),
        m32: sfadd(sfadd(sfadd(sfmul(a.m30, b.m02), sfmul(a.m31, b.m12)), sfmul(a.m32, b.m22)), sfmul(a.m33, b.m32)),
        m33: sfadd(sfadd(sfadd(sfmul(a.m30, b.m03), sfmul(a.m31, b.m13)), sfmul(a.m32, b.m23)), sfmul(a.m33, b.m33)),
    }
}

/// Matrix application to a tuple.
#[verifier::opaque]
pub open spec fn s_mat_tuple(a: Matrix, t: Tuple) -> Tuple {
    Tuple {
        x: sfadd(sfadd(sfadd(sfmul(a.m00, t.x), sfmul(a.m01, t.y)), sfmul(a.m02, t.z)), sfmul(a.m03, t.w)),
        y: sfadd(sfadd(sfadd(sfmul(a.m10, t.x), sfmul(a.m11, t.y)), sfmul(a.m12, t.z)), sfmul(a.m13, t.w)),
        z: sfadd(sfadd(sfadd(sfmul(a.m20, t.x), sfmul(a.m21, t.y)), sfmul(a.m22, t.z)), sfmul(a.m23, t.w)),
        w: sfadd(sfadd(sfadd(sfmul(a.m30, t.x), sfmul(a.m31, t.y)), sfmul(a.m32, t.z)), sfmul(a.m33, t.w)),
    }
}

/// Determinant by cofactor expansion along the first row.
#[verifier::opaque]
pub open spec fn s_det(a: Matrix) -> i64 {
    sfadd(sfadd(sfadd(sfmul(a.m00, sfadd(sfsub(sfmul(a.m11, sfsub(sfmul(a.m22, a.m33), sfmul(a.m23, a.m32))), sfmul(a.m12, sfsub(sfmul(a.m21, a.m33), sfmul(a.m23, a.m31)))), sfmul(a.m13, sfsub(sfmul(a.m21, a.m32), sfmul(a.m22, a.m31))))), sfmul(a.m01, sfneg(sfadd(sfsub(sfmul(a.m10, sfsub(sfmul(a.m22, a.m33), sfmul(a.m23, a.m32))), sfmul(a.m12, sfsub(sfmul(a.m20, a.m33), sfmul(a.m23, a.m30)))), sfmul(a.m13, sfsub(sfmul(a.m20, a.m32), sfmul(a.m22, a.m30))))))), sfmul(a.m02, sfadd(sfsub(sfmul(a.m10, sfsub(sfmul(a.m21, a.m33), sfmul(a.m23, a.m31))), sfmul(a.m11, sfsub(sfmul(a.m20, a.m33), sfmul(a.m23, a.m30)))), sfmul(a.m13, sfsub(sfmul(a.m20, a.m31), sfmul(a.m21, a.m30)))))), sfmul(a.m03, sfneg(sfadd(sfsub(sfmul(a.m10, sfsub(sfmul(a.m21, a.m32), sfmul(a.m22, a.m31))), sfmul(a.m11, sfsub(sfmul(a.m20, a.m32), sfmul(a.m22, a.m30)))), sfmul(a.m12, sfsub(sfmul(a.m20, a.m31), sfmul(a.m21, a.m30)))))))
}

/// Entry (r, c) of the inverse is the (c, r) cofactor over the determinant.
#[verifier::opaque]
pub open spec fn s_inverse(a: Matrix) -> Matrix
    recommends
        s_det(a) != 0,
{
    let det = s_det(a);
    Matrix {
        m00: sfdiv(sfadd(sfsub(sfmul(a.m11, sfsub(sfmul(a.m22, a.m33), sfmul(a.m23, a.m32))), sfmul(a.m12, sfsub(sfmul(a.m21, a.m33), sfmul(a.m23, a.m31)))), sfmul(a.m13, sfsub(sfmul(a.m21, a.m32), sfmul(a.m22, a.m31)))), det),
        m01: sfdiv(sfneg(sfadd(sfsub(sfmul(a.m01, sfsub(sfmul(a.m22, a.m33), sfmul(a.m23, a.m32))), sfmul(a.m02, sfsub(sfmul(a.m21, a.m33), sfmul(a.m23, a.m31)))), sfmul(a.m03, sfsub(sfmul(a.m21, a.m32), sfmul(a.m22, a.m31))))), det),
        m02: sfdiv(sfadd(sfsub(sfmul(a.m01, sfsub(sfmul(a.m12, a.m33), sfmul(a.m13, a.m32))), sfmul(a.m02, sfsub(sfmul(a.m11, a.m33), sfmul(a.m13, a.m31)))), sfmul(a.m03, sfsub(sfmul(a.m11, a.m32), sfmul(a.m12, a.m31)))), det),
        m03: sfdiv(sfneg(sfadd(sfsub(sfmul(a.m01, sfsub(sfmul(a.m12, a.m23), sfmul(a.m13, a.m22))), sfmul(a.m02, sfsub(sfmul(a.m11, a.m23), sfmul(a.m13, a.m21)))), sfmul(a.m03, sfsub(sfmul(a.m11, a.m22), sfmul(a.m12, a.m21))))), det),
        m10: sfdiv(sfneg(sfadd(sfsub(sfmul(a.m10, sfsub(sfmul(a.m22, a.m33), sfmul(a.m23, a.m32))), sfmul(a.m12, sfsub(sfmul(a.m20, a.m33), sfmul(a.m23, a.m30)))), sfmul(a.m13, sfsub(sfmul(a.m20, a.m32), sfmul(a.m22, a.m30))))), det),
        m11: sfdiv(sfadd(sfsub(sfmul(a.m00, sfsub(sfmul(a.m22, a.m33), sfmul(a.m23, a.m32))), sfmul(a.m02, sfsub(sfmul(a.m20, a.m33), sfmul(a.m23, a.m30)))), sfmul(a.m03, sfsub(sfmul(a.m20, a.m32), sfmul(a.m22, a.m30)))), det),
        m12: sfdiv(sfneg(sfadd(sfsub(sfmul(a.m00, sfsub(sfmul(a.m12, a.m33), sfmul(a.m13, a.m32))), sfmul(a.m02, sfsub(sfmul(a.m10, a.m33), sfmul(a.m13, a.m30)))), sfmul(a.m03, sfsub(sfmul(a.m10, a.m32), sfmul(a.m12, a.m30))))), det),
        m13: sfdiv(sfadd(sfsub(sfmul(a.m00, sfsub(sfmul(a.m12, a.m23), sfmul(a.m13, a.m22))), sfmul(a.m02, sfsub(sfmul(a.m10, a.m23), sfmul(a.m13, a.m20)))), sfmul(a.m03, sfsub(sfmul(a.m10, a.m22), sfmul(a.m12, a.m20)))), det),
        m20: sfdiv(sfadd(sfsub(sfmul(a.m10, sfsub(sfmul(a.m21, a.m33), sfmul(a.m23, a.m31))), sfmul(a.m11, sfsub(sfmul(a.m20, a.m33), sfmul(a.m23, a.m30)))), sfmul(a.m13, sfsub(sfmul(a.m20, a.m31), sfmul(a.m21, a.m30)))), det),
        m21: sfdiv(sfneg(sfadd(sfsub(sfmul(a.m00, sfsub(sfmul(a.m21, a.m33), sfmul(a.m23, a.m31))), sfmul(a.m01, sfsub(sfmul(a.m20, a.m33), sfmul(a.m23, a.m30)))), sfmul(a.m03, sfsub(sfmul(a.m20, a.m31), sfmul(a.m21, a.m30))))), det),
        m22: sfdiv(sfadd(sfsub(sfmul(a.m00, sfsub(sfmul(a.m11, a.m33), sfmul(a.m13, a.m31))), sfmul(a.m01, sfsub(sfmul(a.m10, a.m33), sfmul(a.m13, a.m30)))), sfmul(a.m03, sfsub(sfmul(a.m10, a.m31), sfmul(a.m11, a.m30)))), det),
        m23: sfdiv(sfneg(sfadd(sfsub(sfmul(a.m00, sfsub(sfmul(a.m11, a.m23), sfmul(a.m13, a.m21))), sfmul(a.m01, sfsub(sfmul(a.m10, a.m23), sfmul(a.m13, a.m20)))), sfmul(a.m03, sfsub(sfmul(a.m10, a.m21), sfmul(a.m11, a.m20))))), det),
        m30: sfdiv(sfneg(sfadd(sfsub(sfmul(a.m10, sfsub(sfmul(a.m21, a.m32), sfmul(a.m22, a.m31))), sfmul(a.m11, sfsub(sfmul(a.m20, a.m32), sfmul(a.m22, a.m30)))), sfmul(a.m12, sfsub(sfmul(a.m20, a.m31), sfmul(a.m21, a.m30))))), det),
        m31: sfdiv(sfadd(sfsub(sfmul(a.m00, sfsub(sfmul(a.m21, a.m32), sfmul(a.m22, a.m31))), sfmul(a.m01, sfsub(sfmul(a.m20, a.m32), sfmul(a.m22, a.m30)))), sfmul(a.m02, sfsub(sfmul(a.m20, a.m31), sfmul(a.m21, a.m30)))), det),
        m32: sfdiv(sfneg(sfadd(sfsub(sfmul(a.m00, sfsub(sfmul(a.m11, a.m32), sfmul(a.m12, a.m31))), sfmul(a.m01, sfsub(sfmul(a.m10, a.m32), sfmul(a.m12, a.m30)))), sfmul(a.m02, sfsub(sfmul(a.m10, a.m31), sfmul(a.m11, a.m30))))), det),
        m33: sfdiv(sfadd(sfsub(sfmul(a.m00, sfsub(sfmul(a.m11, a.m22), sfmul(a.m12, a.m21))), sfmul(a.m01, sfsub(sfmul(a.m10, a.m22), sfmul(a.m12, a.m20)))), sfmul(a.m02, sfsub(sfmul(a.m10, a.m21), sfmul(a.m11, a.m20)))), det),
    }
}

impl Matrix {
    pub fn mul(&self, b: &Matrix) -> (r: Matrix)
        ensures
            r == s_mat_mul(*self, *b),
    {
        proof {
            reveal(s_mat_mul);
        }
        let a = self;
        Matrix {
            m00: fx_add(fx_add(fx_add(fx_mul(a.m00, b.m00), fx_mul(a.m01, b.m10)), fx_mul(a.m02, b.m20)), fx_mul(a.m03, b.m30)),
            m01: fx_add(fx_add(fx_add(fx_mul(a.m00, b.m01), fx_mul(a.m01, b.m11)), fx_mul(a.m02, b.m21)), fx_mul(a.m03, b.m31)),
            m02: fx_add(fx_add(fx_add(fx_mul(a.m00, b.m02), fx_mul(a.m01, b.m12)), fx_mul(a.m02, b.m22)), fx_mul(a.m03, b.m32)),
            m03: fx_add(fx_add(fx_add(fx_mul(a.m00, b.m03), fx_mul(a.m01, b.m13)), fx_mul(a.m02, b.m23)), fx_mul(a.m03, b.m33)),
            m10: fx_add(fx_add(fx_add(fx_mul(a.m10, b.m00), fx_mul(a.m11, b.m10)), fx_mul(a.m12, b.m20)), fx_mul(a.m13, b.m30)),
            m11: fx_add(fx_add(fx_add(fx_mul(a.m10, b.m01), fx_mul(a.m11, b.m11)), fx_mul(a.m12, b.m21)), fx_mul(a.m13, b.m31)),
            m12: fx_add(fx_add(fx_add(fx_mul(a.m10, b.m02), fx_mul(a.m11, b.m12)), fx_mul(a.m12, b.m22)), fx_mul(a.m13, b.m32)),
            m13: fx_add(fx_add(fx_add(fx_mul(a.m10, b.m03), fx_mul(a.m11, b.m13)), fx_mul(a.m12, b.m23)), fx_mul(a.m13, b.m33)),
            m20: fx_add(fx_add(fx_add(fx_mul(a.m20, b.m00), fx_mul(a.m21, b.m10)), fx_mul(a.m22, b.m20)), fx_mul(a.m23, b.m30)),
            m21: fx_add(fx_add(fx_add(fx_mul(a.m20, b.m01), fx_mul(a.m21, b.m11)), fx_mul(a.m22, b.m21)), fx_mul(a.m23, b.m31)),
            m22: fx_add(fx_add(fx_add(fx_mul(a.m20, b.m02), fx_mul(a.m21, b.m12)), fx_mul(a.m22, b.m22)), fx_mul(a.m23, b.m32)),
            m23: fx_add(fx_add(fx_add(fx_mul(a.m20, b.m03), fx_mul(a.m21, b.m13)), fx_mul(a.m22, b.m23)), fx_mul(a.m23, b.m33)),
            m30: fx_add(fx_add(fx_add(fx_mul(a.m30, b.m00), fx_mul(a.m31, b.m10)), fx_mul(a.m32, b.m20)), fx_mul(a.m33, b.m30)),
            m31: fx_add(fx_add(fx_add(fx_mul(a.m30, b.m01), fx_mul(a.m31, b.m11)), fx_mul(a.m32, b.m21)), fx_mul(a.m33, b.m31)),
            m32: fx_add(fx_add(fx_add(fx_mul(a.m30, b.m02), fx_mul(a.m31, b.m12)), fx_mul(a.m32, b.m22)), fx_mul(a.m33, b.m32)),
            m33: fx_add(fx_add(fx_add(fx_mul(a.m30, b.m03), fx_mul(a.m31, b.m13)), fx_mul(a.m32, b.m23)), fx_mul(a.m33, b.m33)),
        }
    }

    pub fn mul_tuple(&self, t: &Tuple) -> (r: Tuple)
        ensures
            r == s_mat_tuple(*self, *t),
    {
        proof {
            reveal(s_mat_tuple);
        }
        let a = self;
        Tuple {
            x: fx_add(fx_add(fx_add(fx_mul(a.m00, t.x), fx_mul(a.m01, t.y)), fx_mul(a.m02, t.z)), fx_mul(a.m03, t.w)),
            y: fx_add(fx_add(fx_add(fx_mul(a.m10, t.x), fx_mul(a.m11, t.y)), fx_mul(a.m12, t.z)), fx_mul(a.m13, t.w)),
            z: fx_add(fx_add(fx_add(fx_mul(a.m20, t.x), fx_mul(a.m21, t.y)), fx_mul(a.m22, t.z)), fx_mul(a.m23, t.w)),
            w: fx_add(fx_add(fx_add(fx_mul(a.m30, t.x), fx_mul(a.m31, t.y)), fx_mul(a.m32, t.z)), fx_mul(a.m33, t.w)),
        }
    }

    pub fn determinant(&self) -> (r: i64)
        ensures
            r == s_det(*self),
    {
        proof {
            reveal(s_det);
        }
        let a = self;
        fx_add(fx_add(fx_add(fx_mul(a.m00, fx_add(fx_sub(fx_mul(a.m11, fx_sub(fx_mul(a.m22, a.m33), fx_mul(a.m23, a.m32))), fx_mul(a.m12, fx_sub(fx_mul(a.m21, a.m33), fx_mul(a.m23, a.m31)))), fx_mul(a.m13, fx_sub(fx_mul(a.m21, a.m32), fx_mul(a.m22, a.m31))))), fx_mul(a.m01, fx_neg(fx_add(fx_sub(fx_mul(a.m10, fx_sub(fx_mul(a.m22, a.m33), fx_mul(a.m23, a.m32))), fx_mul(a.m12, fx_sub(fx_mul(a.m20, a.m33), fx_mul(a.m23, a.m30)))), fx_mul(a.m13, fx_sub(fx_mul(a.m20, a.m32), fx_mul(a.m22, a.m30))))))), fx_mul(a.m02, fx_add(fx_sub(fx_mul(a.m10, fx_sub(fx_mul(a.m21, a.m33), fx_mul(a.m23, a.m31))), fx_mul(a.m11, fx_sub(fx_mul(a.m20, a.m33), fx_mul(a.m23, a.m30)))), fx_mul(a.m13, fx_sub(fx_mul(a.m20, a.m31), fx_mul(a.m21, a.m30)))))), fx_mul(a.m03, fx_neg(fx_add(fx_sub(fx_mul(a.m10, fx_sub(fx_mul(a.m21, a.m32), fx_mul(a.m22, a.m31))), fx_mul(a.m11, fx_sub(fx_mul(a.m20, a.m32), fx_mul(a.m22, a.m30)))), fx_mul(a.m12, fx_sub(fx_mul(a.m20, a.m31), fx_mul(a.m21, a.m30)))))))
    }

    pub fn is_invertible(&self) -> (r: bool)
        ensures
            r == (s_det(*self) != 0),
    {
        self.determinant() != 0
    }
}

pub fn determinant(m: &Matrix) -> (r: i64)
    ensures
        r == s_det(*m),
{
    m.determinant()
}

/// The inverse of an invertible matrix.
pub fn inverse(m: &Matrix) -> (r: Matrix)
    requires
        s_det(*m) != 0,
    ensures
        r == s_inverse(*m),
{
    proof {
        reveal(s_det);
        reveal(s_inverse);
    }
    let a = m;
    let det: i64 = m.determinant();
    Matrix {
        m00: fx_div(fx_add(fx_sub(fx_mul(a.m11, fx_sub(fx_mul(a.m22, a.m33), fx_mul(a.m23, a.m32))), fx_mul(a.m12, fx_sub(fx_mul(a.m21, a.m33), fx_mul(a.m23, a.m31)))), fx_mul(a.m13, fx_sub(fx_mul(a.m21, a.m32), fx_mul(a.m22, a.m31)))), det),
        m01: fx_div(fx_neg(fx_add(fx_sub(fx_mul(a.m01, fx_sub(fx_mul(a.m22, a.m33), fx_mul(a.m23, a.m32))), fx_mul(a.m02, fx_sub(fx_mul(a.m21, a.m33), fx_mul(a.m23, a.m31)))), fx_mul(a.m03, fx_sub(fx_mul(a.m21, a.m32), fx_mul(a.m22, a.m31))))), det),
        m02: fx_div(fx_add(fx_sub(fx_mul(a.m01, fx_sub(fx_mul(a.m12, a.m33), fx_mul(a.m13, a.m32))), fx_mul(a.m02, fx_sub(fx_mul(a.m11, a.m33), fx_mul(a.m13, a.m31)))), fx_mul(a.m03, fx_sub(fx_mul(a.m11, a.m32), fx_mul(a.m12, a.m31)))), det),
        m03: fx_div(fx_neg(fx_add(fx_sub(fx_mul(a.m01, fx_sub(fx_mul(a.m12, a.m23), fx_mul(a.m13, a.m22))), fx_mul(a.m02, fx_sub(fx_mul(a.m11, a.m23), fx_mul(a.m13, a.m21)))), fx_mul(a.m03, fx_sub(fx_mul(a.m11, a.m22), fx_mul(a.m12, a.m21))))), det),
        m10: fx_div(fx_neg(fx_add(fx_sub(fx_mul(a.m10, fx_sub(fx_mul(a.m22, a.m33), fx_mul(a.m23, a.m32))), fx_mul(a.m12, fx_sub(fx_mul(a.m20, a.m33), fx_mul(a.m23, a.m30)))), fx_mul(a.m13, fx_sub(fx_mul(a.m20, a.m32), fx_mul(a.m22, a.m30))))), det),
        m11: fx_div(fx_add(fx_sub(fx_mul(a.m00, fx_sub(fx_mul(a.m22, a.m33), fx_mul(a.m23, a.m32))), fx_mul(a.m02, fx_sub(fx_mul(a.m20, a.m33), fx_mul(a.m23, a.m30)))), fx_mul(a.m03, fx_sub(fx_mul(a.m20, a.m32), fx_mul(a.m22, a.m30)))), det),
        m12: fx_div(fx_neg(fx_add(fx_sub(fx_mul(a.m00, fx_sub(fx_mul(a.m12, a.m33), fx_mul(a.m13, a.m32))), fx_mul(a.m02, fx_sub(fx_mul(a.m10, a.m33), fx_mul(a.m13, a.m30)))), fx_mul(a.m03, fx_sub(fx_mul(a.m10, a.m32), fx_mul(a.m12, a.m30))))), det),
        m13: fx_div(fx_add(fx_sub(fx_mul(a.m00, fx_sub(fx_mul(a.m12, a.m23), fx_mul(a.m13, a.m22))), fx_mul(a.m02, fx_sub(fx_mul(a.m10, a.m23), fx_mul(a.m13, a.m20)))), fx_mul(a.m03, fx_sub(fx_mul(a.m10, a.m22), fx_mul(a.m12, a.m20)))), det),
        m20: fx_div(fx_add(fx_sub(fx_mul(a.m10, fx_sub(fx_mul(a.m21, a.m33), fx_mul(a.m23, a.m31))), fx_mul(a.m11, fx_sub(fx_mul(a.m20, a.m33), fx_mul(a.m23, a.m30)))), fx_mul(a.m13, fx_sub(fx_mul(a.m20, a.m31), fx_mul(a.m21, a.m30)))), det),
        m21: fx_div(fx_neg(fx_add(fx_sub(fx_mul(a.m00, fx_sub(fx_mul(a.m21, a.m33), fx_mul(a.m23, a.m31))), fx_mul(a.m01, fx_sub(fx_mul(a.m20, a.m33), fx_mul(a.m23, a.m30)))), fx_mul(a.m03, fx_sub(fx_mul(a.m20, a.m31), fx_mul(a.m21, a.m30))))), det),
        m22: fx_div(fx_add(fx_sub(fx_mul(a.m00, fx_sub(fx_mul(a.m11, a.m33), fx_mul(a.m13, a.m31))), fx_mul(a.m01, fx_sub(fx_mul(a.m10, a.m33), fx_mul(a.m13, a.m30)))), fx_mul(a.m03, fx_sub(fx_mul(a.m10, a.m31), fx_mul(a.m11, a.m30)))), det),
        m23: fx_div(fx_neg(fx_add(fx_sub(fx_mul(a.m00, fx_sub(fx_mul(a.m11, a.m23), fx_mul(a.m13, a.m21))), fx_mul(a.m01, fx_sub(fx_mul(a.m10, a.m23), fx_mul(a.m13, a.m20)))), fx_mul(a.m03, fx_sub(fx_mul(a.m10, a.m21), fx_mul(a.m11, a.m20))))), det),
        m30: fx_div(fx_neg(fx_add(fx_sub(fx_mul(a.m10, fx_sub(fx_mul(a.m21, a.m32), fx_mul(a.m22, a.m31))), fx_mul(a.m11, fx_sub(fx_mul(a.m20, a.m32), fx_mul(a.m22, a.m30)))), fx_mul(a.m12, fx_sub(fx_mul(a.m20, a.m31), fx_mul(a.m21, a.m30))))), det),
        m31: fx_div(fx_add(fx_sub(fx_mul(a.m00, fx_sub(fx_mul(a.m21, a.m32), fx_mul(a.m22, a.m31))), fx_mul(a.m01, fx_sub(fx_mul(a.m20, a.m32), fx_mul(a.m22, a.m30)))), fx_mul(a.m02, fx_sub(fx_mul(a.m20, a.m31), fx_mul(a.m21, a.m30)))), det),
        m32: fx_div(fx_neg(fx_add(fx_sub(fx_mul(a.m00, fx_sub(fx_mul(a.m11, a.m32), fx_mul(a.m12, a.m31))), fx_mul(a.m01, fx_sub(fx_mul(a.m10, a.m32), fx_mul(a.m12, a.m30)))), fx_mul(a.m02, fx_sub(fx_mul(a.m10, a.m31), fx_mul(a.m11, a.m30))))), det),
        m33: fx_div(fx_add(fx_sub(fx_mul(a.m00, fx_sub(fx_mul(a.m11, a.m22), fx_mul(a.m12, a.m21))), fx_mul(a.m01, fx_sub(fx_mul(a.m10, a.m22), fx_mul(a.m12, a.m20)))), fx_mul(a.m02, fx_sub(fx_mul(a.m10, a.m21), fx_mul(a.m11, a.m20)))), det),
    }
}

/// The inverse where one exists; the identity on singular matrices, so that
/// derived transforms stay total (a singular transform later yields no
/// intersections rather than a fault).
pub fn inverse_or_identity(m: &Matrix) -> (r: Matrix)
    ensures
        s_det(*m) != 0 ==> r == s_inverse(*m),
        s_det(*m) == 0 ==> r == s_identity(),
{
    if m.is_invertible() {
        inverse(m)
    } else {
        identity_matrix()
    }
}

} // verus!
