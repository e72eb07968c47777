//! Fixed-point scalar arithmetic.
//!
//! Every scalar of the renderer is an `i64` counting steps of `1/SCALE`
//! (so the value `1.0` is stored as `SCALE`).  All operations saturate at the
//! `i64` range instead of overflowing, and products and quotients truncate
//! toward zero, exactly as the spec functions below state.
use vstd::prelude::*;

verus! {

/// Number of fixed-point steps in one whole unit.
pub const SCALE: i64 = 100_000;

/// Tolerance of the approximate scalar equality `fx_equal`.
pub const EQUAL_EPSILON: i64 = 10;

/// Offset applied along the normal to build over/under points, and the
/// threshold under which a ray direction component counts as parallel.
/// Kept separate from `EQUAL_EPSILON`: the two are tuned independently.
pub const EPSILON: i64 = 10;

/// Stand-in for an infinite coordinate: large enough to dwarf any scene,
/// small enough that a few saturating sums stay ordered.
pub const HUGE: i64 = 0x1fff_ffff_ffff_ffff;

/// The negative counterpart of `HUGE`.
pub const NEG_HUGE: i64 = -0x1fff_ffff_ffff_ffff;

/// Saturation of a mathematical integer into the `i64` range.
pub open spec fn sat(x: int) -> int {
    if x > i64::MAX as int {
        i64::MAX as int
    } else if x < i64::MIN as int {
        i64::MIN as int
    } else {
        x
    }
}

pub open spec fn abs_i(x: int) -> int {
    if x < 0 {
        -x
    } else {
        x
    }
}

/// Division truncating toward zero (the rounding of machine division),
/// stated over mathematical integers.
pub open spec fn tdiv(a: int, b: int) -> int
    recommends
        b != 0,
{
    if (a < 0) == (b < 0) {
        abs_i(a) / abs_i(b)
    } else {
        -(abs_i(a) / abs_i(b))
    }
}

/// Fixed-point addition: exact sum, saturated.
pub open spec fn fadd(a: int, b: int) -> int {
    sat(a + b)
}

/// Fixed-point subtraction: exact difference, saturated.
pub open spec fn fsub(a: int, b: int) -> int {
    sat(a - b)
}

/// Fixed-point negation, saturated.
pub open spec fn fneg(a: int) -> int {
    sat(-a)
}

/// Fixed-point product: `a*b/SCALE`, truncated toward zero, saturated.
pub open spec fn fmul(a: int, b: int) -> int {
    sat(tdiv(a * b, SCALE as int))
}

/// Fixed-point quotient: `a*SCALE/b`, truncated toward zero, saturated.
pub open spec fn fdiv(a: int, b: int) -> int
    recommends
        b != 0,
{
    sat(tdiv(a * SCALE as int, b))
}

/// Floor of the square root of a natural number.
pub open spec fn sqrt_floor(n: nat) -> nat
    decreases n,
{
    if n == 0 {
        0
    } else {
        let r = 2 * sqrt_floor(n / 4);
        if (r + 1) * (r + 1) <= n {
            r + 1
        } else {
            r
        }
    }
}

/// Fixed-point square root: floor of the square root of `a * SCALE`.
pub open spec fn fsqrt(a: int) -> int
    recommends
        a >= 0,
{
    sqrt_floor((a * SCALE as int) as nat) as int
}

pub proof fn lemma_sqrt_floor_bounds(n: nat)
    ensures
        sqrt_floor(n) * sqrt_floor(n) <= n,
        n < (sqrt_floor(n) + 1) * (sqrt_floor(n) + 1),
    decreases n,
{
    if n == 0 {
        assert(sqrt_floor(0) == 0);
        assert(n < (sqrt_floor(n) + 1) * (sqrt_floor(n) + 1)) by (nonlinear_arith)
            requires
                n == 0 && sqrt_floor(n) == 0,
        ;
    } else {
        let m = n / 4;
        lemma_sqrt_floor_bounds(m);
        let s = sqrt_floor(m);
        let r = 2 * s;
        assert(n < (r + 2) * (r + 2)) by {
            assert(s * s <= m && m < (s + 1) * (s + 1));
            assert(4 * m <= n < 4 * m + 4) by (nonlinear_arith)
                requires
                    m == n / 4,
            ;
            assert(4 * ((s + 1) * (s + 1)) == (r + 2) * (r + 2)) by (nonlinear_arith)
                requires
                    r == 2 * s,
            ;
            assert(4 * m + 4 <= 4 * ((s + 1) * (s + 1))) by (nonlinear_arith)
                requires
                    m < (s + 1) * (s + 1),
            ;
        }
        assert(r * r <= n) by {
            assert(4 * (s * s) == r * r) by (nonlinear_arith)
                requires
                    r == 2 * s,
            ;
            assert(4 * m <= n) by (nonlinear_arith)
                requires
                    m == n / 4,
            ;
            assert(4 * (s * s) <= 4 * m) by (nonlinear_arith)
                requires
                    s * s <= m,
            ;
        }
        if (r + 1) * (r + 1) <= n {
            assert(sqrt_floor(n) == r + 1);
            assert(sqrt_floor(n) * sqrt_floor(n) <= n);
            assert(n < (sqrt_floor(n) + 1) * (sqrt_floor(n) + 1));
        } else {
            assert(sqrt_floor(n) == r);
            assert(sqrt_floor(n) * sqrt_floor(n) <= n);
            assert(n < (sqrt_floor(n) + 1) * (sqrt_floor(n) + 1));
        }
    }
}

pub proof fn lemma_sqrt_unique(n: nat, r: nat)
    requires
        r * r <= n,
        n < (r + 1) * (r + 1),
    ensures
        r == sqrt_floor(n),
{
    lemma_sqrt_floor_bounds(n);
    let s = sqrt_floor(n);
    if r < s {
        assert((r + 1) * (r + 1) <= s * s) by (nonlinear_arith)
            requires
                r + 1 <= s,
        ;
    }
    if s < r {
        assert((s + 1) * (s + 1) <= r * r) by (nonlinear_arith)
            requires
                s + 1 <= r,
        ;
    }
}

/// Saturating cast of a signed 128-bit value into `i64`.
fn sat128(x: i128) -> (r: i64)
    ensures
        r as int == sat(x as int),
{
    if x > i64::MAX as i128 {
        i64::MAX
    } else if x < i64::MIN as i128 {
        i64::MIN
    } else {
        x as i64
    }
}

/// Fixed-point addition.
pub fn fx_add(a: i64, b: i64) -> (r: i64)
    ensures
        r as int == fadd(a as int, b as int),
{
    sat128(a as i128 + b as i128)
}

/// Fixed-point subtraction.
pub fn fx_sub(a: i64, b: i64) -> (r: i64)
    ensures
        r as int == fsub(a as int, b as int),
{
    sat128(a as i128 - b as i128)
}

/// Fixed-point negation.
pub fn fx_neg(a: i64) -> (r: i64)
    ensures
        r as int == fneg(a as int),
{
    sat128(-(a as i128))
}

/// Magnitude of a signed 128-bit value that is not `i128::MIN`.
fn mag128(x: i128) -> (r: u128)
    requires
        x != i128::MIN,
    ensures
        r as int == abs_i(x as int),
{
    if x >= 0 {
        x as u128
    } else {
        (-x) as u128
    }
}

/// Saturating signed interpretation of a magnitude.
fn sat_signed(neg: bool, m: u128) -> (r: i64)
    ensures
        r as int == sat(if neg { -(m as int) } else { m as int }),
{
    if neg {
        if m > i64::MAX as u128 {
            // Anything at or beyond 2^63 saturates to the minimum.
            i64::MIN
        } else {
            -(m as i64)
        }
    } else {
        if m > i64::MAX as u128 {
            i64::MAX
        } else {
            m as i64
        }
    }
}

proof fn lemma_abs_mul(a: int, b: int)
    ensures
        abs_i(a * b) == abs_i(a) * abs_i(b),
        (a * b < 0) == ((a != 0) && (b != 0) && ((a < 0) != (b < 0))),
{
    assert(abs_i(a * b) == abs_i(a) * abs_i(b) && (a * b < 0) == ((a != 0) && (b != 0) && ((a < 0)
        != (b < 0)))) by (nonlinear_arith);
}

/// Fixed-point multiplication.
pub fn fx_mul(a: i64, b: i64) -> (r: i64)
    ensures
        r as int == fmul(a as int, b as int),
{
    let neg: bool = (a < 0) != (b < 0);
    let am: u128 = mag128(a as i128);
    let bm: u128 = mag128(b as i128);
    proof {
        lemma_abs_mul(a as int, b as int);
        assert(am * bm <= u128::MAX) by (nonlinear_arith)
            requires
                am <= 9223372036854775808u128 && bm <= 9223372036854775808u128,
        ;
    }
    let pm: u128 = am * bm;
    let qm: u128 = pm / (SCALE as u128);
    proof {
        assert(tdiv(a as int * b as int, SCALE as int) == if (a as int * b as int) < 0 {
            -(qm as int)
        } else {
            qm as int
        });
        assert(((a as int * b as int) < 0) ==> neg);
        assert(qm != 0 ==> abs_i(a as int * b as int) != 0);
        assert(qm != 0 ==> (a as int * b as int) != 0);
    }
    if qm == 0 {
        0
    } else {
        proof {
            assert((a as int * b as int) != 0);
            if a == 0 || b == 0 {
                assert(a as int * b as int == 0) by (nonlinear_arith)
                    requires
                        a as int == 0 || b as int == 0,
                ;
            }
            assert(a != 0 && b != 0);
            assert(((a as int * b as int) < 0) == neg);
            assert(tdiv(a as int * b as int, SCALE as int) == if neg {
                -(qm as int)
            } else {
                qm as int
            });
        }
        sat_signed(neg, qm)
    }
}

/// Fixed-point division.  The divisor must be nonzero.
pub fn fx_div(a: i64, b: i64) -> (r: i64)
    requires
        b != 0,
    ensures
        r as int == fdiv(a as int, b as int),
{
    let neg: bool = (a < 0) != (b < 0);
    let am: u128 = mag128(a as i128);
    let bm: u128 = mag128(b as i128);
    proof {
        lemma_abs_mul(a as int, SCALE as int);
        assert(am * (SCALE as u128) <= u128::MAX) by (nonlinear_arith)
            requires
                am <= 9223372036854775808u128,
        ;
    }
    let pm: u128 = am * (SCALE as u128);
    let qm: u128 = pm / bm;
    proof {
        assert(tdiv(a as int * SCALE as int, b as int) == if ((a as int * SCALE as int) < 0) == (
        (b as int) < 0) {
            qm as int
        } else {
            -(qm as int)
        });
        assert(qm != 0 ==> (a as int * SCALE as int != 0));
    }
    if qm == 0 {
        0
    } else {
        sat_signed(neg, qm)
    }
}

/// Floor of the square root, by binary search.
fn isqrt(n: u128) -> (r: u128)
    requires
        n < 0x4_0000_0000_0000_0000_0000,  // 2^82
    ensures
        r as nat == sqrt_floor(n as nat),
{
    let mut lo: u128 = 0;
    let mut hi: u128 = 0x200_0000_0000;  // 2^41
    proof {
        assert(hi * hi > n) by (nonlinear_arith)
            requires
                hi == 0x200_0000_0000u128 && n < 0x4_0000_0000_0000_0000_0000u128,
        ;
    }
    while lo + 1 < hi
        invariant
            lo < hi,
            hi <= 0x200_0000_0000,
            lo * lo <= n as nat,
            (n as nat) < hi * hi,
        decreases hi - lo,
    {
        let mid: u128 = lo + (hi - lo) / 2;
        proof {
            assert(mid * mid <= u128::MAX) by (nonlinear_arith)
                requires
                    mid <= 0x200_0000_0000u128,
            ;
        }
        if mid * mid <= n {
            lo = mid;
        } else {
            hi = mid;
        }
    }
    proof {
        assert(lo + 1 == hi);
        lemma_sqrt_unique(n as nat, lo as nat);
    }
    lo
}

/// Fixed-point square root of a nonnegative scalar.
pub fn fx_sqrt(a: i64) -> (r: i64)
    requires
        a >= 0,
    ensures
        r as int == fsqrt(a as int),
        r >= 0,
{
    proof {
        vstd::arithmetic::mul::lemma_mul_upper_bound(
            (a as u128) as int,
            0x7fff_ffff_ffff_ffff,
            (SCALE as u128) as int,
            100000,
        );
    }
    let n: u128 = (a as u128) * (SCALE as u128);
    proof {
        lemma_sqrt_floor_bounds(n as nat);
        assert(sqrt_floor(n as nat) < 0x200_0000_0000) by {
            if sqrt_floor(n as nat) >= 0x200_0000_0000 {
                assert(sqrt_floor(n as nat) * sqrt_floor(n as nat) >= 0x200_0000_0000
                    * 0x200_0000_0000) by (nonlinear_arith)
                    requires
                        sqrt_floor(n as nat) >= 0x200_0000_0000,
                ;
            }
        }
    }
    let r: u128 = isqrt(n);
    r as i64
}

/// The spec mirrors below restate the operations at the scalar type itself:
/// every result fits `i64` by construction, so the casts are lossless.
pub open spec fn sfadd(a: i64, b: i64) -> i64 {
    fadd(a as int, b as int) as i64
}

pub open spec fn sfsub(a: i64, b: i64) -> i64 {
    fsub(a as int, b as int) as i64
}

pub open spec fn sfneg(a: i64) -> i64 {
    fneg(a as int) as i64
}

pub open spec fn sfmul(a: i64, b: i64) -> i64 {
    fmul(a as int, b as int) as i64
}

pub open spec fn sfdiv(a: i64, b: i64) -> i64
    recommends
        b != 0,
{
    fdiv(a as int, b as int) as i64
}

pub open spec fn sfsqrt(a: i64) -> i64
    recommends
        a >= 0,
{
    fsqrt(a as int) as i64
}

pub open spec fn sfabs(a: i64) -> i64 {
    sat(abs_i(a as int)) as i64
}

pub open spec fn sfmin(a: i64, b: i64) -> i64 {
    if a <= b {
        a
    } else {
        b
    }
}

pub open spec fn sfmax(a: i64, b: i64) -> i64 {
    if a >= b {
        a
    } else {
        b
    }
}

pub open spec fn sffloor(a: i64) -> i64 {
    ffloor(a as int) as i64
}

pub open spec fn sfpow(b: i64, e: nat) -> i64 {
    fpow(b as int, e) as i64
}

/// Magnitude of a scalar, saturated (the magnitude of `i64::MIN` is capped).
pub fn fx_abs(a: i64) -> (r: i64)
    ensures
        r as int == sat(abs_i(a as int)),
{
    if a >= 0 {
        a
    } else if a == i64::MIN {
        i64::MAX
    } else {
        -a
    }
}

/// Approximate scalar equality, within `EQUAL_EPSILON`.
pub open spec fn fx_equal_s(a: int, b: int) -> bool {
    abs_i(a - b) < EQUAL_EPSILON as int
}

pub fn fx_equal(a: i64, b: i64) -> (r: bool)
    ensures
        r == fx_equal_s(a as int, b as int),
{
    let d: i128 = a as i128 - b as i128;
    let m: i128 = if d < 0 {
        -d
    } else {
        d
    };
    m < EQUAL_EPSILON as i128
}

pub fn fx_min(a: i64, b: i64) -> (r: i64)
    ensures
        r as int == if a as int <= b as int {
            a as int
        } else {
            b as int
        },
{
    if a <= b {
        a
    } else {
        b
    }
}

pub fn fx_max(a: i64, b: i64) -> (r: i64)
    ensures
        r as int == if a as int >= b as int {
            a as int
        } else {
            b as int
        },
{
    if a >= b {
        a
    } else {
        b
    }
}

/// Whole-unit floor of a scalar (the greatest integer at or below it).
pub open spec fn ffloor(a: int) -> int {
    a / (SCALE as int)
}

pub fn fx_floor(a: i64) -> (r: i64)
    ensures
        r as int == ffloor(a as int),
{
    if a >= 0 {
        let q: u64 = (a as u64) / (SCALE as u64);
        proof {
            vstd::arithmetic::div_mod::lemma_fundamental_div_mod(a as int, SCALE as int);
            vstd::arithmetic::div_mod::lemma_fundamental_div_mod_converse(
                a as int,
                SCALE as int,
                q as int,
                a as int - (SCALE as int) * (q as int),
            );
        }
        q as i64
    } else {
        let n: u128 = (-(a as i128)) as u128;
        let m: u128 = (n + (SCALE as u128) - 1) / (SCALE as u128);
        proof {
            let s: int = SCALE as int;
            let qq: int = (a as int) / s;
            let rr: int = (a as int) % s;
            vstd::arithmetic::div_mod::lemma_fundamental_div_mod(a as int, s);
            // Euclidean remainder of a positive divisor lies in [0, s).
            vstd::arithmetic::div_mod::lemma_mod_bound(a as int, s);
            if rr == 0 {
                vstd::arithmetic::div_mod::lemma_fundamental_div_mod_converse(
                    n as int + s - 1,
                    s,
                    -qq,
                    s - 1,
                );
            } else {
                vstd::arithmetic::div_mod::lemma_fundamental_div_mod_converse(
                    n as int + s - 1,
                    s,
                    -qq,
                    s - rr - 1,
                );
            }
            assert(m as int == -qq);
            assert(-qq <= 0x8000_0000_0000_0000);
        }
        let mi: i128 = m as i128;
        (-mi) as i64
    }
}

/// Multiplying by a whole number of units is exact: the fixed-point product
/// of `n * SCALE` with `a` is the saturated plain product `n * a`.
pub proof fn lemma_fmul_units(n: int, a: int)
    ensures
        fmul(n * SCALE as int, a) == sat(n * a),
{
    let s: int = SCALE as int;
    assert((n * s) * a == s * (n * a)) by (nonlinear_arith);
    assert(abs_i(s * (n * a)) == s * abs_i(n * a)) by (nonlinear_arith)
        requires
            s > 0,
    ;
    vstd::arithmetic::div_mod::lemma_div_multiples_vanish(abs_i(n * a), s);
    assert(abs_i(n * s * a) / abs_i(s) == abs_i(n * a));
    assert(tdiv((n * s) * a, s) == n * a) by {
        if (n * s) * a >= 0 {
            assert(n * a >= 0) by (nonlinear_arith)
                requires
                    (n * s) * a >= 0 && s > 0 && (n * s) * a == s * (n * a),
            ;
        } else {
            assert(n * a < 0) by (nonlinear_arith)
                requires
                    (n * s) * a < 0 && s > 0 && (n * s) * a == s * (n * a),
            ;
        }
    }
}

/// Multiplying by the fixed-point one is exact, on either side.
pub proof fn lemma_fmul_one(a: i64)
    ensures
        sfmul(SCALE, a) == a,
        sfmul(a, SCALE) == a,
{
    lemma_fmul_units(1, a as int);
    assert(1 * SCALE as int == SCALE as int);
    assert(1 * a as int == a as int);
    assert(a as int * SCALE as int == SCALE as int * a as int) by (nonlinear_arith);
}

/// Multiplying by zero gives zero, on either side.
pub proof fn lemma_fmul_zero(a: i64)
    ensures
        sfmul(0i64, a) == 0i64,
        sfmul(a, 0i64) == 0i64,
{
    assert(0 * a as int == 0) by (nonlinear_arith);
    assert(a as int * 0 == 0) by (nonlinear_arith);
    assert(abs_i(0) / abs_i(SCALE as int) == 0);
}

/// A square is never negative in fixed point.
pub proof fn lemma_square_nonneg(x: i64)
    ensures
        sfmul(x, x) >= 0,
{
    assert(x as int * x as int >= 0) by (nonlinear_arith);
}

/// The fixed-point scalar holding a whole number of units, saturated.
pub open spec fn sf_from_units(n: i64) -> i64 {
    sat(n as int * SCALE as int) as i64
}

pub fn fx_from_units(n: i64) -> (r: i64)
    ensures
        r == sf_from_units(n),
{
    proof {
        assert((n as i128) * (SCALE as i128) <= 0x7fff_ffff_ffff_ffff_ffff_ffff_ffff_ffffi128 && (
        n as i128) * (SCALE as i128) >= -0x8000_0000_0000_0000_0000_0000_0000_0000i128)
            by (nonlinear_arith)
            requires
                -0x8000_0000_0000_0000i128 <= n as i128 <= 0x7fff_ffff_ffff_ffffi128,
                SCALE as i128 == 100000,
        ;
    }
    sat128((n as i128) * (SCALE as i128))
}

/// Whether a whole count is even; stated on the magnitude, whose parity is
/// the count's own.
pub open spec fn s_even(x: i64) -> bool {
    abs_i(x as int) % 2 == 0
}

pub fn fx_even(x: i64) -> (r: bool)
    ensures
        r == s_even(x),
{
    let m: u64 = if x >= 0 {
        x as u64
    } else if x == i64::MIN {
        proof {
            assert(abs_i(x as int) == 0x8000_0000_0000_0000int);
            assert(0x8000_0000_0000_0000int % 2 == 0);
        }
        return true;
    } else {
        (-x) as u64
    };
    m % 2 == 0
}

/// Fixed-point power with a nonnegative whole exponent.
pub open spec fn fpow(b: int, e: nat) -> int
    decreases e,
{
    if e == 0 {
        SCALE as int
    } else {
        fmul(b, fpow(b, (e - 1) as nat))
    }
}

pub fn fx_pow(b: i64, e: u32) -> (r: i64)
    ensures
        r as int == fpow(b as int, e as nat),
{
    let mut acc: i64 = SCALE;
    let mut i: u32 = 0;
    proof {
        assert(fpow(b as int, 0) == SCALE as int);
    }
    while i < e
        invariant
            i <= e,
            acc as int == fpow(b as int, i as nat),
        decreases e - i,
    {
        acc = fx_mul(b, acc);
        i = i + 1;
    }
    acc
}

} // verus!
