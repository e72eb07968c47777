//! Procedural surface patterns: a color as a function of local-space position.
use crate::fx::{fx_add, fx_even, fx_floor, fx_mul, fx_sqrt, fx_sub, s_even, sf_from_units, sfadd,
    sffloor, sfmul, sfsqrt, sfsub, fx_from_units};
use crate::matrices::{identity_matrix, inverse_or_identity, s_det, s_identity, s_inverse, Matrix};
use crate::tuples::{black, c_add, c_mul, c_scale, c_sub, color, lemma_dot_self_nonneg, s_dot,
    white, Color, Tuple};
use vstd::prelude::*;

verus! {

#[derive(Clone, Copy, Debug, PartialEq, Eq, Structural, Hash)]
pub enum PatternType {
    /// A solid white stand-in used when no real pattern is meant.
    Plain,
    TestPattern,
    Stripe,
    Checkers,
    Gradient,
    Ring,
}

/// A two-color pattern with its own transform into pattern space.
/// The inverse is cached beside the transform, as on shapes.
#[derive(Clone, Copy, Debug, PartialEq, Eq, Structural)]
pub struct Pattern {
    pub a: Color,
    pub b: Color,
    pub pattern_type: PatternType,
    pub transform: Matrix,
    pub inverse: Matrix,
}

impl Pattern {
    pub fn new(pattern_type: PatternType, a: &Color, b: &Color) -> (r: Pattern)
        ensures
            r == (Pattern {
                a: *a,
                b: *b,
                pattern_type,
                transform: s_identity(),
                inverse: s_identity(),
            }),
    {
        Pattern {
            transform: identity_matrix(),
            inverse: identity_matrix(),
            a: *a,
            b: *b,
            pattern_type,
        }
    }

    pub fn set_transform(&mut self, m: &Matrix)
        ensures
            final(self).a == old(self).a,
            final(self).b == old(self).b,
            final(self).pattern_type == old(self).pattern_type,
            final(self).transform == *m,
            s_det(*m) != 0 ==> final(self).inverse == s_inverse(*m),
            s_det(*m) == 0 ==> final(self).inverse == s_identity(),
    {
        self.transform = *m;
        self.inverse = inverse_or_identity(m);
    }
}

pub fn set_pattern_transform(pattern: &mut Pattern, transform: &Matrix)
    ensures
        final(pattern).a == old(pattern).a,
        final(pattern).b == old(pattern).b,
        final(pattern).pattern_type == old(pattern).pattern_type,
        final(pattern).transform == *transform,
        s_det(*transform) != 0 ==> final(pattern).inverse == s_inverse(*transform),
        s_det(*transform) == 0 ==> final(pattern).inverse == s_identity(),
{
    pattern.set_transform(transform);
}

/// The whole-unit floor of a scalar.
pub fn floor_i64(x: i64) -> (r: i64)
    ensures
        r == sffloor(x),
{
    fx_floor(x)
}

/// The color of a pattern at a pattern-space point.
pub open spec fn s_pattern_at(p: Pattern, point: Tuple) -> Color {
    match p.pattern_type {
        PatternType::TestPattern => Color { red: point.x, green: point.y, blue: point.z },
        PatternType::Stripe => if s_even(sffloor(point.x)) {
            p.a
        } else {
            p.b
        },
        PatternType::Gradient => c_add(
            p.a,
            c_scale(c_sub(p.b, p.a), sfsub(point.x, sf_from_units(sffloor(point.x)))),
        ),
        PatternType::Ring => if s_even(
            sffloor(sfsqrt(sfadd(sfmul(point.x, point.x), sfmul(point.z, point.z)))),
        ) {
            p.a
        } else {
            p.b
        },
        PatternType::Checkers => if s_even(
            sfadd(sfadd(sffloor(point.x), sffloor(point.y)), sffloor(point.z)),
        ) {
            p.a
        } else {
            p.b
        },
        PatternType::Plain => Color { red: 100_000i64, green: 100_000i64, blue: 100_000i64 },
    }
}

pub fn pattern_at(pattern: &Pattern, point: &Tuple) -> (r: Color)
    ensures
        r == s_pattern_at(*pattern, *point),
{
    match pattern.pattern_type {
        PatternType::TestPattern => color(point.x, point.y, point.z),
        PatternType::Stripe => {
            if fx_even(fx_floor(point.x)) {
                pattern.a
            } else {
                pattern.b
            }
        },
        PatternType::Gradient => {
            let whole: i64 = fx_from_units(fx_floor(point.x));
            let frac: i64 = fx_sub(point.x, whole);
            pattern.a.add(&pattern.b.sub(&pattern.a).scale(frac))
        },
        PatternType::Ring => {
            let d: i64 = fx_add(fx_mul(point.x, point.x), fx_mul(point.z, point.z));
            proof {
                let v = Tuple { x: point.x, y: 0i64, z: point.z, w: 0i64 };
                lemma_dot_self_nonneg(v);
                assert(s_dot(v, v) == sfadd(
                    sfadd(sfadd(sfmul(point.x, point.x), 0i64), sfmul(point.z, point.z)),
                    0i64,
                ));
            }
            if fx_even(fx_floor(fx_sqrt(d))) {
                pattern.a
            } else {
                pattern.b
            }
        },
        PatternType::Checkers => {
            let s: i64 = fx_add(fx_add(fx_floor(point.x), fx_floor(point.y)), fx_floor(point.z));
            if fx_even(s) {
                pattern.a
            } else {
                pattern.b
            }
        },
        PatternType::Plain => white(),
    }
}

pub fn stripe_pattern(color1: &Color, color2: &Color) -> (r: Pattern)
    ensures
        r == (Pattern {
            a: *color1,
            b: *color2,
            pattern_type: PatternType::Stripe,
            transform: s_identity(),
            inverse: s_identity(),
        }),
{
    Pattern::new(PatternType::Stripe, color1, color2)
}

pub fn stripe_at(pattern: &Pattern, point: &Tuple) -> (r: Color)
    ensures
        r == s_pattern_at(*pattern, *point),
{
    pattern_at(pattern, point)
}

/// The pattern color at a world point of a shape: the point is carried
/// into the shape's space and then into the pattern's own.
pub fn pattern_at_shape(pattern: &Pattern, object: &crate::shapes::Shape, point: &Tuple) -> (r:
    Color)
    ensures
        r == s_pattern_at(
            *pattern,
            crate::matrices::s_mat_tuple(
                pattern.inverse,
                crate::matrices::s_mat_tuple(object.cached_inverse, *point),
            ),
        ),
{
    let object_point: Tuple = crate::shapes::world_to_object(object, point);
    let pattern_point: Tuple = pattern.inverse.mul_tuple(&object_point);
    pattern_at(pattern, &pattern_point)
}

pub fn stripe_at_object(pattern: &Pattern, object: &crate::shapes::Shape, point: &Tuple) -> (r:
    Color)
    ensures
        r == s_pattern_at(
            *pattern,
            crate::matrices::s_mat_tuple(
                pattern.inverse,
                crate::matrices::s_mat_tuple(object.cached_inverse, *point),
            ),
        ),
{
    pattern_at_shape(pattern, object, point)
}

pub fn test_pattern() -> (r: Pattern)
    ensures
        r == (Pattern {
            a: (Color { red: 0i64, green: 0i64, blue: 0i64 }),
            b: (Color { red: 0i64, green: 0i64, blue: 0i64 }),
            pattern_type: PatternType::TestPattern,
            transform: s_identity(),
            inverse: s_identity(),
        }),
{
    let b: Color = black();
    Pattern::new(PatternType::TestPattern, &b, &b)
}

pub fn checkers_pattern(color1: &Color, color2: &Color) -> (r: Pattern)
    ensures
        r.pattern_type == PatternType::Checkers,
        r.a == *color1,
        r.b == *color2,
        r.transform == s_identity(),
        r.inverse == s_identity(),
{
    Pattern::new(PatternType::Checkers, color1, color2)
}

pub fn gradient_pattern(color1: &Color, color2: &Color) -> (r: Pattern)
    ensures
        r.pattern_type == PatternType::Gradient,
        r.a == *color1,
        r.b == *color2,
        r.transform == s_identity(),
        r.inverse == s_identity(),
{
    Pattern::new(PatternType::Gradient, color1, color2)
}

pub fn ring_pattern(color1: &Color, color2: &Color) -> (r: Pattern)
    ensures
        r.pattern_type == PatternType::Ring,
        r.a == *color1,
        r.b == *color2,
        r.transform == s_identity(),
        r.inverse == s_identity(),
{
    Pattern::new(PatternType::Ring, color1, color2)
}

} // verus!
