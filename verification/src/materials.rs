//! Surface materials: a base color, Phong coefficients, reflection and
//! refraction parameters, and an optional pattern.
//!
//! `shininess` is the whole-number Phong exponent (the specular highlight
//! tightness); all other coefficients are fixed-point scalars.
use crate::patterns::Pattern;
use crate::tuples::Color;
use vstd::prelude::*;

verus! {

#[derive(Clone, Copy, Debug)]
pub struct Material {
    pub color: Color,
    pub ambient: i64,
    pub diffuse: i64,
    pub specular: i64,
    pub shininess: u32,
    pub reflective: i64,
    pub transparency: i64,
    pub refractive_index: i64,
    pub pattern: Option<Pattern>,
}

/// The default material: white, mildly ambient, strongly diffuse and
/// specular, neither reflective nor transparent, with the refractive index
/// of vacuum (one).
pub open spec fn s_default_material() -> Material {
    Material {
        color: Color { red: 100_000i64, green: 100_000i64, blue: 100_000i64 },
        ambient: 10_000i64,
        diffuse: 90_000i64,
        specular: 90_000i64,
        shininess: 200u32,
        reflective: 0i64,
        transparency: 0i64,
        refractive_index: 100_000i64,
        pattern: None::<Pattern>,
    }
}

pub fn material() -> (r: Material)
    ensures
        r == s_default_material(),
{
    Material {
        color: Color { red: 100_000, green: 100_000, blue: 100_000 },
        ambient: 10_000,
        diffuse: 90_000,
        specular: 90_000,
        shininess: 200,
        reflective: 0,
        transparency: 0,
        refractive_index: 100_000,
        pattern: None,
    }
}

/// Exact structural equality of two materials.
pub fn material_eq(a: &Material, b: &Material) -> (r: bool)
    ensures
        r == (*a == *b),
{
    let base: bool = a.color == b.color && a.ambient == b.ambient && a.diffuse == b.diffuse
        && a.specular == b.specular && a.shininess == b.shininess && a.reflective == b.reflective
        && a.transparency == b.transparency && a.refractive_index == b.refractive_index;
    if !base {
        return false;
    }
    match (&a.pattern, &b.pattern) {
        (Option::None, Option::None) => true,
        (Option::Some(x), Option::Some(y)) => x == y,
        _ => false,
    }
}

impl Material {
    /// The pattern, which must be there.
    pub fn pattern(&self) -> (r: Pattern)
        requires
            self.pattern is Some,
        ensures
            r == self.pattern->0,
    {
        self.pattern.unwrap()
    }

    pub fn set_pattern(&mut self, p: &Pattern)
        ensures
            *final(self) == (Material { pattern: Some(*p), ..*old(self) }),
    {
        self.pattern = Some(*p);
    }
}

} // verus!
