//! Point lights.
use crate::tuples::{Color, Tuple};
use vstd::prelude::*;

verus! {

#[derive(Clone, Copy, Debug, PartialEq, Eq, Structural)]
pub struct Light {
    pub position: Tuple,
    pub intensity: Color,
}

pub fn point_light(position: &Tuple, intensity: &Color) -> (r: Light)
    ensures
        r == (Light { position: *position, intensity: *intensity }),
{
    Light { position: *position, intensity: *intensity }
}

} // verus!
