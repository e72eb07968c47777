//! An offline ray-traced renderer over fixed-point arithmetic, together with
//! a small turn-based card-game simulator that shares the crate.
//!
//! All scalar quantities in the renderer are fixed-point numbers: an `i64`
//! holding the value scaled by `fx::SCALE` (one unit is 1/100000).
use vstd::prelude::*;

pub mod fx;
pub mod mtg;
pub mod tuples;
pub mod matrices;
pub mod transformations;
pub mod rays;
pub mod patterns;
pub mod lights;
pub mod materials;
pub mod bounds;
pub mod bvh;
pub mod csg;
pub mod shapes;
pub mod intersections;
pub mod world;
pub mod camera;

verus! {

} // verus!
