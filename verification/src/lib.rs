//! Dynamic geometry scenes: points, lines, circles, polygons, ellipses,
//! arcs and expression-driven curves described in math coordinates.

use vstd::prelude::*;

pub mod text;
pub mod color;
pub mod viewport;
pub mod objects;
pub mod theme;
pub mod scene;
pub mod draw;
pub mod dsl;
pub mod __private;

verus! {

} // verus!
