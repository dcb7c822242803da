//! The math-coordinate window of a scene and its pixel size.

use vstd::prelude::*;

verus! {

/// Math coordinates `(x1, y1)`..`(x2, y2)` shown on a `width` x `height`
/// canvas.
#[derive(Debug, Clone, Copy)]
pub struct Viewport<N> {
    pub x1: N,
    pub y1: N,
    pub x2: N,
    pub y2: N,
    pub width: N,
    pub height: N,
}

impl<N> Viewport<N> {
    pub fn new(x1: N, y1: N, x2: N, y2: N, width: N, height: N) -> (v: Self)
        ensures
            v == (Viewport { x1, y1, x2, y2, width, height }),
    {
        Viewport { x1, y1, x2, y2, width, height }
    }
}

} // verus!
