//! Views, and the hit test they share.
use vstd::prelude::*;

use crate::mediator::Mediator;
use crate::stencil::{Point, Rect};

verus! {

/// Something that draws itself.
pub trait View {
    fn draw<M: Mediator>(&mut self, med: &mut M);
}

/// Whether point `p` lies in rectangle `r` (left and top inclusive, right and bottom exclusive).
pub open spec fn rect_contains_spec(r: Rect, p: Point) -> bool {
    r.0.0 <= p.0 < r.1.0 && r.0.1 <= p.1 < r.1.1
}

/// Whether point `p` lies in rectangle `r`.
pub fn rect_contains(r: Rect, p: Point) -> (b: bool)
    ensures
        b == rect_contains_spec(r, p),
{
    let ((left, top), (right, bottom)) = r;
    let (x, y) = p;
    (left <= x) && (x < right) && (top <= y) && (y < bottom)
}

} // verus!
