//! Plain geometry value types and their mathematical model.

use vstd::prelude::*;

verus! {

/// Dimensions of a screen's root window, as handed to a layout engine.
pub struct RootParams {
    pub width: u16,
    pub height: u16,
}

/// Position and size of one window, in pixels from the root's top-left corner.
#[derive(Debug, Clone, Copy, PartialEq, Eq)]
pub struct Geom {
    pub width: u16,
    pub height: u16,
    pub x: u16,
    pub y: u16,
}

/// Mathematical rectangle: the model of a `Geom`, free of machine integer
/// bounds so that layout specifications can do exact arithmetic.
pub struct Rect {
    pub x: int,
    pub y: int,
    pub w: int,
    pub h: int,
}

impl View for Geom {
    type V = Rect;

    open spec fn view(&self) -> Rect {
        Rect { x: self.x as int, y: self.y as int, w: self.width as int, h: self.height as int }
    }
}

/// The point (`px`, `py`) lies inside rectangle `r` (half-open on both axes).
pub open spec fn in_rect(r: Rect, px: int, py: int) -> bool {
    r.x <= px < r.x + r.w && r.y <= py < r.y + r.h
}

/// Two `Geom`s with equal models are equal.
pub proof fn lemma_view_injective(a: Geom, b: Geom)
    requires
        a@ == b@,
    ensures
        a == b,
{
}

} // verus!
