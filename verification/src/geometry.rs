//! Screen rectangles in terminal cells.
use vstd::prelude::*;

verus! {

/// A rectangle of terminal cells.  Every rectangle built by [`Rect::new`]
/// stays inside the `u16` coordinate space, which is what `wf` states.
#[derive(Debug, Clone, Copy, PartialEq, Eq, Structural)]
pub struct Rect {
    pub x: u16,
    pub y: u16,
    pub width: u16,
    pub height: u16,
}

/// Calls `ratatui::layout::Rect::new`, which keeps `x` and `y` and clamps
/// the width and height so that the rectangle ends at or before `u16::MAX`.
#[verifier::external_body]
fn ratatui_rect_new(x: u16, y: u16, width: u16, height: u16) -> (r: (u16, u16, u16, u16))
    ensures
        r.0 == x,
        r.1 == y,
        r.2 == (if width > u16::MAX - x { (u16::MAX - x) as u16 } else { width }),
        r.3 == (if height > u16::MAX - y { (u16::MAX - y) as u16 } else { height }),
{
    let r = ratatui::layout::Rect::new(x, y, width, height);
    (r.x, r.y, r.width, r.height)
}

impl Rect {
    /// The rectangle stays inside the `u16` coordinate space.
    pub open spec fn wf(self) -> bool {
        self.x + self.width <= u16::MAX && self.y + self.height <= u16::MAX
    }

    /// One past the right edge.
    pub open spec fn right(self) -> int {
        self.x + self.width
    }

    /// One past the bottom edge.
    pub open spec fn bottom(self) -> int {
        self.y + self.height
    }

    /// The rectangle of width and height zero at the origin.
    pub open spec fn zero() -> Rect {
        Rect { x: 0, y: 0, width: 0, height: 0 }
    }

    /// A rectangle at `(x, y)`; the size is clamped so that it ends inside
    /// the coordinate space.
    pub fn new(x: u16, y: u16, width: u16, height: u16) -> (r: Rect)
        ensures
            r.wf(),
            r.x == x,
            r.y == y,
            r.width == (if width > u16::MAX - x { (u16::MAX - x) as u16 } else { width }),
            r.height == (if height > u16::MAX - y { (u16::MAX - y) as u16 } else { height }),
    {
        let (x, y, width, height) = ratatui_rect_new(x, y, width, height);
        Rect { x, y, width, height }
    }
}

impl Default for Rect {
    fn default() -> (r: Rect)
        ensures
            r == Rect::zero(),
    {
        Rect { x: 0, y: 0, width: 0, height: 0 }
    }
}

} // verus!
