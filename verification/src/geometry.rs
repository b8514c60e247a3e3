//! Rectangles on a pixel grid and the clamping rule that keeps them inside it.

use vstd::prelude::*;

verus! {

/// Absolute difference of two coordinates.
pub open spec fn distance(a: int, b: int) -> int {
    if a >= b {
        a - b
    } else {
        b - a
    }
}

/// The origin `v` moved into `[0, bound - 1]`.
pub open spec fn clamp_origin(v: int, bound: int) -> int {
    if v < 0 {
        0
    } else if v > bound - 1 {
        bound - 1
    } else {
        v
    }
}

/// The extent `size` raised to at least 1 and then cut so that a span
/// starting at `origin` ends no later than `bound`.
pub open spec fn clamp_extent(size: int, origin: int, bound: int) -> int {
    let wanted = if size < 1 {
        1
    } else {
        size
    };
    if wanted > bound - origin {
        bound - origin
    } else {
        wanted
    }
}

/// An axis-aligned rectangle; `x` grows to the right and `y` downwards.
///
/// The fields are signed and wide so that a rectangle grown around a point
/// near the grid's border can be written down before it is clamped.
#[derive(Clone, Copy, Debug, PartialEq, Eq, Structural)]
pub struct Rect {
    pub x: i64,
    pub y: i64,
    pub width: i64,
    pub height: i64,
}

impl Rect {
    /// Whether the cell in column `x` of row `y` lies inside the rectangle.
    pub open spec fn covers(self, x: int, y: int) -> bool {
        &&& self.x <= x < self.x + self.width
        &&& self.y <= y < self.y + self.height
    }

    /// Whether the rectangle is non-empty and lies inside a grid of `cols`
    /// columns and `rows` rows.
    pub open spec fn within(self, cols: int, rows: int) -> bool {
        &&& 0 <= self.x
        &&& 0 <= self.y
        &&& 1 <= self.width
        &&& 1 <= self.height
        &&& self.x + self.width <= cols
        &&& self.y + self.height <= rows
    }

    /// The rectangle clamped to a grid of `cols` columns and `rows` rows:
    /// the origin is moved into the grid, then each extent is raised to at
    /// least 1 and cut at the grid's far border.
    pub open spec fn clamped(self, cols: int, rows: int) -> Rect {
        let x = clamp_origin(self.x as int, cols);
        let y = clamp_origin(self.y as int, rows);
        Rect {
            x: x as i64,
            y: y as i64,
            width: clamp_extent(self.width as int, x, cols) as i64,
            height: clamp_extent(self.height as int, y, rows) as i64,
        }
    }
}

/// Clamps `r` to a grid of `cols` columns and `rows` rows.
///
/// The result always lies inside the grid and is never empty.
pub fn clamp_rect(r: Rect, cols: i64, rows: i64) -> (c: Rect)
    requires
        cols >= 1,
        rows >= 1,
    ensures
        c == r.clamped(cols as int, rows as int),
        c.within(cols as int, rows as int),
{
    let x: i64 = if r.x < 0 {
        0
    } else if r.x > cols - 1 {
        cols - 1
    } else {
        r.x
    };
    let y: i64 = if r.y < 0 {
        0
    } else if r.y > rows - 1 {
        rows - 1
    } else {
        r.y
    };
    let wanted_width: i64 = if r.width < 1 {
        1
    } else {
        r.width
    };
    let wanted_height: i64 = if r.height < 1 {
        1
    } else {
        r.height
    };
    let width: i64 = if wanted_width > cols - x {
        cols - x
    } else {
        wanted_width
    };
    let height: i64 = if wanted_height > rows - y {
        rows - y
    } else {
        wanted_height
    };
    Rect { x, y, width, height }
}

} // verus!
