//! Positions, rectangles and text alignment over the character grid.
//!
//! All derived operations are pure value arithmetic. The exec functions
//! compute in `i128` where an `isize` intermediate could overflow, so the
//! geometric operations are total; the contracts state their results over
//! unbounded-integer spec functions.

use vstd::prelude::*;

verus! {

/// Coordinates of one cell of a text buffer. They may be negative or out of
/// bounds transiently; they are validated only at the point of buffer access.
#[derive(Debug, Clone, Copy, PartialEq, Eq, Structural)]
pub struct TextBufferPos {
    pub x: isize,
    pub y: isize,
}

impl TextBufferPos {
    /// Construct a position from its two coordinates.
    pub fn new(x: isize, y: isize) -> (r: TextBufferPos)
        ensures
            r.x == x,
            r.y == y,
    {
        TextBufferPos { x, y }
    }
}

/// A rectangular region of cells: signed origin, unsigned extent.
#[derive(Debug, Clone, Copy, PartialEq, Eq, Structural)]
pub struct TextBufferRect {
    pub x: isize,
    pub y: isize,
    pub width: usize,
    pub height: usize,
}

impl TextBufferRect {
    /// The column just past the right edge, as an unbounded integer.
    pub open spec fn right_spec(&self) -> int {
        self.x + self.width
    }

    /// The row just past the bottom edge, as an unbounded integer.
    pub open spec fn bottom_spec(&self) -> int {
        self.y + self.height
    }

    /// The rectangle's edges, converted to `isize`, do not overflow.
    pub open spec fn wf(&self) -> bool {
        &&& self.width <= isize::MAX
        &&& self.height <= isize::MAX
        &&& self.x + self.width <= isize::MAX
        &&& self.y + self.height <= isize::MAX
    }

    /// Whether the point (x, y) lies inside the rectangle.
    pub open spec fn contains_point_spec(&self, x: int, y: int) -> bool {
        &&& self.x <= x < self.right_spec()
        &&& self.y <= y < self.bottom_spec()
    }

    /// Whether `other` lies entirely inside `self`.
    pub open spec fn contains_spec(&self, other: TextBufferRect) -> bool {
        &&& other.x >= self.x
        &&& other.y >= self.y
        &&& other.right_spec() <= self.right_spec()
        &&& other.bottom_spec() <= self.bottom_spec()
    }

    /// The corner-containment overlap test: at least one corner cell of
    /// `other` lies inside `self`. This is an approximation, not a general
    /// rectangle-intersection test; it is kept as the system's notion of
    /// overlap.
    pub open spec fn overlap_spec(&self, other: TextBufferRect) -> bool {
        ||| self.contains_point_spec(other.x as int, other.y as int)
        ||| self.contains_point_spec(other.x as int, other.bottom_spec() - 1)
        ||| self.contains_point_spec(other.right_spec() - 1, other.y as int)
        ||| self.contains_point_spec(other.right_spec() - 1, other.bottom_spec() - 1)
    }

    /// Number of cells covered by the rectangle.
    pub open spec fn area_spec(&self) -> int {
        self.width * self.height
    }

    /// Construct a new rectangle.
    pub fn new(x: isize, y: isize, width: usize, height: usize) -> (r: TextBufferRect)
        ensures
            r == (TextBufferRect { x, y, width, height }),
    {
        TextBufferRect { x, y, width, height }
    }

    /// The rectangle inset by one cell on all four sides. Callers must
    /// guarantee a 2 by 2 minimum extent; on anything smaller the interior
    /// would be degenerate.
    pub fn interior(&self) -> (r: TextBufferRect)
        requires
            self.wf(),
            self.width >= 2,
            self.height >= 2,
        ensures
            r.x == self.x + 1,
            r.y == self.y + 1,
            r.width == self.width - 2,
            r.height == self.height - 2,
            r.wf(),
    {
        TextBufferRect {
            x: self.x + 1,
            y: self.y + 1,
            width: self.width - 2,
            height: self.height - 2,
        }
    }

    /// The column just past the right edge.
    pub fn right(&self) -> (r: isize)
        requires
            self.wf(),
        ensures
            r == self.right_spec(),
    {
        self.x + self.width as isize
    }

    /// The row just past the bottom edge.
    pub fn bottom(&self) -> (r: isize)
        requires
            self.wf(),
        ensures
            r == self.bottom_spec(),
    {
        self.y + self.height as isize
    }

    /// Whether `other` lies entirely inside `self`.
    pub fn contains(&self, other: &TextBufferRect) -> (r: bool)
        ensures
            r == self.contains_spec(*other),
    {
        other.x >= self.x && other.y >= self.y
            && other.x as i128 + other.width as i128 <= self.x as i128 + self.width as i128
            && other.y as i128 + other.height as i128 <= self.y as i128 + self.height as i128
    }

    /// Whether the point (x, y) lies inside the rectangle.
    pub fn contains_point(&self, x: isize, y: isize) -> (r: bool)
        ensures
            r == self.contains_point_spec(x as int, y as int),
    {
        self.x <= x && self.x as i128 + self.width as i128 > x as i128
            && self.y <= y && self.y as i128 + self.height as i128 > y as i128
    }

    /// The corner-containment overlap test (see [`Self::overlap_spec`]).
    pub fn overlap(&self, other: &TextBufferRect) -> (r: bool)
        ensures
            r == self.overlap_spec(*other),
    {
        let ox: i128 = other.x as i128;
        let oy: i128 = other.y as i128;
        let oright: i128 = ox + other.width as i128;
        let obottom: i128 = oy + other.height as i128;
        self.contains_point_wide(ox, oy) || self.contains_point_wide(ox, obottom - 1)
            || self.contains_point_wide(oright - 1, oy)
            || self.contains_point_wide(oright - 1, obottom - 1)
    }

    /// Point containment with wide arguments, so corner coordinates that
    /// fall outside the `isize` range are still compared exactly.
    fn contains_point_wide(&self, x: i128, y: i128) -> (r: bool)
        requires
            -0x1_0000_0000_0000_0000_0000 <= x < 0x1_0000_0000_0000_0000_0000,
            -0x1_0000_0000_0000_0000_0000 <= y < 0x1_0000_0000_0000_0000_0000,
        ensures
            r == self.contains_point_spec(x as int, y as int),
    {
        self.x as i128 <= x && self.x as i128 + self.width as i128 > x
            && self.y as i128 <= y && self.y as i128 + self.height as i128 > y
    }

    /// The exact cover of two overlapping rectangles, or `None` when the
    /// overlap test reports no overlap.
    pub open spec fn intersection_spec(&self, other: TextBufferRect) -> Option<TextBufferRect> {
        if self.overlap_spec(other) {
            Some(spec_intersection_rect(*self, other))
        } else {
            None
        }
    }

    /// The intersection of two rectangles, `None` when they do not overlap.
    pub fn intersection(&self, other: &TextBufferRect) -> (r: Option<TextBufferRect>)
        ensures
            r == self.intersection_spec(*other),
    {
        if self.overlap(other) {
            let new_x: isize = if self.x >= other.x {
                self.x
            } else {
                other.x
            };
            let new_y: isize = if self.y >= other.y {
                self.y
            } else {
                other.y
            };
            let s_right: i128 = self.x as i128 + self.width as i128;
            let o_right: i128 = other.x as i128 + other.width as i128;
            let s_bottom: i128 = self.y as i128 + self.height as i128;
            let o_bottom: i128 = other.y as i128 + other.height as i128;
            let new_right: i128 = if s_right <= o_right {
                s_right
            } else {
                o_right
            };
            let new_bottom: i128 = if s_bottom <= o_bottom {
                s_bottom
            } else {
                o_bottom
            };
            proof {
                lemma_overlap_bounds(*self, *other);
            }
            Some(
                TextBufferRect {
                    x: new_x,
                    y: new_y,
                    width: (new_right - new_x as i128) as usize,
                    height: (new_bottom - new_y as i128) as usize,
                },
            )
        } else {
            None
        }
    }

    /// The smallest rectangle containing both arguments.
    pub open spec fn union_spec(&self, other: TextBufferRect) -> TextBufferRect {
        spec_union_rect(*self, other)
    }

    /// The smallest rectangle that contains both `self` and `other`.
    pub fn union(&self, other: &TextBufferRect) -> (r: TextBufferRect)
        ensures
            r == self.union_spec(*other),
    {
        let new_x: isize = if self.x <= other.x {
            self.x
        } else {
            other.x
        };
        let new_y: isize = if self.y <= other.y {
            self.y
        } else {
            other.y
        };
        let s_right: i128 = self.x as i128 + self.width as i128;
        let o_right: i128 = other.x as i128 + other.width as i128;
        let s_bottom: i128 = self.y as i128 + self.height as i128;
        let o_bottom: i128 = other.y as i128 + other.height as i128;
        let new_right: i128 = if s_right >= o_right {
            s_right
        } else {
            o_right
        };
        let new_bottom: i128 = if s_bottom >= o_bottom {
            s_bottom
        } else {
            o_bottom
        };
        TextBufferRect {
            x: new_x,
            y: new_y,
            width: (new_right - new_x as i128) as usize,
            height: (new_bottom - new_y as i128) as usize,
        }
    }

    /// Number of cells covered by the rectangle.
    pub fn area(&self) -> (r: usize)
        requires
            self.area_spec() <= usize::MAX,
        ensures
            r == self.area_spec(),
    {
        self.width * self.height
    }

    /// The column halfway across the rectangle.
    pub fn horizontal_center(&self) -> (r: isize)
        requires
            self.wf(),
        ensures
            r == self.x + self.width as int / 2,
    {
        self.width as isize / 2 + self.x
    }

    /// The row halfway down the rectangle.
    pub fn vertical_center(&self) -> (r: isize)
        requires
            self.wf(),
        ensures
            r == self.y + self.height as int / 2,
    {
        self.height as isize / 2 + self.y
    }
}

/// The exact cover rectangle of two overlapping rectangles.
pub open spec fn spec_intersection_rect(a: TextBufferRect, b: TextBufferRect) -> TextBufferRect {
    let x = if a.x >= b.x {
        a.x as int
    } else {
        b.x as int
    };
    let y = if a.y >= b.y {
        a.y as int
    } else {
        b.y as int
    };
    let right = if a.right_spec() <= b.right_spec() {
        a.right_spec()
    } else {
        b.right_spec()
    };
    let bottom = if a.bottom_spec() <= b.bottom_spec() {
        a.bottom_spec()
    } else {
        b.bottom_spec()
    };
    TextBufferRect {
        x: x as isize,
        y: y as isize,
        width: (right - x) as usize,
        height: (bottom - y) as usize,
    }
}

/// The smallest rectangle containing both arguments.
pub open spec fn spec_union_rect(a: TextBufferRect, b: TextBufferRect) -> TextBufferRect {
    let x = if a.x <= b.x {
        a.x as int
    } else {
        b.x as int
    };
    let y = if a.y <= b.y {
        a.y as int
    } else {
        b.y as int
    };
    let right = if a.right_spec() >= b.right_spec() {
        a.right_spec()
    } else {
        b.right_spec()
    };
    let bottom = if a.bottom_spec() >= b.bottom_spec() {
        a.bottom_spec()
    } else {
        b.bottom_spec()
    };
    TextBufferRect {
        x: x as isize,
        y: y as isize,
        width: (right - x) as usize,
        height: (bottom - y) as usize,
    }
}

/// When the overlap test succeeds, the clamped edges are ordered, so the
/// intersection's extent is non-negative and fits in `usize`.
pub proof fn lemma_overlap_bounds(a: TextBufferRect, b: TextBufferRect)
    requires
        a.overlap_spec(b),
    ensures
        (if a.x >= b.x {
            a.x as int
        } else {
            b.x as int
        }) <= (if a.right_spec() <= b.right_spec() {
            a.right_spec()
        } else {
            b.right_spec()
        }),
        (if a.y >= b.y {
            a.y as int
        } else {
            b.y as int
        }) <= (if a.bottom_spec() <= b.bottom_spec() {
            a.bottom_spec()
        } else {
            b.bottom_spec()
        }),
{
}

/// Rectangle law: the intersection is `None` exactly when the overlap test
/// reports no overlap.
pub proof fn lemma_intersection_none_iff_no_overlap(a: TextBufferRect, b: TextBufferRect)
    ensures
        a.intersection_spec(b) is None <==> !a.overlap_spec(b),
{
}

/// Rectangle law: the union of two rectangles contains both of them.
/// Well-formedness keeps the union's extent inside the `usize` range.
pub proof fn lemma_union_contains_both(a: TextBufferRect, b: TextBufferRect)
    requires
        a.wf(),
        b.wf(),
    ensures
        a.union_spec(b).contains_spec(a),
        a.union_spec(b).contains_spec(b),
{
}

/// Horizontal placement of a run of text relative to an anchor position.
#[derive(Debug, Clone, Copy, PartialEq, Eq, Structural)]
pub enum TextAlign {
    Left,
    Right,
    Center,
}

impl TextAlign {
    /// Where a run of `length` cells anchored at `pos` starts, per alignment.
    pub open spec fn align_spec(&self, pos: TextBufferPos, length: int) -> TextBufferPos {
        match self {
            TextAlign::Left => pos,
            TextAlign::Right => TextBufferPos { x: (pos.x - length) as isize, y: pos.y },
            TextAlign::Center => TextBufferPos { x: (pos.x - length / 2) as isize, y: pos.y },
        }
    }

    /// The shifted anchor stays inside the `isize` range.
    pub open spec fn align_req(&self, pos: TextBufferPos, length: int) -> bool {
        match self {
            TextAlign::Left => true,
            TextAlign::Right => length <= isize::MAX && pos.x - length >= isize::MIN,
            TextAlign::Center => length <= isize::MAX && pos.x - length / 2 >= isize::MIN,
        }
    }

    /// Shift `pos` so a run of `length` cells lands with this alignment.
    pub fn align_text(&self, pos: TextBufferPos, length: usize) -> (r: TextBufferPos)
        requires
            self.align_req(pos, length as int),
        ensures
            r == self.align_spec(pos, length as int),
    {
        match self {
            TextAlign::Left => pos,
            TextAlign::Right => TextBufferPos { x: pos.x - length as isize, y: pos.y },
            TextAlign::Center => TextBufferPos { x: pos.x - length as isize / 2, y: pos.y },
        }
    }
}

} // verus!
