//! Axis-aligned integer rectangles with saturating edge arithmetic.
//!
//! A `Rect` is a value type: `x`/`y` is the top-left corner, `width`/`height`
//! the extent, and a zero `width` or `height` denotes an empty rectangle,
//! which is always a valid result. The right and bottom edges saturate at
//! `u16::MAX`, so every operation is total: no overflow, no panic.

use vstd::prelude::*;

verus! {

/// Largest of two mathematical integers.
pub open spec fn int_max(a: int, b: int) -> int {
    if a >= b {
        a
    } else {
        b
    }
}

/// Smallest of two mathematical integers.
pub open spec fn int_min(a: int, b: int) -> int {
    if a <= b {
        a
    } else {
        b
    }
}

#[derive(Clone, Copy, Debug, PartialEq, Eq, Structural)]
pub struct Rect {
    pub x: u16,
    pub y: u16,
    pub width: u16,
    pub height: u16,
}

impl Rect {
    /// The right edge `x + width`, clamped to `u16::MAX`.
    pub open spec fn right_edge(&self) -> int {
        int_min(self.x + self.width, u16::MAX as int)
    }

    /// The bottom edge `y + height`, clamped to `u16::MAX`.
    pub open spec fn bottom_edge(&self) -> int {
        int_min(self.y + self.height, u16::MAX as int)
    }

    /// The cell at column `px`, row `py` lies inside this rectangle.
    pub open spec fn covers_point(&self, px: int, py: int) -> bool {
        &&& self.x <= px < self.right_edge()
        &&& self.y <= py < self.bottom_edge()
    }

    /// The rectangle covers no cell at all.
    pub open spec fn is_empty(&self) -> bool {
        self.width == 0 || self.height == 0
    }

    /// The two rectangles share at least one cell.
    pub open spec fn overlaps(&self, other: Rect) -> bool {
        &&& int_max(self.x as int, other.x as int) < int_min(
            self.right_edge(),
            other.right_edge(),
        )
        &&& int_max(self.y as int, other.y as int) < int_min(
            self.bottom_edge(),
            other.bottom_edge(),
        )
    }

    /// Every cell of `other` is a cell of `self`, stated over the saturated
    /// edges; an empty `other` is enclosed by anything.
    pub open spec fn encloses(&self, other: Rect) -> bool {
        &&& self.x <= other.x
        &&& self.y <= other.y
        &&& other.right_edge() <= self.right_edge()
        &&& other.bottom_edge() <= self.bottom_edge()
    }

    /// The intersection of `a` and `b`: anchored at the larger corner, extended
    /// to the smaller of the two saturated far edges, empty when they are
    /// disjoint.
    pub open spec fn crop_of(a: Rect, b: Rect) -> Rect {
        let x1 = int_max(a.x as int, b.x as int);
        let y1 = int_max(a.y as int, b.y as int);
        let x2 = int_min(a.right_edge(), b.right_edge());
        let y2 = int_min(a.bottom_edge(), b.bottom_edge());
        Rect {
            x: x1 as u16,
            y: y1 as u16,
            width: int_max(x2 - x1, 0) as u16,
            height: int_max(y2 - y1, 0) as u16,
        }
    }

    pub fn new(x: u16, y: u16, width: u16, height: u16) -> (r: Rect)
        ensures
            r == (Rect { x, y, width, height }),
    {
        Rect { x, y, width, height }
    }

    /// True iff `other` is fully enclosed, compared over the saturated edges.
    pub fn contains(&self, other: &Rect) -> (r: bool)
        ensures
            r == self.encloses(*other),
    {
        self.x <= other.x && self.y <= other.y && self.right() >= other.right()
            && self.bottom() >= other.bottom()
    }

    /// Translates by `(x, y)` without resizing, saturating at the coordinate
    /// limit.
    pub fn offset(&self, x: u16, y: u16) -> (r: Rect)
        ensures
            r.x == int_min(self.x + x, u16::MAX as int),
            r.y == int_min(self.y + y, u16::MAX as int),
            r.width == self.width,
            r.height == self.height,
    {
        Rect::new(self.x.saturating_add(x), self.y.saturating_add(y), self.width, self.height)
    }

    /// The axis-aligned intersection; when the rectangles are disjoint the
    /// result is an empty rectangle anchored at the clamped larger corner.
    pub fn crop(&self, other: &Rect) -> (r: Rect)
        ensures
            r == Rect::crop_of(*self, *other),
    {
        let x1 = if self.x >= other.x {
            self.x
        } else {
            other.x
        };
        let y1 = if self.y >= other.y {
            self.y
        } else {
            other.y
        };
        let x2 = if self.right() <= other.right() {
            self.right()
        } else {
            other.right()
        };
        let y2 = if self.bottom() <= other.bottom() {
            self.bottom()
        } else {
            other.bottom()
        };
        Rect { x: x1, y: y1, width: x2.saturating_sub(x1), height: y2.saturating_sub(y1) }
    }

    pub fn bottom(&self) -> (r: u16)
        ensures
            r == self.bottom_edge(),
    {
        self.height.saturating_add(self.y)
    }

    pub fn right(&self) -> (r: u16)
        ensures
            r == self.right_edge(),
    {
        self.width.saturating_add(self.x)
    }

    pub fn left(&self) -> (r: u16)
        ensures
            r == self.x,
    {
        self.x
    }

    pub fn top(&self) -> (r: u16)
        ensures
            r == self.y,
    {
        self.y
    }
}

/// Cropping is exactly set intersection: a cell lies in `a.crop(b)` iff it
/// lies in both `a` and `b`.
pub proof fn lemma_crop_is_intersection(a: Rect, b: Rect, px: int, py: int)
    ensures
        Rect::crop_of(a, b).covers_point(px, py) <==> a.covers_point(px, py) && b.covers_point(
            px,
            py,
        ),
{
}

/// Cropping does not depend on the order of its operands.
pub proof fn lemma_crop_commutes(a: Rect, b: Rect)
    ensures
        Rect::crop_of(a, b) == Rect::crop_of(b, a),
{
}

/// Cropping an intersection by one of its operands changes nothing: when `a`
/// and `b` overlap, `a.crop(b).crop(a) == a.crop(b)`.
pub proof fn lemma_crop_idempotent(a: Rect, b: Rect)
    requires
        a.overlaps(b),
    ensures
        Rect::crop_of(Rect::crop_of(a, b), a) == Rect::crop_of(a, b),
{
}

/// Cropping a rectangle by itself changes nothing, for any rectangle whose
/// far edges do not reach past the coordinate limit.
pub proof fn lemma_crop_self(a: Rect)
    requires
        a.x + a.width <= u16::MAX,
        a.y + a.height <= u16::MAX,
    ensures
        Rect::crop_of(a, a) == a,
{
}

/// The intersection is enclosed by both of its operands.
pub proof fn lemma_crop_enclosed(a: Rect, b: Rect)
    requires
        a.overlaps(b),
    ensures
        a.encloses(Rect::crop_of(a, b)),
        b.encloses(Rect::crop_of(a, b)),
{
}

/// Disjoint rectangles crop to a rectangle of zero width or zero height.
pub proof fn lemma_disjoint_crop_empty(a: Rect, b: Rect)
    requires
        !a.overlaps(b),
    ensures
        Rect::crop_of(a, b).is_empty(),
{
}

} // verus!
