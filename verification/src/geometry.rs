//! Rectangles of terminal cells.
use vstd::prelude::*;

verus! {

/// A rectangle of cells: its top-left corner and its size.
#[derive(Debug, Clone, Copy, PartialEq, Eq, Structural)]
pub struct Rect {
    pub x: u16,
    pub y: u16,
    pub width: u16,
    pub height: u16,
}

impl Default for Rect {
    fn default() -> (r: Self)
        ensures
            r == (Rect { x: 0, y: 0, width: 0, height: 0 }),
    {
        Rect { x: 0, y: 0, width: 0, height: 0 }
    }
}

/// The smaller of two numbers.
pub open spec fn least(a: int, b: int) -> int {
    if a <= b {
        a
    } else {
        b
    }
}

/// The larger of two numbers.
pub open spec fn most(a: int, b: int) -> int {
    if a >= b {
        a
    } else {
        b
    }
}

/// `a + b`, held at the largest 16-bit number.
pub open spec fn sat16(a: int, b: int) -> int {
    least(a + b, 65535)
}

impl Rect {
    /// The column just past the rectangle.
    pub open spec fn end_x(self) -> int {
        sat16(self.x as int, self.width as int)
    }

    /// The row just past the rectangle.
    pub open spec fn end_y(self) -> int {
        sat16(self.y as int, self.height as int)
    }

    /// Whether the cell `(x, y)` lies in the rectangle.
    pub open spec fn has(self, x: int, y: int) -> bool {
        self.x <= x < self.end_x() && self.y <= y < self.end_y()
    }

    /// Whether the rectangle lies in `outer`.
    pub open spec fn within(self, outer: Rect) -> bool {
        &&& outer.x <= self.x
        &&& self.end_x() <= outer.end_x()
        &&& outer.y <= self.y
        &&& self.end_y() <= outer.end_y()
    }

    /// Whether the rectangle has no cell.
    pub open spec fn is_blank(self) -> bool {
        self.width == 0 || self.height == 0
    }

    /// A rectangle whose far edges stay within 16 bits.
    pub fn new(x: u16, y: u16, width: u16, height: u16) -> (r: Self)
        ensures
            r.x == x,
            r.y == y,
            r.width == least(width as int, 65535 - x),
            r.height == least(height as int, 65535 - y),
    {
        let w: u16 = if width > u16::MAX - x {
            u16::MAX - x
        } else {
            width
        };
        let h: u16 = if height > u16::MAX - y {
            u16::MAX - y
        } else {
            height
        };
        Rect { x, y, width: w, height: h }
    }

    /// The column just past the rectangle.
    pub fn right(&self) -> (r: u16)
        ensures
            r == self.end_x(),
    {
        self.x.saturating_add(self.width)
    }

    /// The row just past the rectangle.
    pub fn bottom(&self) -> (r: u16)
        ensures
            r == self.end_y(),
    {
        self.y.saturating_add(self.height)
    }

    /// Whether the rectangle has no cell.
    pub fn is_empty(&self) -> (r: bool)
        ensures
            r == self.is_blank(),
    {
        self.width == 0 || self.height == 0
    }

    /// What the rectangle and `other` share.
    pub open spec fn shared(self, other: Rect) -> Rect {
        let x = most(self.x as int, other.x as int);
        let y = most(self.y as int, other.y as int);
        Rect {
            x: x as u16,
            y: y as u16,
            width: most(least(self.end_x(), other.end_x()) - x, 0) as u16,
            height: most(least(self.end_y(), other.end_y()) - y, 0) as u16,
        }
    }

    /// What the rectangle and `other` share; empty, at the larger corner, where
    /// they share nothing.
    pub fn intersection(&self, other: &Rect) -> (r: Rect)
        ensures
            r == self.shared(*other),
            forall|x: int, y: int| #[trigger]
                r.has(x, y) <==> self.has(x, y) && other.has(x, y),
    {
        let x: u16 = if self.x >= other.x {
            self.x
        } else {
            other.x
        };
        let y: u16 = if self.y >= other.y {
            self.y
        } else {
            other.y
        };
        let x2: u16 = if self.right() <= other.right() {
            self.right()
        } else {
            other.right()
        };
        let y2: u16 = if self.bottom() <= other.bottom() {
            self.bottom()
        } else {
            other.bottom()
        };
        Rect { x, y, width: x2.saturating_sub(x), height: y2.saturating_sub(y) }
    }

    /// What a border on all four sides leaves of the rectangle.
    pub open spec fn inside(self) -> Rect {
        Rect {
            x: least(sat16(self.x as int, 1), self.end_x()) as u16,
            y: least(sat16(self.y as int, 1), self.end_y()) as u16,
            width: most(self.width - 2, 0) as u16,
            height: most(self.height - 2, 0) as u16,
        }
    }

    /// What a border on all four sides leaves of the rectangle.
    pub fn inset(&self) -> (r: Rect)
        ensures
            r == self.inside(),
    {
        let x1: u16 = self.x.saturating_add(1);
        let y1: u16 = self.y.saturating_add(1);
        let x: u16 = if x1 <= self.right() {
            x1
        } else {
            self.right()
        };
        let y: u16 = if y1 <= self.bottom() {
            y1
        } else {
            self.bottom()
        };
        Rect { x, y, width: self.width.saturating_sub(2), height: self.height.saturating_sub(2) }
    }
}

/// Law: the inside of a bordered rectangle lies in the rectangle, and has only
/// cells that the border leaves free.
pub proof fn law_inside(r: Rect, outer: Rect)
    requires
        r.within(outer),
    ensures
        r.inside().within(outer),
        r.inside().within(r),
        forall|x: int, y: int| #[trigger]
            r.inside().has(x, y) ==> r.has(x, y) && x > r.x && y > r.y,
{
}

/// Law: what two rectangles share is what lies in both.
pub proof fn law_shared(a: Rect, b: Rect, x: int, y: int)
    ensures
        a.shared(b).has(x, y) <==> a.has(x, y) && b.has(x, y),
{
}

/// Law: a border takes one cell off each side, and leaves everything else.
pub proof fn law_border_is_one_cell(r: Rect, x: int, y: int)
    requires
        r.x + r.width <= 65535,
        r.y + r.height <= 65535,
    ensures
        r.inside().has(x, y) <==> r.x < x < r.x + r.width - 1 && r.y < y < r.y + r.height - 1,
{
}

} // verus!
