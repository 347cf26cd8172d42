//! Axis-aligned rectangles and points: containment, intersection and the
//! split of a rectangle into four quadrants.
use vstd::prelude::*;

verus! {

/// One of the four quadrants of a rectangle.
#[derive(Clone, Copy, Debug, PartialEq, Eq, Structural)]
pub enum Cells {
    TopLeft,
    TopRight,
    BottomLeft,
    BottomRight,
}

/// A rectangle handed to a drawing surface; `many` marks a crowded node.
#[derive(Clone, Copy, Debug)]
pub struct RenderingRect {
    pub rect: Rect,
    pub many: bool,
}

/// An axis-aligned rectangle with its origin at the top-left corner.
#[derive(Clone, Copy, Debug, PartialEq, Eq, Structural)]
pub struct Rect {
    pub x: i64,
    pub y: i64,
    pub w: i64,
    pub h: i64,
}

/// A location in arena coordinates, or a displacement per tick.
#[derive(Clone, Copy, Debug, PartialEq, Eq, Structural)]
pub struct Point {
    pub x: i64,
    pub y: i64,
}

/// `(px, py)` lies strictly inside `r`: a point on the boundary is not inside.
pub open spec fn inside(px: int, py: int, r: Rect) -> bool {
    r.x < px < r.x + r.w && r.y < py < r.y + r.h
}

/// `(px, py)` lies in `r` taken as half-open, `[x, x + w) x [y, y + h)`.
pub open spec fn covers(r: Rect, px: int, py: int) -> bool {
    r.x <= px < r.x + r.w && r.y <= py < r.y + r.h
}

/// `p` lies on one of the four edges of `r`.
pub open spec fn on_boundary(p: Point, r: Rect) -> bool {
    ((p.x == r.x || p.x == r.x + r.w) && r.y <= p.y <= r.y + r.h) || ((p.y == r.y || p.y
        == r.y + r.h) && r.x <= p.x <= r.x + r.w)
}

pub open spec fn area(r: Rect) -> int {
    r.w * r.h
}

impl Rect {
    /// Width and height are non-negative, and the right and bottom edges are
    /// representable.
    pub open spec fn wf(self) -> bool {
        0 <= self.w && 0 <= self.h && self.x + self.w <= i64::MAX && self.y + self.h <= i64::MAX
    }

    pub open spec fn right(self) -> int {
        self.x + self.w
    }

    pub open spec fn bottom(self) -> int {
        self.y + self.h
    }

    /// A corner of `self` is strictly inside `o`.
    pub open spec fn corner_inside(self, o: Rect) -> bool {
        inside(self.x as int, self.y as int, o) || inside(self.right(), self.y as int, o) || inside(
            self.x as int,
            self.bottom(),
            o,
        ) || inside(self.right(), self.bottom(), o)
    }

    /// The projections of the two rectangles overlap strictly on both axes.
    pub open spec fn overlaps(self, o: Rect) -> bool {
        self.x < o.right() && self.right() > o.x && self.y < o.bottom() && self.bottom() > o.y
    }

    pub open spec fn intersects_spec(self, o: Rect) -> bool {
        self.corner_inside(o) || o.corner_inside(self) || self.overlaps(o)
    }

    /// The four corners of `self`, with the bottom ones taken at `y - h`, are
    /// strictly inside `o`.
    pub open spec fn fits_spec(self, o: Rect) -> bool {
        inside(self.x as int, self.y as int, o) && inside(self.right(), self.y as int, o) && inside(
            self.x as int,
            self.y - self.h,
            o,
        ) && inside(self.right(), self.y - self.h, o)
    }

    /// `inner` lies within `self`, edges included.
    pub open spec fn contains_rect(self, inner: Rect) -> bool {
        self.x <= inner.x && inner.right() <= self.right() && self.y <= inner.y && inner.bottom()
            <= self.bottom()
    }

    pub open spec fn half_w(self) -> int {
        self.w / 2
    }

    pub open spec fn half_h(self) -> int {
        self.h / 2
    }

    /// The left column and the top row take the lower half of an odd
    /// dimension; the right column and the bottom row take the rest.
    pub open spec fn top_left_spec(self) -> Rect {
        Rect { x: self.x, y: self.y, w: self.half_w() as i64, h: self.half_h() as i64 }
    }

    pub open spec fn top_right_spec(self) -> Rect {
        Rect {
            x: (self.x + self.half_w()) as i64,
            y: self.y,
            w: (self.w - self.half_w()) as i64,
            h: self.half_h() as i64,
        }
    }

    pub open spec fn bottom_left_spec(self) -> Rect {
        Rect {
            x: self.x,
            y: (self.y + self.half_h()) as i64,
            w: self.half_w() as i64,
            h: (self.h - self.half_h()) as i64,
        }
    }

    pub open spec fn bottom_right_spec(self) -> Rect {
        Rect {
            x: (self.x + self.half_w()) as i64,
            y: (self.y + self.half_h()) as i64,
            w: (self.w - self.half_w()) as i64,
            h: (self.h - self.half_h()) as i64,
        }
    }

    pub open spec fn quadrant_spec(self, c: Cells) -> Rect {
        match c {
            Cells::TopLeft => self.top_left_spec(),
            Cells::TopRight => self.top_right_spec(),
            Cells::BottomLeft => self.bottom_left_spec(),
            Cells::BottomRight => self.bottom_right_spec(),
        }
    }

    pub open spec fn center_spec(self) -> Point {
        Point { x: (self.x + self.half_w()) as i64, y: (self.y + self.half_h()) as i64 }
    }

    /// A point right of the center line goes right, one below it goes down;
    /// a point on a center line stays left or top.
    pub open spec fn cell_of(self, p: Point) -> Cells {
        let c = self.center_spec();
        if p.x > c.x {
            if p.y > c.y {
                Cells::BottomRight
            } else {
                Cells::TopRight
            }
        } else {
            if p.y > c.y {
                Cells::BottomLeft
            } else {
                Cells::TopLeft
            }
        }
    }

    /// A rectangle with non-negative sides whose right and bottom edges are
    /// representable; `None` for any other.
    pub fn new(x: i64, y: i64, w: i64, h: i64) -> (r: Option<Rect>)
        ensures
            r is Some <==> (Rect { x, y, w, h }).wf(),
            r is Some ==> r->0 == (Rect { x, y, w, h }),
    {
        if w < 0 || h < 0 || x > i64::MAX - w || y > i64::MAX - h {
            None
        } else {
            Some(Rect { x, y, w, h })
        }
    }

    /// Checks if the current rectangle intersects with another rectangle.
    pub fn intersects(&self, other: &Rect) -> (r: bool)
        requires
            self.wf(),
            other.wf(),
        ensures
            r == self.intersects_spec(*other),
    {
        // Early return if any corners of self are within 'other'.
        if (Point { x: self.x, y: self.y }.is_in_rect(other) || Point {
            x: self.x + self.w,
            y: self.y,
        }.is_in_rect(other) || Point { x: self.x, y: self.y + self.h }.is_in_rect(other) || Point {
            x: self.x + self.w,
            y: self.y + self.h,
        }.is_in_rect(other)) {
            return true;
        }

        // Early return if any corners of 'other' are within self.
        if (Point { x: other.x, y: other.y }.is_in_rect(self) || Point {
            x: other.x + other.w,
            y: other.y,
        }.is_in_rect(self) || Point { x: other.x, y: other.y + other.h }.is_in_rect(self) || Point {
            x: other.x + other.w,
            y: other.y + other.h,
        }.is_in_rect(self)) {
            return true;
        }

        // Check if 'other' overlaps 'self' horizontally and vertically.
        self.x < other.x + other.w && self.x + self.w > other.x && self.y < other.y + other.h
            && self.y + self.h > other.y
    }

    /// All four corners of `self` are strictly inside `other`, where the
    /// height is measured upward from `y`.
    pub fn fits(&self, other: Rect) -> (r: bool)
        requires
            self.wf(),
            self.y - self.h >= i64::MIN,
        ensures
            r == self.fits_spec(other),
    {
        let top_left = Point { x: self.x, y: self.y }.is_in_rect(&other);
        let top_right = Point { x: self.x + self.w, y: self.y }.is_in_rect(&other);
        let bottom_left = Point { x: self.x, y: self.y - self.h }.is_in_rect(&other);
        let bottom_right = Point { x: self.x + self.w, y: self.y - self.h }.is_in_rect(&other);
        top_left && top_right && bottom_left && bottom_right
    }

    /// `inner` lies within `self`, edges included.
    pub fn contains(&self, inner: &Rect) -> (r: bool)
        requires
            self.wf(),
            inner.wf(),
        ensures
            r == self.contains_rect(*inner),
    {
        self.x <= inner.x && inner.x + inner.w <= self.x + self.w && self.y <= inner.y && inner.y
            + inner.h <= self.y + self.h
    }

    /// The four quadrants: top-left, top-right, bottom-left, bottom-right.
    pub fn split_to_four_cells(&self) -> (r: (Rect, Rect, Rect, Rect))
        requires
            self.wf(),
        ensures
            r.0 == self.top_left_spec(),
            r.1 == self.top_right_spec(),
            r.2 == self.bottom_left_spec(),
            r.3 == self.bottom_right_spec(),
    {
        (self.top_left(), self.top_right(), self.bottom_left(), self.bottom_right())
    }

    /// Returns the center point of the rectangle.
    pub fn center(&self) -> (r: Point)
        requires
            self.wf(),
        ensures
            r == self.center_spec(),
    {
        let (half_width, half_height) = self.half_dimensions();
        Point { x: self.x + half_width, y: self.y + half_height }
    }

    /// The quadrant of `self` that `point` falls in, relative to the center.
    pub fn where_is_point_relative_to_center(self, point: Point) -> (r: Cells)
        requires
            self.wf(),
        ensures
            r == self.cell_of(point),
    {
        let center = self.center();
        match (point.x > center.x, point.y > center.y) {
            (true, true) => Cells::BottomRight,
            (true, false) => Cells::TopRight,
            (false, true) => Cells::BottomLeft,
            (false, false) => Cells::TopLeft,
        }
    }

    fn half_dimensions(&self) -> (r: (i64, i64))
        requires
            self.wf(),
        ensures
            r.0 == self.half_w(),
            r.1 == self.half_h(),
    {
        (self.w / 2, self.h / 2)
    }

    /// Returns the top-left quarter of the current rectangle.
    pub fn top_left(&self) -> (r: Rect)
        requires
            self.wf(),
        ensures
            r == self.top_left_spec(),
    {
        let (half_width, half_height) = self.half_dimensions();
        Rect { x: self.x, y: self.y, w: half_width, h: half_height }
    }

    /// Returns the top-right quarter of the current rectangle.
    pub fn top_right(&self) -> (r: Rect)
        requires
            self.wf(),
        ensures
            r == self.top_right_spec(),
    {
        let (half_width, half_height) = self.half_dimensions();
        Rect { x: self.x + half_width, y: self.y, w: self.w - half_width, h: half_height }
    }

    /// Returns the bottom-left quarter of the current rectangle.
    pub fn bottom_left(&self) -> (r: Rect)
        requires
            self.wf(),
        ensures
            r == self.bottom_left_spec(),
    {
        let (half_width, half_height) = self.half_dimensions();
        Rect { x: self.x, y: self.y + half_height, w: half_width, h: self.h - half_height }
    }

    /// Returns the bottom-right quarter of the current rectangle.
    pub fn bottom_right(&self) -> (r: Rect)
        requires
            self.wf(),
        ensures
            r == self.bottom_right_spec(),
    {
        let (half_width, half_height) = self.half_dimensions();
        Rect {
            x: self.x + half_width,
            y: self.y + half_height,
            w: self.w - half_width,
            h: self.h - half_height,
        }
    }
}

impl Point {
    pub open spec fn in_rect(self, r: Rect) -> bool {
        inside(self.x as int, self.y as int, r)
    }

    /// A point drawn from `[width / 10, 9 * width / 10]` horizontally and from
    /// `[width / 10, 9 * height / 10]` vertically; `rx` and `ry` are uniform
    /// draws that pick the offset within each range.
    pub fn random_point(width: usize, height: usize, rx: u64, ry: u64) -> (r: Point)
        requires
            width <= crate::constants::COORD_LIMIT as usize,
            height <= crate::constants::COORD_LIMIT as usize,
        ensures
            r.x == pick(width as int / 10, 9 * width as int / 10, rx as int),
            r.y == pick(width as int / 10, 9 * height as int / 10, ry as int),
    {
        let xl = (width / 10) as i64;
        let xh = (9 * width / 10) as i64;
        let yh = (9 * height / 10) as i64;
        Point { x: pick_in_range(xl, xh, rx), y: pick_in_range(xl, yh, ry) }
    }

    /// A velocity whose components have magnitudes in `[min, max]` and the
    /// signs given: each axis is `sign * magnitude`, so no component is
    /// slower than `min`.
    pub fn random_velocity(
        min: i64,
        max: i64,
        neg_x: bool,
        neg_y: bool,
        rx: u64,
        ry: u64,
    ) -> (r: Point)
        requires
            0 <= min <= max <= crate::constants::COORD_LIMIT,
        ensures
            r.x == signed(neg_x, pick(min as int, max as int, rx as int)),
            r.y == signed(neg_y, pick(min as int, max as int, ry as int)),
    {
        let mx = pick_in_range(min, max, rx);
        let my = pick_in_range(min, max, ry);
        Point { x: if neg_x { -mx } else { mx }, y: if neg_y { -my } else { my } }
    }

    pub fn is_in_rect(&self, rect: &Rect) -> (r: bool)
        ensures
            r == self.in_rect(*rect),
    {
        Point::is_point_in_rect(rect.x, rect.y, rect.w, rect.h, self.x, self.y)
    }

    /// Checks if a point is inside the given rectangle.
    fn is_point_in_rect(x: i64, y: i64, w: i64, h: i64, point_x: i64, point_y: i64) -> (r: bool)
        ensures
            r == (x < point_x < x + w && y < point_y < y + h),
    {
        let right = x as i128 + w as i128;
        let bottom = y as i128 + h as i128;
        point_x > x && (point_x as i128) < right && point_y > y && (point_y as i128) < bottom
    }
}

/// The value of `[lo, hi]` that a uniform draw `r` selects; `lo` when the
/// range is empty.
pub open spec fn pick(lo: int, hi: int, r: int) -> int {
    if hi < lo {
        lo
    } else {
        lo + r % (hi - lo + 1)
    }
}

pub open spec fn signed(negative: bool, m: int) -> int {
    if negative {
        -m
    } else {
        m
    }
}

fn pick_in_range(lo: i64, hi: i64, r: u64) -> (v: i64)
    requires
        0 <= lo <= crate::constants::COORD_LIMIT,
        hi <= crate::constants::COORD_LIMIT,
    ensures
        v == pick(lo as int, hi as int, r as int),
        lo <= v,
        hi >= lo ==> v <= hi,
{
    if hi < lo {
        lo
    } else {
        let span = (hi - lo + 1) as u64;
        lo + (r % span) as i64
    }
}

/// No point on the boundary of a rectangle is inside it.
pub proof fn lemma_boundary_not_inside(r: Rect, p: Point)
    requires
        r.wf(),
        on_boundary(p, r),
    ensures
        !p.in_rect(r),
{
}

/// Intersection is symmetric.
pub proof fn lemma_intersects_symmetric(a: Rect, b: Rect)
    ensures
        a.intersects_spec(b) == b.intersects_spec(a),
{
}

/// For rectangles with non-negative sides, intersection is exactly strict
/// overlap of the projections on both axes: the corner tests add nothing.
pub proof fn lemma_intersects_is_overlap(a: Rect, b: Rect)
    requires
        a.wf(),
        b.wf(),
    ensures
        a.intersects_spec(b) == a.overlaps(b),
{
}

/// A rectangle within `outer` that meets `q` makes `outer` meet `q`.
pub proof fn lemma_intersects_within(outer: Rect, inner: Rect, q: Rect)
    requires
        outer.wf(),
        inner.wf(),
        q.wf(),
        outer.contains_rect(inner),
        inner.intersects_spec(q),
    ensures
        outer.intersects_spec(q),
{
    lemma_intersects_is_overlap(inner, q);
    lemma_intersects_is_overlap(outer, q);
}

/// The four quadrants are well formed, lie within the rectangle, their areas
/// add up to its area, and each point of the rectangle (taken half-open) lies
/// in exactly one of them.
pub proof fn lemma_split_partitions(r: Rect)
    requires
        r.wf(),
    ensures
        r.top_left_spec().wf() && r.top_right_spec().wf() && r.bottom_left_spec().wf()
            && r.bottom_right_spec().wf(),
        r.contains_rect(r.top_left_spec()) && r.contains_rect(r.top_right_spec())
            && r.contains_rect(r.bottom_left_spec()) && r.contains_rect(r.bottom_right_spec()),
        area(r.top_left_spec()) + area(r.top_right_spec()) + area(r.bottom_left_spec()) + area(
            r.bottom_right_spec(),
        ) == area(r),
        forall|px: int, py: int|
            #![trigger covers(r, px, py)]
            covers(r, px, py) <==> (covers(r.top_left_spec(), px, py) || covers(
                r.top_right_spec(),
                px,
                py,
            ) || covers(r.bottom_left_spec(), px, py) || covers(r.bottom_right_spec(), px, py)),
        forall|px: int, py: int|
            #![trigger covers(r, px, py)]
            covers(r, px, py) ==> {
                &&& !(covers(r.top_left_spec(), px, py) && covers(r.top_right_spec(), px, py))
                &&& !(covers(r.top_left_spec(), px, py) && covers(r.bottom_left_spec(), px, py))
                &&& !(covers(r.top_left_spec(), px, py) && covers(r.bottom_right_spec(), px, py))
                &&& !(covers(r.top_right_spec(), px, py) && covers(r.bottom_left_spec(), px, py))
                &&& !(covers(r.top_right_spec(), px, py) && covers(r.bottom_right_spec(), px, py))
                &&& !(covers(r.bottom_left_spec(), px, py) && covers(
                    r.bottom_right_spec(),
                    px,
                    py,
                ))
            },
{
    let hw = r.half_w();
    let hh = r.half_h();
    let w = r.w as int;
    let h = r.h as int;
    assert(hw * hh + (w - hw) * hh + hw * (h - hh) + (w - hw) * (h - hh) == w * h)
        by (nonlinear_arith);
}

} // verus!
