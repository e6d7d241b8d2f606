//! Screen geometry: points and half-open rectangles.
use vstd::prelude::*;

verus! {

/// A point on the screen (column `x`, row `y`).
#[derive(Clone, Copy, Debug, Default, PartialEq, Eq, Hash, Structural)]
pub struct Point {
    pub x: i32,
    pub y: i32,
}

impl Point {
    /// Construct a point.
    pub fn new(x: i32, y: i32) -> (p: Self)
        ensures
            p.x == x,
            p.y == y,
    {
        Point { x, y }
    }
}

/// Does `a + b` stay within `i32` in both coordinates?
pub open spec fn point_add_fits(a: Point, b: Point) -> bool {
    i32::MIN <= a.x + b.x <= i32::MAX && i32::MIN <= a.y + b.y <= i32::MAX
}

/// Does `a - b` stay within `i32` in both coordinates?
pub open spec fn point_sub_fits(a: Point, b: Point) -> bool {
    i32::MIN <= a.x - b.x <= i32::MAX && i32::MIN <= a.y - b.y <= i32::MAX
}

impl core::ops::Add for Point {
    type Output = Point;

    fn add(self, rhs: Point) -> (r: Point) {
        Point { x: self.x + rhs.x, y: self.y + rhs.y }
    }
}

impl vstd::std_specs::ops::AddSpecImpl for Point {
    open spec fn obeys_add_spec() -> bool {
        true
    }

    open spec fn add_req(self, rhs: Point) -> bool {
        point_add_fits(self, rhs)
    }

    open spec fn add_spec(self, rhs: Point) -> Point {
        Point { x: (self.x + rhs.x) as i32, y: (self.y + rhs.y) as i32 }
    }
}


impl core::ops::Sub for Point {
    type Output = Point;

    fn sub(self, rhs: Point) -> (r: Point) {
        Point { x: self.x - rhs.x, y: self.y - rhs.y }
    }
}

impl vstd::std_specs::ops::SubSpecImpl for Point {
    open spec fn obeys_sub_spec() -> bool {
        true
    }

    open spec fn sub_req(self, rhs: Point) -> bool {
        point_sub_fits(self, rhs)
    }

    open spec fn sub_spec(self, rhs: Point) -> Point {
        Point { x: (self.x - rhs.x) as i32, y: (self.y - rhs.y) as i32 }
    }
}

impl core::ops::AddAssign for Point {
    /// Coordinates that leave the `i32` range wrap around (two's complement).
    fn add_assign(&mut self, rhs: Point)
        ensures
            final(self).x == old(self).x.wrapping_add(rhs.x),
            final(self).y == old(self).y.wrapping_add(rhs.y),
    {
        self.x = self.x.wrapping_add(rhs.x);
        self.y = self.y.wrapping_add(rhs.y);
    }
}


impl core::ops::SubAssign for Point {
    /// Coordinates that leave the `i32` range wrap around (two's complement).
    fn sub_assign(&mut self, rhs: Point)
        ensures
            final(self).x == old(self).x.wrapping_sub(rhs.x),
            final(self).y == old(self).y.wrapping_sub(rhs.y),
    {
        self.x = self.x.wrapping_sub(rhs.x);
        self.y = self.y.wrapping_sub(rhs.y);
    }
}

/// A rectangle with top-left corner `a` (inclusive) and bottom-right corner
/// `b` (exclusive).
#[derive(Clone, Copy, Debug, Default, PartialEq, Eq, Hash, Structural)]
pub struct Rect {
    pub a: Point,
    pub b: Point,
}

/// The corners as a rectangle.
pub open spec fn rect_of(ax: int, ay: int, bx: int, by: int) -> Rect {
    Rect {
        a: Point { x: ax as i32, y: ay as i32 },
        b: Point { x: bx as i32, y: by as i32 },
    }
}

/// Is `v` an `i32`?
pub open spec fn fits_i32(v: int) -> bool {
    i32::MIN <= v <= i32::MAX
}

impl Rect {
    /// `r` translated by `(dx, dy)`.
    pub open spec fn spec_moved(self, dx: int, dy: int) -> Rect {
        rect_of(self.a.x + dx, self.a.y + dy, self.b.x + dx, self.b.y + dy)
    }

    /// Can `self` be translated by `(dx, dy)` without leaving `i32`?
    pub open spec fn can_move(self, dx: int, dy: int) -> bool {
        fits_i32(self.a.x + dx) && fits_i32(self.a.y + dy) && fits_i32(self.b.x + dx)
            && fits_i32(self.b.y + dy)
    }

    /// `r` with `a` pulled out and `b` pushed out by `(dx, dy)`.
    pub open spec fn spec_grown(self, dx: int, dy: int) -> Rect {
        rect_of(self.a.x - dx, self.a.y - dy, self.b.x + dx, self.b.y + dy)
    }

    /// Can `self` be grown by `(dx, dy)` without leaving `i32`?
    pub open spec fn can_grow(self, dx: int, dy: int) -> bool {
        fits_i32(self.a.x - dx) && fits_i32(self.a.y - dy) && fits_i32(self.b.x + dx)
            && fits_i32(self.b.y + dy)
    }

    /// The overlap of `self` and `r`.
    pub open spec fn spec_intersection(self, r: Rect) -> Rect {
        Rect {
            a: Point { x: max_i32(self.a.x, r.a.x), y: max_i32(self.a.y, r.a.y) },
            b: Point { x: min_i32(self.b.x, r.b.x), y: min_i32(self.b.y, r.b.y) },
        }
    }

    /// The bounding box of `self` and `r`.
    pub open spec fn spec_union(self, r: Rect) -> Rect {
        Rect {
            a: Point { x: min_i32(self.a.x, r.a.x), y: min_i32(self.a.y, r.a.y) },
            b: Point { x: max_i32(self.b.x, r.b.x), y: max_i32(self.b.y, r.b.y) },
        }
    }

    /// Half-open containment: the right and bottom edges are excluded.
    pub open spec fn spec_contains(self, p: Point) -> bool {
        self.a.x <= p.x < self.b.x && self.a.y <= p.y < self.b.y
    }

    /// The rectangle has no area.
    pub open spec fn spec_is_empty(self) -> bool {
        self.a.x >= self.b.x || self.a.y >= self.b.y
    }

    /// `TRect(ax, ay, bx, by)`.
    pub fn new(ax: i32, ay: i32, bx: i32, by: i32) -> (r: Self)
        ensures
            r.a.x == ax && r.a.y == ay && r.b.x == bx && r.b.y == by,
    {
        Rect { a: Point { x: ax, y: ay }, b: Point { x: bx, y: by } }
    }

    /// `TRect(TPoint p1, TPoint p2)`.
    pub fn from_points(p1: Point, p2: Point) -> (r: Self)
        ensures
            r.a == p1 && r.b == p2,
    {
        Rect { a: p1, b: p2 }
    }

    /// `TRect::move`: translate both corners by `(dx, dy)`.
    pub fn move_by(&mut self, dx: i32, dy: i32) -> (r: &mut Self)
        requires
            old(self).can_move(dx as int, dy as int),
        ensures
            *r == old(self).spec_moved(dx as int, dy as int),
            *final(self) == *final(r),
    {
        self.a.x = self.a.x + dx;
        self.a.y = self.a.y + dy;
        self.b.x = self.b.x + dx;
        self.b.y = self.b.y + dy;
        self
    }

    /// `TRect::grow`: pull `a` out by `(dx, dy)` and push `b` out by `(dx, dy)`
    /// (negative arguments shrink).
    pub fn grow(&mut self, dx: i32, dy: i32) -> (r: &mut Self)
        requires
            old(self).can_grow(dx as int, dy as int),
        ensures
            *r == old(self).spec_grown(dx as int, dy as int),
            *final(self) == *final(r),
    {
        self.a.x = self.a.x - dx;
        self.a.y = self.a.y - dy;
        self.b.x = self.b.x + dx;
        self.b.y = self.b.y + dy;
        self
    }

    /// `TRect::intersect`: clip to the overlap with `r`.
    pub fn intersect(&mut self, r: &Rect) -> (out: &mut Self)
        ensures
            *out == old(self).spec_intersection(*r),
            *final(self) == *final(out),
    {
        self.a.x = if self.a.x >= r.a.x { self.a.x } else { r.a.x };
        self.a.y = if self.a.y >= r.a.y { self.a.y } else { r.a.y };
        self.b.x = if self.b.x <= r.b.x { self.b.x } else { r.b.x };
        self.b.y = if self.b.y <= r.b.y { self.b.y } else { r.b.y };
        self
    }

    /// `TRect::Union`: expand to the bounding box of `self` and `r`.
    pub fn union(&mut self, r: &Rect) -> (out: &mut Self)
        ensures
            *out == old(self).spec_union(*r),
            *final(self) == *final(out),
    {
        self.a.x = if self.a.x <= r.a.x { self.a.x } else { r.a.x };
        self.a.y = if self.a.y <= r.a.y { self.a.y } else { r.a.y };
        self.b.x = if self.b.x >= r.b.x { self.b.x } else { r.b.x };
        self.b.y = if self.b.y >= r.b.y { self.b.y } else { r.b.y };
        self
    }

    /// `TRect::contains`: the right and bottom edges are excluded.
    pub fn contains(&self, p: Point) -> (r: bool)
        ensures
            r == self.spec_contains(p),
    {
        p.x >= self.a.x && p.x < self.b.x && p.y >= self.a.y && p.y < self.b.y
    }

    /// `TRect::isEmpty`: true when the rectangle has no area.
    pub fn is_empty(&self) -> (r: bool)
        ensures
            r == self.spec_is_empty(),
    {
        self.a.x >= self.b.x || self.a.y >= self.b.y
    }
}

/// The larger of two `i32`s.
pub open spec fn max_i32(a: i32, b: i32) -> i32 {
    if a >= b { a } else { b }
}

/// The smaller of two `i32`s.
pub open spec fn min_i32(a: i32, b: i32) -> i32 {
    if a <= b { a } else { b }
}


/// Translating a rectangle by `(dx, dy)` and then by `(-dx, -dy)` gives back
/// the same rectangle.
pub proof fn law_move_round_trip(r: Rect, dx: int, dy: int)
    requires
        r.can_move(dx, dy),
    ensures
        r.spec_moved(dx, dy).can_move(-dx, -dy),
        r.spec_moved(dx, dy).spec_moved(-dx, -dy) == r,
{
}

/// Growing a rectangle by `(dx, dy)` and then by `(-dx, -dy)` gives back the
/// same rectangle.
pub proof fn law_grow_round_trip(r: Rect, dx: int, dy: int)
    requires
        r.can_grow(dx, dy),
    ensures
        r.spec_grown(dx, dy).can_grow(-dx, -dy),
        r.spec_grown(dx, dy).spec_grown(-dx, -dy) == r,
{
}

/// A translated rectangle contains exactly the translated points.
pub proof fn law_move_preserves_contains(r: Rect, dx: int, dy: int, p: Point)
    requires
        r.can_move(dx, dy),
        fits_i32(p.x + dx),
        fits_i32(p.y + dy),
    ensures
        r.spec_contains(p) <==> r.spec_moved(dx, dy).spec_contains(
            Point { x: (p.x + dx) as i32, y: (p.y + dy) as i32 },
        ),
{
}

/// A point lies in the intersection of two rectangles exactly when it lies
/// in both.
pub proof fn law_intersection_contains(r: Rect, s: Rect, p: Point)
    ensures
        r.spec_intersection(s).spec_contains(p) <==> (r.spec_contains(p) && s.spec_contains(p)),
{
}

/// The union (bounding box) of two rectangles contains every point of
/// either.
pub proof fn law_union_covers(r: Rect, s: Rect, p: Point)
    ensures
        r.spec_contains(p) ==> r.spec_union(s).spec_contains(p),
        s.spec_contains(p) ==> r.spec_union(s).spec_contains(p),
{
}

/// Intersection and union do not depend on the order of their operands.
pub proof fn law_intersection_union_commute(r: Rect, s: Rect)
    ensures
        r.spec_intersection(s) == s.spec_intersection(r),
        r.spec_union(s) == s.spec_union(r),
{
}

/// An empty rectangle contains no point; a non-empty one contains its
/// top-left corner.
pub proof fn law_empty_iff_no_points(r: Rect, p: Point)
    ensures
        r.spec_is_empty() ==> !r.spec_contains(p),
        !r.spec_is_empty() ==> r.spec_contains(r.a),
{
}

} // verus!
