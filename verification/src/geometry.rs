//! Points, vectors and rectangles in fixed-point coordinates.
use vstd::prelude::*;
use crate::units::COORD_MAX;

verus! {

/// A position, in length units relative to the origin of the display.
#[derive(Clone, Copy, Debug, PartialEq, Eq, Structural)]
pub struct Point {
    pub x: i64,
    pub y: i64,
}

/// A displacement or a velocity.
#[derive(Clone, Copy, Debug, PartialEq, Eq, Structural)]
pub struct Vector {
    pub x: i64,
    pub y: i64,
}

/// An axis-aligned rectangle: its corner of least coordinates and its size.
#[derive(Clone, Copy, Debug, PartialEq, Eq, Structural)]
pub struct Rect {
    pub x: i64,
    pub y: i64,
    pub w: i64,
    pub h: i64,
}

/// `c` is a coordinate that the library works with.
pub open spec fn coord_in_range(c: int) -> bool {
    -COORD_MAX <= c <= COORD_MAX
}

impl Point {
    /// Both coordinates are within the range that the library works with.
    pub open spec fn wf(self) -> bool {
        coord_in_range(self.x as int) && coord_in_range(self.y as int)
    }

    /// The square of the distance between two points.
    pub open spec fn dist_sqr(self, other: Point) -> int {
        (other.x - self.x) * (other.x - self.x) + (other.y - self.y) * (other.y - self.y)
    }

    /// The point with the given coordinates, if both are in range.
    pub fn new(x: i64, y: i64) -> (p: Option<Point>)
        ensures
            p.is_some() <==> (Point { x, y }).wf(),
            p.is_some() ==> p == Some(Point { x, y }),
    {
        if -COORD_MAX <= x && x <= COORD_MAX && -COORD_MAX <= y && y <= COORD_MAX {
            Some(Point { x, y })
        } else {
            None
        }
    }

    /// The origin of the display.
    pub fn origin() -> (p: Point)
        ensures
            p == (Point { x: 0, y: 0 }),
            p.wf(),
    {
        Point { x: 0, y: 0 }
    }

    /// The square of the distance from this point to `other`.
    pub fn distance_sqr_to(&self, other: &Point) -> (d: u128)
        requires
            self.dist_sqr(*other) <= u128::MAX,
        ensures
            d == self.dist_sqr(*other),
    {
        let dx: i128 = other.x as i128 - self.x as i128;
        let dy: i128 = other.y as i128 - self.y as i128;
        let ax: u128 = if dx < 0 {
            (-dx) as u128
        } else {
            dx as u128
        };
        let ay: u128 = if dy < 0 {
            (-dy) as u128
        } else {
            dy as u128
        };
        proof {
            assert(ax * ax == dx * dx) by (nonlinear_arith)
                requires
                    ax == dx || ax == -dx,
            ;
            assert(ay * ay == dy * dy) by (nonlinear_arith)
                requires
                    ay == dy || ay == -dy,
            ;
            assert(0 <= ay * ay) by (nonlinear_arith);
            assert(0 <= ax * ax) by (nonlinear_arith);
        }
        ax * ax + ay * ay
    }
}

/// Two points whose coordinates are at most `m` in magnitude are at most
/// `2 * m` apart along each axis, which bounds the square of their distance.
pub proof fn lemma_dist_sqr_bound(a: Point, b: Point, m: int)
    requires
        0 <= m,
        -m <= a.x <= m,
        -m <= a.y <= m,
        -m <= b.x <= m,
        -m <= b.y <= m,
    ensures
        0 <= a.dist_sqr(b) <= 8 * (m * m),
{
    let dx = b.x - a.x;
    let dy = b.y - a.y;
    let mm = m * m;
    assert(0 <= dx * dx <= 4 * mm) by (nonlinear_arith)
        requires
            -2 * m <= dx <= 2 * m,
            0 <= m,
            mm == m * m,
    ;
    assert(0 <= dy * dy <= 4 * mm) by (nonlinear_arith)
        requires
            -2 * m <= dy <= 2 * m,
            0 <= m,
            mm == m * m,
    ;
}

impl Rect {
    /// The corner and the size are within the coordinate range.
    pub open spec fn wf(self) -> bool {
        &&& coord_in_range(self.x as int)
        &&& coord_in_range(self.y as int)
        &&& coord_in_range(self.w as int)
        &&& coord_in_range(self.h as int)
    }

    /// The point lies in the rectangle, its four edges included.
    pub open spec fn holds(self, p: Point) -> bool {
        &&& self.x <= p.x <= self.x + self.w
        &&& self.y <= p.y <= self.y + self.h
    }

    /// The rectangle with the given corner and size, if all four are in range.
    pub fn new(x: i64, y: i64, w: i64, h: i64) -> (r: Option<Rect>)
        ensures
            r.is_some() <==> (Rect { x, y, w, h }).wf(),
            r.is_some() ==> r == Some(Rect { x, y, w, h }),
    {
        if -COORD_MAX <= x && x <= COORD_MAX && -COORD_MAX <= y && y <= COORD_MAX && -COORD_MAX
            <= w && w <= COORD_MAX && -COORD_MAX <= h && h <= COORD_MAX {
            Some(Rect { x, y, w, h })
        } else {
            None
        }
    }

    /// Whether the point lies in the rectangle, its four edges included.
    pub fn contains(&self, p: &Point) -> (inside: bool)
        requires
            self.wf(),
        ensures
            inside == self.holds(*p),
    {
        p.x >= self.x && p.x <= self.x + self.w && p.y <= self.y + self.h && p.y >= self.y
    }
}

} // verus!
