//! Exact 2D geometry: points, displacement vectors, and radius-bounded
//! angular wedges (sectors) with a clockwise-ordering containment test.
//!
//! Coordinates are integers, so every predicate here is exact: the same
//! inputs always produce the same boolean, and points exactly on a
//! boundary are classified deterministically. A point is inside a sector
//! iff the displacement from the sector's center to the point lies within
//! the angular span — boundary rays included (the half-plane tests are
//! non-strict) — and its squared magnitude is strictly below the squared
//! radius.

use vstd::prelude::*;

verus! {

/// Coordinates, headings and sector boundary vectors stay within this
/// bound so that every product in the containment tests fits in an `i64`.
pub const COORD_LIMIT: i64 = 1_000_000_000;

/// A point on the stage.
#[derive(Clone, Copy, Debug)]
pub struct Position(pub i64, pub i64);

/// A 2D displacement, derived from positions; never stored on its own.
#[derive(Clone, Copy, Debug)]
pub struct Vector(pub i64, pub i64);

/// A radius-bounded angular wedge: all points whose displacement from
/// `center` lies between the `start` and `end` boundary vectors (sweeping
/// counterclockwise from `start` to `end`) at a distance below `radius`.
#[derive(Clone, Copy, Debug)]
pub struct Sector {
    pub center: Position,
    pub radius: i64,
    pub start: Vector,
    pub end: Vector,
}

impl Position {
    pub open spec fn wf(self) -> bool {
        &&& -COORD_LIMIT <= self.0 <= COORD_LIMIT
        &&& -COORD_LIMIT <= self.1 <= COORD_LIMIT
    }
}

impl Vector {
    /// Displacements between in-bound positions stay within twice the
    /// coordinate bound.
    pub open spec fn wf(self) -> bool {
        &&& -2 * COORD_LIMIT <= self.0 <= 2 * COORD_LIMIT
        &&& -2 * COORD_LIMIT <= self.1 <= 2 * COORD_LIMIT
    }
}

/// The vector from `a` to `b`.
pub open spec fn displacement_of(a: Position, b: Position) -> Vector {
    Vector((b.0 - a.0) as i64, (b.1 - a.1) as i64)
}

pub open spec fn dot_of(a: Vector, b: Vector) -> int {
    a.0 * b.0 + a.1 * b.1
}

/// The cross product of `a` and `b`: its sign gives the rotational
/// order of the two vectors, and it is zero when they are parallel.
/// `clockwise_of_spec` tests it non-strictly.
pub open spec fn cross_of(a: Vector, b: Vector) -> int {
    a.0 * b.1 - a.1 * b.0
}

pub open spec fn magnitude_sq_of(a: Vector) -> int {
    a.0 * a.0 + a.1 * a.1
}

/// Rotating from `b` to `a` proceeds clockwise (boundary included).
pub open spec fn clockwise_of_spec(a: Vector, b: Vector) -> bool {
    cross_of(a, b) <= 0
}

/// The containment convention: the displacement from the sector's center
/// to the point is clockwise-of the `start` boundary, the `end` boundary
/// is clockwise-of that displacement (both tests non-strict, so boundary
/// rays count as inside), and the squared distance is strictly below the
/// squared radius.
pub open spec fn sector_contains(s: Sector, p: Position) -> bool {
    let d = displacement_of(s.center, p);
    &&& clockwise_of_spec(d, s.start)
    &&& clockwise_of_spec(s.end, d)
    &&& magnitude_sq_of(d) < s.radius * s.radius
}

/// Products of two values within `2 * COORD_LIMIT` stay well inside `i64`.
proof fn lemma_product_bound(a: int, b: int)
    requires
        -2 * COORD_LIMIT <= a <= 2 * COORD_LIMIT,
        -2 * COORD_LIMIT <= b <= 2 * COORD_LIMIT,
    ensures
        -4_000_000_000_000_000_000 <= a * b <= 4_000_000_000_000_000_000,
{
    assert(-4_000_000_000_000_000_000 <= a * b <= 4_000_000_000_000_000_000)
        by (nonlinear_arith)
        requires
            -2_000_000_000 <= a <= 2_000_000_000,
            -2_000_000_000 <= b <= 2_000_000_000,
    ;
}

impl Position {
    /// The vector from `self` to `other`.
    pub fn displacement(&self, other: &Position) -> (r: Vector)
        requires
            self.wf(),
            other.wf(),
        ensures
            r == displacement_of(*self, *other),
            r.wf(),
    {
        Vector(other.0 - self.0, other.1 - self.1)
    }
}

impl Vector {
    pub fn dot(&self, other: &Vector) -> (r: i64)
        requires
            self.wf(),
            other.wf(),
        ensures
            r == dot_of(*self, *other),
    {
        proof {
            lemma_product_bound(self.0 as int, other.0 as int);
            lemma_product_bound(self.1 as int, other.1 as int);
        }
        (self.0 * other.0) + (self.1 * other.1)
    }

    /// The 90-degree clockwise rotation of `self`.
    pub fn normal(&self) -> (r: Vector)
        requires
            self.wf(),
        ensures
            r == normal_of(*self),
            r.wf(),
    {
        Vector(self.1, -self.0)
    }

    /// The 90-degree counterclockwise rotation of `self`.
    pub fn inverse_normal(&self) -> (r: Vector)
        requires
            self.wf(),
        ensures
            r == inverse_normal_of(*self),
            r.wf(),
    {
        Vector(-self.1, self.0)
    }

    /// True iff rotating from `other` to `self` proceeds clockwise,
    /// implemented as the half-plane test
    /// `dot(inverse_normal(self), other) <= 0`. The test is non-strict:
    /// a vector on the boundary ray counts on both sides, which keeps
    /// sector containment boundary-inclusive.
    pub fn clockwise_of(&self, other: &Vector) -> (r: bool)
        requires
            self.wf(),
            other.wf(),
        ensures
            r == clockwise_of_spec(*self, *other),
    {
        let n = self.inverse_normal();
        let d = n.dot(other);
        proof {
            assert(n.0 as int == -(self.1 as int) && n.1 == self.0);
            assert((-(self.1 as int)) * other.0 + (self.0 as int) * other.1
                == self.0 * other.1 - self.1 * other.0) by (nonlinear_arith);
        }
        d <= 0
    }

    /// The squared length of `self`; comparing squares against a squared
    /// radius keeps the test exact.
    pub fn magnitude_sq(&self) -> (r: i64)
        requires
            self.wf(),
        ensures
            r == magnitude_sq_of(*self),
    {
        proof {
            lemma_product_bound(self.0 as int, self.0 as int);
            lemma_product_bound(self.1 as int, self.1 as int);
        }
        (self.0 * self.0) + (self.1 * self.1)
    }
}

pub open spec fn normal_of(v: Vector) -> Vector {
    Vector(v.1, (0 - v.0) as i64)
}

pub open spec fn inverse_normal_of(v: Vector) -> Vector {
    Vector((0 - v.1) as i64, v.0)
}

/// The vector-based intersection test: either sector contains the other
/// sector's center (a center is a point of its own sector whenever the
/// radius is positive, since it sits at distance zero on both angular
/// boundaries).
pub open spec fn sectors_intersect(a: Sector, b: Sector) -> bool {
    ||| sector_contains(a, b.center) && b.radius > 0
    ||| sector_contains(b, a.center) && a.radius > 0
}

impl Sector {
    pub open spec fn wf(self) -> bool {
        &&& self.center.wf()
        &&& 0 <= self.radius <= COORD_LIMIT
        &&& self.start.wf()
        &&& self.end.wf()
    }

    /// Whether `p` lies inside this sector. The result is a pure function
    /// of the sector and the point: re-running on identical input always
    /// returns the identical boolean. Angular boundaries are inclusive,
    /// the radius comparison is strictly exclusive; a point coincident
    /// with the center is contained whenever the radius is positive.
    pub fn contains(&self, p: &Position) -> (r: bool)
        requires
            self.wf(),
            p.wf(),
        ensures
            r == sector_contains(*self, *p),
    {
        proof {
            lemma_product_bound(self.radius as int, self.radius as int);
        }
        let d = self.center.displacement(p);
        d.clockwise_of(&self.start) && self.end.clockwise_of(&d)
            && d.magnitude_sq() < self.radius * self.radius
    }

    /// Whether the two wedges overlap, tested without sampling: either
    /// sector contains the other's center. The test is sound, never
    /// complete: a true result guarantees a shared point (the contained
    /// center itself, which lies in its own sector at distance zero),
    /// while wedges that overlap only away from both centers are not
    /// detected. Degenerate inputs stay exact: concentric centers fall
    /// on both angular boundaries and count as inside, and a zero-radius
    /// sector contains nothing, so it intersects nothing through its own
    /// center.
    pub fn intersects(&self, other: &Sector) -> (r: bool)
        requires
            self.wf(),
            other.wf(),
        ensures
            r == sectors_intersect(*self, *other),
            r ==> exists|p: Position| sector_contains(*self, p) && sector_contains(*other, p),
    {
        let r = (self.contains(&other.center) && other.radius > 0) || (other.contains(&self.center)
            && self.radius > 0);
        proof {
            if sector_contains(*self, other.center) && other.radius > 0 {
                lemma_center_in_own_sector(*other);
                assert(sector_contains(*self, other.center) && sector_contains(
                    *other,
                    other.center,
                ));
            } else if sector_contains(*other, self.center) && self.radius > 0 {
                lemma_center_in_own_sector(*self);
                assert(sector_contains(*self, self.center) && sector_contains(
                    *other,
                    self.center,
                ));
            }
        }
        r
    }
}

/// A sector with positive radius contains its own center: the zero
/// displacement lies on both angular boundaries and at distance zero.
proof fn lemma_center_in_own_sector(s: Sector)
    requires
        s.radius > 0,
    ensures
        sector_contains(s, s.center),
{
    assert(s.radius * s.radius > 0) by (nonlinear_arith)
        requires
            s.radius > 0,
    ;
    let d = displacement_of(s.center, s.center);
    assert(d.0 == 0 && d.1 == 0);
    assert(cross_of(d, s.start) == 0);
    assert(cross_of(s.end, d) == 0);
    assert(magnitude_sq_of(d) == 0);
}

} // verus!
