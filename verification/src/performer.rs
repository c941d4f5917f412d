//! The performer model: identity, position, and heading, together with
//! the derivation of the four directional fields.
//!
//! Each performer derives, as a pure function of position and heading,
//! two speaking sectors and two hearing sectors. The heading is a
//! direction vector; the left speaking sector is the front-left quadrant
//! (sweeping counterclockwise from the heading to its counterclockwise
//! rotation), the right speaking sector the front-right quadrant. The
//! left and right hearing sectors are the half-planes on each side of
//! the heading axis, so a performer hears in every direction within
//! range but each ear is tied to one side. All four sectors share one
//! fixed radius.

use vstd::prelude::*;

use crate::geometry::COORD_LIMIT;
use crate::geometry::Position;
use crate::geometry::Sector;
use crate::geometry::Vector;
use crate::geometry::inverse_normal_of;
use crate::geometry::normal_of;

verus! {

/// The distance a performer's voice carries, and equally how far an ear
/// reaches. Shared by all four sectors of every performer.
pub const SECTOR_RANGE: i64 = 100;

/// A stable integer naming one performer.
pub type PerformerId = u64;

/// The direction a performer faces, as a direction vector. Only the
/// direction matters; the length scales nothing.
#[derive(Clone, Copy, Debug)]
pub struct Heading(pub i64, pub i64);

/// An entity with identity, position, and facing direction on the stage.
#[derive(Clone, Copy, Debug)]
pub struct Performer {
    pub id: PerformerId,
    pub position: Position,
    pub heading: Heading,
}

impl Heading {
    pub open spec fn wf(self) -> bool {
        &&& -COORD_LIMIT <= self.0 <= COORD_LIMIT
        &&& -COORD_LIMIT <= self.1 <= COORD_LIMIT
    }
}

impl Performer {
    pub open spec fn wf(self) -> bool {
        &&& self.position.wf()
        &&& self.heading.wf()
    }
}

pub open spec fn heading_vector(p: Performer) -> Vector {
    Vector(p.heading.0, p.heading.1)
}

pub open spec fn opposite_of(v: Vector) -> Vector {
    Vector((0 - v.0) as i64, (0 - v.1) as i64)
}

/// The front-left quadrant: from the heading counterclockwise to the
/// heading's counterclockwise rotation.
pub open spec fn speaking_left_of(p: Performer) -> Sector {
    Sector {
        center: p.position,
        radius: SECTOR_RANGE,
        start: heading_vector(p),
        end: inverse_normal_of(heading_vector(p)),
    }
}

/// The front-right quadrant: from the heading's clockwise rotation
/// counterclockwise to the heading.
pub open spec fn speaking_right_of(p: Performer) -> Sector {
    Sector {
        center: p.position,
        radius: SECTOR_RANGE,
        start: normal_of(heading_vector(p)),
        end: heading_vector(p),
    }
}

/// The half-plane to the left of the heading axis.
pub open spec fn hearing_left_of(p: Performer) -> Sector {
    Sector {
        center: p.position,
        radius: SECTOR_RANGE,
        start: heading_vector(p),
        end: opposite_of(heading_vector(p)),
    }
}

/// The half-plane to the right of the heading axis.
pub open spec fn hearing_right_of(p: Performer) -> Sector {
    Sector {
        center: p.position,
        radius: SECTOR_RANGE,
        start: opposite_of(heading_vector(p)),
        end: heading_vector(p),
    }
}

impl Performer {
    /// The left and right speaking sectors, in that order: a pure
    /// function of position and heading, so the same performer always
    /// yields identical sectors.
    pub fn speaking_areas(&self) -> (r: (Sector, Sector))
        requires
            self.wf(),
        ensures
            r.0 == speaking_left_of(*self),
            r.1 == speaking_right_of(*self),
            r.0.wf(),
            r.1.wf(),
    {
        let h = Vector(self.heading.0, self.heading.1);
        let left = Sector { center: self.position, radius: SECTOR_RANGE, start: h, end: h.inverse_normal() };
        let right = Sector { center: self.position, radius: SECTOR_RANGE, start: h.normal(), end: h };
        (left, right)
    }

    /// The left and right hearing sectors, in that order: a pure
    /// function of position and heading, so the same performer always
    /// yields identical sectors.
    pub fn hearing_areas(&self) -> (r: (Sector, Sector))
        requires
            self.wf(),
        ensures
            r.0 == hearing_left_of(*self),
            r.1 == hearing_right_of(*self),
            r.0.wf(),
            r.1.wf(),
    {
        let h = Vector(self.heading.0, self.heading.1);
        let away = Vector(-self.heading.0, -self.heading.1);
        let left = Sector { center: self.position, radius: SECTOR_RANGE, start: h, end: away };
        let right = Sector { center: self.position, radius: SECTOR_RANGE, start: away, end: h };
        (left, right)
    }
}

} // verus!
