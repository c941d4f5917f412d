//! Candidate connections: the mutual-audibility test between an ordered
//! pair of performers.
//!
//! A candidate `(source side, sink side)` is geometrically valid iff the
//! sink's position lies inside the source's speaking sector on the
//! source side and the source's position lies inside the sink's hearing
//! sector on the sink side. Both directions must hold independently;
//! nothing here checks slot capacity, and the test for `(A, B)` says
//! nothing about `(B, A)`.

use vstd::prelude::*;

use crate::geometry::sector_contains;
use crate::performer::Performer;
use crate::performer::PerformerId;
use crate::performer::hearing_left_of;
use crate::performer::hearing_right_of;
use crate::performer::speaking_left_of;
use crate::performer::speaking_right_of;

verus! {

/// A performer's mouth and ears each have independent left and right
/// capacity; a side names one of the two.
#[derive(Clone, Copy, Debug, PartialEq, Eq, Structural)]
pub enum Side {
    Left,
    Right,
}

/// A directed, slot-backed link: `source` speaks to `sink` using the
/// mouth slot on `source_side`, and `sink` hears `source` using the ear
/// slot on `sink_side`.
#[derive(Clone, Copy, Debug, PartialEq, Eq, Structural)]
pub struct Connection {
    pub source: PerformerId,
    pub source_side: Side,
    pub sink: PerformerId,
    pub sink_side: Side,
}

/// Mutual audibility of one side combination: the sink stands in the
/// source's speaking sector on `source_side`, and the source stands in
/// the sink's hearing sector on `sink_side`.
pub open spec fn audible(source: Performer, source_side: Side, sink: Performer, sink_side: Side) -> bool {
    let speak = match source_side {
        Side::Left => speaking_left_of(source),
        Side::Right => speaking_right_of(source),
    };
    let hear = match sink_side {
        Side::Left => hearing_left_of(sink),
        Side::Right => hearing_right_of(sink),
    };
    sector_contains(speak, sink.position) && sector_contains(hear, source.position)
}

pub open spec fn candidate(p1: Performer, s1: Side, p2: Performer, s2: Side) -> Connection {
    Connection { source: p1.id, source_side: s1, sink: p2.id, sink_side: s2 }
}

/// The candidates from `p1` to `p2`, in the fixed order left-left,
/// left-right, right-left, right-right; each side combination appears
/// exactly when it is audible.
pub open spec fn candidate_list(p1: Performer, p2: Performer) -> Seq<Connection> {
    (if audible(p1, Side::Left, p2, Side::Left) {
        seq![candidate(p1, Side::Left, p2, Side::Left)]
    } else {
        Seq::empty()
    }) + (if audible(p1, Side::Left, p2, Side::Right) {
        seq![candidate(p1, Side::Left, p2, Side::Right)]
    } else {
        Seq::empty()
    }) + (if audible(p1, Side::Right, p2, Side::Left) {
        seq![candidate(p1, Side::Right, p2, Side::Left)]
    } else {
        Seq::empty()
    }) + (if audible(p1, Side::Right, p2, Side::Right) {
        seq![candidate(p1, Side::Right, p2, Side::Right)]
    } else {
        Seq::empty()
    })
}

/// Enumerates the geometrically valid side combinations for speech from
/// `p1` to `p2`. Deterministic: the same two performers always yield the
/// same list, and the result is independent of any call on the reversed
/// pair.
pub fn connections(p1: &Performer, p2: &Performer) -> (r: Vec<Connection>)
    requires
        p1.wf(),
        p2.wf(),
    ensures
        r@ == candidate_list(*p1, *p2),
{
    let (left_audience, right_audience) = p1.speaking_areas();
    let (audible_l, audible_r) = p2.hearing_areas();
    let mut r: Vec<Connection> = Vec::new();

    if left_audience.contains(&p2.position) && audible_l.contains(&p1.position) {
        r.push(Connection { source: p1.id, source_side: Side::Left, sink: p2.id, sink_side: Side::Left });
    }
    if left_audience.contains(&p2.position) && audible_r.contains(&p1.position) {
        r.push(Connection { source: p1.id, source_side: Side::Left, sink: p2.id, sink_side: Side::Right });
    }
    if right_audience.contains(&p2.position) && audible_l.contains(&p1.position) {
        r.push(Connection { source: p1.id, source_side: Side::Right, sink: p2.id, sink_side: Side::Left });
    }
    if right_audience.contains(&p2.position) && audible_r.contains(&p1.position) {
        r.push(Connection { source: p1.id, source_side: Side::Right, sink: p2.id, sink_side: Side::Right });
    }

    proof {
        assert(r@ =~= candidate_list(*p1, *p2));
    }
    r
}

} // verus!
