//! The capacity graph: per-performer slot state, feasibility queries,
//! and the mutating connect operation.
//!
//! Every performer has four single-occupant slots: mouth-left,
//! mouth-right, ear-left, ear-right. A connection occupies exactly one
//! mouth slot of its source and one ear slot of its sink, so the total
//! connection count is the number of occupied mouth slots. Performers
//! with no occupied slot carry no entry: absence means all four slots
//! are empty.

use vstd::prelude::*;
use vstd::pervasive::VecAdditionalExecFns;

use crate::connection::Connection;
use crate::connection::Side;
use crate::performer::PerformerId;

verus! {

/// One left slot and one right slot, each holding at most one peer.
#[derive(Clone, Copy, Debug)]
pub struct Slots {
    pub left: Option<PerformerId>,
    pub right: Option<PerformerId>,
}

/// The two mouth slots of one performer: whom it speaks to.
#[derive(Clone, Copy, Debug)]
pub struct Mouth(pub Slots);

/// The two ear slots of one performer: whom it hears.
#[derive(Clone, Copy, Debug)]
pub struct Ears(pub Slots);

/// The full slot state of one performer.
#[derive(Clone, Copy, Debug)]
pub struct Edges {
    pub ears: Ears,
    pub mouth: Mouth,
}

/// One performer's slot state, keyed by its identifier.
#[derive(Clone, Copy, Debug)]
pub struct Node {
    pub id: PerformerId,
    pub edges: Edges,
}

pub open spec fn empty_slots() -> Slots {
    Slots { left: None, right: None }
}

pub open spec fn empty_edges() -> Edges {
    Edges { ears: Ears(empty_slots()), mouth: Mouth(empty_slots()) }
}

pub open spec fn slot_free(s: Slots, side: Side) -> bool {
    match side {
        Side::Left => s.left is None,
        Side::Right => s.right is None,
    }
}

pub open spec fn slot_add(s: Slots, side: Side, p: PerformerId) -> Slots {
    match side {
        Side::Left => Slots { left: Some(p), right: s.right },
        Side::Right => Slots { left: s.left, right: Some(p) },
    }
}

pub open spec fn slot_has(s: Slots, p: PerformerId) -> bool {
    s.left == Some(p) || s.right == Some(p)
}

pub open spec fn slot_count(s: Slots) -> int {
    (if s.left is Some { 1int } else { 0int }) + (if s.right is Some { 1int } else { 0int })
}

impl Slots {
    /// Both slots empty.
    pub fn empty() -> (r: Slots)
        ensures
            r == empty_slots(),
    {
        Slots { left: None, right: None }
    }

    /// Fresh slots with `p` occupying the slot on side `s`.
    pub fn with(s: &Side, p: &PerformerId) -> (r: Slots)
        ensures
            r == slot_add(empty_slots(), *s, *p),
    {
        match s {
            Side::Left => Slots { left: Some(*p), right: None },
            Side::Right => Slots { right: Some(*p), left: None },
        }
    }

    /// The slot on side `s` is unoccupied.
    pub fn available_on(&self, s: &Side) -> (r: bool)
        ensures
            r == slot_free(*self, *s),
    {
        match s {
            Side::Left => self.left.is_none(),
            Side::Right => self.right.is_none(),
        }
    }

    /// Occupies the slot on side `s` with `p`. Occupation is monotonic
    /// within a run: callers establish emptiness first, so nothing is
    /// silently overwritten.
    pub fn add(&mut self, s: &Side, p: &PerformerId)
        ensures
            *final(self) == slot_add(*old(self), *s, *p),
    {
        match s {
            Side::Left => self.left = Some(*p),
            Side::Right => self.right = Some(*p),
        }
    }

    /// Some slot holds `p`.
    pub fn has(&self, p: &PerformerId) -> (r: bool)
        ensures
            r == slot_has(*self, *p),
    {
        match (self.right, self.left) {
            (None, None) => false,
            (Some(p2), None) => *p == p2,
            (None, Some(p2)) => *p == p2,
            (Some(p2), Some(p3)) => *p == p2 || *p == p3,
        }
    }

    /// How many of the two slots are occupied.
    pub fn filled(&self) -> (r: u64)
        ensures
            r as int == slot_count(*self),
    {
        let l: u64 = if self.left.is_some() { 1 } else { 0 };
        let r: u64 = if self.right.is_some() { 1 } else { 0 };
        l + r
    }
}

impl Mouth {
    /// Some mouth slot speaks to `p`.
    pub fn talking_to(&self, p: &PerformerId) -> (r: bool)
        ensures
            r == slot_has(self.0, *p),
    {
        let Mouth(slots) = self;
        slots.has(p)
    }

    /// How many listeners this mouth serves.
    pub fn listeners(&self) -> (r: u64)
        ensures
            r as int == slot_count(self.0),
    {
        let Mouth(slots) = self;
        slots.filled()
    }

    /// The mouth slot on side `s` is free to speak.
    pub fn output_free(&self, s: &Side) -> (r: bool)
        ensures
            r == slot_free(self.0, *s),
    {
        let Mouth(slots) = self;
        slots.available_on(s)
    }
}

impl Ears {
    /// Some ear slot hears `p`.
    pub fn listening_to(&self, p: &PerformerId) -> (r: bool)
        ensures
            r == slot_has(self.0, *p),
    {
        let Ears(slots) = self;
        slots.has(p)
    }

    /// How many speakers these ears hear.
    pub fn speakers(&self) -> (r: u64)
        ensures
            r as int == slot_count(self.0),
    {
        let Ears(slots) = self;
        slots.filled()
    }

    /// The ear slot on side `s` is free to listen.
    pub fn input_free(&self, s: &Side) -> (r: bool)
        ensures
            r == slot_free(self.0, *s),
    {
        match self {
            Ears(slots) => slots.available_on(s),
        }
    }
}

impl Edges {
    /// The occupied slots of this node, ears and mouth together: one
    /// node's degree, not a connection count (each connection shows up
    /// at two nodes).
    pub fn count(&self) -> (r: u64)
        ensures
            r as int == slot_count(self.ears.0) + slot_count(self.mouth.0),
    {
        self.ears.speakers() + self.mouth.listeners()
    }
}

impl Connection {
    /// This candidate's source-side mouth slot and sink-side ear slot
    /// are both free.
    pub fn can_connect(&self, m: &Mouth, e: &Ears) -> (r: bool)
        ensures
            r == (slot_free(m.0, self.source_side) && slot_free(e.0, self.sink_side)),
    {
        m.output_free(&self.source_side) && e.input_free(&self.sink_side)
    }
}

/// The index of the first node with identifier `id`.
pub open spec fn find_index(s: Seq<Node>, id: PerformerId) -> Option<int>
    decreases s.len(),
{
    if s.len() <= 0 {
        None
    } else if s[0].id == id {
        Some(0int)
    } else {
        match find_index(s.skip(1), id) {
            None => None,
            Some(i) => Some(i + 1),
        }
    }
}

/// The slot state of performer `id`: absence means all slots empty.
pub open spec fn lookup(s: Seq<Node>, id: PerformerId) -> Edges {
    match find_index(s, id) {
        None => empty_edges(),
        Some(i) => s[i].edges,
    }
}

/// Node identifiers are unique.
pub open spec fn wf_nodes(s: Seq<Node>) -> bool {
    forall|i: int, j: int| 0 <= i < j < s.len() ==> s[i].id != s[j].id
}

/// The number of occupied mouth slots across all nodes: the canonical
/// connection count, since every connect occupies exactly one mouth slot
/// and one ear slot in lockstep.
pub open spec fn count_nodes(s: Seq<Node>) -> int
    decreases s.len(),
{
    if s.len() <= 0 {
        0
    } else {
        count_nodes(s.drop_last()) + slot_count(s.last().edges.mouth.0)
    }
}

/// A candidate is feasible iff the source's mouth slot on the source
/// side is empty, the sink's ear slot on the sink side is empty, the
/// source does not already speak to the sink through any slot, the sink
/// does not already hear the source through any slot, and source and
/// sink are distinct performers. The pair rules block a duplicate edge
/// between the same ordered pair through other sides; the reverse
/// direction remains independently connectable.
pub open spec fn feasible(s: Seq<Node>, c: Connection) -> bool {
    &&& c.source != c.sink
    &&& !slot_has(lookup(s, c.source).mouth.0, c.sink)
    &&& !slot_has(lookup(s, c.sink).ears.0, c.source)
    &&& slot_free(lookup(s, c.source).mouth.0, c.source_side)
    &&& slot_free(lookup(s, c.sink).ears.0, c.sink_side)
}

/// Occupies `id`'s mouth slot on `side` with `peer`, creating the node
/// when absent.
pub open spec fn upsert_mouth(s: Seq<Node>, id: PerformerId, side: Side, peer: PerformerId) -> Seq<Node> {
    match find_index(s, id) {
        None => s.push(
            Node { id, edges: Edges { ears: Ears(empty_slots()), mouth: Mouth(slot_add(empty_slots(), side, peer)) } },
        ),
        Some(i) => s.update(
            i,
            Node { id, edges: Edges { ears: s[i].edges.ears, mouth: Mouth(slot_add(s[i].edges.mouth.0, side, peer)) } },
        ),
    }
}

/// Occupies `id`'s ear slot on `side` with `peer`, creating the node
/// when absent.
pub open spec fn upsert_ear(s: Seq<Node>, id: PerformerId, side: Side, peer: PerformerId) -> Seq<Node> {
    match find_index(s, id) {
        None => s.push(
            Node { id, edges: Edges { ears: Ears(slot_add(empty_slots(), side, peer)), mouth: Mouth(empty_slots()) } },
        ),
        Some(i) => s.update(
            i,
            Node { id, edges: Edges { ears: Ears(slot_add(s[i].edges.ears.0, side, peer)), mouth: s[i].edges.mouth } },
        ),
    }
}

/// The graph after establishing `c`: the source's mouth slot and the
/// sink's ear slot occupy each other's identifiers.
pub open spec fn connect_nodes(s: Seq<Node>, c: Connection) -> Seq<Node> {
    upsert_ear(upsert_mouth(s, c.source, c.source_side, c.sink), c.sink, c.sink_side, c.source)
}

/// `find_index` finds a node with the identifier, and the first one.
proof fn lemma_find_index(s: Seq<Node>, id: PerformerId)
    ensures
        match find_index(s, id) {
            None => forall|j: int| 0 <= j < s.len() ==> s[j].id != id,
            Some(i) => 0 <= i < s.len() && s[i].id == id && forall|j: int| 0 <= j < i ==> s[j].id != id,
        },
    decreases s.len(),
{
    if s.len() > 0 && s[0].id != id {
        lemma_find_index(s.skip(1), id);
        match find_index(s.skip(1), id) {
            None => {
                assert forall|j: int| 0 <= j < s.len() implies s[j].id != id by {
                    if j > 0 {
                        assert(s.skip(1)[j - 1] == s[j]);
                    }
                }
            },
            Some(i) => {
                assert(s.skip(1)[i] == s[i + 1]);
                assert forall|j: int| 0 <= j < i + 1 implies s[j].id != id by {
                    if j > 0 {
                        assert(s.skip(1)[j - 1] == s[j]);
                    }
                }
            },
        }
    }
}

/// Any witness index pins `find_index` down when identifiers are unique.
proof fn lemma_find_index_at(s: Seq<Node>, id: PerformerId, i: int)
    requires
        0 <= i < s.len(),
        s[i].id == id,
        forall|j: int| 0 <= j < i ==> s[j].id != id,
    ensures
        find_index(s, id) == Some(i),
    decreases s.len(),
{
    if i > 0 {
        assert(forall|j: int| 0 <= j < s.skip(1).len() ==> s.skip(1)[j] == s[j + 1]);
        lemma_find_index_at(s.skip(1), id, i - 1);
    }
}

proof fn lemma_find_index_absent(s: Seq<Node>, id: PerformerId)
    requires
        forall|j: int| 0 <= j < s.len() ==> s[j].id != id,
    ensures
        find_index(s, id) is None,
{
    lemma_find_index(s, id);
    if find_index(s, id) is Some {
        let i = find_index(s, id)->Some_0;
        assert(s[i].id == id);
    }
}

proof fn lemma_count_push(s: Seq<Node>, n: Node)
    ensures
        count_nodes(s.push(n)) == count_nodes(s) + slot_count(n.edges.mouth.0),
{
    assert(s.push(n).drop_last() =~= s);
    assert(s.push(n).last() == n);
}

proof fn lemma_count_update(s: Seq<Node>, i: int, n: Node)
    requires
        0 <= i < s.len(),
    ensures
        count_nodes(s.update(i, n)) == count_nodes(s) - slot_count(s[i].edges.mouth.0) + slot_count(
            n.edges.mouth.0,
        ),
    decreases s.len(),
{
    if i == s.len() - 1 {
        assert(s.update(i, n).drop_last() =~= s.drop_last());
        assert(s.update(i, n).last() == n);
    } else {
        assert(s.update(i, n).drop_last() =~= s.drop_last().update(i, n));
        assert(s.update(i, n).last() == s.last());
        lemma_count_update(s.drop_last(), i, n);
    }
}

/// What `upsert_mouth` does to every lookup, to uniqueness, to the
/// length, and to the count.
proof fn lemma_upsert_mouth(s: Seq<Node>, id: PerformerId, side: Side, peer: PerformerId)
    requires
        wf_nodes(s),
    ensures
        wf_nodes(upsert_mouth(s, id, side, peer)),
        s.len() <= upsert_mouth(s, id, side, peer).len() <= s.len() + 1,
        lookup(upsert_mouth(s, id, side, peer), id) == (Edges {
            ears: lookup(s, id).ears,
            mouth: Mouth(slot_add(lookup(s, id).mouth.0, side, peer)),
        }),
        forall|q: PerformerId| q != id ==> lookup(upsert_mouth(s, id, side, peer), q) == lookup(s, q),
        count_nodes(upsert_mouth(s, id, side, peer)) == count_nodes(s) - slot_count(
            lookup(s, id).mouth.0,
        ) + slot_count(slot_add(lookup(s, id).mouth.0, side, peer)),
{
    let t = upsert_mouth(s, id, side, peer);
    lemma_find_index(s, id);
    match find_index(s, id) {
        None => {
            assert(forall|j: int| 0 <= j < s.len() ==> t[j] == s[j]);
            assert(wf_nodes(t));
            lemma_find_index_at(t, id, s.len() as int);
            lemma_count_push(s, t.last());
            assert forall|q: PerformerId| q != id implies lookup(t, q) == lookup(s, q) by {
                lemma_find_index(s, q);
                match find_index(s, q) {
                    None => {
                        lemma_find_index_absent(t, q);
                    },
                    Some(j) => {
                        lemma_find_index_at(t, q, j);
                    },
                }
            }
        },
        Some(i) => {
            assert(forall|j: int| 0 <= j < s.len() && j != i ==> t[j] == s[j]);
            assert(t[i].id == id);
            assert(wf_nodes(t));
            lemma_find_index_at(t, id, i);
            lemma_count_update(s, i, t[i]);
            assert forall|q: PerformerId| q != id implies lookup(t, q) == lookup(s, q) by {
                lemma_find_index(s, q);
                match find_index(s, q) {
                    None => {
                        lemma_find_index_absent(t, q);
                    },
                    Some(j) => {
                        assert(j != i);
                        lemma_find_index_at(t, q, j);
                    },
                }
            }
        },
    }
}

/// What `upsert_ear` does to every lookup, to uniqueness, to the length,
/// and to the count (ears carry no mouth slots, so the count is kept).
proof fn lemma_upsert_ear(s: Seq<Node>, id: PerformerId, side: Side, peer: PerformerId)
    requires
        wf_nodes(s),
    ensures
        wf_nodes(upsert_ear(s, id, side, peer)),
        s.len() <= upsert_ear(s, id, side, peer).len() <= s.len() + 1,
        lookup(upsert_ear(s, id, side, peer), id) == (Edges {
            ears: Ears(slot_add(lookup(s, id).ears.0, side, peer)),
            mouth: lookup(s, id).mouth,
        }),
        forall|q: PerformerId| q != id ==> lookup(upsert_ear(s, id, side, peer), q) == lookup(s, q),
        count_nodes(upsert_ear(s, id, side, peer)) == count_nodes(s),
{
    let t = upsert_ear(s, id, side, peer);
    lemma_find_index(s, id);
    match find_index(s, id) {
        None => {
            assert(forall|j: int| 0 <= j < s.len() ==> t[j] == s[j]);
            assert(wf_nodes(t));
            lemma_find_index_at(t, id, s.len() as int);
            lemma_count_push(s, t.last());
            assert forall|q: PerformerId| q != id implies lookup(t, q) == lookup(s, q) by {
                lemma_find_index(s, q);
                match find_index(s, q) {
                    None => {
                        lemma_find_index_absent(t, q);
                    },
                    Some(j) => {
                        lemma_find_index_at(t, q, j);
                    },
                }
            }
        },
        Some(i) => {
            assert(forall|j: int| 0 <= j < s.len() && j != i ==> t[j] == s[j]);
            assert(t[i].id == id);
            assert(wf_nodes(t));
            lemma_find_index_at(t, id, i);
            lemma_count_update(s, i, t[i]);
            assert forall|q: PerformerId| q != id implies lookup(t, q) == lookup(s, q) by {
                lemma_find_index(s, q);
                match find_index(s, q) {
                    None => {
                        lemma_find_index_absent(t, q);
                    },
                    Some(j) => {
                        assert(j != i);
                        lemma_find_index_at(t, q, j);
                    },
                }
            }
        },
    }
}

/// Establishing a feasible candidate occupies the source's mouth slot
/// and the sink's ear slot with each other's identifiers, touches no
/// other performer, keeps identifiers unique, adds at most two nodes,
/// and raises the connection count by exactly one.
pub proof fn lemma_connect_nodes(s: Seq<Node>, c: Connection)
    requires
        wf_nodes(s),
        feasible(s, c),
    ensures
        wf_nodes(connect_nodes(s, c)),
        s.len() <= connect_nodes(s, c).len() <= s.len() + 2,
        lookup(connect_nodes(s, c), c.source) == (Edges {
            ears: lookup(s, c.source).ears,
            mouth: Mouth(slot_add(lookup(s, c.source).mouth.0, c.source_side, c.sink)),
        }),
        lookup(connect_nodes(s, c), c.sink) == (Edges {
            ears: Ears(slot_add(lookup(s, c.sink).ears.0, c.sink_side, c.source)),
            mouth: lookup(s, c.sink).mouth,
        }),
        forall|q: PerformerId|
            q != c.source && q != c.sink ==> lookup(connect_nodes(s, c), q) == lookup(s, q),
        count_nodes(connect_nodes(s, c)) == count_nodes(s) + 1,
{
    let t = upsert_mouth(s, c.source, c.source_side, c.sink);
    lemma_upsert_mouth(s, c.source, c.source_side, c.sink);
    lemma_upsert_ear(t, c.sink, c.sink_side, c.source);
}

/// Once a candidate is established, the same candidate is no longer
/// feasible: the source's mouth now speaks to the sink.
pub proof fn lemma_connect_blocks_repeat(s: Seq<Node>, c: Connection)
    requires
        wf_nodes(s),
        feasible(s, c),
    ensures
        !feasible(connect_nodes(s, c), c),
{
    lemma_connect_nodes(s, c);
}

/// Each candidate of `cs` is feasible at its turn when `cs` is applied
/// in order starting from `s`.
pub open spec fn stepwise_feasible(s: Seq<Node>, cs: Seq<Connection>) -> bool
    decreases cs.len(),
{
    if cs.len() <= 0 {
        true
    } else {
        stepwise_feasible(s, cs.drop_last()) && feasible(
            apply_candidates(s, cs.drop_last()),
            cs.last(),
        )
    }
}

/// Applies candidates in order, establishing each that is feasible when
/// its turn comes and skipping the rest.
pub open spec fn apply_candidates(s: Seq<Node>, cs: Seq<Connection>) -> Seq<Node>
    decreases cs.len(),
{
    if cs.len() <= 0 {
        s
    } else {
        let g = apply_candidates(s, cs.drop_last());
        if feasible(g, cs.last()) {
            connect_nodes(g, cs.last())
        } else {
            g
        }
    }
}

/// Applying candidates keeps identifiers unique and adds at most two
/// nodes per candidate.
pub proof fn lemma_apply_candidates_wf(s: Seq<Node>, cs: Seq<Connection>)
    requires
        wf_nodes(s),
    ensures
        wf_nodes(apply_candidates(s, cs)),
        s.len() <= apply_candidates(s, cs).len() <= s.len() + 2 * cs.len(),
    decreases cs.len(),
{
    if cs.len() > 0 {
        lemma_apply_candidates_wf(s, cs.drop_last());
        let g = apply_candidates(s, cs.drop_last());
        if feasible(g, cs.last()) {
            lemma_connect_nodes(g, cs.last());
        }
    }
}

/// No connection is lost and none is double-counted: after a sequence of
/// connects in which every candidate is feasible at its turn, the
/// connection count has grown by exactly the number of calls made.
pub proof fn lemma_count_tracks_connects(s: Seq<Node>, cs: Seq<Connection>)
    requires
        wf_nodes(s),
        stepwise_feasible(s, cs),
    ensures
        count_nodes(apply_candidates(s, cs)) == count_nodes(s) + cs.len(),
    decreases cs.len(),
{
    if cs.len() > 0 {
        lemma_count_tracks_connects(s, cs.drop_last());
        lemma_apply_candidates_wf(s, cs.drop_last());
        lemma_connect_nodes(apply_candidates(s, cs.drop_last()), cs.last());
    }
}

/// Beyond this many nodes the graph refuses to grow; far more room than
/// any performer set can use, it only keeps slot sums inside `u64`.
pub open spec fn graph_capacity() -> int {
    0x1000_0000_0000_0000
}

/// The capacity graph: the slot states of all performers with at least
/// one occupied slot.
#[derive(Debug)]
pub struct PerformerGraph {
    pub nodes: Vec<Node>,
}

impl PerformerGraph {
    pub open spec fn wf(self) -> bool {
        &&& wf_nodes(self.nodes@)
        &&& self.nodes@.len() <= graph_capacity()
    }

    /// An empty graph: every slot of every performer is empty.
    pub fn new() -> (r: PerformerGraph)
        ensures
            r.wf(),
            r.nodes@ == Seq::<Node>::empty(),
    {
        PerformerGraph { nodes: Vec::new() }
    }

    /// The first node holding `id`, when there is one.
    fn find_node(&self, id: PerformerId) -> (r: Option<usize>)
        ensures
            match r {
                None => find_index(self.nodes@, id) is None,
                Some(i) => i < self.nodes@.len() && self.nodes@[i as int].id == id && find_index(
                    self.nodes@,
                    id,
                ) == Some(i as int),
            },
    {
        let mut i: usize = 0;
        while i < self.nodes.len()
            invariant
                i <= self.nodes@.len(),
                forall|j: int| 0 <= j < i ==> self.nodes@[j].id != id,
            decreases self.nodes@.len() - i,
        {
            if self.nodes[i].id == id {
                proof {
                    lemma_find_index_at(self.nodes@, id, i as int);
                }
                return Some(i);
            }
            i += 1;
        }
        proof {
            lemma_find_index_absent(self.nodes@, id);
        }
        None
    }

    /// The number of established connections: the occupied mouth slots
    /// summed over all performers (each connect occupies exactly one
    /// mouth slot and one ear slot, so mouths and ears agree).
    pub fn connections_count(&self) -> (r: u64)
        requires
            self.wf(),
        ensures
            r as int == count_nodes(self.nodes@),
    {
        let mut total: u64 = 0;
        let mut i: usize = 0;
        while i < self.nodes.len()
            invariant
                self.wf(),
                i <= self.nodes@.len(),
                total as int == count_nodes(self.nodes@.take(i as int)),
                total <= 2 * i,
            decreases self.nodes@.len() - i,
        {
            proof {
                assert(self.nodes@.take(i + 1).drop_last() =~= self.nodes@.take(i as int));
                assert(self.nodes@.take(i + 1).last() == self.nodes@[i as int]);
            }
            total = total + self.nodes[i].edges.mouth.listeners();
            i += 1;
        }
        proof {
            assert(self.nodes@.take(self.nodes@.len() as int) =~= self.nodes@);
        }
        total
    }

    /// Establishes a feasible candidate: the source's mouth slot on the
    /// candidate's source side takes the sink's identifier, the sink's
    /// ear slot on the candidate's sink side takes the source's, no
    /// other performer changes, and the connection count grows by one.
    /// Calling this on an infeasible candidate is a contract violation,
    /// never a silent state corruption.
    pub fn connect(&mut self, c: &Connection)
        requires
            old(self).wf(),
            feasible(old(self).nodes@, *c),
            old(self).nodes@.len() + 2 <= graph_capacity(),
        ensures
            final(self).wf(),
            final(self).nodes@ == connect_nodes(old(self).nodes@, *c),
            count_nodes(final(self).nodes@) == count_nodes(old(self).nodes@) + 1,
            final(self).nodes@.len() <= old(self).nodes@.len() + 2,
            lookup(final(self).nodes@, c.source) == (Edges {
                ears: lookup(old(self).nodes@, c.source).ears,
                mouth: Mouth(slot_add(lookup(old(self).nodes@, c.source).mouth.0, c.source_side, c.sink)),
            }),
            lookup(final(self).nodes@, c.sink) == (Edges {
                ears: Ears(slot_add(lookup(old(self).nodes@, c.sink).ears.0, c.sink_side, c.source)),
                mouth: lookup(old(self).nodes@, c.sink).mouth,
            }),
            forall|q: PerformerId|
                q != c.source && q != c.sink ==> lookup(final(self).nodes@, q) == lookup(
                    old(self).nodes@,
                    q,
                ),
    {
        proof {
            lemma_connect_nodes(old(self).nodes@, *c);
        }
        match self.find_node(c.source) {
            Some(i) => {
                let n = self.nodes[i];
                let mut slots = n.edges.mouth.0;
                slots.add(&c.source_side, &c.sink);
                self.nodes.set(
                    i,
                    Node { id: n.id, edges: Edges { ears: n.edges.ears, mouth: Mouth(slots) } },
                );
            },
            None => {
                self.nodes.push(
                    Node {
                        id: c.source,
                        edges: Edges { ears: Ears(Slots::empty()), mouth: Mouth(Slots::with(&c.source_side, &c.sink)) },
                    },
                );
            },
        }
        proof {
            assert(self.nodes@ =~= upsert_mouth(old(self).nodes@, c.source, c.source_side, c.sink));
        }
        let ghost mid = self.nodes@;
        match self.find_node(c.sink) {
            Some(i) => {
                let n = self.nodes[i];
                let mut slots = n.edges.ears.0;
                slots.add(&c.sink_side, &c.source);
                self.nodes.set(
                    i,
                    Node { id: n.id, edges: Edges { ears: Ears(slots), mouth: n.edges.mouth } },
                );
            },
            None => {
                self.nodes.push(
                    Node {
                        id: c.sink,
                        edges: Edges { ears: Ears(Slots::with(&c.sink_side, &c.source)), mouth: Mouth(Slots::empty()) },
                    },
                );
            },
        }
        proof {
            assert(self.nodes@ =~= upsert_ear(mid, c.sink, c.sink_side, c.source));
        }
    }
}

/// Whether `c` can be established in the graph as it stands. A candidate
/// is possible iff the source's mouth slot on the candidate's source
/// side is free, the sink's ear slot on the candidate's sink side is
/// free, the two performers are distinct, and the ordered pair is not
/// already connected through any slot; performers without an entry have
/// every slot free.
pub fn connection_is_possible(c: &Connection, g: &PerformerGraph) -> (r: bool)
    ensures
        r == feasible(g.nodes@, *c),
{
    if c.source == c.sink {
        return false;
    }
    let source = match g.find_node(c.source) {
        Some(i) => g.nodes[i].edges,
        None => Edges { ears: Ears(Slots::empty()), mouth: Mouth(Slots::empty()) },
    };
    let sink = match g.find_node(c.sink) {
        Some(i) => g.nodes[i].edges,
        None => Edges { ears: Ears(Slots::empty()), mouth: Mouth(Slots::empty()) },
    };
    !source.mouth.talking_to(&c.sink) && !sink.ears.listening_to(&c.source) && c.can_connect(
        &source.mouth,
        &sink.ears,
    )
}

/// The candidates of `cs` that can be established in the graph as it
/// stands, in their given order.
pub open spec fn feasible_filter(s: Seq<Node>, cs: Seq<Connection>) -> Seq<Connection>
    decreases cs.len(),
{
    if cs.len() <= 0 {
        Seq::empty()
    } else {
        feasible_filter(s, cs.drop_last()) + if feasible(s, cs.last()) {
            seq![cs.last()]
        } else {
            Seq::empty()
        }
    }
}

/// Keeps the candidates that can be established in `g` as it stands.
pub fn possible_connections(cs: &Vec<Connection>, g: &PerformerGraph) -> (r: Vec<Connection>)
    ensures
        r@ == feasible_filter(g.nodes@, cs@),
{
    let mut r: Vec<Connection> = Vec::new();
    let mut i: usize = 0;
    while i < cs.len()
        invariant
            i <= cs@.len(),
            r@ == feasible_filter(g.nodes@, cs@.take(i as int)),
        decreases cs@.len() - i,
    {
        proof {
            assert(cs@.take(i + 1).drop_last() =~= cs@.take(i as int));
            assert(cs@.take(i + 1).last() == cs@[i as int]);
        }
        if connection_is_possible(&cs[i], g) {
            r.push(cs[i]);
        }
        i += 1;
    }
    proof {
        assert(cs@.take(cs@.len() as int) =~= cs@);
    }
    r
}

} // verus!
