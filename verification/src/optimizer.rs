//! The graph optimizer: a bounded multi-anchor greedy search for a
//! slot-feasible connection set of maximal size.
//!
//! Because slot consumption order decides which later candidates remain
//! feasible, a single greedy pass can reach a poor local optimum. The
//! optimizer therefore runs one construction pass per performer, each
//! anchored at a different starting performer: the pass enumerates every
//! ordered pair of distinct performers in the rotation order that begins
//! at the anchor, and establishes each geometrically valid candidate
//! that is still feasible when its turn comes. Among the per-anchor
//! graphs the one with the strictly greatest connection count wins; ties
//! keep the first-found maximum in anchor order, so the result is
//! deterministic.

use vstd::prelude::*;

use crate::connection::Connection;
use crate::connection::candidate_list;
use crate::connection::connections;
use crate::graph::Node;
use crate::graph::PerformerGraph;
use crate::graph::apply_candidates;
use crate::graph::connection_is_possible;
use crate::graph::count_nodes;
use crate::graph::graph_capacity;
use crate::graph::lemma_apply_candidates_wf;
use crate::performer::Performer;

verus! {

/// How many performers one evaluation accepts; keeps every candidate
/// count and node count far inside the graph's capacity.
pub const MAX_PERFORMERS: usize = 1_000_000;

/// The performer reached from the anchor `a` after `k` steps in rotation
/// order.
pub open spec fn rotated(ps: Seq<Performer>, a: int, k: int) -> Performer {
    ps[(a + k) % (ps.len() as int)]
}

/// The candidates from the `u`-th to the `v`-th performer in rotation
/// order from anchor `a`.
pub open spec fn pair_candidates(ps: Seq<Performer>, a: int, u: int, v: int) -> Seq<Connection> {
    candidate_list(rotated(ps, a, u), rotated(ps, a, v))
}

/// The candidates from the `u`-th rotated performer to the first `v`
/// rotated performers, skipping the pair with itself.
pub open spec fn row_candidates(ps: Seq<Performer>, a: int, u: int, v: int) -> Seq<Connection>
    decreases v,
{
    if v <= 0 {
        Seq::empty()
    } else {
        row_candidates(ps, a, u, v - 1) + if v - 1 == u {
            Seq::empty()
        } else {
            pair_candidates(ps, a, u, v - 1)
        }
    }
}

/// The candidates of the first `u` rotated source performers, each row
/// covering every distinct sink.
pub open spec fn anchor_candidates_upto(ps: Seq<Performer>, a: int, u: int) -> Seq<Connection>
    decreases u,
{
    if u <= 0 {
        Seq::empty()
    } else {
        anchor_candidates_upto(ps, a, u - 1) + row_candidates(ps, a, u - 1, ps.len() as int)
    }
}

/// The full candidate discovery order of the pass anchored at `a`: every
/// ordered pair of distinct performers, sources and sinks both taken in
/// rotation order from the anchor.
pub open spec fn anchor_candidates(ps: Seq<Performer>, a: int) -> Seq<Connection> {
    anchor_candidates_upto(ps, a, ps.len() as int)
}

/// The graph the pass anchored at `a` builds: every candidate applied in
/// discovery order to an empty graph, establishing those feasible at
/// their turn.
pub open spec fn built_nodes(ps: Seq<Performer>, a: int) -> Seq<Node> {
    apply_candidates(Seq::empty(), anchor_candidates(ps, a))
}

/// The connection count of the pass anchored at `a`.
pub open spec fn anchor_score(ps: Seq<Performer>, a: int) -> int {
    count_nodes(built_nodes(ps, a))
}

proof fn lemma_candidate_list_len(p1: Performer, p2: Performer)
    ensures
        candidate_list(p1, p2).len() <= 4,
{
}

proof fn lemma_row_len(ps: Seq<Performer>, a: int, u: int, v: int)
    requires
        0 <= v,
    ensures
        row_candidates(ps, a, u, v).len() <= 4 * v,
    decreases v,
{
    if v > 0 {
        lemma_row_len(ps, a, u, v - 1);
        lemma_candidate_list_len(rotated(ps, a, u), rotated(ps, a, v - 1));
    }
}

proof fn lemma_upto_len(ps: Seq<Performer>, a: int, u: int)
    requires
        0 <= u,
    ensures
        anchor_candidates_upto(ps, a, u).len() <= 4 * u * ps.len(),
    decreases u,
{
    if u > 0 {
        lemma_upto_len(ps, a, u - 1);
        lemma_row_len(ps, a, u - 1, ps.len() as int);
        assert(4 * (u - 1) * ps.len() + 4 * ps.len() == 4 * u * ps.len()) by (nonlinear_arith);
    } else {
        assert(4 * u * ps.len() == 0) by (nonlinear_arith)
            requires
                u == 0,
        ;
    }
}

/// Candidate prefixes never outgrow the graph's capacity for the
/// performer counts the optimizer accepts.
proof fn lemma_prefix_len(ps: Seq<Performer>, a: int, u: int, v: int)
    requires
        0 <= u <= ps.len(),
        0 <= v <= ps.len(),
        ps.len() <= MAX_PERFORMERS,
    ensures
        anchor_candidates_upto(ps, a, u).len() + row_candidates(ps, a, u, v).len() + 4 <= 0x7fff_ffff_ffff,
{
    lemma_upto_len(ps, a, u);
    lemma_row_len(ps, a, u, v);
    assert(4 * u * ps.len() <= 4 * MAX_PERFORMERS * MAX_PERFORMERS) by (nonlinear_arith)
        requires
            0 <= u <= ps.len(),
            ps.len() <= MAX_PERFORMERS,
    ;
}

/// One construction pass, anchored at `ps[anchor]`: starting from an
/// empty graph, attempts every candidate of every ordered pair of
/// distinct performers in rotation order from the anchor, establishing
/// each candidate that is feasible when considered and skipping the
/// rest.
pub fn build_graph(ps: &Vec<Performer>, anchor: usize) -> (g: PerformerGraph)
    requires
        anchor < ps@.len(),
        ps@.len() <= MAX_PERFORMERS,
        forall|i: int| 0 <= i < ps@.len() ==> ps@[i].wf(),
    ensures
        g.wf(),
        g.nodes@ == built_nodes(ps@, anchor as int),
{
    let n = ps.len();
    let mut g = PerformerGraph::new();
    let mut u: usize = 0;
    while u < n
        invariant
            n == ps@.len(),
            n <= MAX_PERFORMERS,
            anchor < n,
            forall|i: int| 0 <= i < ps@.len() ==> ps@[i].wf(),
            u <= n,
            g.wf(),
            g.nodes@ == apply_candidates(
                Seq::empty(),
                anchor_candidates_upto(ps@, anchor as int, u as int),
            ),
        decreases n - u,
    {
        let source_idx = (anchor + u) % n;
        proof {
            assert(anchor_candidates_upto(ps@, anchor as int, u as int) + row_candidates(
                ps@,
                anchor as int,
                u as int,
                0,
            ) =~= anchor_candidates_upto(ps@, anchor as int, u as int));
        }
        let mut v: usize = 0;
        while v < n
            invariant
                n == ps@.len(),
                n <= MAX_PERFORMERS,
                anchor < n,
                forall|i: int| 0 <= i < ps@.len() ==> ps@[i].wf(),
                u < n,
                v <= n,
                source_idx as int == (anchor + u) % (n as int),
                g.wf(),
                g.nodes@ == apply_candidates(
                    Seq::empty(),
                    anchor_candidates_upto(ps@, anchor as int, u as int) + row_candidates(
                        ps@,
                        anchor as int,
                        u as int,
                        v as int,
                    ),
                ),
            decreases n - v,
        {
            let ghost before_row = anchor_candidates_upto(ps@, anchor as int, u as int)
                + row_candidates(ps@, anchor as int, u as int, v as int);
            if v != u {
                let sink_idx = (anchor + v) % n;
                let cands = connections(&ps[source_idx], &ps[sink_idx]);
                proof {
                    assert(cands@ == pair_candidates(ps@, anchor as int, u as int, v as int));
                    assert(before_row + cands@.take(0) =~= before_row);
                }
                let mut k: usize = 0;
                while k < cands.len()
                    invariant
                        n == ps@.len(),
                        n <= MAX_PERFORMERS,
                        u < n,
                        v < n,
                        k <= cands@.len(),
                        cands@ == pair_candidates(ps@, anchor as int, u as int, v as int),
                        cands@.len() <= 4,
                        before_row == anchor_candidates_upto(ps@, anchor as int, u as int)
                            + row_candidates(ps@, anchor as int, u as int, v as int),
                        g.wf(),
                        g.nodes@ == apply_candidates(Seq::empty(), before_row + cands@.take(k as int)),
                    decreases cands@.len() - k,
                {
                    proof {
                        assert((before_row + cands@.take(k + 1)).drop_last() =~= before_row
                            + cands@.take(k as int));
                        assert((before_row + cands@.take(k + 1)).last() == cands@[k as int]);
                    }
                    if connection_is_possible(&cands[k], &g) {
                        proof {
                            lemma_prefix_len(ps@, anchor as int, u as int, v as int);
                            lemma_apply_candidates_wf(
                                Seq::empty(),
                                before_row + cands@.take(k as int),
                            );
                        }
                        g.connect(&cands[k]);
                    }
                    k += 1;
                }
                proof {
                    assert(cands@.take(cands@.len() as int) =~= cands@);
                    assert(before_row + cands@ =~= anchor_candidates_upto(ps@, anchor as int, u as int)
                        + row_candidates(ps@, anchor as int, u as int, v as int + 1));
                }
            } else {
                proof {
                    assert(before_row =~= anchor_candidates_upto(ps@, anchor as int, u as int)
                        + row_candidates(ps@, anchor as int, u as int, v as int + 1));
                }
            }
            v += 1;
        }
        u += 1;
    }
    g
}

/// The single entry point: computes, for a set of performers with unique
/// identifiers, the capacity graph with the greatest connection count
/// among the per-anchor construction passes, together with its score.
///
/// An empty performer set yields an explicit absence, not a zero-valued
/// graph. Otherwise the result is the graph of the first anchor whose
/// pass reaches the maximal score: every anchor scores no higher, and
/// every earlier anchor scores strictly lower. In particular the result
/// never scores below the naive pass that connects candidates in plain
/// discovery order, which is the pass anchored at the first performer.
pub fn evaluate(ps: &Vec<Performer>) -> (r: Option<(PerformerGraph, u64)>)
    requires
        ps@.len() <= MAX_PERFORMERS,
        forall|i: int| 0 <= i < ps@.len() ==> ps@[i].wf(),
        forall|i: int, j: int| 0 <= i < j < ps@.len() ==> ps@[i].id != ps@[j].id,
    ensures
        (ps@.len() == 0) == (r is None),
        match r {
            None => ps@.len() == 0,
            Some((g, s)) => {
                &&& g.wf()
                &&& s as int == count_nodes(g.nodes@)
                &&& exists|a: int|
                    #![auto]
                    {
                        &&& 0 <= a < ps@.len()
                        &&& g.nodes@ == built_nodes(ps@, a)
                        &&& s as int == anchor_score(ps@, a)
                        &&& forall|j: int| 0 <= j < a ==> anchor_score(ps@, j) < s as int
                    }
                &&& forall|j: int| 0 <= j < ps@.len() ==> anchor_score(ps@, j) <= s as int
                &&& anchor_score(ps@, 0) <= s as int
            },
        },
{
    if ps.len() == 0 {
        return None;
    }
    let mut best = build_graph(ps, 0);
    let mut best_score = best.connections_count();
    let ghost mut best_anchor: int = 0;
    let mut a: usize = 1;
    while a < ps.len()
        invariant
            0 < ps@.len() <= MAX_PERFORMERS,
            forall|i: int| 0 <= i < ps@.len() ==> ps@[i].wf(),
            1 <= a <= ps@.len(),
            0 <= best_anchor < a,
            best.wf(),
            best.nodes@ == built_nodes(ps@, best_anchor),
            best_score as int == anchor_score(ps@, best_anchor),
            forall|j: int| 0 <= j < a ==> anchor_score(ps@, j) <= best_score as int,
            forall|j: int| 0 <= j < best_anchor ==> anchor_score(ps@, j) < best_score as int,
        decreases ps@.len() - a,
    {
        let g = build_graph(ps, a);
        let s = g.connections_count();
        if s > best_score {
            best = g;
            best_score = s;
            proof {
                best_anchor = a as int;
            }
        }
        a += 1;
    }
    Some((best, best_score))
}

} // verus!
