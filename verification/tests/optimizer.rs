use stagelink::geometry::Position;
use stagelink::optimizer::build_graph;
use stagelink::optimizer::evaluate;
use stagelink::performer::Heading;
use stagelink::performer::Performer;

fn performer(id: u64, x: i64, y: i64, hx: i64, hy: i64) -> Performer {
    Performer { id, position: Position(x, y), heading: Heading(hx, hy) }
}

#[test]
fn empty_set_yields_absence() {
    let ps: Vec<Performer> = vec![];
    assert!(evaluate(&ps).is_none());
}

#[test]
fn single_performer_scores_zero() {
    let ps = vec![performer(1, 0, 0, 1, 0)];
    let (g, score) = evaluate(&ps).unwrap();
    assert_eq!(score, 0);
    assert_eq!(g.connections_count(), 0);
}

#[test]
fn collinear_chain_connects_each_to_the_next() {
    // three performers in a line, each facing the next; the middle one
    // is in range of both neighbours, the ends are out of each other's
    // range, so exactly two connections can be established
    let ps = vec![
        performer(1, 0, 0, 1, 0),
        performer(2, 60, 0, 1, 0),
        performer(3, 120, 0, 1, 0),
    ];
    let (g, score) = evaluate(&ps).unwrap();
    assert_eq!(score, 2);
    assert_eq!(g.connections_count(), 2);
}

#[test]
fn facing_pair_connects_in_both_directions() {
    // two performers facing each other within range on matching sides:
    // one connection per direction, both feasible at once since mouth
    // and ear slots are distinct
    let ps = vec![performer(1, 0, 0, 1, 0), performer(2, 60, 0, -1, 0)];
    let (_, score) = evaluate(&ps).unwrap();
    assert_eq!(score, 2);
}

#[test]
fn mutually_averted_set_scores_zero() {
    // every pairwise geometric test fails: all performers face away
    // from one another, so the optimizer returns a defined zero score,
    // not an error
    let ps = vec![
        performer(1, 0, 0, -1, 0),
        performer(2, 60, 0, 1, 0),
        performer(3, 30, 50, 0, 1),
    ];
    let (g, score) = evaluate(&ps).unwrap();
    assert_eq!(score, 0);
    assert_eq!(g.connections_count(), 0);
}

#[test]
fn anchored_pass_is_deterministic() {
    let ps = vec![
        performer(1, 0, 0, 1, 0),
        performer(2, 60, 0, -1, 0),
        performer(3, 30, 40, 0, -1),
    ];
    let first = build_graph(&ps, 0).connections_count();
    for _ in 0..5 {
        assert_eq!(build_graph(&ps, 0).connections_count(), first);
    }
}

#[test]
fn optimizer_never_beaten_by_naive_order() {
    // the naive pass connects candidates in plain discovery order: it is
    // exactly the pass anchored at the first performer
    let sets = vec![
        vec![performer(1, 0, 0, 1, 0), performer(2, 60, 0, -1, 0)],
        vec![
            performer(1, 0, 0, 1, 0),
            performer(2, 60, 0, 1, 0),
            performer(3, 120, 0, 1, 0),
        ],
        vec![
            performer(1, 0, 0, 1, 0),
            performer(2, 50, 10, -1, 0),
            performer(3, 20, 60, 0, -1),
            performer(4, 70, 60, 0, -1),
        ],
    ];
    for ps in &sets {
        let naive = build_graph(ps, 0).connections_count();
        let (_, score) = evaluate(ps).unwrap();
        assert!(score >= naive);
    }
}

#[test]
fn ties_keep_the_first_anchor() {
    // all anchors reach the same score here; the returned graph must be
    // the first anchor's graph
    let ps = vec![performer(1, 0, 0, 1, 0), performer(2, 60, 0, -1, 0)];
    let (g, score) = evaluate(&ps).unwrap();
    let first = build_graph(&ps, 0);
    assert_eq!(score, first.connections_count());
    assert_eq!(g.connections_count(), first.connections_count());
}
