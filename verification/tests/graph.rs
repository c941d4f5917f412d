use stagelink::connection::Connection;
use stagelink::connection::Side;
use stagelink::graph::Ears;
use stagelink::graph::Edges;
use stagelink::graph::Mouth;
use stagelink::graph::PerformerGraph;
use stagelink::graph::Slots;
use stagelink::graph::connection_is_possible;
use stagelink::graph::possible_connections;

fn conn(source: u64, source_side: Side, sink: u64, sink_side: Side) -> Connection {
    Connection { source, source_side, sink, sink_side }
}

#[test]
fn empty_slots_are_available_on_both_sides() {
    let s = Slots::empty();
    assert!(s.available_on(&Side::Left));
    assert!(s.available_on(&Side::Right));
    assert_eq!(s.filled(), 0);
    assert!(!s.has(&7));
}

#[test]
fn with_occupies_exactly_one_side() {
    let s = Slots::with(&Side::Left, &9);
    assert!(!s.available_on(&Side::Left));
    assert!(s.available_on(&Side::Right));
    assert!(s.has(&9));
    assert_eq!(s.filled(), 1);
}

#[test]
fn add_fills_sides_independently() {
    let mut s = Slots::empty();
    s.add(&Side::Right, &4);
    assert!(s.available_on(&Side::Left));
    assert!(!s.available_on(&Side::Right));
    s.add(&Side::Left, &5);
    assert_eq!(s.filled(), 2);
    assert!(s.has(&4));
    assert!(s.has(&5));
    assert!(!s.has(&6));
}

#[test]
fn edges_count_sums_ears_and_mouth() {
    let e = Edges {
        ears: Ears(Slots::with(&Side::Left, &1)),
        mouth: Mouth(Slots::with(&Side::Right, &2)),
    };
    assert_eq!(e.count(), 2);
    assert_eq!(e.ears.speakers(), 1);
    assert_eq!(e.mouth.listeners(), 1);
    assert!(e.ears.listening_to(&1));
    assert!(e.mouth.talking_to(&2));
    assert!(e.mouth.output_free(&Side::Left));
    assert!(e.ears.input_free(&Side::Right));
}

#[test]
fn can_connect_needs_both_slots_free() {
    let c = conn(1, Side::Left, 2, Side::Right);
    let free = Mouth(Slots::empty());
    let ears = Ears(Slots::empty());
    assert!(c.can_connect(&free, &ears));
    let busy_mouth = Mouth(Slots::with(&Side::Left, &9));
    assert!(!c.can_connect(&busy_mouth, &ears));
    let busy_ears = Ears(Slots::with(&Side::Right, &9));
    assert!(!c.can_connect(&free, &busy_ears));
}

#[test]
fn everything_is_possible_in_an_empty_graph() {
    let g = PerformerGraph::new();
    assert_eq!(g.connections_count(), 0);
    assert!(connection_is_possible(&conn(1, Side::Left, 2, Side::Left), &g));
}

#[test]
fn a_performer_cannot_connect_to_itself() {
    let g = PerformerGraph::new();
    assert!(!connection_is_possible(&conn(1, Side::Left, 1, Side::Right), &g));
}

#[test]
fn connect_occupies_both_slots_and_counts_once() {
    let mut g = PerformerGraph::new();
    g.connect(&conn(1, Side::Left, 2, Side::Left));
    assert_eq!(g.connections_count(), 1);
    // source's left mouth is taken: same-source-side candidates fail
    assert!(!connection_is_possible(&conn(1, Side::Left, 3, Side::Left), &g));
    // sink's left ear is taken
    assert!(!connection_is_possible(&conn(3, Side::Left, 2, Side::Left), &g));
    // other sides stay open toward other performers
    assert!(connection_is_possible(&conn(1, Side::Right, 3, Side::Left), &g));
    assert!(connection_is_possible(&conn(3, Side::Left, 2, Side::Right), &g));
}

#[test]
fn repeating_a_connect_is_rejected() {
    let c = conn(1, Side::Left, 2, Side::Left);
    let mut g = PerformerGraph::new();
    assert!(connection_is_possible(&c, &g));
    g.connect(&c);
    // the second attempt must be rejected by the feasibility query
    assert!(!connection_is_possible(&c, &g));
}

#[test]
fn duplicate_pair_through_other_sides_is_rejected() {
    let mut g = PerformerGraph::new();
    g.connect(&conn(1, Side::Left, 2, Side::Left));
    // both slots of the right sides are free, but 1 already speaks to 2
    assert!(!connection_is_possible(&conn(1, Side::Right, 2, Side::Right), &g));
}

#[test]
fn reverse_direction_stays_open() {
    let mut g = PerformerGraph::new();
    g.connect(&conn(1, Side::Left, 2, Side::Left));
    let back = conn(2, Side::Left, 1, Side::Left);
    assert!(connection_is_possible(&back, &g));
    g.connect(&back);
    assert_eq!(g.connections_count(), 2);
}

#[test]
fn count_equals_the_number_of_feasible_connects() {
    let mut g = PerformerGraph::new();
    let calls = vec![
        conn(1, Side::Left, 2, Side::Left),
        conn(2, Side::Left, 3, Side::Left),
        conn(3, Side::Left, 1, Side::Left),
        conn(1, Side::Right, 3, Side::Right),
    ];
    let mut made: u64 = 0;
    for c in &calls {
        assert!(connection_is_possible(c, &g));
        g.connect(c);
        made += 1;
        assert_eq!(g.connections_count(), made);
    }
    assert_eq!(g.connections_count(), 4);
}

#[test]
fn count_is_canonical_not_a_degree_sum() {
    // one connection occupies one mouth slot at the source and one ear
    // slot at the sink: each node has degree one, yet the connection
    // count is one, not the degree sum of two
    let mut g = PerformerGraph::new();
    g.connect(&conn(1, Side::Left, 2, Side::Left));
    assert_eq!(g.nodes.len(), 2);
    assert_eq!(g.nodes[0].edges.count(), 1);
    assert_eq!(g.nodes[1].edges.count(), 1);
    assert_eq!(g.connections_count(), 1);
}

#[test]
fn possible_connections_filters_in_order() {
    let mut g = PerformerGraph::new();
    g.connect(&conn(1, Side::Left, 2, Side::Left));
    let cs = vec![
        conn(1, Side::Left, 3, Side::Left),   // mouth slot taken
        conn(1, Side::Right, 2, Side::Right), // pair already connected
        conn(1, Side::Right, 3, Side::Left),  // fine
        conn(2, Side::Left, 1, Side::Left),   // reverse direction: fine
    ];
    let open = possible_connections(&cs, &g);
    assert_eq!(open, vec![cs[2], cs[3]]);
}
