use stagelink::connection::Side;
use stagelink::connection::connections;
use stagelink::geometry::Position;
use stagelink::performer::Heading;
use stagelink::performer::Performer;

fn performer(id: u64, x: i64, y: i64, hx: i64, hy: i64) -> Performer {
    Performer { id, position: Position(x, y), heading: Heading(hx, hy) }
}

#[test]
fn facing_pair_yields_all_side_combinations_in_order() {
    let a = performer(1, 0, 0, 1, 0);
    let b = performer(2, 60, 0, -1, 0);
    let cs = connections(&a, &b);
    // b sits exactly on a's heading ray: on the boundary of both
    // speaking quadrants, hence inside both; a sits on the boundary of
    // both of b's hearing half-planes
    assert_eq!(cs.len(), 4);
    let sides: Vec<(Side, Side)> = cs.iter().map(|c| (c.source_side, c.sink_side)).collect();
    assert_eq!(
        sides,
        vec![
            (Side::Left, Side::Left),
            (Side::Left, Side::Right),
            (Side::Right, Side::Left),
            (Side::Right, Side::Right),
        ]
    );
    for c in &cs {
        assert_eq!(c.source, 1);
        assert_eq!(c.sink, 2);
    }
}

#[test]
fn audibility_is_not_symmetric() {
    // a faces b, but b faces away from a: a can speak to b (hearing
    // covers all directions in range), while b cannot speak to a
    let a = performer(1, 0, 0, 1, 0);
    let b = performer(2, 60, 0, 1, 0);
    assert_eq!(connections(&a, &b).len(), 4);
    assert_eq!(connections(&b, &a).len(), 0);
}

#[test]
fn out_of_range_pair_has_no_candidates() {
    let a = performer(1, 0, 0, 1, 0);
    let b = performer(2, 120, 0, -1, 0);
    assert_eq!(connections(&a, &b).len(), 0);
    assert_eq!(connections(&b, &a).len(), 0);
}

#[test]
fn off_axis_sink_uses_one_speaking_side() {
    // b stands in a's front-left quadrant, strictly off the boundary
    let a = performer(1, 0, 0, 1, 0);
    let b = performer(2, 30, 20, -1, 0);
    let cs = connections(&a, &b);
    for c in &cs {
        assert_eq!(c.source_side, Side::Left);
    }
    assert!(!cs.is_empty());
}

#[test]
fn candidate_generation_is_deterministic() {
    let a = performer(1, 0, 0, 1, 0);
    let b = performer(2, 60, 0, -1, 0);
    let first = connections(&a, &b);
    for _ in 0..5 {
        assert_eq!(connections(&a, &b), first);
    }
}
