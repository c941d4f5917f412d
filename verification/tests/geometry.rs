use stagelink::geometry::Position;
use stagelink::geometry::Sector;
use stagelink::geometry::Vector;

fn quadrant() -> Sector {
    // the front-left quadrant of a performer at the origin facing +x
    Sector { center: Position(0, 0), radius: 100, start: Vector(1, 0), end: Vector(0, 1) }
}

#[test]
fn interior_point_is_contained() {
    assert!(quadrant().contains(&Position(3, 2)));
}

#[test]
fn wrong_side_is_not_contained() {
    assert!(!quadrant().contains(&Position(3, -2)));
}

#[test]
fn angular_boundary_is_inclusive() {
    // exactly on the start ray, within the radius
    assert!(quadrant().contains(&Position(99, 0)));
    // exactly on the end ray, within the radius
    assert!(quadrant().contains(&Position(0, 99)));
}

#[test]
fn radius_boundary_is_exclusive() {
    // on the angular boundary and exactly at the radius: the strict
    // distance test excludes it
    assert!(!quadrant().contains(&Position(100, 0)));
    assert!(quadrant().contains(&Position(99, 0)));
}

#[test]
fn containment_is_deterministic() {
    let s = quadrant();
    let boundary = Position(99, 0);
    let first = s.contains(&boundary);
    for _ in 0..10 {
        assert_eq!(s.contains(&boundary), first);
    }
}

#[test]
fn center_is_contained_when_radius_positive() {
    assert!(quadrant().contains(&Position(0, 0)));
    let empty = Sector { center: Position(0, 0), radius: 0, start: Vector(1, 0), end: Vector(0, 1) };
    assert!(!empty.contains(&Position(0, 0)));
}

#[test]
fn displacement_points_from_self_to_other() {
    let d = Position(2, 3).displacement(&Position(7, 1));
    assert_eq!(d.0, 5);
    assert_eq!(d.1, -2);
}

#[test]
fn dot_product_exact_value() {
    assert_eq!(Vector(3, 4).dot(&Vector(5, -2)), 7);
}

#[test]
fn normals_rotate_by_a_quarter_turn() {
    let v = Vector(3, 4);
    let n = v.normal();
    let i = v.inverse_normal();
    assert_eq!((n.0, n.1), (4, -3));
    assert_eq!((i.0, i.1), (-4, 3));
    // both normals are perpendicular to the vector
    assert_eq!(v.dot(&n), 0);
    assert_eq!(v.dot(&i), 0);
}

#[test]
fn magnitude_sq_exact_value() {
    assert_eq!(Vector(3, 4).magnitude_sq(), 25);
}

#[test]
fn sectors_with_a_center_inside_the_other_intersect() {
    let a = quadrant();
    let b = Sector { center: Position(50, 10), radius: 5, start: Vector(-1, 0), end: Vector(0, -1) };
    // b's center lies inside a, so the two share that point
    assert!(a.intersects(&b));
    assert!(b.intersects(&a));
}

#[test]
fn distant_sectors_do_not_intersect() {
    let a = quadrant();
    let far = Sector { center: Position(500, 500), radius: 100, start: Vector(1, 0), end: Vector(0, 1) };
    assert!(!a.intersects(&far));
    assert!(!far.intersects(&a));
}

#[test]
fn zero_radius_sector_intersects_nothing_through_its_center() {
    let a = quadrant();
    let point = Sector { center: Position(50, 10), radius: 0, start: Vector(1, 0), end: Vector(0, 1) };
    assert!(!a.intersects(&point));
    assert!(!point.intersects(&a));
}

#[test]
fn clockwise_of_half_plane_test() {
    let east = Vector(1, 0);
    let south = Vector(0, -1);
    // the half-plane test is antisymmetric off the boundary
    assert!(east.clockwise_of(&south));
    assert!(!south.clockwise_of(&east));
    // a parallel vector sits on the boundary: non-strict on both sides
    assert!(east.clockwise_of(&Vector(5, 0)));
    assert!(Vector(5, 0).clockwise_of(&east));
}
