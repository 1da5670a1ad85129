use flickyfrog::geom::Vec2;
use flickyfrog::input::Side;
use flickyfrog::selector::{select_target, ColliderShape, Piller};

fn rect_piller(id: u64, x: i64, y: i64, half_width: i64, half_height: i64) -> Piller {
    Piller {
        id,
        position: Vec2 { x, y },
        shape: ColliderShape::Rectangle { half_width, half_height },
    }
}

#[test]
fn selects_left_pillar_never_the_right_one() {
    // Character at the origin, one pillar at x = -5 units, one at x = 3 units.
    let pillers = vec![
        rect_piller(1, -5_000, 10_000, 500, 2_000),
        rect_piller(2, 3_000, 5_000, 500, 1_000),
    ];
    let t = select_target(Vec2 { x: 0, y: 0 }, Side::Left, &pillers).unwrap();
    assert_eq!(t.piller_id, 1);
    assert_eq!(t.anchor, Vec2 { x: -5_000, y: 8_000 });
    assert_eq!(t.local_offset, Vec2 { x: 0, y: -2_000 });
}

#[test]
fn selects_right_pillar_never_the_left_one() {
    let pillers = vec![
        rect_piller(1, -5_000, 10_000, 500, 2_000),
        rect_piller(2, 3_000, 5_000, 500, 1_000),
    ];
    let t = select_target(Vec2 { x: 0, y: 0 }, Side::Right, &pillers).unwrap();
    assert_eq!(t.piller_id, 2);
    assert_eq!(t.anchor, Vec2 { x: 3_000, y: 4_000 });
}

#[test]
fn empty_pillar_set_gives_none() {
    let pillers: Vec<Piller> = Vec::new();
    assert!(select_target(Vec2 { x: 0, y: 0 }, Side::Left, &pillers).is_none());
}

#[test]
fn all_candidates_on_wrong_side_give_none() {
    let pillers = vec![
        rect_piller(1, 1_000, 0, 500, 500),
        rect_piller(2, 9_000, 0, 500, 500),
    ];
    assert!(select_target(Vec2 { x: 0, y: 0 }, Side::Left, &pillers).is_none());
}

#[test]
fn non_rectangular_pillar_is_silently_ineligible() {
    let pillers = vec![Piller {
        id: 7,
        position: Vec2 { x: -2_000, y: 0 },
        shape: ColliderShape::Other,
    }];
    assert!(select_target(Vec2 { x: 0, y: 0 }, Side::Left, &pillers).is_none());
}

#[test]
fn nearest_anchor_wins_not_nearest_position() {
    // The second pillar stands closer in x, but its tall collider puts its
    // bottom-center anchor far away; the first pillar's anchor is nearer.
    let pillers = vec![
        rect_piller(1, -2_000, 0, 500, 0),
        rect_piller(2, -1_500, 30_000, 500, 0),
    ];
    let t = select_target(Vec2 { x: 0, y: 0 }, Side::Left, &pillers).unwrap();
    assert_eq!(t.piller_id, 1);
}

#[test]
fn pillar_level_with_character_qualifies_for_both_sides() {
    let pillers = vec![rect_piller(3, 0, 5_000, 500, 1_000)];
    assert!(select_target(Vec2 { x: 0, y: 0 }, Side::Left, &pillers).is_some());
    assert!(select_target(Vec2 { x: 0, y: 0 }, Side::Right, &pillers).is_some());
}

#[test]
fn tie_keeps_the_earlier_pillar() {
    // Two pillars with anchors at the same squared distance.
    let pillers = vec![
        rect_piller(1, -4_000, 0, 500, 0),
        rect_piller(2, -4_000, 0, 500, 0),
    ];
    let t = select_target(Vec2 { x: 0, y: 0 }, Side::Left, &pillers).unwrap();
    assert_eq!(t.piller_id, 1);
}
