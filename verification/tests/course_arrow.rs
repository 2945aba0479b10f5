use awbrn_client::board::Pos;
use awbrn_client::course_arrow::{build_course_arrow_spawns, course_arrow_tip, CourseArrowSpriteKind};

#[test]
fn builds_straight_and_curved_geometry() {
    let straight = build_course_arrow_spawns(&[Pos::new(0, 0), Pos::new(1, 0), Pos::new(2, 0)]);
    assert_eq!(straight[0].kind, CourseArrowSpriteKind::Body);
    assert_eq!(straight[1].kind, CourseArrowSpriteKind::Tip);

    let curved = build_course_arrow_spawns(&[Pos::new(0, 0), Pos::new(1, 0), Pos::new(1, 1)]);
    assert_eq!(curved[0].kind, CourseArrowSpriteKind::Curved);
    assert_eq!(curved[1].kind, CourseArrowSpriteKind::Tip);
}

#[test]
fn repeated_middle_tile_skips_only_that_segment() {
    let spawns = build_course_arrow_spawns(&[
        Pos::new(0, 0),
        Pos::new(1, 0),
        Pos::new(1, 0),
        Pos::new(2, 0),
        Pos::new(3, 0),
    ]);

    assert_eq!(spawns.len(), 2);
    assert_eq!(spawns[0].path_index, 3);
    assert_eq!(spawns[1].kind, CourseArrowSpriteKind::Tip);
}

#[test]
fn a_path_shorter_than_two_tiles_draws_nothing() {
    assert!(build_course_arrow_spawns(&[]).is_empty());
    assert!(build_course_arrow_spawns(&[Pos::new(4, 4)]).is_empty());
}

#[test]
fn the_tip_points_the_way_the_last_step_went() {
    assert_eq!(course_arrow_tip(Pos::new(0, 0), Pos::new(1, 0), 1).rotation_degrees, 90);
    assert_eq!(course_arrow_tip(Pos::new(1, 0), Pos::new(0, 0), 1).rotation_degrees, -90);
    assert_eq!(course_arrow_tip(Pos::new(0, 0), Pos::new(0, 1), 1).rotation_degrees, 0);
    assert_eq!(course_arrow_tip(Pos::new(0, 1), Pos::new(0, 0), 1).rotation_degrees, 180);
}

#[test]
fn straight_runs_and_corners_are_rotated() {
    let vertical = build_course_arrow_spawns(&[Pos::new(2, 0), Pos::new(2, 1), Pos::new(2, 2)]);
    assert_eq!(vertical[0].kind, CourseArrowSpriteKind::Body);
    assert_eq!(vertical[0].rotation_degrees, 180);
    assert_eq!(vertical[0].position, Pos::new(2, 1));
    assert_eq!(vertical[0].path_index, 1);

    // Arriving from the west and leaving south: an east/south corner.
    let corner = build_course_arrow_spawns(&[Pos::new(0, 0), Pos::new(1, 0), Pos::new(1, 1)]);
    assert_eq!(corner[0].rotation_degrees, 90);
    assert_eq!(corner[1].rotation_degrees, 0);
    assert_eq!(corner[1].path_index, 2);
}

#[test]
fn sprite_names_match_the_atlas() {
    assert_eq!(CourseArrowSpriteKind::Body.sprite_name(), "Arrow_Body.png");
    assert_eq!(CourseArrowSpriteKind::Curved.sprite_name(), "Arrow_Curved.png");
    assert_eq!(CourseArrowSpriteKind::Tip.sprite_name(), "Arrow_Tip.png");
}
