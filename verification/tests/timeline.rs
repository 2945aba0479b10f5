use awbrn_client::timeline::{
    navigation_step, replay_position, resolve_target, NavigationStep, ReplayBoundary, ReplayOutline,
    ReplayTarget,
};

/// Two seats, three actions each, over two days.
fn outline() -> ReplayOutline {
    let turns = [(1, 0), (1, 1), (2, 0), (2, 1)];
    let mut boundaries = Vec::new();
    for (day, player) in turns {
        for _ in 0..3 {
            boundaries.push(ReplayBoundary { day, active_player: Some(player) });
        }
    }
    ReplayOutline(boundaries)
}

#[test]
fn a_turn_forward_lands_on_the_first_boundary_of_the_next_turn() {
    assert_eq!(outline().next_turn_start(0), Some(3));
    assert_eq!(outline().next_turn_start(4), Some(6));
    assert_eq!(outline().next_turn_start(11), None, "the last turn has nothing after it");
}

#[test]
fn a_turn_back_from_the_middle_of_a_turn_returns_to_its_start() {
    assert_eq!(outline().previous_turn_start(4), Some(3));
}

#[test]
fn a_turn_back_from_the_start_of_a_turn_reaches_the_turn_before_it() {
    assert_eq!(outline().previous_turn_start(3), Some(0));
    assert_eq!(outline().previous_turn_start(0), None, "the first turn has nothing before it");
}

#[test]
fn turn_steps_accumulate() {
    let outline = outline();
    assert_eq!(resolve_target(ReplayTarget::Turn(2), 0, 12, &outline), Some(6));
    assert_eq!(
        resolve_target(ReplayTarget::Turn(-2), 7, 12, &outline),
        Some(3),
        "a step back from the middle of a turn spends itself reaching that turn's start"
    );
}

#[test]
fn a_target_never_leaves_the_archive() {
    let outline = outline();
    assert_eq!(resolve_target(ReplayTarget::Action(-5), 2, 12, &outline), Some(0));
    assert_eq!(resolve_target(ReplayTarget::Action(99), 2, 12, &outline), Some(12));
    assert_eq!(resolve_target(ReplayTarget::Boundary(99), 2, 12, &outline), Some(12));
}

#[test]
fn a_huge_turn_count_stops_at_the_end_of_the_archive() {
    let outline = outline();
    assert_eq!(resolve_target(ReplayTarget::Turn(i32::MAX), 0, 12, &outline), Some(12));
    assert_eq!(resolve_target(ReplayTarget::Turn(i32::MIN), 11, 12, &outline), Some(0));
    assert_eq!(resolve_target(ReplayTarget::Start, 5, 12, &outline), Some(0));
    assert_eq!(resolve_target(ReplayTarget::End, 5, 12, &outline), Some(12));
}

#[test]
fn turn_starts_are_found_from_any_boundary() {
    let outline = outline();
    assert_eq!(outline.turn_start(5), 3);
    assert_eq!(outline.turn_start(6), 6);
    assert_eq!(outline.turn_start(40), 40);
    assert_eq!(outline.turn_at(7), Some((2, Some(0))));
    assert_eq!(outline.turn_at(12), None);
}

#[test]
fn the_position_report_names_the_turn_and_its_neighbours() {
    let outline = outline();
    let position = replay_position(&outline, 4, 12, 9);
    assert_eq!(position.index, 4);
    assert_eq!(position.total, 12);
    assert_eq!(position.day, 1);
    assert_eq!(position.active_player_id, Some(1));
    assert_eq!(position.previous_turn_index, Some(3));
    assert_eq!(position.next_turn_index, Some(6));

    let end = replay_position(&outline, 12, 12, 9);
    assert_eq!(end.day, 9, "past the outline the replay's own day is reported");
    assert_eq!(end.active_player_id, None);
    assert_eq!(end.next_turn_index, None);
    assert_eq!(end.previous_turn_index, Some(9), "the end is read as its own position after the last turn");
}

#[test]
fn one_step_forward_is_played_and_anything_else_is_a_jump() {
    assert_eq!(navigation_step(false, 4, 5), NavigationStep::Advance);
    assert_eq!(navigation_step(false, 4, 9), NavigationStep::Seek(9));
    assert_eq!(navigation_step(false, 4, 4), NavigationStep::Stay);
    assert_eq!(navigation_step(true, 4, 9), NavigationStep::Stay);
}
