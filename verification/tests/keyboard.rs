use awbrn_client::board::Pos;
use awbrn_client::keyboard::{
    actionable_positions, cycle_stop, key_intent, repeat_acts, steering_tile, step_cursor, Cycle,
    Key, KeyIntent,
};

/// The walk offers every unit before it offers the first base.
#[test]
fn every_unit_comes_before_the_first_base() {
    let units = [(Pos::new(3, 3), true), (Pos::new(1, 0), true)];
    let sites = vec![Pos::new(0, 0), Pos::new(2, 1)];
    let (positions, unit_count) = actionable_positions(&units, &sites);

    assert_eq!(unit_count, 2);
    assert_eq!(
        positions,
        vec![Pos::new(1, 0), Pos::new(3, 3), Pos::new(0, 0), Pos::new(2, 1)],
        "units in reading order, then bases in reading order"
    );
}

#[test]
fn spent_units_are_left_out_and_shared_tiles_listed_once() {
    let units = [
        (Pos::new(2, 2), true),
        (Pos::new(0, 2), false),
        (Pos::new(2, 2), true),
        (Pos::new(5, 0), true),
    ];
    let (positions, unit_count) = actionable_positions(&units, &[]);
    assert_eq!(unit_count, 2);
    assert_eq!(positions, vec![Pos::new(5, 0), Pos::new(2, 2)]);
}

#[test]
fn keys_name_the_board_actions() {
    assert_eq!(key_intent(Key::ArrowUp, false, false), Some(KeyIntent::Step(0, -1)));
    assert_eq!(key_intent(Key::KeyD, true, false), Some(KeyIntent::Step(1, 0)));
    assert_eq!(key_intent(Key::Tab, false, false), Some(KeyIntent::Cycle(Cycle::Next)));
    assert_eq!(key_intent(Key::Tab, true, false), None, "shift+tab leaves the board");
    assert_eq!(key_intent(Key::KeyQ, false, false), Some(KeyIntent::Cycle(Cycle::Previous)));
    assert_eq!(key_intent(Key::Enter, false, false), Some(KeyIntent::Confirm));
    assert_eq!(key_intent(Key::NumpadEnter, false, true), Some(KeyIntent::EndTurn));
    assert_eq!(key_intent(Key::Space, false, true), Some(KeyIntent::Confirm));
    assert_eq!(key_intent(Key::Other, false, false), None);
    assert!(repeat_acts(KeyIntent::Step(0, 1)));
    assert!(!repeat_acts(KeyIntent::Confirm));
}

#[test]
fn the_cursor_starts_from_what_the_board_already_points_at() {
    assert_eq!(steering_tile(Some(Pos::new(1, 1)), Some(Pos::new(2, 2)), None, 5, 5), Some(Pos::new(1, 1)));
    assert_eq!(steering_tile(None, Some(Pos::new(2, 2)), None, 5, 5), Some(Pos::new(2, 2)));
    assert_eq!(steering_tile(None, None, Some(Pos::new(4, 0)), 5, 5), Some(Pos::new(4, 0)));
    assert_eq!(steering_tile(None, None, None, 6, 4), Some(Pos::new(3, 2)));
    assert_eq!(steering_tile(None, None, None, 0, 4), None);
    assert_eq!(steering_tile(Some(Pos::new(9, 9)), None, None, 5, 5), None);
}

#[test]
fn the_cursor_never_walks_off_the_board() {
    assert_eq!(step_cursor(Pos::new(0, 0), -1, 0, 5, 5), Pos::new(0, 0));
    assert_eq!(step_cursor(Pos::new(4, 2), 1, 0, 5, 5), Pos::new(4, 2));
    assert_eq!(step_cursor(Pos::new(2, 2), 0, 1, 5, 5), Pos::new(2, 3));
}

#[test]
fn the_walk_carries_on_from_where_it_stands_and_skips_silent_units() {
    let stops = [Pos::new(0, 0), Pos::new(1, 0), Pos::new(2, 0), Pos::new(3, 3)];
    // Three units, the middle one with nothing to do; one base.
    let answers = [true, false, true];
    assert_eq!(cycle_stop(&stops, 3, &answers, None, Cycle::Next), Some(0));
    assert_eq!(cycle_stop(&stops, 3, &answers, Some(Pos::new(0, 0)), Cycle::Next), Some(2));
    assert_eq!(cycle_stop(&stops, 3, &answers, Some(Pos::new(2, 0)), Cycle::Next), Some(3));
    assert_eq!(cycle_stop(&stops, 3, &answers, Some(Pos::new(3, 3)), Cycle::Next), Some(0));
    assert_eq!(cycle_stop(&stops, 3, &answers, None, Cycle::Previous), Some(3));
    assert_eq!(cycle_stop(&stops, 3, &answers, Some(Pos::new(2, 0)), Cycle::Previous), Some(0));
    assert_eq!(cycle_stop(&[], 0, &[], None, Cycle::Next), None);
    assert_eq!(cycle_stop(&stops[..2], 2, &[false, false], None, Cycle::Next), None);
}
