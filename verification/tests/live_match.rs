use awbrn_client::board::{PlayerFaction, TilePosition};
use awbrn_client::loading::TerrainGrid;
use awbrn_client::live_match::{
    parse_visible_unit, seat_factions, LiveUnit, MatchUpdate, MatchViewState, TurnChange, WireUnit,
};

const ORANGE_STAR: PlayerFaction = PlayerFaction(0);
const BLUE_MOON: PlayerFaction = PlayerFaction(1);

fn wire(id: u64, faction: PlayerFaction, x: usize, y: usize, active: Option<bool>) -> WireUnit {
    WireUnit {
        id,
        unit: 1,
        faction,
        position: TilePosition { x, y },
        hp: None,
        active,
        fuel: Some(99),
        ammo: None,
        cargo: Vec::new(),
        capture_progress: None,
        hiding: false,
    }
}

fn unit(id: u64, faction: PlayerFaction, x: usize, y: usize, active: bool) -> LiveUnit {
    parse_visible_unit(wire(id, faction, x, y, Some(active)))
}

fn grid() -> TerrainGrid {
    TerrainGrid { width: 3, height: 2, tiles: vec![1; 6] }
}

fn quiet_update(day: u32, active_player_slot: u8) -> MatchUpdate {
    MatchUpdate {
        day,
        active_player_slot,
        terrain_revealed: Vec::new(),
        terrain_changed: Vec::new(),
        units_revealed: Vec::new(),
        units_moved: Vec::new(),
        units_removed: Vec::new(),
        turn_change: None,
    }
}

/// The viewer plays seat 0 (Orange Star) against seat 1 (Blue Moon).
fn open_match(units: Vec<LiveUnit>) -> (MatchViewState, Vec<LiveUnit>) {
    MatchViewState::open(Some(0), 0, 1, vec![(0, ORANGE_STAR), (1, BLUE_MOON)], &mut grid(), &[], units)
}

#[test]
fn a_unit_without_reported_health_or_activity_is_whole_and_spent() {
    let unit = parse_visible_unit(wire(5, ORANGE_STAR, 1, 2, None));

    assert_eq!(unit.hp, 10);
    assert!(!unit.active);
    assert_eq!(unit.position, TilePosition { x: 1, y: 2 });
    assert_eq!(unit.fuel, Some(99));
}

#[test]
fn the_viewer_plays_the_army_its_seat_was_listed_with_last() {
    let state = MatchViewState {
        viewer_slot_index: Some(1),
        active_player_slot: 0,
        day: 1,
        slot_factions: seat_factions(&[(1, ORANGE_STAR), (0, BLUE_MOON), (1, BLUE_MOON)]),
    };
    assert_eq!(state.viewer_faction(), Some(BLUE_MOON));

    let spectator = MatchViewState { viewer_slot_index: None, ..state };
    assert_eq!(spectator.viewer_faction(), None);
}

#[test]
fn opening_a_match_draws_each_unit_once() {
    let (state, units) = open_match(vec![
        unit(1, ORANGE_STAR, 0, 0, true),
        unit(2, BLUE_MOON, 3, 3, false),
        unit(1, ORANGE_STAR, 1, 0, true),
    ]);

    assert_eq!(state.friendly_faction(), Some(ORANGE_STAR));
    assert_eq!(units.len(), 2);
    assert_eq!(units[0].position, TilePosition { x: 1, y: 0 }, "the later report replaces the earlier");
}

#[test]
fn a_unit_the_viewer_moves_on_its_turn_has_acted() {
    let (mut state, mut units) = open_match(vec![unit(1, ORANGE_STAR, 0, 0, true), unit(2, BLUE_MOON, 3, 3, true)]);
    let mut update = quiet_update(1, 0);
    update.units_moved = vec![(1, TilePosition { x: 0, y: 1 }), (2, TilePosition { x: 3, y: 2 }), (9, TilePosition { x: 4, y: 4 })];

    state.apply_match_update(&mut grid(), &mut units, update);

    assert_eq!(units[0].position, TilePosition { x: 0, y: 1 });
    assert!(!units[0].active, "the viewer's unit has acted");
    assert_eq!(units[1].position, TilePosition { x: 3, y: 2 });
    assert!(units[1].active, "an enemy unit keeps its own flag");
    assert_eq!(units.len(), 2, "a move of an unknown unit changes nothing");
}

#[test]
fn removed_units_leave_the_board() {
    let (mut state, mut units) = open_match(vec![unit(1, ORANGE_STAR, 0, 0, true), unit(2, BLUE_MOON, 3, 3, true)]);
    let mut update = quiet_update(1, 0);
    update.units_removed = vec![2, 7];

    state.apply_match_update(&mut grid(), &mut units, update);

    assert_eq!(units.len(), 1);
    assert_eq!(units[0].id, 1);
}

#[test]
fn a_turn_change_wakes_the_viewers_army_only_on_its_turn() {
    let (mut state, mut units) = open_match(vec![unit(1, ORANGE_STAR, 0, 0, false), unit(2, BLUE_MOON, 3, 3, false)]);

    let mut to_viewer = quiet_update(1, 1);
    to_viewer.turn_change = Some(TurnChange { new_active_player_slot: 0, new_day: Some(2) });
    state.apply_match_update(&mut grid(), &mut units, to_viewer);

    assert_eq!(state.active_player_slot, 0);
    assert_eq!(state.day, 2);
    assert!(units[0].active, "the viewer's unit can act on the viewer's turn");
    assert!(!units[1].active, "the opponent's units are left as reported");

    let mut to_opponent = quiet_update(2, 0);
    to_opponent.turn_change = Some(TurnChange { new_active_player_slot: 1, new_day: None });
    state.apply_match_update(&mut grid(), &mut units, to_opponent);

    assert_eq!(state.active_player_slot, 1);
    assert_eq!(state.day, 2);
    assert!(!units[0].active);
}

#[test]
fn a_revealed_unit_replaces_the_one_with_its_id() {
    let (mut state, mut units) = open_match(vec![unit(1, ORANGE_STAR, 0, 0, true)]);
    let mut update = quiet_update(1, 0);
    update.units_revealed = vec![unit(1, ORANGE_STAR, 2, 2, false), unit(3, BLUE_MOON, 4, 0, true)];

    state.apply_match_update(&mut grid(), &mut units, update);

    assert_eq!(units.len(), 2);
    assert_eq!(units[0].position, TilePosition { x: 2, y: 2 });
    assert_eq!(units[1].id, 3);
}

#[test]
fn an_update_reveals_then_changes_terrain_on_the_board_only() {
    let (mut state, mut units) = open_match(Vec::new());
    let mut board = grid();
    let mut update = quiet_update(1, 0);
    update.terrain_revealed = vec![(TilePosition { x: 2, y: 1 }, 34), (TilePosition { x: 0, y: 0 }, 3)];
    update.terrain_changed = vec![(TilePosition { x: 2, y: 1 }, 35), (TilePosition { x: 5, y: 0 }, 9)];
    state.apply_match_update(&mut board, &mut units, update);
    assert_eq!(board.tiles, vec![3, 1, 1, 1, 1, 35], "a change lands over a reveal, and a tile off the board is skipped");
}

#[test]
fn opening_a_match_lays_the_terrain_it_reveals() {
    let mut board = grid();
    let (state, units) = MatchViewState::open(
        None,
        1,
        4,
        vec![(0, ORANGE_STAR)],
        &mut board,
        &[(TilePosition { x: 1, y: 0 }, 7)],
        Vec::new(),
    );
    assert_eq!(board.tiles, vec![1, 7, 1, 1, 1, 1]);
    assert_eq!((state.day, units.len()), (4, 0));
}
