use awbrn_client::board::PlayerFaction;
use awbrn_client::projection::{
    fog_shows_unit, knowledge_player, project_unit_render_state, terrain_for_viewer, unit_is_active,
    unit_visible_to_viewer, HealthReading, ReplayViewpoint, UnitFacts,
};
use awbrn_client::replay_fog::{refresh_terrain_knowledge, FoggedTile};

const ORANGE_STAR: PlayerFaction = PlayerFaction(0);
const BLUE_MOON: PlayerFaction = PlayerFaction(1);
const ORANGE_STAR_CITY: u16 = 38;
const BLUE_MOON_CITY: u16 = 43;
const INFANTRY: u16 = 1;

fn infantry(faction: PlayerFaction) -> UnitFacts {
    UnitFacts {
        unit: INFANTRY,
        faction,
        is_active: false,
        capturing: false,
        has_cargo: false,
        hiding: false,
        health: None,
        carried: false,
        seen: None,
    }
}

#[test]
fn a_fogged_property_draws_the_owner_the_viewer_last_saw() {
    // The viewer last saw the city in Orange Star's hands; Blue Moon took it
    // out of sight.
    let remembered = Some(ORANGE_STAR_CITY);

    assert_eq!(terrain_for_viewer(true, remembered, BLUE_MOON_CITY), ORANGE_STAR_CITY);
    // Once the tile is seen again it is drawn as it stands.
    assert_eq!(terrain_for_viewer(false, remembered, BLUE_MOON_CITY), BLUE_MOON_CITY);
}

#[test]
fn a_unit_is_drawn_only_when_the_projection_named_it() {
    let seen = UnitFacts { seen: Some(true), ..infantry(ORANGE_STAR) };
    let unseen = UnitFacts { seen: Some(false), ..infantry(ORANGE_STAR) };

    let drawn: Vec<bool> = [seen, unseen]
        .iter()
        .map(|facts| project_unit_render_state(*facts, true, None, None, None).visible)
        .collect();

    assert_eq!(drawn, vec![true, false]);
}

#[test]
fn a_waiting_unit_of_another_player_is_still_drawn_ready() {
    // Orange Star is playing. Neither unit can act: one has spent its turn,
    // the other is waiting for a turn it does not have yet.
    let spent = project_unit_render_state(infantry(ORANGE_STAR), false, Some(ORANGE_STAR), None, None);
    let waiting = project_unit_render_state(infantry(BLUE_MOON), false, Some(ORANGE_STAR), None, None);

    assert!(!spent.active, "the current player's spent unit is greyed out");
    assert!(waiting.active, "another player's unit is drawn ready");
}

#[test]
fn health_is_shown_only_for_a_damaged_unit() {
    let damaged = UnitFacts { health: Some(HealthReading { value: 6, full: false, destroyed: false }), ..infantry(ORANGE_STAR) };
    let whole = UnitFacts { health: Some(HealthReading { value: 10, full: true, destroyed: false }), ..infantry(ORANGE_STAR) };
    let gone = UnitFacts { health: Some(HealthReading { value: 0, full: false, destroyed: true }), ..infantry(ORANGE_STAR) };

    assert_eq!(project_unit_render_state(damaged, false, None, None, None).overlays.health, Some(6));
    assert_eq!(project_unit_render_state(whole, false, None, None, None).overlays.health, None);
    assert_eq!(project_unit_render_state(gone, false, None, None, None).overlays.health, None);
}

#[test]
fn cargo_is_never_drawn_and_an_unnamed_unit_only_without_fog() {
    assert!(!unit_visible_to_viewer(true, Some(true), false));
    assert!(unit_visible_to_viewer(false, None, false));
    assert!(!unit_visible_to_viewer(false, None, true));
}

#[test]
fn activity_is_greyed_only_for_the_army_whose_turn_it_is() {
    assert!(unit_is_active(false, BLUE_MOON, Some(ORANGE_STAR)));
    assert!(!unit_is_active(false, ORANGE_STAR, Some(ORANGE_STAR)));
    assert!(!unit_is_active(false, ORANGE_STAR, None));
    assert!(unit_is_active(true, ORANGE_STAR, Some(ORANGE_STAR)));
}

#[test]
fn the_viewer_whose_memory_is_drawn() {
    assert_eq!(knowledge_player(true, Some(ReplayViewpoint::Player(7)), true, Some(3)), Some(7));
    assert_eq!(knowledge_player(true, Some(ReplayViewpoint::ActivePlayer), true, Some(3)), Some(3));
    assert_eq!(knowledge_player(true, Some(ReplayViewpoint::Spectator), true, Some(3)), None);
    assert_eq!(knowledge_player(false, Some(ReplayViewpoint::Player(7)), true, Some(3)), None);
    assert_eq!(knowledge_player(true, Some(ReplayViewpoint::Player(7)), false, Some(3)), None);
}

#[test]
fn friendly_units_are_always_drawn_and_hidden_enemies_never() {
    assert!(fog_shows_unit(false, false, true, false));
    assert!(fog_shows_unit(true, true, true, false));
    assert!(!fog_shows_unit(true, false, true, true));
    assert!(fog_shows_unit(true, false, false, true));
    assert!(!fog_shows_unit(true, false, false, false));
}

#[test]
fn hidden_buildings_keep_last_known_owner_until_visible() {
    // The viewer remembers an Orange Star city; Blue Moon holds it now.
    let memory = Some(vec![Some(ORANGE_STAR_CITY)]);
    let fogged = [FoggedTile { fogged: true, actual: Some(BLUE_MOON_CITY) }];

    let (memory, overrides) = refresh_terrain_knowledge(true, &fogged, memory);
    assert_eq!(overrides, Some(vec![Some(ORANGE_STAR_CITY)]));

    // A unit comes close enough to see it.
    let in_view = [FoggedTile { fogged: false, actual: Some(BLUE_MOON_CITY) }];
    let (memory, overrides) = refresh_terrain_knowledge(true, &in_view, memory);
    assert_eq!(overrides, Some(vec![None]));
    assert_eq!(memory, Some(vec![Some(BLUE_MOON_CITY)]));
}

#[test]
fn without_a_viewer_every_tile_is_drawn_as_it_is_and_a_missing_memory_changes_nothing() {
    let tiles = [
        FoggedTile { fogged: true, actual: Some(BLUE_MOON_CITY) },
        FoggedTile { fogged: false, actual: None },
    ];

    let (memory, overrides) = refresh_terrain_knowledge(false, &tiles, None);
    assert_eq!(memory, None);
    assert_eq!(overrides, Some(vec![None, None]));

    assert_eq!(refresh_terrain_knowledge(true, &tiles, None), (None, None));
}

use awbrn_client::display::PlayerDisplayFactionOverrides;
use awbrn_client::projection::{terrain_with_display_faction, BuildingKind, DrawnTerrain};
use awbrn_client::roster::{PlayerRosterConfig, PlayerRosterPlayer};

fn seat(player_id: u32, faction: PlayerFaction) -> PlayerRosterPlayer {
    PlayerRosterPlayer {
        player_id,
        user_id: 0,
        turn_order: player_id,
        team: None,
        eliminated: false,
        faction,
        faction_code: String::new(),
        faction_name: String::new(),
        co_key: None,
        co_name: None,
        tag_co_key: None,
        tag_co_name: None,
    }
}

#[test]
fn a_recoloured_seat_draws_its_buildings_in_its_new_colours() {
    let roster = PlayerRosterConfig {
        match_id: 1,
        map_id: 1,
        funds_per_property: 1000,
        players: vec![seat(10, ORANGE_STAR), seat(20, BLUE_MOON)],
    };
    let mut overrides = PlayerDisplayFactionOverrides::new();
    overrides.set(10, Some(PlayerFaction(5)));

    let hq = DrawnTerrain::Building { kind: BuildingKind::Headquarters, owner: Some(ORANGE_STAR) };
    assert_eq!(
        terrain_with_display_faction(hq, Some(&roster), Some(&overrides)),
        DrawnTerrain::Building { kind: BuildingKind::Headquarters, owner: Some(PlayerFaction(5)) }
    );
    let blue_city = DrawnTerrain::Building { kind: BuildingKind::City, owner: Some(BLUE_MOON) };
    assert_eq!(terrain_with_display_faction(blue_city, Some(&roster), Some(&overrides)), blue_city);
    let neutral = DrawnTerrain::Building { kind: BuildingKind::City, owner: None };
    assert_eq!(terrain_with_display_faction(neutral, Some(&roster), Some(&overrides)), neutral);
    assert_eq!(terrain_with_display_faction(DrawnTerrain::Ground(1), None, None), DrawnTerrain::Ground(1));
}
