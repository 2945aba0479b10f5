use awbrn_client::board::TilePosition;
use awbrn_client::loading::{
    append_decimal, apply_replay_building_overrides, DefaultMapAssetPathResolver,
    DefaultStaticAssetPathResolver, MapAssetPathResolver, StaticAssetPathResolver, TerrainGrid,
};
use std::collections::HashMap;

const PLAIN: u16 = 1;
const NEUTRAL_CITY: u16 = 34;
const BLUE_MOON_CITY: u16 = 43;
const PURPLE_LIGHTNING_HQ: u16 = 134;

struct MappingStaticAssetPathResolver {
    entries: HashMap<String, String>,
}

impl StaticAssetPathResolver for MappingStaticAssetPathResolver {
    fn resolve_path(&self, logical_path: &str) -> String {
        self.entries.get(logical_path).cloned().unwrap_or_else(|| logical_path.to_string())
    }
}

fn grid(width: usize, height: usize, terrain: u16) -> TerrainGrid {
    TerrainGrid { width, height, tiles: vec![terrain; width * height] }
}

fn terrain_at(grid: &TerrainGrid, x: usize, y: usize) -> u16 {
    grid.tiles[y * grid.width + x]
}

#[test]
fn default_static_asset_resolver_returns_logical_path() {
    let resolver = DefaultStaticAssetPathResolver;

    assert_eq!(resolver.resolve_path("textures/ui.png"), "textures/ui.png");
}

#[test]
fn mapping_static_asset_resolver_returns_override_when_present() {
    let resolver = MappingStaticAssetPathResolver {
        entries: HashMap::from([(
            "textures/ui.png".to_string(),
            "https://cdn.example.com/ui-123.png".to_string(),
        )]),
    };

    assert_eq!(resolver.resolve_path("textures/ui.png"), "https://cdn.example.com/ui-123.png");
}

#[test]
fn mapping_static_asset_resolver_falls_back_to_logical_path_when_missing() {
    let resolver = MappingStaticAssetPathResolver { entries: HashMap::new() };

    assert_eq!(resolver.resolve_path("textures/ui.png"), "textures/ui.png");
}

#[test]
fn maps_are_fetched_by_their_id() {
    let resolver = DefaultMapAssetPathResolver;

    assert_eq!(resolver.resolve_path(162795), "maps/162795.json");
    assert_eq!(resolver.resolve_path(0), "maps/0.json");
    assert_eq!(resolver.resolve_path(u32::MAX), "maps/4294967295.json");
}

#[test]
fn numbers_are_written_in_base_ten() {
    let mut text = String::from("day ");
    append_decimal(&mut text, 40);
    assert_eq!(text, "day 40");
}

#[test]
fn test_apply_replay_building_overrides_updates_owned_property_terrain() {
    let mut map = grid(3, 3, PLAIN);
    map.tiles[1 * 3 + 1] = NEUTRAL_CITY;

    apply_replay_building_overrides(&mut map, &[(TilePosition { x: 1, y: 1 }, BLUE_MOON_CITY)]);

    assert_eq!(terrain_at(&map, 1, 1), BLUE_MOON_CITY);
}

#[test]
fn test_apply_replay_building_overrides_ignores_out_of_bounds_positions() {
    let mut map = grid(2, 2, PLAIN);

    apply_replay_building_overrides(&mut map, &[(TilePosition { x: 99, y: 99 }, PURPLE_LIGHTNING_HQ)]);

    assert_eq!(terrain_at(&map, 0, 0), PLAIN);
    assert_eq!(terrain_at(&map, 1, 1), PLAIN);
}

#[test]
fn a_later_building_on_the_same_tile_wins() {
    let mut map = grid(4, 2, PLAIN);

    apply_replay_building_overrides(
        &mut map,
        &[(TilePosition { x: 3, y: 1 }, NEUTRAL_CITY), (TilePosition { x: 3, y: 1 }, BLUE_MOON_CITY)],
    );

    assert_eq!(terrain_at(&map, 3, 1), BLUE_MOON_CITY);
    assert_eq!(terrain_at(&map, 1, 3 - 2), PLAIN);
}

fn archived_seat(player_id: u32, order: u32, team: &str) -> awbrn_client::roster::PlayerRosterPlayer {
    awbrn_client::roster::PlayerRosterPlayer {
        player_id,
        user_id: player_id * 10,
        turn_order: order,
        team: Some(team.to_string()),
        eliminated: player_id == 3,
        faction: awbrn_client::board::PlayerFaction(player_id as u8),
        faction_code: format!("f{player_id}"),
        faction_name: format!("Faction {player_id}"),
        co_key: Some("andy".to_string()),
        co_name: Some("Andy".to_string()),
        tag_co_key: None,
        tag_co_name: None,
    }
}

fn archived_game(id: u32, team: bool) -> awbrn_client::loading::ArchivedGame {
    awbrn_client::loading::ArchivedGame {
        id,
        map_id: 77,
        day: 5,
        fog: true,
        team,
        seats: vec![archived_seat(1, 2, "a"), archived_seat(2, 1, "b"), archived_seat(3, 2, "a")],
    }
}

#[test]
fn a_loaded_replay_names_its_first_game_and_seats_in_turn_order() {
    let loaded = awbrn_client::loading::replay_loaded_event(vec![archived_game(10, false), archived_game(11, true)]).unwrap();
    assert_eq!((loaded.game_id, loaded.map_id, loaded.day, loaded.fog, loaded.team_game), (10, 77, 5, true, false));
    let ids: Vec<u32> = loaded.players.iter().map(|p| p.player_id).collect();
    assert_eq!(ids, vec![2, 1, 3], "seats given the same turn keep the archive's order");
    assert_eq!(loaded.players[0].team, None, "teams are named only in a team game");
    assert_eq!(loaded.players[0].user_id, 20);
    assert_eq!(loaded.players[0].co_name.as_deref(), Some("Andy"));
    assert!(loaded.players[2].eliminated);
}

#[test]
fn a_team_game_names_each_seats_team_and_an_empty_archive_loads_nothing() {
    let loaded = awbrn_client::loading::replay_loaded_event(vec![archived_game(11, true)]).unwrap();
    assert_eq!(loaded.players[0].team.as_deref(), Some("b"));
    assert!(awbrn_client::loading::replay_loaded_event(Vec::new()).is_none());
}

/// A seat as the archive lists it, with the commander names the portrait
/// table gives for its commanders (absent for an id the table lacks).
fn listed_seat(
    player_id: u32,
    order: u32,
    co: Option<(&str, &str)>,
    tag_co: Option<(&str, &str)>,
    team: &str,
) -> awbrn_client::roster::PlayerRosterPlayer {
    awbrn_client::roster::PlayerRosterPlayer {
        player_id,
        user_id: 100 + player_id,
        turn_order: order,
        team: Some(team.to_string()),
        eliminated: false,
        faction: awbrn_client::board::PlayerFaction(player_id as u8),
        faction_code: String::new(),
        faction_name: String::new(),
        co_key: co.map(|c| c.0.to_string()),
        co_name: co.map(|c| c.1.to_string()),
        tag_co_key: tag_co.map(|c| c.0.to_string()),
        tag_co_name: tag_co.map(|c| c.1.to_string()),
    }
}

#[test]
fn replay_loaded_event_resolves_cos_and_sorts_players() {
    let game = awbrn_client::loading::ArchivedGame {
        id: 7,
        map_id: 162795,
        day: 4,
        fog: true,
        team: true,
        seats: vec![
            listed_seat(2, 2, Some(("von-bolt", "Von Bolt")), Some(("no-co", "No CO")), "B"),
            listed_seat(1, 1, Some(("adder", "Adder")), None, "A"),
        ],
    };
    let replay_loaded = awbrn_client::loading::replay_loaded_event(vec![game]).expect("replay should emit roster event");
    assert_eq!(replay_loaded.game_id, 7);
    assert_eq!(replay_loaded.map_id, 162795);
    assert_eq!(replay_loaded.day, 4);
    assert_eq!(replay_loaded.players.len(), 2);
    assert_eq!(replay_loaded.players[0].player_id, 1);
    assert_eq!(replay_loaded.players[0].user_id, 101);
    assert_eq!(replay_loaded.players[0].co_key.as_deref(), Some("adder"));
    assert_eq!(replay_loaded.players[0].co_name.as_deref(), Some("Adder"));
    assert_eq!(replay_loaded.players[0].team.as_deref(), Some("A"));
    assert_eq!(replay_loaded.players[1].co_key.as_deref(), Some("von-bolt"));
    assert_eq!(replay_loaded.players[1].tag_co_key.as_deref(), Some("no-co"));
}

#[test]
fn replay_loaded_event_uses_null_for_unknown_cos() {
    let game = awbrn_client::loading::ArchivedGame {
        id: 9,
        map_id: 162795,
        day: 1,
        fog: false,
        team: false,
        seats: vec![listed_seat(1, 1, None, None, "A")],
    };
    let replay_loaded = awbrn_client::loading::replay_loaded_event(vec![game]).expect("replay should emit roster event");
    assert_eq!(replay_loaded.players.len(), 1);
    assert_eq!(replay_loaded.players[0].co_key, None);
    assert_eq!(replay_loaded.players[0].co_name, None);
    assert_eq!(replay_loaded.players[0].tag_co_key, None);
    assert_eq!(replay_loaded.players[0].tag_co_name, None);
    assert_eq!(replay_loaded.players[0].team, None);
}
