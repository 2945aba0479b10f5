use awbrn_client::board::PlayerFaction;
use awbrn_client::live_roster::{player_roster_seed_from_live_match, LiveMatchPlayer, LiveObservedPlayer};
use awbrn_client::roster::{
    power_meters_from_observation, CommanderReading, ObservedSeat, PlayerPowerMeter, PowerLevel, PowerState,
};

const ORANGE: PlayerFaction = PlayerFaction(1);
const BLUE: PlayerFaction = PlayerFaction(2);

fn bootstrap(player_id: u32, faction: Option<PlayerFaction>, code: &str) -> LiveMatchPlayer {
    LiveMatchPlayer {
        player_id,
        faction,
        faction_code: code.to_string(),
        faction_name: format!("{code} army"),
    }
}

fn observed(id: &str, team: &str, active: bool, funds: Option<u64>, commanders: Vec<CommanderReading>) -> LiveObservedPlayer {
    LiveObservedPlayer {
        id: id.to_string(),
        team: team.to_string(),
        active,
        funds,
        commanders,
        power_state: PowerState::Cop,
        co_key: Some(format!("co-{id}")),
        co_name: Some(format!("Commander {id}")),
        tag_co_key: None,
        tag_co_name: None,
    }
}

fn leading(power_charge: u64) -> CommanderReading {
    CommanderReading { active: true, power_charge, cop_cost: Some(27000), scop_cost: Some(63000), star_charge: Some(9000) }
}

#[test]
fn the_live_bootstrap_seeds_seats_funds_and_meters() {
    let players = vec![
        bootstrap(1, Some(ORANGE), "os"),
        bootstrap(2, None, "??"),
        bootstrap(3, Some(BLUE), "bm"),
    ];
    let observation = vec![
        observed("3", "b", false, None, vec![leading(500)]),
        observed("1", "a", true, Some(5_000_000_000), vec![]),
        observed("9", "a", true, None, vec![leading(0)]),
    ];
    let (config, funds, costs, meters) = player_roster_seed_from_live_match(&players, &observation, 1000);

    assert_eq!((config.match_id, config.map_id, config.funds_per_property), (0, 0, 1000));
    assert_eq!(config.players.len(), 2, "a player whose faction id names no faction gets no seat");

    let first = &config.players[0];
    assert_eq!((first.player_id, first.user_id, first.turn_order), (1, 0, 0));
    assert_eq!(first.team.as_deref(), Some("a"), "two teams among three players is a team game");
    assert!(!first.eliminated);
    assert_eq!(first.faction, ORANGE);
    assert_eq!(first.faction_code, "os");
    assert_eq!(first.co_key.as_deref(), Some("co-1"));

    let second = &config.players[1];
    assert_eq!((second.player_id, second.turn_order), (3, 2), "turn order is the place in the bootstrap list");
    assert_eq!(second.team.as_deref(), Some("b"));
    assert!(second.eliminated);
    assert_eq!(second.co_name.as_deref(), Some("Commander 3"));

    assert_eq!(funds.get(1), u32::MAX, "funds beyond a u32 are held at its largest value");
    assert_eq!(funds.get(3), 0, "funds reported to nobody stay unset");
    assert_eq!(costs.get(7), None);
    assert_eq!(meters.get(1), None, "no commanders, no meter");
    assert_eq!(
        meters.get(3),
        Some(PlayerPowerMeter {
            charge: 500,
            cop_cost: Some(27000),
            scop_cost: Some(63000),
            star_charge: Some(9000),
            active_power: Some(PowerLevel::Cop),
        })
    );
}

#[test]
fn a_seat_is_found_only_by_its_number_as_written() {
    let players = vec![bootstrap(7, Some(ORANGE), "os")];
    let observation = vec![observed("07", "a", false, Some(100), vec![]), observed("7", "b", true, Some(200), vec![])];
    let (config, funds, _, _) = player_roster_seed_from_live_match(&players, &observation, u64::MAX);
    assert_eq!(config.funds_per_property, 0, "an income a u32 cannot hold reads as none");
    assert_eq!(config.players[0].team, None, "one team per player is no team game");
    assert!(!config.players[0].eliminated);
    assert_eq!(funds.get(7), 200);
}

#[test]
fn a_seat_nobody_observes_keeps_only_its_bootstrap_names() {
    let players = vec![bootstrap(4, Some(BLUE), "bm")];
    let (config, funds, _, meters) = player_roster_seed_from_live_match(&players, &[], 500);
    let seat = &config.players[0];
    assert_eq!(seat.team, None);
    assert!(!seat.eliminated);
    assert_eq!(seat.co_key, None);
    assert_eq!(seat.faction_name, "bm army");
    assert_eq!(funds.get(4), 0);
    assert_eq!(meters.get(4), None);
}

#[test]
fn every_readable_seat_reports_its_meter() {
    let meter = PlayerPowerMeter { charge: 10, cop_cost: None, scop_cost: None, star_charge: None, active_power: None };
    let seats = [
        ObservedSeat { player_id: Some(1), funds: None, active: true, meter: Some(meter) },
        ObservedSeat { player_id: None, funds: None, active: true, meter: Some(meter) },
        ObservedSeat { player_id: Some(2), funds: None, active: true, meter: None },
    ];
    let meters = power_meters_from_observation(&seats);
    assert_eq!(meters.get(1), Some(meter));
    assert_eq!(meters.get(2), None);
}
