use awbrn_client::board::PlayerFaction;
use awbrn_client::display::{
    display_faction_for_actual_faction, display_faction_for_player, PlayerDisplayFactionOverrides,
};
use awbrn_client::roster::{
    active_power_meter, apply_fund_updates, collect_fund_updates, player_id_for_faction,
    player_ids_for_team, player_roster_snapshot, player_roster_seed_from_replay, sort_seats_by_turn,
    targeted_players, BuiltUnit, CommanderReading, FundEvent, FundUpdate, PlayerFunds,
    PlayerPowerMeter, PlayerPowerMeters, PlayerRosterConfig, PlayerRosterPlayer, PlayerUnitCosts,
    PowerLevel, PowerState, RosterUnit, TargetedPlayer,
};
use awbrn_client::roster::{
    apply_observed_funds, apply_observed_meters, apply_observed_statuses, collect_unit_cost_updates,
    replay_unit_costs, ObservedSeat,
};

const ORANGE: PlayerFaction = PlayerFaction(1);
const BLUE: PlayerFaction = PlayerFaction(2);
const GREEN: PlayerFaction = PlayerFaction(3);

fn player(player_id: u32, faction: PlayerFaction, team: Option<&str>) -> PlayerRosterPlayer {
    PlayerRosterPlayer {
        player_id,
        user_id: player_id + 100,
        turn_order: player_id,
        team: team.map(|t| t.to_string()),
        eliminated: false,
        faction,
        faction_code: String::new(),
        faction_name: String::new(),
        co_key: None,
        co_name: None,
        tag_co_key: None,
        tag_co_name: None,
    }
}

fn config() -> PlayerRosterConfig {
    PlayerRosterConfig {
        match_id: 1,
        map_id: 2,
        funds_per_property: 1000,
        players: vec![player(10, ORANGE, Some("A")), player(20, BLUE, Some("B")), player(30, GREEN, Some("A"))],
    }
}

#[test]
fn funds_are_set_spent_and_never_go_negative() {
    let mut funds = PlayerFunds::new();
    assert_eq!(funds.get(10), 0);
    funds.set(10, 5000);
    funds.subtract(10, 1200);
    assert_eq!(funds.get(10), 3800);
    funds.subtract(10, 99999);
    assert_eq!(funds.get(10), 0);
    funds.subtract(20, 300);
    assert_eq!(funds.get(20), 0);
}

#[test]
fn fund_updates_apply_in_order() {
    let mut funds = PlayerFunds::new();
    apply_fund_updates(
        &mut funds,
        &[(10, FundUpdate::SetTo(9000)), (10, FundUpdate::Subtract(1000)), (20, FundUpdate::SetTo(7))],
    );
    assert_eq!(funds.get(10), 8000);
    assert_eq!(funds.get(20), 7);
}

#[test]
fn seats_are_found_by_faction_and_by_team() {
    let config = config();
    assert_eq!(player_id_for_faction(&config, BLUE), Some(20));
    assert_eq!(player_id_for_faction(&config, PlayerFaction(9)), None);
    assert_eq!(player_ids_for_team(&config, b'A'), vec![10, 30]);
    assert_eq!(player_ids_for_team(&config, b'C'), Vec::<u32>::new());
    assert_eq!(targeted_players(&config, TargetedPlayer::Player(20)), Some(vec![20]));
    assert_eq!(targeted_players(&config, TargetedPlayer::Team(b'B')), Some(vec![20]));
    assert_eq!(targeted_players(&config, TargetedPlayer::Global), None);
}

fn named_seat(player_id: u32, user_id: u32, faction: PlayerFaction, code: &str, name: &str) -> PlayerRosterPlayer {
    PlayerRosterPlayer {
        player_id,
        user_id,
        turn_order: player_id,
        team: None,
        eliminated: false,
        faction,
        faction_code: code.to_string(),
        faction_name: name.to_string(),
        co_key: None,
        co_name: None,
        tag_co_key: None,
        tag_co_name: None,
    }
}

#[test]
fn fog_hides_opponent_roster_stats() {
    let config = PlayerRosterConfig {
        match_id: 1,
        map_id: 2,
        funds_per_property: 1000,
        players: vec![
            named_seat(1, 10, ORANGE, "os", "Orange Star"),
            named_seat(2, 20, BLUE, "bm", "Blue Moon"),
        ],
    };
    let mut funds = PlayerFunds::new();
    funds.set(1, 5000);
    funds.set(2, 6000);
    let mut costs = PlayerUnitCosts::new();
    costs.set(1, 7000);
    costs.set(2, 7000);
    let meters = PlayerPowerMeters::new();
    let units = [
        RosterUnit { unit_id: 1, faction: ORANGE, hp: Some(10), base_cost: 7000 },
        RosterUnit { unit_id: 2, faction: BLUE, hp: Some(10), base_cost: 7000 },
    ];
    // Orange Star's own projection reports Orange Star privately and Blue
    // Moon publicly.
    let snapshot =
        player_roster_snapshot(&config, 1, Some(1), &funds, &costs, &meters, None, &units, &[], &[true, false]);

    assert_eq!(snapshot.players[0].stats.funds, Some(5000));
    assert_eq!(snapshot.players[0].stats.unit_count, Some(1));
    assert_eq!(snapshot.players[1].stats.funds, None);
    assert_eq!(snapshot.players[1].stats.unit_count, None);
    assert_eq!(snapshot.players[1].stats.unit_value, None);
    assert_eq!(snapshot.players[1].stats.income, None);
}

#[test]
fn the_snapshot_names_the_match_the_day_and_every_seat() {
    let config = config();
    let snapshot = player_roster_snapshot(
        &config,
        4,
        Some(20),
        &PlayerFunds::new(),
        &PlayerUnitCosts::new(),
        &PlayerPowerMeters::new(),
        None,
        &[],
        &[],
        &[true, true, true],
    );
    assert_eq!((snapshot.match_id, snapshot.map_id, snapshot.day, snapshot.active_player_id), (1, 2, 4, Some(20)));
    assert_eq!(snapshot.players.len(), 3);
    let second = &snapshot.players[1];
    assert_eq!((second.player_id, second.user_id, second.turn_order), (20, 120, 20));
    assert_eq!(second.team.as_deref(), Some("B"));
    assert_eq!(second.actual_faction, BLUE);
    assert_eq!(second.display_faction, BLUE);
}

#[test]
fn the_roster_prices_units_by_health_and_counts_income() {
    let config = config();
    let funds = PlayerFunds::new();
    let mut costs = PlayerUnitCosts::new();
    costs.set(2, 7000);
    let meters = PlayerPowerMeters::new();
    let units = [
        RosterUnit { unit_id: 1, faction: ORANGE, hp: Some(5), base_cost: 1000 },
        RosterUnit { unit_id: 2, faction: ORANGE, hp: None, base_cost: 6000 },
        RosterUnit { unit_id: 3, faction: BLUE, hp: Some(10), base_cost: 3000 },
    ];
    let owners = [ORANGE, ORANGE, BLUE, PlayerFaction(9)];
    let entries = player_roster_snapshot(&config, 1, None, &funds, &costs, &meters, None, &units, &owners, &[true, true, true]).players;

    assert_eq!(entries[0].stats.unit_count, Some(2));
    assert_eq!(entries[0].stats.unit_value, Some(500 + 7000), "the recorded price wins over the base cost");
    assert_eq!(entries[0].stats.income, Some(2000));
    assert_eq!(entries[1].stats.unit_value, Some(3000));
    assert_eq!(entries[1].stats.income, Some(1000));
    assert_eq!(entries[2].stats.unit_count, Some(0));
    assert_eq!(entries[2].stats.funds, Some(0));
}

#[test]
fn roster_entries_carry_power_meters_and_display_colours() {
    let config = config();
    let funds = PlayerFunds::new();
    let costs = PlayerUnitCosts::new();
    let mut meters = PlayerPowerMeters::new();
    meters.set(
        20,
        PlayerPowerMeter {
            charge: 45000,
            cop_cost: Some(27000),
            scop_cost: Some(63000),
            star_charge: Some(9000),
            active_power: Some(PowerLevel::Cop),
        },
    );
    let mut overrides = PlayerDisplayFactionOverrides::new();
    overrides.set(20, Some(GREEN));
    let entries = player_roster_snapshot(&config, 1, None, &funds, &costs, &meters, Some(&overrides), &[], &[], &[true, false, true]).players;
    assert_eq!(entries[1].power_charge, Some(45000));
    assert_eq!(entries[1].active_power, Some(PowerLevel::Cop));
    assert_eq!(entries[1].power_star_charge, Some(9000));
    assert_eq!(entries[1].display_faction, GREEN);
    assert_eq!(entries[0].power_charge, None);
    assert_eq!(entries[0].display_faction, ORANGE);
}

#[test]
fn a_recoloured_seat_is_drawn_in_its_new_faction_until_it_is_given_back() {
    let config = config();
    let mut overrides = PlayerDisplayFactionOverrides::new();
    assert!(overrides.set(10, Some(BLUE)));
    assert!(!overrides.set(10, Some(BLUE)), "the same recolouring again changes nothing");
    assert_eq!(display_faction_for_player(Some(&overrides), 10, ORANGE), BLUE);
    assert_eq!(display_faction_for_actual_faction(Some(&config), Some(&overrides), ORANGE), BLUE);
    assert_eq!(display_faction_for_actual_faction(None, Some(&overrides), ORANGE), ORANGE);
    assert_eq!(display_faction_for_actual_faction(Some(&config), Some(&overrides), PlayerFaction(9)), PlayerFaction(9));
    assert!(overrides.set(10, None));
    assert!(!overrides.set(10, None));
    assert_eq!(display_faction_for_player(Some(&overrides), 10, ORANGE), ORANGE);
    assert_eq!(display_faction_for_player(None, 10, ORANGE), ORANGE);
}

fn commander(active: bool, power_charge: u64) -> CommanderReading {
    CommanderReading { active, power_charge, cop_cost: Some(27000), scop_cost: Some(63000), star_charge: Some(9000) }
}

#[test]
fn active_power_meter_reports_active_power() {
    // Andy leads, with no charge yet and one power used, and his power is on.
    let andy = CommanderReading { active: true, power_charge: 0, cop_cost: None, scop_cost: None, star_charge: None };

    assert_eq!(active_power_meter(&[andy], PowerState::Cop).unwrap().active_power, Some(PowerLevel::Cop));
}

#[test]
fn the_meter_follows_the_leading_commander_or_else_the_first() {
    let leading = active_power_meter(&[commander(false, 100), commander(true, 200)], PowerState::Off).unwrap();
    assert_eq!(leading.charge, 200);
    assert_eq!(leading.active_power, None);

    let first = active_power_meter(&[commander(false, 100), commander(false, 200)], PowerState::Scop).unwrap();
    assert_eq!(first.charge, 100);
    assert_eq!(first.active_power, Some(PowerLevel::Scop));

    assert_eq!(active_power_meter(&[], PowerState::Off), None);
    assert_eq!(active_power_meter(&[commander(true, u64::MAX)], PowerState::Off), None, "a charge the meter cannot hold");
}

#[test]
fn a_build_charges_the_recorded_price_or_else_the_kind_cost() {
    let recorded = FundEvent::Build { unit: Some(BuiltUnit { unit_id: 501, player_id: 10, cost: Some(6000), base_cost: 7000 }) };
    assert_eq!(collect_fund_updates(&recorded, None, None), vec![(10, FundUpdate::Subtract(6000))]);

    let unrecorded = FundEvent::Build { unit: Some(BuiltUnit { unit_id: 501, player_id: 10, cost: None, base_cost: 7000 }) };
    assert_eq!(collect_fund_updates(&unrecorded, None, None), vec![(10, FundUpdate::Subtract(7000))]);

    assert!(collect_fund_updates(&FundEvent::Build { unit: None }, None, None).is_empty());
}

#[test]
fn joins_repairs_and_turn_changes_set_funds() {
    let join = FundEvent::Join { player_id: 20, new_funds: Some(4000) };
    assert_eq!(collect_fund_updates(&join, None, None), vec![(20, FundUpdate::SetTo(4000))]);

    let repair = FundEvent::Repair { funds: Some(2500) };
    assert_eq!(collect_fund_updates(&repair, Some(30), None), vec![(30, FundUpdate::SetTo(2500))]);
    assert!(collect_fund_updates(&repair, None, None).is_empty(), "no active seat to charge");

    let turn = FundEvent::TurnChange { next_player_id: 10, next_funds: Some(9000) };
    assert_eq!(collect_fund_updates(&turn, None, None), vec![(10, FundUpdate::SetTo(9000))]);
    let hidden = FundEvent::TurnChange { next_player_id: 10, next_funds: None };
    assert!(collect_fund_updates(&hidden, None, None).is_empty());
    assert!(collect_fund_updates(&FundEvent::Other, Some(10), None).is_empty());
}

#[test]
fn a_power_sets_the_funds_of_every_seat_it_addresses() {
    let config = config();
    let power = FundEvent::Power {
        changes: vec![
            (TargetedPlayer::Team(b'A'), Some(100)),
            (TargetedPlayer::Global, Some(5)),
            (TargetedPlayer::Player(20), None),
            (TargetedPlayer::Player(20), Some(300)),
        ],
        units_added: Vec::new(),
    };

    assert_eq!(
        collect_fund_updates(&power, None, Some(&config)),
        vec![(10, FundUpdate::SetTo(100)), (30, FundUpdate::SetTo(100)), (20, FundUpdate::SetTo(300))]
    );
    assert!(collect_fund_updates(&power, None, None).is_empty(), "without a roster no team can be found");
}

#[test]
fn collected_updates_apply_to_the_funds() {
    let mut funds = PlayerFunds::new();
    funds.set(10, 5000);
    let build = FundEvent::Build { unit: Some(BuiltUnit { unit_id: 501, player_id: 10, cost: Some(7000), base_cost: 7000 }) };

    apply_fund_updates(&mut funds, &collect_fund_updates(&build, None, None));

    assert_eq!(funds.get(10), 0, "spending never goes below zero");
}

#[test]
fn seats_are_put_in_turn_order_keeping_ties_as_listed() {
    let mut late = player(10, ORANGE, None);
    late.turn_order = 3;
    let mut first = player(20, BLUE, None);
    first.turn_order = 1;
    let mut tied = player(30, GREEN, None);
    tied.turn_order = 3;

    let sorted = sort_seats_by_turn(vec![late, first, tied]);

    let ids: Vec<u32> = sorted.iter().map(|seat| seat.player_id).collect();
    assert_eq!(ids, vec![20, 10, 30]);
}

#[test]
fn an_archived_match_seeds_the_roster() {
    let mut second = player(10, ORANGE, None);
    second.turn_order = 2;
    let mut first = player(20, BLUE, None);
    first.turn_order = 1;

    let (config, funds, costs) =
        player_roster_seed_from_replay(7, 162795, 1000, vec![second, first], &[(10, 3000), (20, 1000), (10, 4000)], &[(501, 7000)]);

    assert_eq!(config.match_id, 7);
    assert_eq!(config.map_id, 162795);
    assert_eq!(config.funds_per_property, 1000);
    assert_eq!(config.players[0].player_id, 20);
    assert_eq!(config.players[1].player_id, 10);
    assert_eq!(funds.get(10), 4000, "the last figure listed for a seat stands");
    assert_eq!(funds.get(20), 1000);
    assert_eq!(costs.get(501), Some(7000));
    assert_eq!(costs.get(502), None);
}

fn seat(player_id: Option<u32>, funds: Option<u64>, active: bool) -> ObservedSeat {
    ObservedSeat { player_id, funds, active, meter: None }
}

#[test]
fn built_and_added_units_are_priced() {
    let build = FundEvent::Build { unit: Some(BuiltUnit { unit_id: 501, player_id: 10, cost: None, base_cost: 7000 }) };
    assert_eq!(collect_unit_cost_updates(&build), vec![(501, 7000)]);

    let power = FundEvent::Power { changes: Vec::new(), units_added: vec![(600, 1000), (601, 1000)] };
    assert_eq!(collect_unit_cost_updates(&power), vec![(600, 1000), (601, 1000)]);
    assert!(collect_unit_cost_updates(&FundEvent::Other).is_empty());

    let mut costs = PlayerUnitCosts::new();
    replay_unit_costs(&mut costs, &[build, power]);
    assert_eq!(costs.get(501), Some(7000));
    assert_eq!(costs.get(601), Some(1000));
}

#[test]
fn a_transition_reports_funds_meters_and_who_is_still_playing() {
    let mut funds = PlayerFunds::new();
    apply_observed_funds(
        &mut funds,
        &[seat(Some(10), Some(3000), true), seat(Some(20), None, true), seat(None, Some(5), true), seat(Some(30), Some(u64::MAX), true)],
    );
    assert_eq!(funds.get(10), 3000);
    assert_eq!(funds.get(20), 0, "another seat's funds are not reported");
    assert_eq!(funds.get(30), 0, "a figure past what funds hold is not taken");

    let meter = PlayerPowerMeter { charge: 10, cop_cost: None, scop_cost: None, star_charge: None, active_power: None };
    let mut meters = PlayerPowerMeters::new();
    apply_observed_meters(&mut meters, &[ObservedSeat { meter: Some(meter), ..seat(Some(20), None, true) }]);
    assert_eq!(meters.get(20), Some(meter));
    assert_eq!(meters.get(10), None);

    let mut players = config().players;
    apply_observed_statuses(&mut players, &[seat(Some(20), None, false), seat(Some(99), None, false)]);
    assert!(!players[0].eliminated);
    assert!(players[1].eliminated, "a seat no longer playing is eliminated");
    assert!(!players[2].eliminated);
}
