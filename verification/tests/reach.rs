use awbrn_client::board::Pos;
use awbrn_client::play::{DestinationFacts, PlaySelection};
use awbrn_client::reach::{attack_targets, move_range, ReachedTile};

fn reached(x: u8, y: u8, cost: u64, can_stop: bool, friendly_here: bool) -> ReachedTile {
    ReachedTile { position: Pos::new(x, y), cost, can_stop, friendly_here }
}

#[test]
fn friendly_units_are_in_the_preview_but_enemies_block_routes() {
    // A 6 by 1 strip: our recon at (0, 0), a friendly recon at (1, 0), and an
    // enemy at (3, 0). The movement field walks through the friend and stops
    // at the enemy, so it reaches (1, 0) and (2, 0) and nothing past them.
    let origin = Pos::new(0, 0);
    let reach = [reached(0, 0, 0, true, false), reached(1, 0, 1, false, true), reached(2, 0, 2, true, false)];
    let range = move_range(&reach, origin);
    let holds = |x: u8| range.iter().any(|(p, _)| *p == Pos::new(x, 0));
    assert!(holds(1));
    assert!(holds(2));
    assert!(!holds(3));
    assert!(!holds(4));

    let mut selection = PlaySelection::new();
    selection.select_unit(7, origin, range, Vec::new());
    selection.confirm_selected_destination(
        Pos::new(1, 0),
        &[],
        DestinationFacts {
            unit_still_valid: true,
            can_act_in_place: true,
            has_field: true,
            destination_reachable: true,
            proposed_route_valid: false,
            field_route: Some(vec![origin, Pos::new(1, 0)]),
        },
    );
    assert_eq!(
        selection.pending_destination.as_ref().map(|pending| pending.destination),
        Some(Pos::new(1, 0)),
        "an occupied friendly tile must reach the action query"
    );
    assert_eq!(
        selection.proposed_path.path,
        vec![origin, Pos::new(1, 0)],
        "the arrow must follow the route to an occupied friendly tile"
    );
}

#[test]
fn the_own_tile_a_tile_with_no_stop_and_a_cost_past_the_range_are_left_out() {
    let origin = Pos::new(0, 0);
    let reach = [
        reached(0, 0, 0, true, false),
        reached(1, 0, 1, false, true),
        reached(2, 0, 2, true, false),
        reached(0, 1, 1, false, false),
        reached(3, 0, 300, true, false),
    ];
    assert_eq!(move_range(&reach, origin), vec![(Pos::new(1, 0), 1), (Pos::new(2, 0), 2)]);
}

#[test]
fn each_enemy_is_offered_with_its_firing_tiles_cheapest_first() {
    let enemy = Pos::new(3, 1);
    let other = Pos::new(2, 0);
    let attacks = [
        (Pos::new(2, 1), vec![enemy, other]),
        (Pos::new(3, 2), vec![enemy]),
        (Pos::new(3, 0), vec![enemy, other]),
        (Pos::new(2, 1), vec![enemy]),
    ];
    let costs = [(Pos::new(2, 1), 2), (Pos::new(3, 2), 4), (Pos::new(3, 0), 2)];

    let targets = attack_targets(&attacks, &costs);

    assert_eq!(targets.len(), 2);
    assert_eq!(targets[0], (enemy, vec![Pos::new(2, 1), Pos::new(3, 0), Pos::new(3, 2)]));
    assert_eq!(targets[1], (other, vec![Pos::new(2, 1), Pos::new(3, 0)]));
}

#[test]
fn a_firing_tile_with_no_known_cost_is_offered_last() {
    let enemy = Pos::new(1, 1);
    let attacks = [(Pos::new(0, 1), vec![enemy]), (Pos::new(2, 1), vec![enemy])];

    let targets = attack_targets(&attacks, &[(Pos::new(2, 1), 3)]);

    assert_eq!(targets, vec![(enemy, vec![Pos::new(2, 1), Pos::new(0, 1)])]);
}

#[test]
fn nothing_to_fire_on_offers_nothing() {
    assert!(attack_targets(&[(Pos::new(0, 0), Vec::new())], &[]).is_empty());
}

#[test]
fn each_reached_tile_is_listed_once() {
    let reach: Vec<ReachedTile> = (0..4u8)
        .map(|x| ReachedTile { position: Pos::new(x, 1), cost: x as u64, can_stop: true, friendly_here: false })
        .collect();
    let range = move_range(&reach, Pos::new(0, 1));
    let positions: std::collections::HashSet<Pos> = range.iter().map(|(p, _)| *p).collect();
    assert_eq!(positions.len(), range.len());
    assert_eq!(range.len(), 3, "the unit's own tile is not part of its range");
}
