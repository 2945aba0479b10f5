use awbrn_client::board::Pos;
use awbrn_client::inspect::{band_sources, boundary_edges, collect_band};
use awbrn_client::inspect::{
    collect_fields, update_inspection_fields, InspectedSight, InspectionFields, InspectionReadout, MovementAnswer,
    UnitKindFacts, VisionAnswer,
};
use std::collections::HashSet;

#[test]
fn a_commanded_unit_has_no_band_of_its_own() {
    assert!(band_sources(1, true, Pos::new(2, 2), &[Pos::new(2, 3)]).is_empty());
}

#[test]
fn an_indirect_measures_its_band_from_where_it_stands() {
    assert_eq!(band_sources(2, false, Pos::new(2, 2), &[Pos::new(2, 3)]), vec![Pos::new(2, 2)]);
}

#[test]
fn a_direct_measures_its_band_from_every_stop_and_its_own_tile() {
    assert_eq!(
        band_sources(1, false, Pos::new(2, 2), &[Pos::new(2, 3), Pos::new(1, 2)]),
        vec![Pos::new(2, 3), Pos::new(1, 2), Pos::new(2, 2)]
    );
    assert_eq!(
        band_sources(1, false, Pos::new(2, 2), &[Pos::new(2, 2), Pos::new(1, 2)]),
        vec![Pos::new(2, 2), Pos::new(1, 2)]
    );
}

#[test]
fn an_artillery_band_is_a_ring_clipped_to_the_board() {
    let band: HashSet<Pos> = collect_band(Pos::new(1, 1), 2, 3, 10, 10).into_iter().collect();

    assert!(!band.contains(&Pos::new(1, 1)));
    assert!(!band.contains(&Pos::new(2, 1)), "one step is inside the minimum range");
    assert!(band.contains(&Pos::new(3, 1)));
    assert!(band.contains(&Pos::new(0, 3)));
    assert!(band.contains(&Pos::new(4, 1)));
    assert!(!band.contains(&Pos::new(4, 2)), "four steps is past the maximum range");
    // Every tile from two to three steps away that is on the board.
    let expected: HashSet<Pos> = (0..10u8)
        .flat_map(|x| (0..10u8).map(move |y| Pos::new(x, y)))
        .filter(|tile| {
            let distance = (tile.x as i32 - 1).abs() + (tile.y as i32 - 1).abs();
            (2..=3).contains(&distance)
        })
        .collect();
    assert_eq!(band, expected);
}

#[test]
fn a_band_stops_at_the_edges_of_a_small_board() {
    let band: HashSet<Pos> = collect_band(Pos::new(0, 0), 1, 1, 1, 2).into_iter().collect();

    assert_eq!(band, HashSet::from([Pos::new(0, 1)]));
}

#[test]
fn a_field_is_outlined_where_it_ends() {
    let field = [Pos::new(1, 1), Pos::new(2, 1), Pos::new(1, 2)];

    assert_eq!(boundary_edges(Pos::new(1, 1), &field), vec![0, 1]);
    assert_eq!(boundary_edges(Pos::new(0, 0), &[Pos::new(1, 0), Pos::new(0, 1)]), vec![0, 1]);
    assert_eq!(boundary_edges(Pos::new(2, 1), &field), vec![0, 2, 3]);
}

use awbrn_client::inspect::{clear_inspection_on_turn_boundary, inspection_vantage, read_unit_under_replay_tap};

#[test]
fn tapping_the_unit_being_read_lets_go_of_it() {
    assert_eq!(read_unit_under_replay_tap(None, Some(4)), Some(4));
    assert_eq!(read_unit_under_replay_tap(Some(4), Some(4)), None);
    assert_eq!(read_unit_under_replay_tap(Some(4), Some(5)), Some(5));
    assert_eq!(read_unit_under_replay_tap(Some(4), None), None);
}

#[test]
fn a_reading_is_put_down_when_the_turn_passes() {
    let day_three = (3, Some(10));
    let next_seat = (3, Some(20));

    assert_eq!(clear_inspection_on_turn_boundary(None, Some(day_three), Some(4)), (Some(day_three), Some(4)), "the first turn is no boundary");
    assert_eq!(clear_inspection_on_turn_boundary(Some(day_three), Some(day_three), Some(4)), (Some(day_three), Some(4)));
    assert_eq!(clear_inspection_on_turn_boundary(Some(day_three), Some(next_seat), Some(4)), (Some(next_seat), None));
    assert_eq!(clear_inspection_on_turn_boundary(Some(day_three), None, Some(4)), (Some(day_three), Some(4)));
}

#[test]
fn a_route_held_open_moves_where_the_fields_are_read_from() {
    let origin = Pos::new(1, 1);
    assert_eq!(inspection_vantage(4, origin, Some((4, Pos::new(3, 1)))), Pos::new(3, 1));
    assert_eq!(inspection_vantage(4, origin, Some((5, Pos::new(3, 1)))), origin);
    assert_eq!(inspection_vantage(4, origin, None), origin);
}

fn tiles(list: &[(u8, u8)]) -> Vec<Pos> {
    list.iter().map(|&(x, y)| Pos::new(x, y)).collect()
}

fn set(v: &[Pos]) -> HashSet<Pos> {
    v.iter().copied().collect()
}

const INFANTRY: UnitKindFacts = UnitKindFacts { range_min: 1, range_max: 1, base_vision: 2 };
const ARTILLERY: UnitKindFacts = UnitKindFacts { range_min: 2, range_max: 3, base_vision: 1 };
const TRANSPORT: UnitKindFacts = UnitKindFacts { range_min: 0, range_max: 0, base_vision: 1 };

#[test]
fn fields_follow_the_rules_answers_and_keep_the_units_own_tile_out_of_movement() {
    let movement = MovementAnswer {
        budget: 3,
        reach: tiles(&[(2, 2), (2, 3), (3, 2)]),
        destinations: tiles(&[(2, 2), (2, 3)]),
    };
    let vision = VisionAnswer { sight: 5_000_000_000, seen: tiles(&[(2, 2), (2, 1)]), blind: tiles(&[(1, 1)]) };
    let mut fields = InspectionFields::new();
    collect_fields(&mut fields, Pos::new(2, 2), false, true, Some(&movement), Some(&vision), Some(INFANTRY), 5, 5);

    assert_eq!(fields.movement, tiles(&[(2, 3), (3, 2)]));
    assert_eq!(fields.vision, tiles(&[(2, 2), (2, 1)]));
    assert_eq!(fields.blind, tiles(&[(1, 1)]));
    // A direct's band is the ring one step around each tile it can stop on.
    let expected = set(&tiles(&[(2, 1), (1, 2), (3, 2), (2, 3), (2, 2), (1, 3), (3, 3), (2, 4)]));
    assert_eq!(set(&fields.fire), expected);
    assert_eq!(fields.fire.len(), expected.len(), "each tile of the band is listed once");
    assert_eq!(
        fields.readout,
        Some(InspectionReadout {
            movement: 3,
            range: Some((1, 1)),
            sight: Some(InspectedSight { tiles: u32::MAX, base: 2 }),
        })
    );
    assert_eq!(set(&fields.sight_reach()), set(&tiles(&[(2, 2), (2, 1), (1, 1)])));
}

#[test]
fn an_indirect_fires_from_where_it_stands_and_a_transport_has_no_band() {
    let movement = MovementAnswer { budget: 5, reach: tiles(&[(0, 1)]), destinations: tiles(&[(0, 1)]) };
    let mut fields = InspectionFields::new();
    collect_fields(&mut fields, Pos::new(0, 0), false, true, Some(&movement), None, Some(ARTILLERY), 4, 4);
    assert_eq!(set(&fields.fire), set(&tiles(&[(2, 0), (1, 1), (0, 2), (3, 0), (2, 1), (1, 2), (0, 3)])));
    assert_eq!(fields.readout.unwrap().sight, None, "no sight without fog");

    let mut fields = InspectionFields::new();
    collect_fields(&mut fields, Pos::new(0, 0), false, true, Some(&movement), None, Some(TRANSPORT), 4, 4);
    assert!(fields.fire.is_empty());
    assert_eq!(fields.readout.unwrap().range, None);
}

#[test]
fn an_undescribed_unit_or_an_unread_kind_leaves_no_readout() {
    let movement = MovementAnswer { budget: 2, reach: tiles(&[(1, 0)]), destinations: tiles(&[(1, 0)]) };
    let mut fields = InspectionFields::new();
    collect_fields(&mut fields, Pos::new(0, 0), false, false, Some(&movement), None, Some(INFANTRY), 4, 4);
    assert!(fields.movement.is_empty() && fields.fire.is_empty() && fields.readout.is_none());

    collect_fields(&mut fields, Pos::new(0, 0), false, true, Some(&movement), None, None, 4, 4);
    assert_eq!(fields.movement, tiles(&[(1, 0)]));
    assert!(fields.fire.is_empty() && fields.readout.is_none());
}

#[test]
fn the_fields_are_read_from_a_held_route_and_cleared_with_the_subject() {
    let movement = MovementAnswer { budget: 2, reach: tiles(&[(1, 0)]), destinations: tiles(&[(1, 0)]) };
    let mut fields = InspectionFields::new();
    update_inspection_fields(
        &mut fields,
        Some(7),
        Some(Pos::new(0, 0)),
        Some(7),
        Some((7, Pos::new(1, 0))),
        true,
        Some(&movement),
        None,
        Some(INFANTRY),
        4,
        4,
    );
    assert_eq!(fields.origin, Some(Pos::new(0, 0)));
    assert_eq!(fields.vantage, Some(Pos::new(1, 0)));
    assert!(fields.movement_drawn_by_selection);
    assert!(fields.fire.is_empty(), "a commanded unit's targets are marked on the enemies instead");
    assert_eq!(fields.readout.unwrap().movement, 2);

    update_inspection_fields(&mut fields, None, None, None, None, true, None, None, None, 4, 4);
    assert_eq!(fields.origin, None);
    assert!(fields.movement.is_empty() && fields.readout.is_none() && !fields.movement_drawn_by_selection);
}
