use awbrn_client::board::{PlayerFaction, Pos};
use awbrn_client::gestures::{GestureReport, PointerGestureKind};
use awbrn_client::hover::{
    capture_remaining, hover_position, read_hovered_tile, track_inspected_tile, AmmoDisplay,
    HoveredTileState, HoveredUnitKey, StandingUnit, WeaponPolicy,
};

const ORANGE_STAR: PlayerFaction = PlayerFaction(0);
const BLUE_MOON: PlayerFaction = PlayerFaction(1);
const PLAIN: u16 = 1;
const APC: u16 = 7;
const INFANTRY: u16 = 1;
const MECH: u16 = 2;

fn unit_key(unit: u16, faction: PlayerFaction) -> HoveredUnitKey {
    HoveredUnitKey { unit, faction, health: Some(7), ammo: Some(4), fuel: Some(50), capture: None }
}

fn standing(unit: u16, faction: PlayerFaction) -> StandingUnit {
    StandingUnit { key: unit_key(unit, faction), visible: true, actual_faction: faction }
}

#[test]
fn unchanged_coarse_hover_emits_only_once() {
    let mut state = HoveredTileState::new();
    let position = hover_position(true, Some(Pos::new(0, 0)), None);

    read_hovered_tile(position, Some((PLAIN, 3)), None, &[], false, &[], &mut state.scratch);
    assert!(state.settle());
    assert_eq!(state.current.tile.unwrap().position.x, 0);

    read_hovered_tile(position, Some((PLAIN, 3)), None, &[], false, &[], &mut state.scratch);
    assert!(!state.settle());
}

#[test]
fn a_visible_enemy_discloses_its_ammunition_and_fuel_but_not_its_cargo() {
    let mut state = HoveredTileState::new();
    let cargo = [unit_key(INFANTRY, BLUE_MOON)];

    read_hovered_tile(
        Some(Pos::new(0, 0)),
        Some((PLAIN, 3)),
        Some(standing(APC, BLUE_MOON)),
        &cargo,
        true,
        &[ORANGE_STAR],
        &mut state.scratch,
    );

    let unit = state.scratch.tile.unwrap().unit.unwrap();
    assert_eq!(unit.ammo, Some(4));
    assert_eq!(unit.fuel, Some(50));
    assert_eq!(unit.health, Some(7));
    assert!(state.scratch.cargo.is_empty(), "fog withholds enemy cargo");
}

#[test]
fn cargo_is_reported_in_the_order_it_was_loaded() {
    let mut state = HoveredTileState::new();
    let mut mech = unit_key(MECH, ORANGE_STAR);
    mech.capture = Some(5);
    let cargo = [mech, unit_key(INFANTRY, ORANGE_STAR)];

    read_hovered_tile(
        Some(Pos::new(0, 0)),
        Some((PLAIN, 3)),
        Some(standing(APC, ORANGE_STAR)),
        &cargo,
        false,
        &[],
        &mut state.scratch,
    );

    let kinds: Vec<u16> = state.scratch.cargo.iter().map(|unit| unit.unit).collect();
    assert_eq!(kinds, [MECH, INFANTRY]);
    assert_eq!(state.scratch.cargo[0].capture, None, "a carried unit captures nothing");
}

#[test]
fn a_weapon_that_never_runs_out_is_not_reported_as_a_count() {
    assert_eq!(AmmoDisplay::for_unit(WeaponPolicy::Unlimited), AmmoDisplay::Unlimited);
    assert_eq!(AmmoDisplay::for_unit(WeaponPolicy::Unarmed), AmmoDisplay::NoWeapon);
    assert_eq!(AmmoDisplay::for_unit(WeaponPolicy::Ammo), AmmoDisplay::Counted);
    assert_eq!(AmmoDisplay::for_unit(WeaponPolicy::AmmoWithUnlimited), AmmoDisplay::Counted);
}

#[test]
fn a_hidden_unit_and_a_tile_off_the_board_read_as_nothing() {
    let mut state = HoveredTileState::new();
    let hidden = StandingUnit { visible: false, ..standing(APC, BLUE_MOON) };

    read_hovered_tile(Some(Pos::new(1, 0)), Some((PLAIN, 3)), Some(hidden), &[], false, &[], &mut state.scratch);
    assert_eq!(state.scratch.tile.unwrap().unit, None);

    read_hovered_tile(Some(Pos::new(9, 9)), None, None, &[], false, &[], &mut state.scratch);
    assert_eq!(state.scratch.tile, None);
}

#[test]
fn a_finger_is_followed_and_a_cancel_changes_nothing() {
    let finger = |kind, tile| GestureReport { kind, tile, coarse: true };
    let gestures = [
        finger(PointerGestureKind::DragStart, Some(Pos::new(1, 1))),
        finger(PointerGestureKind::DragMove, Some(Pos::new(2, 1))),
        finger(PointerGestureKind::DragMove, None),
        finger(PointerGestureKind::DragCancel, Some(Pos::new(4, 4))),
        GestureReport { kind: PointerGestureKind::Tap, tile: Some(Pos::new(0, 0)), coarse: false },
    ];

    assert_eq!(track_inspected_tile(&gestures, None), Some(Pos::new(2, 1)));
    assert_eq!(hover_position(false, Some(Pos::new(2, 1)), Some(Pos::new(5, 5))), Some(Pos::new(5, 5)));
}

#[test]
fn a_capture_reads_as_what_it_still_owes() {
    assert_eq!(capture_remaining(20, Some(5)), Some(15));
    assert_eq!(capture_remaining(20, Some(25)), Some(0));
    assert_eq!(capture_remaining(20, None), None);
}
