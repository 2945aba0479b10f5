use awbrn_client::actions::{unit_actions_menu, ActionMenu, ActionSet};
use awbrn_client::board::{PlayerFaction, Pos};
use awbrn_client::move_path::{route_prefix, splice_route, RouteAnswers};
use awbrn_client::play::{
    attack_approach, tap_decision, unit_is_selectable, CommittedKind, DestinationFacts, PlaySelection,
    PlayUiPhase, SelectedUnitSelection, TapDecision, TapFacts, UnitStanding,
};

const ORANGE_STAR: PlayerFaction = PlayerFaction(0);
const BLUE_MOON: PlayerFaction = PlayerFaction(1);
const UNIT: u64 = 42;

/// The tiles one step away from (2, 2), each a single move away.
fn neighbours_of_centre() -> Vec<(Pos, u8)> {
    vec![(Pos::new(2, 1), 1), (Pos::new(1, 2), 1), (Pos::new(3, 2), 1), (Pos::new(2, 3), 1)]
}

fn holding_unit_at_centre() -> PlaySelection {
    let mut selection = PlaySelection::new();
    selection.select_unit(UNIT, Pos::new(2, 2), neighbours_of_centre(), Vec::new());
    selection
}

fn reachable(route: Vec<Pos>) -> DestinationFacts {
    DestinationFacts {
        unit_still_valid: true,
        can_act_in_place: true,
        has_field: true,
        destination_reachable: true,
        proposed_route_valid: false,
        field_route: Some(route),
    }
}

fn no_answers() -> RouteAnswers {
    RouteAnswers {
        route: None,
        shown_valid: false,
        step_valid: false,
        spliced_valid: false,
        route_valid: false,
        prefix_valid: false,
    }
}

#[test]
fn spent_and_enemy_units_are_not_selectable() {
    let friendly = [ORANGE_STAR];

    assert!(!unit_is_selectable(ORANGE_STAR, false, false, false, &friendly), "a spent unit");
    assert!(!unit_is_selectable(BLUE_MOON, true, false, false, &friendly), "an enemy unit");
    assert!(unit_is_selectable(ORANGE_STAR, true, false, false, &friendly));
    assert!(unit_is_selectable(ORANGE_STAR, false, false, true, &friendly), "a spent transport can still unload");
    assert!(!unit_is_selectable(ORANGE_STAR, true, true, false, &friendly), "a unit inside a transport");
}

#[test]
fn clicking_reachable_tile_sets_pending_destination() {
    let mut selection = holding_unit_at_centre();

    selection.confirm_selected_destination(
        Pos::new(2, 1),
        &[],
        reachable(vec![Pos::new(2, 2), Pos::new(2, 1)]),
    );

    assert_eq!(selection.phase, PlayUiPhase::DestinationSelected);
    let pending = selection.pending_destination.as_ref().expect("a destination is pending");
    assert_eq!(pending.unit, UNIT);
    assert_eq!(pending.origin, Pos::new(2, 2));
    assert_eq!(pending.destination, Pos::new(2, 1));
    assert_eq!(pending.path, vec![Pos::new(2, 2), Pos::new(2, 1)]);
}

#[test]
fn clicking_selected_units_tile_offers_in_place_actions_without_a_ghost() {
    let mut selection = holding_unit_at_centre();

    selection.confirm_selected_destination(Pos::new(2, 2), &[], reachable(Vec::new()));

    assert_eq!(selection.phase, PlayUiPhase::DestinationSelected);
    let pending = selection.pending_destination.as_ref().expect("a destination is pending");
    assert_eq!(pending.destination, Pos::new(2, 2));
    assert_eq!(pending.path, vec![Pos::new(2, 2)]);
}

#[test]
fn clicking_unreachable_tile_or_escape_clears_selection() {
    let mut selection = holding_unit_at_centre();
    let unreachable = DestinationFacts { destination_reachable: false, ..reachable(Vec::new()) };
    selection.confirm_selected_destination(Pos::new(4, 4), &[], unreachable);
    assert_eq!(selection.selected, None);
    assert_eq!(selection.phase, PlayUiPhase::Idle);

    let mut selection = holding_unit_at_centre();
    assert!(selection.escape());
    assert_eq!(selection.selected, None);
    assert!(selection.move_range.is_empty());
}

#[test]
fn dismissing_and_escape_step_back_to_the_unit() {
    for dismiss_with_escape in [false, true] {
        let mut selection = holding_unit_at_centre();
        selection.confirm_selected_destination(
            Pos::new(2, 1),
            &[],
            reachable(vec![Pos::new(2, 2), Pos::new(2, 1)]),
        );

        if dismiss_with_escape {
            selection.escape();
        } else {
            selection.return_to_unit_selected();
        }

        assert_eq!(selection.selected, Some(SelectedUnitSelection { entity: UNIT, origin: Pos::new(2, 2) }));
        assert_eq!(selection.phase, PlayUiPhase::UnitSelected);
        assert!(selection.pending_destination.is_none());
        assert_eq!(selection.move_range, neighbours_of_centre(), "the range is still shown");

        // Only pressing Escape again lets the unit go.
        selection.escape();
        assert_eq!(selection.selected, None);
    }
}

#[test]
fn choosing_an_order_sends_it_and_keeps_a_way_back() {
    let mut selection = holding_unit_at_centre();
    selection.confirm_selected_destination(
        Pos::new(2, 1),
        &[],
        reachable(vec![Pos::new(2, 2), Pos::new(2, 1)]),
    );

    let snapshot = selection.commit_order(CommittedKind::Move).expect("an order was pending");

    assert_eq!(selection.phase, PlayUiPhase::AwaitingServer);
    assert_eq!(selection.selected, Some(SelectedUnitSelection { entity: UNIT, origin: Pos::new(2, 2) }));
    assert!(selection.pending_destination.is_none());
    assert!(selection.move_range.is_empty());
    assert!(selection.proposed_path.path.is_empty());
    assert_eq!(snapshot.unit, UNIT);
    assert_eq!(snapshot.destination, Pos::new(2, 1));
    assert_eq!(snapshot.path, vec![Pos::new(2, 2), Pos::new(2, 1)]);
    assert_eq!(snapshot.kind, CommittedKind::Move);
}

#[test]
fn a_refused_command_restores_the_selection_at_the_origin() {
    let mut selection = holding_unit_at_centre();
    selection.confirm_selected_destination(
        Pos::new(2, 1),
        &[],
        reachable(vec![Pos::new(2, 2), Pos::new(2, 1)]),
    );
    let target = Pos::new(3, 1);
    selection.pending_destination.as_mut().unwrap().attack_intent = Some(target);
    selection.proposed_path.attack_intent = Some(target);

    let snapshot = selection.commit_order(CommittedKind::Move);
    assert_eq!(selection.proposed_path.attack_intent, None);

    selection.restore_rejected(snapshot);

    assert_eq!(selection.selected, Some(SelectedUnitSelection { entity: UNIT, origin: Pos::new(2, 2) }));
    assert_eq!(selection.phase, PlayUiPhase::UnitSelected);
    assert!(
        selection.move_range.iter().any(|(tile, _)| *tile == Pos::new(2, 1)),
        "the range the player was working with comes back"
    );
    assert_eq!(
        selection.proposed_path.path,
        vec![Pos::new(2, 2), Pos::new(2, 1)],
        "and so does the route, so a retry is one tap"
    );
    assert_eq!(selection.proposed_path.attack_intent, Some(target));
}

#[test]
fn accepted_command_discards_its_rejection_snapshot() {
    let mut selection = holding_unit_at_centre();
    selection.confirm_selected_destination(
        Pos::new(2, 1),
        &[],
        reachable(vec![Pos::new(2, 2), Pos::new(2, 1)]),
    );
    let mut committed = selection.commit_order(CommittedKind::Move);
    assert_eq!(selection.phase, PlayUiPhase::AwaitingServer);
    assert!(committed.is_some());

    // The server accepted the move: the unit has acted and stands at (2, 1).
    let moved = UnitStanding {
        faction: ORANGE_STAR,
        position: Pos::new(2, 1),
        is_active: false,
        is_carried: false,
        has_cargo: false,
    };
    let (clear, drop_snapshot) = selection.invalid_selection(Some(moved), &[ORANGE_STAR], Some(CommittedKind::Move));
    assert!(clear && drop_snapshot);
    if drop_snapshot {
        committed = None;
    }
    selection.clear_selection_state();

    assert!(committed.is_none());
    assert_eq!(selection.selected, None);
}

#[test]
fn moving_selected_unit_clears_selection_and_range() {
    let mut selection = holding_unit_at_centre();
    assert!(selection.selected.is_some());
    assert!(!selection.move_range.is_empty());

    // The unit is moved to (2, 1) behind the selection's back.
    let moved = UnitStanding {
        faction: ORANGE_STAR,
        position: Pos::new(2, 1),
        is_active: true,
        is_carried: false,
        has_cargo: false,
    };
    let (clear, _) = selection.invalid_selection(Some(moved), &[ORANGE_STAR], None);
    assert!(clear);
    selection.clear_selection_state();

    assert_eq!(selection.selected, None);
    assert_eq!(selection.pending_destination, None);
    assert!(selection.move_range.is_empty());

    let still_here = UnitStanding { position: Pos::new(2, 2), ..moved };
    assert_eq!(holding_unit_at_centre().invalid_selection(Some(still_here), &[ORANGE_STAR], None), (false, false));
    assert_eq!(holding_unit_at_centre().invalid_selection(None, &[ORANGE_STAR], None), (true, false));
}

#[test]
fn shared_attack_position_survives_invalid_hover_between_targets() {
    let origin = Pos::new(0, 1);
    let first_target = Pos::new(3, 1);
    let second_target = Pos::new(2, 0);
    let firing_position = Pos::new(2, 1);
    let mut selection = PlaySelection::new();
    selection.select_unit(
        UNIT,
        origin,
        vec![(Pos::new(1, 1), 1), (firing_position, 2), (Pos::new(0, 0), 1), (Pos::new(1, 0), 2)],
        vec![(first_target, vec![firing_position]), (second_target, vec![Pos::new(1, 0), firing_position])],
    );
    let path = vec![origin, Pos::new(1, 1), firing_position];
    selection.proposed_path.path = path.clone();

    // A tile out of reach between the two targets is a gap in the hover.
    selection.update_proposed_move_path(false, true, false, false, Some(Pos::new(4, 2)), no_answers());
    assert_eq!(selection.proposed_path.path, path);

    // The route already ends where the tank can fire on the second target.
    let approaches = [Pos::new(1, 0), firing_position];
    let approach = attack_approach(&path, Some(&approaches[..]), true, true)
        .expect("the existing firing position can target the second unit");
    assert_eq!(approach, firing_position);
    let answers = RouteAnswers { shown_valid: true, ..no_answers() };
    selection.update_proposed_move_path(false, true, false, false, Some(second_target), answers);
    assert_eq!(selection.proposed_path.path, path);
    assert_eq!(selection.proposed_path.attack_intent, Some(second_target));
}

#[test]
fn shift_draws_the_route_a_tile_at_a_time_and_stepping_back_erases() {
    let mut selection = holding_unit_at_centre();
    let step = RouteAnswers { step_valid: true, ..no_answers() };

    selection.update_proposed_move_path(false, true, true, false, Some(Pos::new(2, 1)), step);
    assert_eq!(selection.proposed_path.path, vec![Pos::new(2, 2), Pos::new(2, 1)]);
    assert_eq!(selection.proposed_path.drawn_path, vec![Pos::new(2, 1)]);

    selection.update_proposed_move_path(false, true, true, false, Some(Pos::new(2, 2)), no_answers());
    assert_eq!(selection.proposed_path.path, vec![Pos::new(2, 2)]);
    assert!(selection.proposed_path.drawn_path.is_empty());
}

#[test]
fn hovering_shows_the_cheapest_route_kept_on_the_drawing() {
    let mut selection = holding_unit_at_centre();
    selection.proposed_path.drawn_path = vec![Pos::new(2, 1)];
    let prefix = route_prefix(Pos::new(2, 2), &selection.proposed_path.drawn_path);
    let cheapest = vec![Pos::new(2, 2), Pos::new(2, 1), Pos::new(3, 1)];
    let spliced = splice_route(&prefix, &cheapest).expect("the route passes the end of the drawing");
    assert_eq!(spliced, cheapest);

    selection.move_range.push((Pos::new(3, 1), 2));
    let answers = RouteAnswers { route: Some(cheapest.clone()), spliced_valid: true, ..no_answers() };
    selection.update_proposed_move_path(false, true, false, false, Some(Pos::new(3, 1)), answers);
    assert_eq!(selection.proposed_path.path, cheapest);
    assert_eq!(selection.proposed_path.hovered, Some(Pos::new(3, 1)));
}

#[test]
fn nothing_moves_while_a_drag_holds_the_unit() {
    let mut selection = holding_unit_at_centre();
    selection.update_proposed_move_path(true, true, true, false, Some(Pos::new(2, 1)), no_answers());
    assert!(selection.proposed_path.path.is_empty());
    assert_eq!(selection.proposed_path.hovered, None);
}

#[test]
fn a_drag_past_the_range_holds_at_the_last_reachable_tile() {
    let mut selection = holding_unit_at_centre();
    selection.extend_drag_route(Some(Pos::new(2, 1)), None, true, true, Some(vec![Pos::new(2, 2), Pos::new(2, 1)]));
    selection.extend_drag_route(Some(Pos::new(2, 0)), None, false, true, None);

    assert_eq!(selection.proposed_path.path, vec![Pos::new(2, 2), Pos::new(2, 1)]);
    assert_eq!(selection.drag_destination(), Some(Pos::new(2, 1)));
}

#[test]
fn releasing_on_an_enemy_approaches_it_and_records_the_aim() {
    // A 6 by 3 board: our infantry at (1, 1), enemy infantry at (3, 1) and
    // (2, 0). Both enemies can be hit from (2, 1).
    let mut selection = PlaySelection::new();
    selection.select_unit(
        UNIT,
        Pos::new(1, 1),
        vec![(Pos::new(2, 1), 1), (Pos::new(1, 0), 1), (Pos::new(0, 1), 1), (Pos::new(1, 2), 1)],
        vec![(Pos::new(3, 1), vec![Pos::new(2, 1)]), (Pos::new(2, 0), vec![Pos::new(2, 1), Pos::new(1, 0)])],
    );
    let route = vec![Pos::new(1, 1), Pos::new(2, 1)];
    selection.extend_drag_route(Some(Pos::new(2, 1)), None, true, true, Some(route.clone()));
    selection.extend_drag_route(Some(Pos::new(3, 1)), Some(Pos::new(2, 1)), true, true, Some(route.clone()));
    let destination = selection.drag_destination().expect("the drag ends on a tile the unit can reach");
    let path = selection.proposed_path.path.clone();
    selection.confirm_selected_destination(
        destination,
        &path,
        DestinationFacts { proposed_route_valid: true, ..reachable(route.clone()) },
    );

    let pending = selection.pending_destination.as_ref().expect("an approach was proposed");
    assert_eq!(pending.destination, Pos::new(2, 1), "it stops on the cheapest tile it can fire from");
    assert_eq!(pending.attack_intent, Some(Pos::new(3, 1)), "and remembers which enemy, so the menu can open on Fire");

    let available = ActionSet {
        attack: vec![Pos::new(3, 1), Pos::new(2, 0)],
        capture: false,
        supply: false,
        repair: Vec::new(),
        join: false,
        load: false,
        hide: false,
        reveal: false,
        launch: Vec::new(),
        explode: false,
        wait: true,
    };
    let menu = unit_actions_menu(false, Some(&available), &[], false, &[], None, &[], pending.attack_intent);
    let ActionMenu::Offer { options, preselected } = menu else {
        panic!("the attack menu opens");
    };
    assert_eq!(options.len(), 1);
    assert_eq!(preselected, Some(0));
    assert_eq!(options[0].action, UnitOrder::Move { action: PostMoveAction::Attack { target: Pos::new(3, 1) } });

    // An aim the menu cannot fire on leaves the full menu open.
    let menu = unit_actions_menu(false, Some(&available), &[], false, &[], None, &[], Some(Pos::new(5, 2)));
    assert_eq!(selection.phase, PlayUiPhase::DestinationSelected);
    let ActionMenu::Offer { options, preselected } = menu else {
        panic!("the full action menu stays open");
    };
    assert_eq!(options.len(), 3);
    assert_eq!(preselected, None);
}

#[test]
fn tapping_an_enemy_aims_routes_to_the_firing_tile_and_proposes_it() {
    let mut selection = holding_unit_at_centre();
    let enemy = Pos::new(2, 0);
    let approach = Pos::new(2, 1);
    selection.aim_and_confirm(
        enemy,
        approach,
        Some(vec![Pos::new(2, 2), approach]),
        DestinationFacts { proposed_route_valid: true, ..reachable(vec![Pos::new(2, 2), approach]) },
    );
    assert_eq!(selection.proposed_path.attack_intent, Some(enemy));
    assert_eq!(selection.proposed_path.path, vec![Pos::new(2, 2), approach]);
    let pending = selection.pending_destination.as_ref().expect("the firing tile is proposed");
    assert_eq!(pending.destination, approach);
    assert_eq!(pending.attack_intent, Some(enemy));
    assert_eq!(selection.phase, PlayUiPhase::DestinationSelected);
}

#[test]
fn aiming_keeps_a_route_that_already_ends_on_the_firing_tile() {
    let mut selection = holding_unit_at_centre();
    selection.proposed_path.path = vec![Pos::new(2, 2), Pos::new(3, 2), Pos::new(3, 1), Pos::new(2, 1)];
    selection.aim_and_confirm(Pos::new(2, 0), Pos::new(2, 1), Some(vec![Pos::new(2, 2), Pos::new(2, 1)]), DestinationFacts {
        proposed_route_valid: true,
        ..reachable(vec![Pos::new(2, 2), Pos::new(2, 1)])
    });
    assert_eq!(
        selection.pending_destination.as_ref().unwrap().path,
        vec![Pos::new(2, 2), Pos::new(3, 2), Pos::new(3, 1), Pos::new(2, 1)],
        "the route drawn to the firing tile is kept"
    );

    let mut selection = holding_unit_at_centre();
    selection.aim_and_confirm(Pos::new(2, 0), Pos::new(2, 1), None, DestinationFacts {
        field_route: None,
        ..reachable(Vec::new())
    });
    assert_eq!(selection.phase, PlayUiPhase::Idle, "no route to the firing tile puts the unit down");
}

#[test]
fn a_tap_below_the_touch_floor_asks_for_the_camera_instead_of_committing() {
    let facts = TapFacts {
        tapped: Some(Pos::new(2, 1)),
        coarse_below_floor: true,
        approach: None,
        destination: Pos::new(2, 1),
        destination_reachable: true,
        tapped_selectable: false,
        tapped_occupied: Some(false),
    };

    assert_eq!(tap_decision(PlayUiPhase::UnitSelected, true, facts), TapDecision::ReturnToTouchFloor);
    let fine = TapFacts { coarse_below_floor: false, ..facts };
    assert_eq!(tap_decision(PlayUiPhase::UnitSelected, true, fine), TapDecision::ConfirmDestination(Pos::new(2, 1)));
    assert_eq!(tap_decision(PlayUiPhase::AwaitingServer, true, fine), TapDecision::Ignore);
}

#[test]
fn a_tap_on_open_ground_steps_back_one_stage() {
    let facts = TapFacts {
        tapped: Some(Pos::new(4, 4)),
        coarse_below_floor: false,
        approach: None,
        destination: Pos::new(4, 4),
        destination_reachable: false,
        tapped_selectable: false,
        tapped_occupied: Some(false),
    };

    assert_eq!(tap_decision(PlayUiPhase::DestinationSelected, true, facts), TapDecision::StepBack);
    assert_eq!(tap_decision(PlayUiPhase::UnitSelected, true, facts), TapDecision::Clear);
    assert_eq!(tap_decision(PlayUiPhase::Idle, false, facts), TapDecision::OpenProduction);
}

use awbrn_client::actions::{PostMoveAction, UnitOrder};
use awbrn_client::play::{command_request, committed_kind, CommandRequest};

#[test]
fn choosing_unload_sends_a_standalone_command() {
    let order = UnitOrder::Unload { cargo_id: 77, position: Pos::new(2, 3) };

    assert_eq!(
        command_request(order, 42, &[Pos::new(2, 2)]),
        CommandRequest::Unload { transport_id: 42, cargo_id: 77, position: Pos::new(2, 3) }
    );
    assert_eq!(committed_kind(order), CommittedKind::Unload);
}

#[test]
fn ready_unit_offers_delete_and_sends_a_standalone_command() {
    // A ready infantry at (1, 1) on a 3 by 3 board, tapped twice.
    let mut selection = PlaySelection::new();
    selection.select_unit(UNIT, Pos::new(1, 1), vec![(Pos::new(1, 0), 1), (Pos::new(0, 1), 1)], Vec::new());
    selection.confirm_selected_destination(Pos::new(1, 1), &[], reachable(Vec::new()));
    let pending = selection.pending_destination.as_ref().expect("the current-tile menu opens");

    let available = ActionSet {
        attack: Vec::new(),
        capture: false,
        supply: false,
        repair: Vec::new(),
        join: false,
        load: false,
        hide: false,
        reveal: false,
        launch: Vec::new(),
        explode: false,
        wait: true,
    };
    let ActionMenu::Offer { options, .. } = unit_actions_menu(true, Some(&available), &[], true, &[], None, &[], None) else {
        panic!("the current-tile menu opens");
    };
    let delete_index = options
        .iter()
        .position(|option| option.action == UnitOrder::Delete)
        .expect("the current-tile menu must offer deletion");

    let chosen = options[delete_index].action;
    assert_eq!(command_request(chosen, 42, &pending.path), CommandRequest::Delete { unit_id: 42 });
    selection.commit_order(committed_kind(chosen));
    assert_eq!(selection.phase, PlayUiPhase::AwaitingServer);
}

#[test]
fn a_move_carries_the_route_the_menu_was_opened_with() {
    let order = UnitOrder::Move { action: PostMoveAction::Wait };
    let path = [Pos::new(2, 2), Pos::new(2, 1)];

    assert_eq!(
        command_request(order, 42, &path),
        CommandRequest::Move { unit_id: 42, path: path.to_vec(), action: PostMoveAction::Wait }
    );
    assert_eq!(committed_kind(order), CommittedKind::Move);
}
