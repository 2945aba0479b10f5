use awbrn_client::actions::{unit_actions_menu, ActionMenu};
use awbrn_client::actions::{
    build_options, describe_forecast, focus_attack, ActionSet, AttackForecast, DamageBracket, Forecast,
    ForecastTarget, PostMoveAction, Unload, UnitOrder,
};
use awbrn_client::board::{PlayerFaction, Pos};
use awbrn_client::weather::{next_weather, Weather};

fn nothing_available() -> ActionSet {
    ActionSet {
        attack: Vec::new(),
        capture: false,
        supply: false,
        repair: Vec::new(),
        join: false,
        load: false,
        hide: false,
        reveal: false,
        launch: Vec::new(),
        explode: false,
        wait: false,
    }
}

fn names(options: &[awbrn_client::actions::UnitActionOption]) -> Vec<String> {
    options.iter().map(|option| option.name.clone()).collect()
}

fn infantry_target() -> ForecastTarget {
    ForecastTarget::Unit { unit: 1, faction: PlayerFaction(1), health: Some(10) }
}

#[test]
fn orders_are_listed_in_the_order_the_source_game_lists_them() {
    let available = ActionSet {
        attack: vec![Pos::new(3, 1)],
        capture: true,
        wait: true,
        ..nothing_available()
    };
    let unloads = [Unload { cargo_id: 9, destination: Pos::new(2, 2), cargo_name: "Infantry".to_string() }];

    let options = build_options(&available, &unloads, true, &[], None, &[None]);

    assert_eq!(names(&options), vec!["Fire", "Capture", "Unload Infantry", "Wait", "Delete"]);
    assert_eq!(options[0].action, UnitOrder::Move { action: PostMoveAction::Attack { target: Pos::new(3, 1) } });
    assert_eq!(options[2].action, UnitOrder::Unload { cargo_id: 9, position: Pos::new(2, 2) });
    assert_eq!(options[4].action, UnitOrder::Delete);
}

#[test]
fn a_unit_with_nothing_to_do_is_offered_nothing() {
    assert!(build_options(&nothing_available(), &[], false, &[], None, &[]).is_empty());
}

#[test]
fn a_strike_that_always_kills_says_so() {
    let forecast = Forecast {
        attack: DamageBracket { low: 110, high: 120 },
        counter: None,
        counter_first: false,
        target_hp: 100,
    };

    let described = describe_forecast(forecast, Some(infantry_target())).expect("the target is named");

    assert!(described.destroys);
    assert!(!described.may_destroy);
    assert_eq!(describe_forecast(forecast, None), None, "an unnamed target gets no forecast");
}

#[test]
fn a_strike_that_might_kill_says_so() {
    let forecast = Forecast {
        attack: DamageBracket { low: 90, high: 105 },
        counter: Some(DamageBracket { low: 10, high: 12 }),
        counter_first: false,
        target_hp: 100,
    };

    let described = describe_forecast(forecast, Some(infantry_target())).unwrap();

    assert!(!described.destroys);
    assert!(described.may_destroy);
    assert_eq!(described.counter, Some(DamageBracket { low: 10, high: 12 }));
}

#[test]
fn an_aimed_drag_narrows_the_menu_to_its_target() {
    let available = ActionSet {
        attack: vec![Pos::new(3, 1), Pos::new(2, 0)],
        wait: true,
        ..nothing_available()
    };
    let hit = AttackForecast {
        target: infantry_target(),
        damage: DamageBracket { low: 50, high: 60 },
        counter: None,
        counter_first: false,
        destroys: false,
        may_destroy: false,
    };
    let options = build_options(&available, &[], false, &[], None, &[None, Some(hit)]);

    let (focused, preselected) = focus_attack(options, Some(Pos::new(2, 0)));

    assert_eq!(focused.len(), 1);
    assert_eq!(focused[0].action, UnitOrder::Move { action: PostMoveAction::Attack { target: Pos::new(2, 0) } });
    assert_eq!(focused[0].forecast, Some(hit));
    assert_eq!(preselected, Some(0));
}

#[test]
fn an_aim_the_menu_cannot_honour_leaves_it_whole() {
    let available = ActionSet { attack: vec![Pos::new(3, 1)], wait: true, ..nothing_available() };
    let options = build_options(&available, &[], false, &[], None, &[None]);

    let (focused, preselected) = focus_attack(options, Some(Pos::new(0, 0)));

    assert_eq!(names(&focused), vec!["Fire", "Wait"]);
    assert_eq!(preselected, None);
}

#[test]
fn the_weather_toggle_cycles_clear_snow_rain() {
    assert_eq!(next_weather(Weather::Clear), Weather::Snow);
    assert_eq!(next_weather(Weather::Snow), Weather::Rain);
    assert_eq!(next_weather(Weather::Rain), Weather::Clear);
}

fn cargo() -> Vec<Unload> {
    vec![Unload { cargo_id: 9, destination: Pos::new(2, 2), cargo_name: "Infantry".to_string() }]
}

fn offered(menu: ActionMenu) -> Option<(Vec<String>, Option<usize>)> {
    match menu {
        ActionMenu::Close => None,
        ActionMenu::Offer { options, preselected } => Some((names(&options), preselected)),
    }
}

#[test]
fn unloading_and_deleting_are_offered_only_in_place() {
    let available = ActionSet { wait: true, ..nothing_available() };
    let moved = unit_actions_menu(false, Some(&available), &cargo(), true, &[], None, &[], None);
    assert_eq!(offered(moved), Some((vec!["Wait".to_string()], None)));
    let in_place = unit_actions_menu(true, Some(&available), &cargo(), true, &[], None, &[], None);
    assert_eq!(
        offered(in_place),
        Some((vec!["Unload Infantry".to_string(), "Wait".to_string(), "Delete".to_string()], None))
    );
}

#[test]
fn without_an_answer_from_the_rules_only_unloads_and_delete_remain() {
    let fallback = unit_actions_menu(true, None, &cargo(), false, &[], Some(4), &[], None);
    assert_eq!(offered(fallback), Some((vec!["Unload Infantry".to_string()], None)));
    assert!(offered(unit_actions_menu(true, None, &[], false, &[], None, &[], None)).is_none());
    assert!(offered(unit_actions_menu(false, None, &cargo(), true, &[], None, &[], None)).is_none());
}

#[test]
fn an_empty_menu_closes_and_an_aimed_drag_preselects_its_target() {
    assert!(offered(unit_actions_menu(false, Some(&nothing_available()), &[], false, &[], None, &[], None)).is_none());
    let available = ActionSet { attack: vec![Pos::new(1, 0), Pos::new(3, 1)], wait: true, ..nothing_available() };
    let aimed = unit_actions_menu(false, Some(&available), &[], false, &[], None, &[], Some(Pos::new(3, 1)));
    assert_eq!(offered(aimed), Some((vec!["Fire".to_string()], Some(0))));
}
