use awbrn_client::actions::{PostMoveAction, UnitActionOption, UnitOrder};
use awbrn_client::board::TilePosition;
use awbrn_client::production::{production_menu, ProductionOption, SiteFacts};

const BASE: u16 = 35;

fn infantry() -> ProductionOption {
    ProductionOption { unit: 1, name: "Infantry".to_string(), cost: 1000, affordable: true }
}

fn own_base() -> SiteFacts {
    SiteFacts { viewer_turn: true, unit_action_phase: true, owned_by_viewer: true, facility: BASE }
}

#[test]
fn the_viewers_own_base_offers_what_it_builds() {
    let (site, options) = production_menu(true, TilePosition { x: 4, y: 2 }, Some(own_base()), vec![infantry()])
        .expect("the menu opens");

    assert_eq!((site.x, site.y, site.facility), (4, 2, BASE));
    assert_eq!(options.len(), 1);
    assert_eq!(options[0].name, "Infantry");
}

#[test]
fn the_menu_stays_shut_where_nothing_may_be_built() {
    let at = TilePosition { x: 4, y: 2 };
    assert!(production_menu(false, at, Some(own_base()), vec![infantry()]).is_none(), "a spectator builds nothing");
    assert!(production_menu(true, at, None, vec![infantry()]).is_none(), "no such tile");
    assert!(production_menu(true, at, Some(SiteFacts { viewer_turn: false, ..own_base() }), vec![infantry()]).is_none());
    assert!(production_menu(true, at, Some(SiteFacts { owned_by_viewer: false, ..own_base() }), vec![infantry()]).is_none());
    assert!(production_menu(true, at, Some(own_base()), Vec::new()).is_none(), "a site that builds nothing");
    assert!(production_menu(true, TilePosition { x: 300, y: 2 }, Some(own_base()), vec![infantry()]).is_none());
}

#[test]
fn a_plain_order_carries_no_forecast() {
    let option = UnitActionOption::plain("Wait", UnitOrder::Move { action: PostMoveAction::Wait });

    assert_eq!(option.name, "Wait");
    assert_eq!(option.forecast, None);
}
