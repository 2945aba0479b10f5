//! The order menu a unit offers at its destination.
//!
//! Every entry was accepted by the rules against the player's own view of the
//! match; this module names the entries and puts them in the order the
//! source game lists them.
use vstd::prelude::*;
use vstd::string::*;
use crate::board::{Pos, PlayerFaction};

verus! {

/// What a unit does after it moves.
#[derive(Clone, Copy, Debug, PartialEq, Eq, Structural)]
pub enum PostMoveAction {
    Attack { target: Pos },
    Capture,
    Supply,
    Repair { target_id: u64 },
    Join { target_id: u64 },
    Load { transport_id: u64 },
    Hide,
    Unhide,
    Launch { target: Pos },
    Explode,
    Wait,
}

/// One order a unit can be given.
#[derive(Clone, Copy, Debug, PartialEq, Eq, Structural)]
pub enum UnitOrder {
    Move { action: PostMoveAction },
    Unload { cargo_id: u64, position: Pos },
    Delete,
}

/// The damage one strike lands, from its unluckiest roll to its luckiest, in
/// percentage points of a unit at full health.
#[derive(Clone, Copy, Debug, PartialEq, Eq, Structural)]
pub struct DamageBracket {
    pub low: u16,
    pub high: u16,
}

/// Who or what stands on a targeted tile: a unit (its kind, army and shown
/// health) or a destructible tile (its terrain).
#[derive(Clone, Copy, Debug, PartialEq, Eq, Structural)]
pub enum ForecastTarget {
    Unit { unit: u16, faction: PlayerFaction, health: Option<u8> },
    Tile { terrain: u16 },
}

/// What one attack would cost both sides, before any dice.
#[derive(Clone, Copy, Debug, PartialEq, Eq, Structural)]
pub struct AttackForecast {
    pub target: ForecastTarget,
    pub damage: DamageBracket,
    /// What comes back, when anything can.
    pub counter: Option<DamageBracket>,
    /// Whether the defender answers before the shot that provoked it.
    pub counter_first: bool,
    /// Even the unluckiest roll destroys the target.
    pub destroys: bool,
    /// Some roll destroys the target, and some does not.
    pub may_destroy: bool,
}

/// The combat forecast as the rules computed it.
#[derive(Clone, Copy, Debug, PartialEq, Eq, Structural)]
pub struct Forecast {
    pub attack: DamageBracket,
    pub counter: Option<DamageBracket>,
    pub counter_first: bool,
    /// The health the strike would land on.
    pub target_hp: u8,
}

pub open spec fn spec_describe_forecast(forecast: Forecast, target: Option<ForecastTarget>) -> Option<AttackForecast> {
    match target {
        None => None,
        Some(t) => Some(
            AttackForecast {
                target: t,
                damage: forecast.attack,
                counter: forecast.counter,
                counter_first: forecast.counter_first,
                destroys: forecast.attack.low >= forecast.target_hp,
                may_destroy: forecast.attack.low < forecast.target_hp && forecast.attack.high >= forecast.target_hp,
            },
        ),
    }
}

/// Put a name on what the numbers are about. A target the board cannot name
/// gets no forecast at all: an unnamed forecast is worse than none.
///
/// Raw damage is compared against the health it would land on, which is the
/// one place the uncapped figure is read as a capped one.
pub fn describe_forecast(forecast: Forecast, target: Option<ForecastTarget>) -> (described: Option<AttackForecast>)
    ensures
        described == spec_describe_forecast(forecast, target),
{
    let t = match target {
        Some(t) => t,
        None => return None,
    };
    let hp = forecast.target_hp as u16;
    Some(
        AttackForecast {
            target: t,
            damage: forecast.attack,
            counter: forecast.counter,
            counter_first: forecast.counter_first,
            destroys: forecast.attack.low >= hp,
            may_destroy: forecast.attack.low < hp && forecast.attack.high >= hp,
        },
    )
}

/// A forecast never says a strike both surely destroys and only may destroy.
pub proof fn lemma_forecast_verdicts_exclude_each_other(forecast: Forecast, target: ForecastTarget)
    ensures
        ({
            let d = spec_describe_forecast(forecast, Some(target))->0;
            !(d.destroys && d.may_destroy)
        }),
{
}

/// One entry of the menu.
#[derive(Debug, PartialEq, Eq)]
pub struct UnitActionOption {
    /// The label the source game uses for this order.
    pub name: String,
    pub action: UnitOrder,
    /// What firing this order would cost both sides; only on attacks.
    pub forecast: Option<AttackForecast>,
}

pub type OptionView = (Seq<char>, UnitOrder, Option<AttackForecast>);

pub open spec fn option_view(o: UnitActionOption) -> OptionView {
    (o.name@, o.action, o.forecast)
}

pub open spec fn options_view(s: Seq<UnitActionOption>) -> Seq<OptionView> {
    s.map_values(|o: UnitActionOption| option_view(o))
}

impl UnitActionOption {
    /// An order with nothing to forecast, which is every order but an attack.
    pub fn plain(name: &str, action: UnitOrder) -> (option: UnitActionOption)
        ensures
            option_view(option) == plain(name@, action),
    {
        UnitActionOption { name: String::from_str(name), action, forecast: None }
    }
}

/// The orders the rules accept for a unit at its destination.
pub struct ActionSet {
    pub attack: Vec<Pos>,
    pub capture: bool,
    pub supply: bool,
    pub repair: Vec<Pos>,
    pub join: bool,
    pub load: bool,
    pub hide: bool,
    pub reveal: bool,
    pub launch: Vec<Pos>,
    pub explode: bool,
    pub wait: bool,
}

/// One cargo unit that can be put down: its id, where, and its kind's name.
pub struct Unload {
    pub cargo_id: u64,
    pub destination: Pos,
    pub cargo_name: String,
}

pub open spec fn plain(name: Seq<char>, action: UnitOrder) -> OptionView {
    (name, action, None)
}

pub open spec fn fire_options(targets: Seq<Pos>, forecasts: Seq<Option<AttackForecast>>) -> Seq<OptionView> {
    Seq::new(
        targets.len(),
        |i: int|
            ("Fire"@, UnitOrder::Move { action: PostMoveAction::Attack { target: targets[i] } }, if i < forecasts.len() {
                forecasts[i]
            } else {
                None
            }),
    )
}

/// The repair entries: one for each repair target that has a unit id.
pub open spec fn repair_options(target_ids: Seq<Option<u32>>) -> Seq<OptionView>
    decreases target_ids.len(),
{
    if target_ids.len() == 0 {
        Seq::empty()
    } else {
        let earlier = repair_options(target_ids.drop_last());
        match target_ids.last() {
            Some(id) => earlier.push(
                plain("Repair"@, UnitOrder::Move { action: PostMoveAction::Repair { target_id: id as u64 } }),
            ),
            None => earlier,
        }
    }
}

pub open spec fn flag_option(flag: bool, name: Seq<char>, action: UnitOrder) -> Seq<OptionView> {
    if flag {
        seq![plain(name, action)]
    } else {
        Seq::empty()
    }
}

pub open spec fn occupant_options(occupant: Option<u32>, join: bool, load: bool) -> Seq<OptionView> {
    match occupant {
        None => Seq::empty(),
        Some(id) => flag_option(join, "Join"@, UnitOrder::Move { action: PostMoveAction::Join { target_id: id as u64 } })
            + flag_option(load, "Load"@, UnitOrder::Move { action: PostMoveAction::Load { transport_id: id as u64 } }),
    }
}

pub open spec fn unload_options(unloads: Seq<(u64, Pos, Seq<char>)>) -> Seq<OptionView> {
    Seq::new(
        unloads.len(),
        |i: int| plain("Unload "@ + unloads[i].2, UnitOrder::Unload { cargo_id: unloads[i].0, position: unloads[i].1 }),
    )
}

pub open spec fn launch_options(targets: Seq<Pos>) -> Seq<OptionView> {
    Seq::new(targets.len(), |i: int| plain("Launch"@, UnitOrder::Move { action: PostMoveAction::Launch { target: targets[i] } }))
}

pub open spec fn unloads_view(u: Seq<Unload>) -> Seq<(u64, Pos, Seq<char>)> {
    u.map_values(|x: Unload| (x.cargo_id, x.destination, x.cargo_name@))
}

/// The whole menu, in the order the source game lists it.
pub open spec fn spec_build_options(
    available: &ActionSet,
    unloads: Seq<(u64, Pos, Seq<char>)>,
    can_delete: bool,
    repair_target_ids: Seq<Option<u32>>,
    occupant: Option<u32>,
    forecasts: Seq<Option<AttackForecast>>,
) -> Seq<OptionView> {
    fire_options(available.attack@, forecasts)
        + flag_option(available.capture, "Capture"@, UnitOrder::Move { action: PostMoveAction::Capture })
        + flag_option(available.supply, "Supply"@, UnitOrder::Move { action: PostMoveAction::Supply })
        + repair_options(repair_target_ids)
        + occupant_options(occupant, available.join, available.load)
        + flag_option(available.hide, "Dive"@, UnitOrder::Move { action: PostMoveAction::Hide })
        + flag_option(available.reveal, "Surface"@, UnitOrder::Move { action: PostMoveAction::Unhide })
        + unload_options(unloads)
        + launch_options(available.launch@)
        + flag_option(available.explode, "Explode"@, UnitOrder::Move { action: PostMoveAction::Explode })
        + flag_option(available.wait, "Wait"@, UnitOrder::Move { action: PostMoveAction::Wait })
        + flag_option(can_delete, "Delete"@, UnitOrder::Delete)
}

/// Every entry of `s` that gives order `a` is the entry `e`.
pub open spec fn gives_only_as(s: Seq<OptionView>, a: UnitOrder, e: OptionView) -> bool {
    forall|k: int| 0 <= k < s.len() && (#[trigger] s[k]).1 == a ==> s[k] == e
}

/// Some entry of `s` gives order `a`.
pub open spec fn offers(s: Seq<OptionView>, a: UnitOrder) -> bool {
    exists|k: int| 0 <= k < s.len() && (#[trigger] s[k]).1 == a
}

/// The order to dive.
pub open spec fn dive_order() -> UnitOrder {
    UnitOrder::Move { action: PostMoveAction::Hide }
}

/// The order to surface.
pub open spec fn surface_order() -> UnitOrder {
    UnitOrder::Move { action: PostMoveAction::Unhide }
}

pub open spec fn is_repair_order(a: UnitOrder) -> bool {
    a matches UnitOrder::Move { action: PostMoveAction::Repair { .. } }
}

proof fn lemma_joined_menus(x: Seq<OptionView>, y: Seq<OptionView>, a: UnitOrder, e: OptionView)
    ensures
        gives_only_as(x, a, e) && gives_only_as(y, a, e) ==> gives_only_as(x + y, a, e),
        offers(x + y, a) <==> offers(x, a) || offers(y, a),
{
    if offers(x + y, a) {
        let k = choose|k: int| 0 <= k < (x + y).len() && (#[trigger] (x + y)[k]).1 == a;
        if k < x.len() {
            assert(x[k] == (x + y)[k]);
        } else {
            assert(y[k - x.len()] == (x + y)[k]);
        }
    }
    if offers(x, a) {
        let k = choose|k: int| 0 <= k < x.len() && (#[trigger] x[k]).1 == a;
        assert((x + y)[k] == x[k]);
    }
    if offers(y, a) {
        let k = choose|k: int| 0 <= k < y.len() && (#[trigger] y[k]).1 == a;
        assert((x + y)[x.len() + k] == y[k]);
    }
    if gives_only_as(x, a, e) && gives_only_as(y, a, e) {
        assert forall|k: int| 0 <= k < (x + y).len() && (#[trigger] (x + y)[k]).1 == a implies (x + y)[k] == e by {
            if k < x.len() {
                assert(x[k] == (x + y)[k]);
            } else {
                assert(y[k - x.len()] == (x + y)[k]);
            }
        }
    }
}

proof fn lemma_repairs_give_only_repairs(ids: Seq<Option<u32>>, a: UnitOrder, e: OptionView)
    requires
        !is_repair_order(a),
    ensures
        gives_only_as(repair_options(ids), a, e),
        !offers(repair_options(ids), a),
    decreases ids.len(),
{
    if ids.len() > 0 {
        lemma_repairs_give_only_repairs(ids.drop_last(), a, e);
        let earlier = repair_options(ids.drop_last());
        assert forall|k: int| 0 <= k < repair_options(ids).len() implies (#[trigger] repair_options(ids)[k]).1 != a by {
            if k < earlier.len() {
                assert(repair_options(ids)[k] == earlier[k]);
            }
        }
    }
}

/// The parts of the menu, in the order they are listed.
pub open spec fn menu_parts(
    available: &ActionSet,
    unloads: Seq<(u64, Pos, Seq<char>)>,
    can_delete: bool,
    repair_target_ids: Seq<Option<u32>>,
    occupant: Option<u32>,
    forecasts: Seq<Option<AttackForecast>>,
) -> Seq<Seq<OptionView>> {
    seq![
        fire_options(available.attack@, forecasts),
        flag_option(available.capture, "Capture"@, UnitOrder::Move { action: PostMoveAction::Capture }),
        flag_option(available.supply, "Supply"@, UnitOrder::Move { action: PostMoveAction::Supply }),
        repair_options(repair_target_ids),
        occupant_options(occupant, available.join, available.load),
        flag_option(available.hide, "Dive"@, dive_order()),
        flag_option(available.reveal, "Surface"@, surface_order()),
        unload_options(unloads),
        launch_options(available.launch@),
        flag_option(available.explode, "Explode"@, UnitOrder::Move { action: PostMoveAction::Explode }),
        flag_option(available.wait, "Wait"@, UnitOrder::Move { action: PostMoveAction::Wait }),
        flag_option(can_delete, "Delete"@, UnitOrder::Delete),
    ]
}

/// The first `j` parts, one after another.
pub open spec fn joined(parts: Seq<Seq<OptionView>>, j: int) -> Seq<OptionView>
    decreases j,
{
    if j <= 0 {
        Seq::empty()
    } else {
        joined(parts, j - 1) + parts[j - 1]
    }
}

/// The first `j` parts offer a flag's order exactly when they reach the
/// flag's own part and the flag is set, and always under the flag's own
/// name: only the flag's own part gives its order.
proof fn lemma_only_the_flag_gives(parts: Seq<Seq<OptionView>>, at: int, a: UnitOrder, e: OptionView, flag: bool, j: int)
    requires
        0 <= at < parts.len(),
        0 <= j <= parts.len(),
        forall|i: int| 0 <= i < parts.len() && i != at ==> gives_only_as(#[trigger] parts[i], a, e) && !offers(parts[i], a),
        gives_only_as(parts[at], a, e),
        offers(parts[at], a) <==> flag,
    ensures
        offers(joined(parts, j), a) <==> (j > at && flag),
        gives_only_as(joined(parts, j), a, e),
    decreases j,
{
    if j == 0 {
        assert(joined(parts, 0) =~= Seq::<OptionView>::empty());
    } else {
        lemma_only_the_flag_gives(parts, at, a, e, flag, j - 1);
        lemma_joined_menus(joined(parts, j - 1), parts[j - 1], a, e);
    }
}

/// A submarine that may dive is offered "Dive" and one that may surface is
/// offered "Surface": the menu gives the dive order exactly when the rules
/// allow a dive, and the surface order exactly when they allow surfacing,
/// each only under its own name and with nothing to forecast.
pub proof fn lemma_dive_and_surface_follow_the_rules(
    available: &ActionSet,
    unloads: Seq<(u64, Pos, Seq<char>)>,
    can_delete: bool,
    repair_target_ids: Seq<Option<u32>>,
    occupant: Option<u32>,
    forecasts: Seq<Option<AttackForecast>>,
)
    ensures
        offers(spec_build_options(available, unloads, can_delete, repair_target_ids, occupant, forecasts), dive_order())
            <==> available.hide,
        offers(spec_build_options(available, unloads, can_delete, repair_target_ids, occupant, forecasts), surface_order())
            <==> available.reveal,
        gives_only_as(
            spec_build_options(available, unloads, can_delete, repair_target_ids, occupant, forecasts),
            dive_order(),
            plain("Dive"@, dive_order()),
        ),
        gives_only_as(
            spec_build_options(available, unloads, can_delete, repair_target_ids, occupant, forecasts),
            surface_order(),
            plain("Surface"@, surface_order()),
        ),
{
    let parts = menu_parts(available, unloads, can_delete, repair_target_ids, occupant, forecasts);
    let menu = spec_build_options(available, unloads, can_delete, repair_target_ids, occupant, forecasts);
    assert(joined(parts, 12) =~= menu) by {
        reveal_with_fuel(joined, 13);
    }
    let dive = plain("Dive"@, dive_order());
    let surface = plain("Surface"@, surface_order());
    lemma_repairs_give_only_repairs(repair_target_ids, dive_order(), dive);
    lemma_repairs_give_only_repairs(repair_target_ids, surface_order(), surface);
    assert forall|i: int| 0 <= i < 12 && i != 5 implies gives_only_as(#[trigger] parts[i], dive_order(), dive) && !offers(
        parts[i],
        dive_order(),
    ) by {
        let p = parts[i];
        if offers(p, dive_order()) {
            let k = choose|k: int| 0 <= k < p.len() && (#[trigger] p[k]).1 == dive_order();
            assert(p[k].1 == dive_order());
        }
    }
    assert forall|i: int| 0 <= i < 12 && i != 6 implies gives_only_as(#[trigger] parts[i], surface_order(), surface)
        && !offers(parts[i], surface_order()) by {
        let p = parts[i];
        if offers(p, surface_order()) {
            let k = choose|k: int| 0 <= k < p.len() && (#[trigger] p[k]).1 == surface_order();
            assert(p[k].1 == surface_order());
        }
    }
    if available.hide {
        assert(parts[5][0].1 == dive_order());
    }
    if available.reveal {
        assert(parts[6][0].1 == surface_order());
    }
    lemma_only_the_flag_gives(parts, 5, dive_order(), dive, available.hide, 12);
    lemma_only_the_flag_gives(parts, 6, surface_order(), surface, available.reveal, 12);
}

/// The menu's single-entry orders: where each stands among the menu's parts,
/// its name, its order, and whether the rules allow it.
pub open spec fn single_entry(available: &ActionSet, can_delete: bool, at: int) -> (Seq<char>, UnitOrder, bool) {
    if at == 1 {
        ("Capture"@, UnitOrder::Move { action: PostMoveAction::Capture }, available.capture)
    } else if at == 2 {
        ("Supply"@, UnitOrder::Move { action: PostMoveAction::Supply }, available.supply)
    } else if at == 5 {
        ("Dive"@, dive_order(), available.hide)
    } else if at == 6 {
        ("Surface"@, surface_order(), available.reveal)
    } else if at == 9 {
        ("Explode"@, UnitOrder::Move { action: PostMoveAction::Explode }, available.explode)
    } else if at == 10 {
        ("Wait"@, UnitOrder::Move { action: PostMoveAction::Wait }, available.wait)
    } else {
        ("Delete"@, UnitOrder::Delete, can_delete)
    }
}

/// Each single-entry order (Capture, Supply, Dive, Surface, Explode, Wait,
/// Delete) is on the menu exactly when the rules allow it, always under its
/// own name and with nothing to forecast.
#[verifier::rlimit(80)]
#[verifier::spinoff_prover]
pub proof fn lemma_each_order_is_offered_exactly_when_allowed(
    available: &ActionSet,
    unloads: Seq<(u64, Pos, Seq<char>)>,
    can_delete: bool,
    repair_target_ids: Seq<Option<u32>>,
    occupant: Option<u32>,
    forecasts: Seq<Option<AttackForecast>>,
    at: int,
)
    requires
        at == 1 || at == 2 || at == 5 || at == 6 || at == 9 || at == 10 || at == 11,
    ensures
        ({
            let (name, order, allowed) = single_entry(available, can_delete, at);
            let menu = spec_build_options(available, unloads, can_delete, repair_target_ids, occupant, forecasts);
            &&& offers(menu, order) <==> allowed
            &&& gives_only_as(menu, order, plain(name, order))
        }),
{
    let parts = menu_parts(available, unloads, can_delete, repair_target_ids, occupant, forecasts);
    let menu = spec_build_options(available, unloads, can_delete, repair_target_ids, occupant, forecasts);
    assert(joined(parts, 12) =~= menu) by {
        reveal_with_fuel(joined, 13);
    }
    let (name, order, allowed) = single_entry(available, can_delete, at);
    let e = plain(name, order);
    lemma_repairs_give_only_repairs(repair_target_ids, order, e);
    assert forall|i: int| 0 <= i < 12 && i != at implies gives_only_as(#[trigger] parts[i], order, e) && !offers(
        parts[i],
        order,
    ) by {
        let p = parts[i];
        if offers(p, order) {
            let k = choose|k: int| 0 <= k < p.len() && (#[trigger] p[k]).1 == order;
            assert(p[k].1 == order);
        }
    }
    if allowed {
        assert(parts[at][0].1 == order);
    }
    assert(gives_only_as(parts[at], order, e));
    lemma_only_the_flag_gives(parts, at, order, e, allowed, 12);
}

/// The menu opens with one "Fire" entry per target the rules allow, in the
/// order they list the targets, each carrying its own forecast (none where
/// none was computed); it ends with "Delete" when the unit may be deleted,
/// and with "Wait" otherwise when the unit may wait.
pub proof fn lemma_fire_opens_and_delete_closes_the_menu(
    available: &ActionSet,
    unloads: Seq<(u64, Pos, Seq<char>)>,
    can_delete: bool,
    repair_target_ids: Seq<Option<u32>>,
    occupant: Option<u32>,
    forecasts: Seq<Option<AttackForecast>>,
)
    ensures
        ({
            let menu = spec_build_options(available, unloads, can_delete, repair_target_ids, occupant, forecasts);
            &&& menu.len() >= available.attack@.len()
            &&& forall|i: int|
                0 <= i < available.attack@.len() ==> #[trigger] menu[i] == (
                    "Fire"@,
                    UnitOrder::Move { action: PostMoveAction::Attack { target: available.attack@[i] } },
                    if i < forecasts.len() {
                        forecasts[i]
                    } else {
                        None
                    },
                )
            &&& can_delete ==> menu.len() > 0 && menu.last() == plain("Delete"@, UnitOrder::Delete)
            &&& !can_delete && available.wait ==> menu.len() > 0 && menu.last() == plain(
                "Wait"@,
                UnitOrder::Move { action: PostMoveAction::Wait },
            )
        }),
{
    let fire = fire_options(available.attack@, forecasts);
    let menu = spec_build_options(available, unloads, can_delete, repair_target_ids, occupant, forecasts);
    let parts = menu_parts(available, unloads, can_delete, repair_target_ids, occupant, forecasts);
    assert(joined(parts, 12) =~= menu) by {
        reveal_with_fuel(joined, 13);
    }
    lemma_joined_prefix(parts, 12);
    assert forall|i: int| 0 <= i < available.attack@.len() implies #[trigger] menu[i] == fire[i] by {
        assert(joined(parts, 12)[i] == parts[0][i]);
    }
}

/// The first part of the menu stands at its start.
proof fn lemma_joined_prefix(parts: Seq<Seq<OptionView>>, j: int)
    requires
        1 <= j <= parts.len(),
    ensures
        joined(parts, j).len() >= parts[0].len(),
        forall|i: int| 0 <= i < parts[0].len() ==> #[trigger] joined(parts, j)[i] == parts[0][i],
    decreases j,
{
    if j == 1 {
        assert(joined(parts, 0) =~= Seq::<OptionView>::empty());
        assert(joined(parts, 1) =~= parts[0]);
    } else {
        lemma_joined_prefix(parts, j - 1);
        assert forall|i: int| 0 <= i < parts[0].len() implies #[trigger] joined(parts, j)[i] == parts[0][i] by {
            assert(joined(parts, j)[i] == joined(parts, j - 1)[i]);
        }
    }
}

fn push_plain(options: &mut Vec<UnitActionOption>, name: &str, action: UnitOrder)
    ensures
        options_view(final(options)@) == options_view(old(options)@).push(plain(name@, action)),
{
    let ghost before = options@;
    options.push(UnitActionOption { name: String::from_str(name), action, forecast: None });
    proof {
        assert(options_view(options@) =~= options_view(before).push(plain(name@, action)));
    }
}

fn push_flag(options: &mut Vec<UnitActionOption>, flag: bool, name: &str, action: UnitOrder)
    ensures
        options_view(final(options)@) == options_view(old(options)@) + flag_option(flag, name@, action),
{
    if flag {
        push_plain(options, name, action);
        proof {
            assert(seq![plain(name@, action)] =~= flag_option(flag, name@, action));
            assert(options_view(old(options)@).push(plain(name@, action)) =~= options_view(old(options)@)
                + seq![plain(name@, action)]);
        }
    } else {
        proof {
            assert(options_view(old(options)@) + flag_option(flag, name@, action) =~= options_view(old(options)@));
        }
    }
}

fn push_fire_options(options: &mut Vec<UnitActionOption>, targets: &[Pos], forecasts: &[Option<AttackForecast>])
    ensures
        options_view(final(options)@) == options_view(old(options)@) + fire_options(targets@, forecasts@),
{
    let ghost base = options_view(options@);
    let mut i: usize = 0;
    while i < targets.len()
        invariant
            0 <= i <= targets@.len(),
            options_view(options@) == base + fire_options(targets@, forecasts@).take(i as int),
        decreases targets@.len() - i,
    {
        let forecast = if i < forecasts.len() {
            forecasts[i]
        } else {
            None
        };
        let ghost before = options@;
        let option = UnitActionOption {
            name: String::from_str("Fire"),
            action: UnitOrder::Move { action: PostMoveAction::Attack { target: targets[i] } },
            forecast,
        };
        assert(option_view(option) == fire_options(targets@, forecasts@)[i as int]);
        options.push(option);
        proof {
            assert(options_view(options@) =~= options_view(before).push(option_view(option)));
            assert(fire_options(targets@, forecasts@).take(i + 1) =~= fire_options(targets@, forecasts@).take(
                i as int,
            ).push(fire_options(targets@, forecasts@)[i as int]));
        }
        i = i + 1;
    }
    proof {
        assert(fire_options(targets@, forecasts@).take(targets@.len() as int) =~= fire_options(targets@, forecasts@));
    }
}

fn push_repair_options(options: &mut Vec<UnitActionOption>, target_ids: &[Option<u32>])
    ensures
        options_view(final(options)@) == options_view(old(options)@) + repair_options(target_ids@),
{
    let ghost base = options_view(options@);
    let mut r: usize = 0;
    while r < target_ids.len()
        invariant
            0 <= r <= target_ids@.len(),
            options_view(options@) == base + repair_options(target_ids@.take(r as int)),
        decreases target_ids@.len() - r,
    {
        proof {
            assert(target_ids@.take(r + 1).drop_last() =~= target_ids@.take(r as int));
        }
        match target_ids[r] {
            Some(id) => {
                let ghost mid = options_view(options@);
                push_plain(options, "Repair", UnitOrder::Move { action: PostMoveAction::Repair { target_id: id as u64 } });
                proof {
                    assert(base + repair_options(target_ids@.take(r + 1)) =~= mid.push(
                        plain("Repair"@, UnitOrder::Move { action: PostMoveAction::Repair { target_id: id as u64 } }),
                    ));
                }
            },
            None => {
                proof {
                    assert(repair_options(target_ids@.take(r + 1)) =~= repair_options(target_ids@.take(r as int)));
                }
            },
        }
        r = r + 1;
    }
    proof {
        assert(target_ids@.take(target_ids@.len() as int) =~= target_ids@);
    }
}

fn push_unload_options(options: &mut Vec<UnitActionOption>, unloads: &[Unload])
    ensures
        options_view(final(options)@) == options_view(old(options)@) + unload_options(unloads_view(unloads@)),
{
    let ghost base = options_view(options@);
    let mut u: usize = 0;
    while u < unloads.len()
        invariant
            0 <= u <= unloads@.len(),
            options_view(options@) == base + unload_options(unloads_view(unloads@)).take(u as int),
        decreases unloads@.len() - u,
    {
        let mut name = String::from_str("Unload ");
        name.append(unloads[u].cargo_name.as_str());
        let ghost before = options@;
        let option = UnitActionOption {
            name,
            action: UnitOrder::Unload { cargo_id: unloads[u].cargo_id, position: unloads[u].destination },
            forecast: None,
        };
        assert(option_view(option) == unload_options(unloads_view(unloads@))[u as int]);
        options.push(option);
        proof {
            assert(options_view(options@) =~= options_view(before).push(option_view(option)));
            assert(unload_options(unloads_view(unloads@)).take(u + 1) =~= unload_options(unloads_view(unloads@)).take(
                u as int,
            ).push(unload_options(unloads_view(unloads@))[u as int]));
        }
        u = u + 1;
    }
    proof {
        assert(unload_options(unloads_view(unloads@)).take(unloads@.len() as int) =~= unload_options(
            unloads_view(unloads@),
        ));
    }
}

fn push_launch_options(options: &mut Vec<UnitActionOption>, targets: &[Pos])
    ensures
        options_view(final(options)@) == options_view(old(options)@) + launch_options(targets@),
{
    let ghost base = options_view(options@);
    let mut l: usize = 0;
    while l < targets.len()
        invariant
            0 <= l <= targets@.len(),
            options_view(options@) == base + launch_options(targets@).take(l as int),
        decreases targets@.len() - l,
    {
        let ghost mid = options_view(options@);
        push_plain(options, "Launch", UnitOrder::Move { action: PostMoveAction::Launch { target: targets[l] } });
        proof {
            assert(launch_options(targets@).take(l + 1) =~= launch_options(targets@).take(l as int).push(
                launch_options(targets@)[l as int],
            ));
        }
        l = l + 1;
    }
    proof {
        assert(launch_options(targets@).take(targets@.len() as int) =~= launch_options(targets@));
    }
}

fn push_occupant_options(options: &mut Vec<UnitActionOption>, occupant: Option<u32>, join: bool, load: bool)
    ensures
        options_view(final(options)@) == options_view(old(options)@) + occupant_options(occupant, join, load),
{
    let ghost base = options_view(options@);
    match occupant {
        Some(id) => {
            push_flag(options, join, "Join", UnitOrder::Move { action: PostMoveAction::Join { target_id: id as u64 } });
            push_flag(options, load, "Load", UnitOrder::Move { action: PostMoveAction::Load { transport_id: id as u64 } });
            proof {
                assert(options_view(options@) =~= base + occupant_options(occupant, join, load));
            }
        },
        None => {
            proof {
                assert(options_view(options@) =~= base + occupant_options(occupant, join, load));
            }
        },
    }
}

/// Name the available orders, in the order the source game lists them.
///
/// `repair_target_ids[i]` is the unit id standing on `available.repair[i]`
/// (absent when none), `occupant` the unit id already on the destination,
/// and `forecasts[i]` the named forecast for `available.attack[i]`.
pub fn build_options(
    available: &ActionSet,
    unloads: &[Unload],
    can_delete: bool,
    repair_target_ids: &[Option<u32>],
    occupant: Option<u32>,
    forecasts: &[Option<AttackForecast>],
) -> (options: Vec<UnitActionOption>)
    ensures
        options_view(options@) == spec_build_options(
            available,
            unloads_view(unloads@),
            can_delete,
            repair_target_ids@,
            occupant,
            forecasts@,
        ),
{
    let mut options: Vec<UnitActionOption> = Vec::new();
    proof {
        assert(options_view(options@) =~= Seq::empty());
    }
    push_fire_options(&mut options, available.attack.as_slice(), forecasts);
    push_flag(&mut options, available.capture, "Capture", UnitOrder::Move { action: PostMoveAction::Capture });
    push_flag(&mut options, available.supply, "Supply", UnitOrder::Move { action: PostMoveAction::Supply });
    push_repair_options(&mut options, repair_target_ids);
    push_occupant_options(&mut options, occupant, available.join, available.load);
    push_flag(&mut options, available.hide, "Dive", UnitOrder::Move { action: PostMoveAction::Hide });
    push_flag(&mut options, available.reveal, "Surface", UnitOrder::Move { action: PostMoveAction::Unhide });
    push_unload_options(&mut options, unloads);
    push_launch_options(&mut options, available.launch.as_slice());
    push_flag(&mut options, available.explode, "Explode", UnitOrder::Move { action: PostMoveAction::Explode });
    push_flag(&mut options, available.wait, "Wait", UnitOrder::Move { action: PostMoveAction::Wait });
    push_flag(&mut options, can_delete, "Delete", UnitOrder::Delete);
    proof {
        assert(Seq::<OptionView>::empty() + fire_options(available.attack@, forecasts@) =~= fire_options(
            available.attack@,
            forecasts@,
        ));
    }
    options
}

} // verus!

verus! {

pub open spec fn is_attack_on(o: OptionView, target: Pos) -> bool {
    o.1 == UnitOrder::Move { action: PostMoveAction::Attack { target } }
}

/// The entries that fire on `target`, in menu order.
pub open spec fn attacks_on(options: Seq<OptionView>, target: Pos) -> Seq<OptionView>
    decreases options.len(),
{
    if options.len() == 0 {
        Seq::empty()
    } else {
        let earlier = attacks_on(options.drop_last(), target);
        if is_attack_on(options.last(), target) {
            earlier.push(options.last())
        } else {
            earlier
        }
    }
}

/// The aim a drag carried, when the menu offers an attack on it.
pub open spec fn honoured_intent(options: Seq<OptionView>, intent: Option<Pos>) -> Option<Pos> {
    match intent {
        Some(t) => if exists|i: int| 0 <= i < options.len() && is_attack_on(#[trigger] options[i], t) {
            Some(t)
        } else {
            None
        },
        None => None,
    }
}

proof fn lemma_attacks_on_all_match(options: Seq<OptionView>, target: Pos)
    ensures
        forall|i: int| 0 <= i < attacks_on(options, target).len() ==> is_attack_on(#[trigger] attacks_on(options, target)[i], target),
        (exists|i: int| 0 <= i < options.len() && is_attack_on(#[trigger] options[i], target)) ==> attacks_on(
            options,
            target,
        ).len() > 0,
    decreases options.len(),
{
    if options.len() > 0 {
        lemma_attacks_on_all_match(options.drop_last(), target);
        if exists|i: int| 0 <= i < options.len() && is_attack_on(#[trigger] options[i], target) {
            let i = choose|i: int| 0 <= i < options.len() && is_attack_on(#[trigger] options[i], target);
            if i < options.len() - 1 {
                assert(options.drop_last()[i] == options[i]);
            }
        }
    }
}

fn order_is_attack_on(action: UnitOrder, target: Pos) -> (is: bool)
    ensures
        is == (action == UnitOrder::Move { action: PostMoveAction::Attack { target } }),
{
    match action {
        UnitOrder::Move { action: PostMoveAction::Attack { target: at } } => at == target,
        _ => false,
    }
}

/// Narrow the menu to the aim a drag carried.
///
/// Selecting an enemy on the board is a complete target choice, so when the
/// menu offers an attack on the enemy a drag was aimed at, only the attacks
/// on that enemy stay, and the first of them is preselected. Otherwise the
/// menu is left whole with nothing preselected.
pub fn focus_attack(options: Vec<UnitActionOption>, attack_intent: Option<Pos>) -> (focused: (Vec<UnitActionOption>, Option<usize>))
    ensures
        match honoured_intent(options_view(options@), attack_intent) {
            Some(t) => options_view(focused.0@) == attacks_on(options_view(options@), t) && focused.1 == Some(0usize)
                && focused.0@.len() > 0,
            None => options_view(focused.0@) == options_view(options@) && focused.1 is None,
        },
{
    let target = match attack_intent {
        Some(t) => t,
        None => return (options, None),
    };
    let ghost all = options_view(options@);
    let mut found = false;
    let mut i: usize = 0;
    while i < options.len()
        invariant
            0 <= i <= options@.len(),
            all == options_view(options@),
            found <==> exists|j: int| 0 <= j < i && is_attack_on(#[trigger] all[j], target),
        decreases options@.len() - i,
    {
        if order_is_attack_on(options[i].action, target) {
            found = true;
            proof {
                assert(is_attack_on(all[i as int], target));
            }
        }
        i = i + 1;
    }
    if !found {
        return (options, None);
    }
    let mut kept: Vec<UnitActionOption> = Vec::new();
    let mut rest = options;
    let ghost n = rest@.len();
    // Walk the menu from its end, keeping the attacks on the aim, so that the
    // entries can be moved rather than copied.
    let mut reversed: Vec<UnitActionOption> = Vec::new();
    while rest.len() > 0
        invariant
            rest@.len() <= n,
            n == all.len(),
            options_view(rest@) == all.take(rest@.len() as int),
            attacks_on(all, target) == attacks_on(options_view(rest@), target) + options_view(reversed@).reverse(),
        decreases rest@.len(),
    {
        let ghost before_rest = options_view(rest@);
        let ghost before_rev = options_view(reversed@);
        let option = rest.pop().unwrap();
        proof {
            assert(options_view(rest@) =~= before_rest.drop_last());
            assert(option_view(option) == before_rest.last());
            assert(options_view(rest@) == all.take(rest@.len() as int)) by {
                assert(all.take(rest@.len() as int) =~= all.take(rest@.len() as int + 1).drop_last());
            }
        }
        if order_is_attack_on(option.action, target) {
            reversed.push(option);
            proof {
                assert(options_view(reversed@) =~= before_rev.push(option_view(option)));
                assert(before_rev.push(option_view(option)).reverse() =~= seq![option_view(option)] + before_rev.reverse());
                assert(attacks_on(before_rest, target) == attacks_on(before_rest.drop_last(), target).push(before_rest.last()));
                assert(attacks_on(options_view(rest@), target) + options_view(reversed@).reverse() =~= attacks_on(
                    before_rest,
                    target,
                ) + before_rev.reverse());
            }
        } else {
            proof {
                assert(attacks_on(before_rest, target) == attacks_on(before_rest.drop_last(), target));
            }
        }
    }
    proof {
        assert(attacks_on(options_view(rest@), target) =~= Seq::empty());
        assert(attacks_on(all, target) =~= options_view(reversed@).reverse());
    }
    while reversed.len() > 0
        invariant
            attacks_on(all, target) == options_view(kept@) + options_view(reversed@).reverse(),
        decreases reversed@.len(),
    {
        let ghost before_rev = options_view(reversed@);
        let ghost before_kept = options_view(kept@);
        let option = reversed.pop().unwrap();
        kept.push(option);
        proof {
            assert(options_view(reversed@) =~= before_rev.drop_last());
            assert(option_view(option) == before_rev.last());
            assert(options_view(kept@) =~= before_kept.push(option_view(option)));
            assert(before_rev.reverse() =~= seq![before_rev.last()] + before_rev.drop_last().reverse());
            assert(options_view(kept@) + options_view(reversed@).reverse() =~= before_kept + before_rev.reverse());
        }
    }
    proof {
        assert(options_view(kept@) =~= attacks_on(all, target));
        lemma_attacks_on_all_match(all, target);
    }
    (kept, Some(0))
}

} // verus!

verus! {

/// What the order menu does once the rules have answered: close, or offer
/// these entries with this one preselected.
#[derive(Debug)]
pub enum ActionMenu {
    Close,
    Offer { options: Vec<UnitActionOption>, preselected: Option<usize> },
}

pub open spec fn menu_view(menu: ActionMenu) -> Option<(Seq<OptionView>, Option<usize>)> {
    match menu {
        ActionMenu::Close => None,
        ActionMenu::Offer { options, preselected } => Some((options_view(options@), preselected)),
    }
}

/// The menu before a drag's aim narrows it: `None` where the menu closes
/// because the rules gave no answer and nothing else can be offered.
///
/// Unloading and deleting are offered only for a unit acting where it
/// stands. Where the rules could not say what the unit may do, the menu
/// still offers those, and closes when there are none.
pub open spec fn spec_menu_entries(
    in_place: bool,
    available: Option<&ActionSet>,
    unloads: Seq<(u64, Pos, Seq<char>)>,
    can_delete: bool,
    repair_target_ids: Seq<Option<u32>>,
    occupant: Option<u32>,
    forecasts: Seq<Option<AttackForecast>>,
) -> Option<Seq<OptionView>> {
    let offered_unloads = if in_place {
        unloads
    } else {
        Seq::empty()
    };
    let delete = in_place && can_delete;
    match available {
        Some(a) => Some(spec_build_options(a, offered_unloads, delete, repair_target_ids, occupant, forecasts)),
        None => if offered_unloads.len() > 0 || delete {
            Some(unload_options(offered_unloads) + flag_option(delete, "Delete"@, UnitOrder::Delete))
        } else {
            None
        },
    }
}

/// The menu as offered: narrowed to a drag's aim and preselected when the
/// menu fires on it, and closed when nothing is left to offer.
pub open spec fn spec_unit_actions_menu(entries: Option<Seq<OptionView>>, attack_intent: Option<Pos>) -> Option<(Seq<OptionView>, Option<usize>)> {
    match entries {
        None => None,
        Some(all) => match honoured_intent(all, attack_intent) {
            Some(t) => Some((attacks_on(all, t), Some(0usize))),
            None => if all.len() == 0 {
                None
            } else {
                Some((all, None))
            },
        },
    }
}

/// Decide the order menu for a unit at its proposed destination.
///
/// `in_place` says whether the destination is where the unit stands;
/// `available` is the rules' answer for the destination (absent where they
/// could not give one), `unloads` and `can_delete` what the unit could put
/// down or have deleted where it stands, `repair_target_ids`, `occupant` and
/// `forecasts` as `build_options` takes them (`forecasts` empty where none
/// could be computed), and `attack_intent` the enemy a drag was aimed at.
pub fn unit_actions_menu(
    in_place: bool,
    available: Option<&ActionSet>,
    unloads: &[Unload],
    can_delete: bool,
    repair_target_ids: &[Option<u32>],
    occupant: Option<u32>,
    forecasts: &[Option<AttackForecast>],
    attack_intent: Option<Pos>,
) -> (menu: ActionMenu)
    ensures
        menu_view(menu) == spec_unit_actions_menu(
            spec_menu_entries(
                in_place,
                available,
                unloads_view(unloads@),
                can_delete,
                repair_target_ids@,
                occupant,
                forecasts@,
            ),
            attack_intent,
        ),
{
    let nothing: Vec<Unload> = Vec::new();
    let offered_unloads: &[Unload] = if in_place {
        unloads
    } else {
        nothing.as_slice()
    };
    proof {
        if !in_place {
            assert(unloads_view(offered_unloads@) =~= Seq::empty());
        }
    }
    let delete = in_place && can_delete;
    let options = match available {
        Some(a) => build_options(a, offered_unloads, delete, repair_target_ids, occupant, forecasts),
        None => {
            if offered_unloads.len() == 0 && !delete {
                return ActionMenu::Close;
            }
            let none = ActionSet {
                attack: Vec::new(),
                capture: false,
                supply: false,
                repair: Vec::new(),
                join: false,
                load: false,
                hide: false,
                reveal: false,
                launch: Vec::new(),
                explode: false,
                wait: false,
            };
            let no_repairs: Vec<Option<u32>> = Vec::new();
            let no_forecasts: Vec<Option<AttackForecast>> = Vec::new();
            let options = build_options(&none, offered_unloads, delete, no_repairs.as_slice(), None, no_forecasts.as_slice());
            proof {
                let u = unloads_view(offered_unloads@);
                assert(fire_options(none.attack@, no_forecasts@) =~= Seq::empty());
                assert(launch_options(none.launch@) =~= Seq::empty());
                assert(repair_options(no_repairs@) =~= Seq::empty());
                assert(spec_build_options(&none, u, delete, no_repairs@, None, no_forecasts@) =~= unload_options(u)
                    + flag_option(delete, "Delete"@, UnitOrder::Delete));
            }
            options
        },
    };
    let (focused, preselected) = focus_attack(options, attack_intent);
    if focused.len() == 0 {
        return ActionMenu::Close;
    }
    ActionMenu::Offer { options: focused, preselected }
}

} // verus!
