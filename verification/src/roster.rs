//! The player roster: who is seated, what each seat holds, and what the
//! roster panel is allowed to say about each of them.
use vstd::prelude::*;
use std::collections::HashMap;
use crate::board::PlayerFaction;

verus! {

broadcast use vstd::std_specs::hash::group_hash_axioms;

/// Funds per seat. A seat the roster has not heard about holds nothing.
#[derive(Debug)]
pub struct PlayerFunds(pub HashMap<u32, u32>);

impl View for PlayerFunds {
    type V = Map<u32, u32>;

    open spec fn view(&self) -> Map<u32, u32> {
        self.0@
    }
}

pub open spec fn funds_of(funds: Map<u32, u32>, player_id: u32) -> u32 {
    if funds.contains_key(player_id) {
        funds[player_id]
    } else {
        0
    }
}

pub open spec fn saturating_sub(a: u32, b: u32) -> u32 {
    if a >= b {
        (a - b) as u32
    } else {
        0
    }
}

impl PlayerFunds {
    pub fn new() -> (funds: PlayerFunds)
        ensures
            funds@ == Map::<u32, u32>::empty(),
    {
        PlayerFunds(HashMap::new())
    }

    pub fn set(&mut self, player_id: u32, funds: u32)
        ensures
            final(self)@ == old(self)@.insert(player_id, funds),
    {
        self.0.insert(player_id, funds);
    }

    /// Spend `amount`; funds never go below zero.
    pub fn subtract(&mut self, player_id: u32, amount: u32)
        ensures
            final(self)@ == old(self)@.insert(
                player_id,
                saturating_sub(funds_of(old(self)@, player_id), amount),
            ),
    {
        let current = self.get(player_id);
        let next = if current >= amount { current - amount } else { 0 };
        self.0.insert(player_id, next);
    }

    pub fn get(&self, player_id: u32) -> (funds: u32)
        ensures
            funds == funds_of(self@, player_id),
    {
        match self.0.get(&player_id) {
            Some(value) => *value,
            None => 0,
        }
    }
}

/// What each unit was bought for, by unit id.
#[derive(Debug)]
pub struct PlayerUnitCosts(pub HashMap<u32, u32>);

impl View for PlayerUnitCosts {
    type V = Map<u32, u32>;

    open spec fn view(&self) -> Map<u32, u32> {
        self.0@
    }
}

pub open spec fn cost_of(costs: Map<u32, u32>, unit_id: u32) -> Option<u32> {
    if costs.contains_key(unit_id) {
        Some(costs[unit_id])
    } else {
        None
    }
}

impl PlayerUnitCosts {
    pub fn new() -> (costs: PlayerUnitCosts)
        ensures
            costs@ == Map::<u32, u32>::empty(),
    {
        PlayerUnitCosts(HashMap::new())
    }

    pub fn set(&mut self, unit_id: u32, cost: u32)
        ensures
            final(self)@ == old(self)@.insert(unit_id, cost),
    {
        self.0.insert(unit_id, cost);
    }

    pub fn get(&self, unit_id: u32) -> (cost: Option<u32>)
        ensures
            cost == cost_of(self@, unit_id),
    {
        match self.0.get(&unit_id) {
            Some(value) => Some(*value),
            None => None,
        }
    }
}

/// The two powers a commander can activate.
#[derive(Clone, Copy, Debug, PartialEq, Eq, Structural)]
pub enum PowerLevel {
    Cop,
    Scop,
}

/// Public power meter values for the active commander of one player.
#[derive(Clone, Copy, Debug, PartialEq, Eq, Structural)]
pub struct PlayerPowerMeter {
    pub charge: u32,
    pub cop_cost: Option<u32>,
    pub scop_cost: Option<u32>,
    /// Charge that one star is worth at this player's current use count.
    pub star_charge: Option<u32>,
    /// The power that this player has active.
    pub active_power: Option<PowerLevel>,
}

/// Power meters per seat.
#[derive(Debug)]
pub struct PlayerPowerMeters(pub HashMap<u32, PlayerPowerMeter>);

impl View for PlayerPowerMeters {
    type V = Map<u32, PlayerPowerMeter>;

    open spec fn view(&self) -> Map<u32, PlayerPowerMeter> {
        self.0@
    }
}

pub open spec fn meter_of(meters: Map<u32, PlayerPowerMeter>, player_id: u32) -> Option<PlayerPowerMeter> {
    if meters.contains_key(player_id) {
        Some(meters[player_id])
    } else {
        None
    }
}

impl PlayerPowerMeters {
    pub fn new() -> (meters: PlayerPowerMeters)
        ensures
            meters@ == Map::<u32, PlayerPowerMeter>::empty(),
    {
        PlayerPowerMeters(HashMap::new())
    }

    pub fn set(&mut self, player_id: u32, meter: PlayerPowerMeter)
        ensures
            final(self)@ == old(self)@.insert(player_id, meter),
    {
        self.0.insert(player_id, meter);
    }

    pub fn get(&self, player_id: u32) -> (meter: Option<PlayerPowerMeter>)
        ensures
            meter == meter_of(self@, player_id),
    {
        match self.0.get(&player_id) {
            Some(value) => Some(*value),
            None => None,
        }
    }
}

/// One change an archived action makes to a seat's funds.
#[derive(Clone, Copy, Debug, PartialEq, Eq, Structural)]
pub enum FundUpdate {
    SetTo(u32),
    Subtract(u32),
}

pub open spec fn apply_fund_update(funds: Map<u32, u32>, player_id: u32, update: FundUpdate) -> Map<u32, u32> {
    match update {
        FundUpdate::SetTo(value) => funds.insert(player_id, value),
        FundUpdate::Subtract(amount) => funds.insert(
            player_id,
            saturating_sub(funds_of(funds, player_id), amount),
        ),
    }
}

/// The funds after the first `n` updates, in order.
pub open spec fn apply_fund_updates_spec(funds: Map<u32, u32>, updates: Seq<(u32, FundUpdate)>, n: int) -> Map<u32, u32>
    decreases n,
{
    if n <= 0 {
        funds
    } else {
        let earlier = apply_fund_updates_spec(funds, updates, n - 1);
        apply_fund_update(earlier, updates[n - 1].0, updates[n - 1].1)
    }
}

/// Apply the fund changes of one action, in the order the action lists them.
pub fn apply_fund_updates(funds: &mut PlayerFunds, updates: &[(u32, FundUpdate)])
    ensures
        final(funds)@ == apply_fund_updates_spec(old(funds)@, updates@, updates@.len() as int),
{
    let mut i: usize = 0;
    while i < updates.len()
        invariant
            0 <= i <= updates@.len(),
            funds@ == apply_fund_updates_spec(old(funds)@, updates@, i as int),
        decreases updates@.len() - i,
    {
        let (player_id, update) = updates[i];
        match update {
            FundUpdate::SetTo(value) => funds.set(player_id, value),
            FundUpdate::Subtract(amount) => funds.subtract(player_id, amount),
        }
        i = i + 1;
    }
}

/// Setting a seat's funds and reading them back gives what was set, and
/// leaves every other seat as it was.
pub proof fn lemma_funds_read_back_what_was_set(funds: Map<u32, u32>, player_id: u32, value: u32, other: u32)
    requires
        other != player_id,
    ensures
        funds_of(funds.insert(player_id, value), player_id) == value,
        funds_of(funds.insert(player_id, value), other) == funds_of(funds, other),
{
}

/// Spending never takes a seat below zero, and never raises its funds: it
/// takes exactly the amount, or everything when the amount is larger.
pub proof fn lemma_spending_saturates_at_zero(funds: Map<u32, u32>, player_id: u32, amount: u32)
    ensures
        ({
            let after = funds_of(apply_fund_update(funds, player_id, FundUpdate::Subtract(amount)), player_id);
            &&& after <= funds_of(funds, player_id)
            &&& funds_of(funds, player_id) >= amount ==> after == funds_of(funds, player_id) - amount
            &&& funds_of(funds, player_id) < amount ==> after == 0
        }),
{
}

} // verus!

verus! {

/// One seat of the roster, as the panel names it.
#[derive(Debug)]
pub struct PlayerRosterPlayer {
    pub player_id: u32,
    pub user_id: u32,
    pub turn_order: u32,
    pub team: Option<String>,
    pub eliminated: bool,
    pub faction: PlayerFaction,
    pub faction_code: String,
    pub faction_name: String,
    pub co_key: Option<String>,
    pub co_name: Option<String>,
    pub tag_co_key: Option<String>,
    pub tag_co_name: Option<String>,
}

/// The seats of a match, in turn order.
#[derive(Debug)]
pub struct PlayerRosterConfig {
    pub match_id: u32,
    pub map_id: u32,
    pub funds_per_property: u32,
    pub players: Vec<PlayerRosterPlayer>,
}

/// The seat playing `faction`: the first seat that plays it.
pub open spec fn seat_for_faction(players: Seq<PlayerRosterPlayer>, faction: PlayerFaction) -> Option<u32>
    decreases players.len(),
{
    if players.len() == 0 {
        None
    } else if players[0].faction == faction {
        Some(players[0].player_id)
    } else {
        seat_for_faction(players.drop_first(), faction)
    }
}

/// The seat playing `faction`, if any seat plays it.
pub fn player_id_for_faction(config: &PlayerRosterConfig, faction: PlayerFaction) -> (player_id: Option<u32>)
    ensures
        player_id == seat_for_faction(config.players@, faction),
{
    let mut i: usize = 0;
    proof {
        assert(config.players@.skip(0) =~= config.players@);
    }
    while i < config.players.len()
        invariant
            0 <= i <= config.players@.len(),
            seat_for_faction(config.players@.skip(i as int), faction) == seat_for_faction(config.players@, faction),
        decreases config.players@.len() - i,
    {
        proof {
            assert(config.players@.skip(i as int).drop_first() =~= config.players@.skip(i + 1));
        }
        if config.players[i].faction == faction {
            return Some(config.players[i].player_id);
        }
        i = i + 1;
    }
    None
}

/// The byte a team is named by: the first byte of its name.
pub open spec fn team_byte(team: Option<String>) -> Option<u8> {
    match team {
        Some(name) => {
            let bytes = vstd::utf8::encode_utf8(name@);
            if bytes.len() > 0 {
                Some(bytes[0])
            } else {
                None
            }
        },
        None => None,
    }
}

/// The seats on one team, in roster order.
pub open spec fn seats_on_team(players: Seq<PlayerRosterPlayer>, team: u8) -> Seq<u32>
    decreases players.len(),
{
    if players.len() == 0 {
        Seq::empty()
    } else {
        let last = players[players.len() - 1];
        let earlier = seats_on_team(players.drop_last(), team);
        if team_byte(last.team) == Some(team) {
            earlier.push(last.player_id)
        } else {
            earlier
        }
    }
}

fn first_team_byte(team: &Option<String>) -> (byte: Option<u8>)
    ensures
        byte == team_byte(*team),
{
    match team {
        Some(name) => {
            let bytes = name.as_str().as_bytes();
            if bytes.len() > 0 {
                Some(bytes[0])
            } else {
                None
            }
        },
        None => None,
    }
}

/// The seats on team `team`. AWBW encodes teams as single ASCII letters, so
/// the team id is compared against the first byte of each seat's team name.
pub fn player_ids_for_team(config: &PlayerRosterConfig, team: u8) -> (players: Vec<u32>)
    ensures
        players@ == seats_on_team(config.players@, team),
{
    let mut players: Vec<u32> = Vec::new();
    let mut i: usize = 0;
    while i < config.players.len()
        invariant
            0 <= i <= config.players@.len(),
            players@ == seats_on_team(config.players@.take(i as int), team),
        decreases config.players@.len() - i,
    {
        proof {
            assert(config.players@.take(i + 1).drop_last() =~= config.players@.take(i as int));
        }
        if first_team_byte(&config.players[i].team) == Some(team) {
            players.push(config.players[i].player_id);
        }
        i = i + 1;
    }
    proof {
        assert(config.players@.take(config.players@.len() as int) =~= config.players@);
    }
    players
}

/// Whom an archived change is addressed to.
#[derive(Clone, Copy, Debug, PartialEq, Eq, Structural)]
pub enum TargetedPlayer {
    Player(u32),
    Team(u8),
    Global,
}

/// The seats a change addressed to `subject` applies to; `None` for a change
/// addressed to everyone, which names no seat.
pub fn targeted_players(config: &PlayerRosterConfig, subject: TargetedPlayer) -> (players: Option<Vec<u32>>)
    ensures
        match subject {
            TargetedPlayer::Player(id) => players matches Some(p) && p@ == seq![id],
            TargetedPlayer::Team(team) => players matches Some(p) && p@ == seats_on_team(config.players@, team),
            TargetedPlayer::Global => players is None,
        },
{
    match subject {
        TargetedPlayer::Player(id) => {
            let mut players = Vec::new();
            players.push(id);
            Some(players)
        },
        TargetedPlayer::Team(team) => Some(player_ids_for_team(config, team)),
        TargetedPlayer::Global => None,
    }
}

} // verus!

verus! {

/// One unit on the board, as the roster counts it: its id, its army, the
/// health it shows (absent for a unit drawn without one, read as full), and
/// what its kind costs to build.
#[derive(Clone, Copy, Debug, PartialEq, Eq, Structural)]
pub struct RosterUnit {
    pub unit_id: u32,
    pub faction: PlayerFaction,
    pub hp: Option<u8>,
    pub base_cost: u32,
}

/// What the roster panel may say about one seat. Every field is absent for
/// a seat the viewer is not told about.
#[derive(Clone, Copy, Debug, PartialEq, Eq, Structural)]
pub struct PlayerRosterStats {
    pub funds: Option<u32>,
    pub unit_count: Option<u32>,
    pub unit_value: Option<u32>,
    pub income: Option<u32>,
}

/// What the roster panel reports about one seat. The seat is drawn in
/// `display_faction`, whose code and name the panel shows beside the actual
/// ones.
#[derive(Debug)]
pub struct PlayerRosterEntry {
    pub player_id: u32,
    pub user_id: u32,
    pub turn_order: u32,
    pub team: Option<String>,
    pub eliminated: bool,
    pub actual_faction: PlayerFaction,
    pub actual_faction_code: String,
    pub actual_faction_name: String,
    pub display_faction: PlayerFaction,
    pub co_key: Option<String>,
    pub co_name: Option<String>,
    pub tag_co_key: Option<String>,
    pub tag_co_name: Option<String>,
    /// Power meter values travel outside `stats`: every player sees them.
    pub power_charge: Option<u32>,
    pub cop_cost: Option<u32>,
    pub scop_cost: Option<u32>,
    pub power_star_charge: Option<u32>,
    pub active_power: Option<PowerLevel>,
    pub stats: PlayerRosterStats,
}

/// The roster panel: the match, the day, whose turn it is, and every seat.
#[derive(Debug)]
pub struct PlayerRosterSnapshot {
    pub match_id: u32,
    pub map_id: u32,
    pub day: u32,
    pub active_player_id: Option<u32>,
    pub players: Vec<PlayerRosterEntry>,
}

pub(crate) fn clone_text(text: &Option<String>) -> (copy: Option<String>)
    ensures
        copy == *text,
{
    match text {
        Some(s) => Some(s.clone()),
        None => None,
    }
}

pub open spec fn unit_hp(unit: RosterUnit) -> int {
    match unit.hp {
        Some(hp) => hp as int,
        None => 10,
    }
}

pub open spec fn unit_price(unit: RosterUnit, costs: Map<u32, u32>) -> u32 {
    match cost_of(costs, unit.unit_id) {
        Some(cost) => cost,
        None => unit.base_cost,
    }
}

pub open spec fn saturating_mul(a: int, b: int) -> int {
    if a * b > u32::MAX {
        u32::MAX as int
    } else {
        a * b
    }
}

/// What one unit is worth: its price scaled by the health it has left.
pub open spec fn unit_worth(unit: RosterUnit, costs: Map<u32, u32>) -> int {
    saturating_mul(unit_price(unit, costs) as int, unit_hp(unit)) / 10
}

/// How many of the first `n` units are fielded by seat `player_id`.
pub open spec fn count_units(players: Seq<PlayerRosterPlayer>, units: Seq<RosterUnit>, player_id: u32, n: int) -> int
    decreases n,
{
    if n <= 0 {
        0
    } else {
        count_units(players, units, player_id, n - 1) + if seat_for_faction(players, units[n - 1].faction)
            == Some(player_id) {
            1int
        } else {
            0int
        }
    }
}

/// What the first `n` units fielded by seat `player_id` are worth.
pub open spec fn value_units(
    players: Seq<PlayerRosterPlayer>,
    units: Seq<RosterUnit>,
    costs: Map<u32, u32>,
    player_id: u32,
    n: int,
) -> int
    decreases n,
{
    if n <= 0 {
        0
    } else {
        value_units(players, units, costs, player_id, n - 1) + if seat_for_faction(
            players,
            units[n - 1].faction,
        ) == Some(player_id) {
            unit_worth(units[n - 1], costs)
        } else {
            0
        }
    }
}

/// How many of the first `n` owned properties belong to seat `player_id`.
pub open spec fn count_properties(players: Seq<PlayerRosterPlayer>, owners: Seq<PlayerFaction>, player_id: u32, n: int) -> int
    decreases n,
{
    if n <= 0 {
        0
    } else {
        count_properties(players, owners, player_id, n - 1) + if seat_for_faction(players, owners[n - 1])
            == Some(player_id) {
            1int
        } else {
            0int
        }
    }
}

pub open spec fn spec_roster_stats(
    config: &PlayerRosterConfig,
    funds: Map<u32, u32>,
    costs: Map<u32, u32>,
    units: Seq<RosterUnit>,
    property_owners: Seq<PlayerFaction>,
    player_id: u32,
    disclosed: bool,
) -> PlayerRosterStats {
    if !disclosed {
        PlayerRosterStats { funds: None, unit_count: None, unit_value: None, income: None }
    } else {
        PlayerRosterStats {
            funds: Some(funds_of(funds, player_id)),
            unit_count: Some(count_units(config.players@, units, player_id, units.len() as int) as u32),
            unit_value: Some(value_units(config.players@, units, costs, player_id, units.len() as int) as u32),
            income: Some(
                saturating_mul(
                    count_properties(config.players@, property_owners, player_id, property_owners.len() as int),
                    config.funds_per_property as int,
                ) as u32,
            ),
        }
    }
}

pub open spec fn spec_roster_entry(
    config: &PlayerRosterConfig,
    funds: Map<u32, u32>,
    costs: Map<u32, u32>,
    meters: Map<u32, PlayerPowerMeter>,
    overrides: Option<Map<u32, PlayerFaction>>,
    units: Seq<RosterUnit>,
    property_owners: Seq<PlayerFaction>,
    disclosed: Seq<bool>,
    i: int,
) -> PlayerRosterEntry {
    let player = config.players@[i];
    let meter = meter_of(meters, player.player_id);
    PlayerRosterEntry {
        player_id: player.player_id,
        user_id: player.user_id,
        turn_order: player.turn_order,
        team: player.team,
        eliminated: player.eliminated,
        actual_faction: player.faction,
        actual_faction_code: player.faction_code,
        actual_faction_name: player.faction_name,
        co_key: player.co_key,
        co_name: player.co_name,
        tag_co_key: player.tag_co_key,
        tag_co_name: player.tag_co_name,
        display_faction: crate::display::spec_display_faction_for_player(overrides, player.player_id, player.faction),
        power_charge: match meter {
            Some(m) => Some(m.charge),
            None => None,
        },
        cop_cost: match meter {
            Some(m) => m.cop_cost,
            None => None,
        },
        scop_cost: match meter {
            Some(m) => m.scop_cost,
            None => None,
        },
        power_star_charge: match meter {
            Some(m) => m.star_charge,
            None => None,
        },
        active_power: match meter {
            Some(m) => m.active_power,
            None => None,
        },
        stats: spec_roster_stats(config, funds, costs, units, property_owners, player.player_id, disclosed[i]),
    }
}

/// The unit totals a seat could reach fit the panel's numbers.
pub open spec fn roster_totals_fit(
    config: &PlayerRosterConfig,
    costs: Map<u32, u32>,
    units: Seq<RosterUnit>,
) -> bool {
    forall|i: int|
        0 <= i < config.players@.len() ==> #[trigger] value_units(
            config.players@,
            units,
            costs,
            config.players@[i].player_id,
            units.len() as int,
        ) <= u32::MAX
}

fn saturating_mul_u32(a: u32, b: u32) -> (product: u32)
    ensures
        product as int == saturating_mul(a as int, b as int),
{
    proof {
        assert((a as int) * (b as int) <= (u32::MAX as int) * (u32::MAX as int)) by (nonlinear_arith)
            requires
                a <= u32::MAX,
                b <= u32::MAX,
        {
        }
        assert((a as int) * (b as int) >= 0) by (nonlinear_arith)
            requires
                a >= 0,
                b >= 0,
        {
        }
    }
    let wide: u64 = (a as u64) * (b as u64);
    if wide > u32::MAX as u64 {
        u32::MAX
    } else {
        wide as u32
    }
}

fn seat_unit_totals(
    config: &PlayerRosterConfig,
    costs: &PlayerUnitCosts,
    units: &[RosterUnit],
    player_id: u32,
) -> (totals: (u32, u32))
    requires
        units@.len() <= u32::MAX,
        value_units(config.players@, units@, costs@, player_id, units@.len() as int) <= u32::MAX,
    ensures
        totals.0 as int == count_units(config.players@, units@, player_id, units@.len() as int),
        totals.1 as int == value_units(config.players@, units@, costs@, player_id, units@.len() as int),
{
    let mut count: u32 = 0;
    let mut value: u32 = 0;
    let mut k: usize = 0;
    while k < units.len()
        invariant
            0 <= k <= units@.len(),
            units@.len() <= u32::MAX,
            value_units(config.players@, units@, costs@, player_id, units@.len() as int) <= u32::MAX,
            count as int == count_units(config.players@, units@, player_id, k as int),
            value as int == value_units(config.players@, units@, costs@, player_id, k as int),
            count <= k,
        decreases units@.len() - k,
    {
        let unit = units[k];
        proof {
            lemma_value_units_monotone(config.players@, units@, costs@, player_id, k + 1, units@.len() as int);
        }
        if player_id_for_faction(config, unit.faction) == Some(player_id) {
            let hp: u32 = match unit.hp {
                Some(h) => h as u32,
                None => 10,
            };
            let price = match costs.get(unit.unit_id) {
                Some(c) => c,
                None => unit.base_cost,
            };
            count = count + 1;
            value = value + saturating_mul_u32(price, hp) / 10;
        }
        k = k + 1;
    }
    (count, value)
}

proof fn lemma_value_units_monotone(
    players: Seq<PlayerRosterPlayer>,
    units: Seq<RosterUnit>,
    costs: Map<u32, u32>,
    player_id: u32,
    a: int,
    b: int,
)
    requires
        0 <= a <= b <= units.len(),
    ensures
        value_units(players, units, costs, player_id, a) <= value_units(players, units, costs, player_id, b),
    decreases b - a,
{
    if a < b {
        lemma_value_units_monotone(players, units, costs, player_id, a, b - 1);
        assert(unit_worth(units[b - 1], costs) >= 0) by (nonlinear_arith)
            requires
                unit_price(units[b - 1], costs) >= 0,
                unit_hp(units[b - 1]) >= 0,
        {
        }
    }
}

fn seat_property_count(config: &PlayerRosterConfig, owners: &[PlayerFaction], player_id: u32) -> (count: u32)
    requires
        owners@.len() <= u32::MAX,
    ensures
        count as int == count_properties(config.players@, owners@, player_id, owners@.len() as int),
{
    let mut count: u32 = 0;
    let mut k: usize = 0;
    while k < owners.len()
        invariant
            0 <= k <= owners@.len(),
            owners@.len() <= u32::MAX,
            count as int == count_properties(config.players@, owners@, player_id, k as int),
            count <= k,
        decreases owners@.len() - k,
    {
        if player_id_for_faction(config, owners[k]) == Some(player_id) {
            count = count + 1;
        }
        k = k + 1;
    }
    count
}

/// The roster panel on `day`, with `active_player_id` to move: every seat in
/// roster order.
///
/// `units` are the units on the board, `property_owners` the army holding each
/// owned property, and `disclosed[i]` whether the viewer is told the funds and
/// holdings of seat `i` (a teammate privately, an opponent publicly).
pub fn player_roster_snapshot(
    config: &PlayerRosterConfig,
    day: u32,
    active_player_id: Option<u32>,
    funds: &PlayerFunds,
    costs: &PlayerUnitCosts,
    meters: &PlayerPowerMeters,
    overrides: Option<&crate::display::PlayerDisplayFactionOverrides>,
    units: &[RosterUnit],
    property_owners: &[PlayerFaction],
    disclosed: &[bool],
) -> (snapshot: PlayerRosterSnapshot)
    requires
        disclosed@.len() == config.players@.len(),
        units@.len() <= u32::MAX,
        property_owners@.len() <= u32::MAX,
        roster_totals_fit(config, costs@, units@),
    ensures
        snapshot.match_id == config.match_id,
        snapshot.map_id == config.map_id,
        snapshot.day == day,
        snapshot.active_player_id == active_player_id,
        snapshot.players@.len() == config.players@.len(),
        forall|i: int|
            0 <= i < snapshot.players@.len() ==> #[trigger] snapshot.players@[i] == spec_roster_entry(
                config,
                funds@,
                costs@,
                meters@,
                crate::display::overrides_view(overrides),
                units@,
                property_owners@,
                disclosed@,
                i,
            ),
{
    let mut entries: Vec<PlayerRosterEntry> = Vec::new();
    let mut i: usize = 0;
    while i < config.players.len()
        invariant
            0 <= i <= config.players@.len(),
            disclosed@.len() == config.players@.len(),
            units@.len() <= u32::MAX,
            property_owners@.len() <= u32::MAX,
            roster_totals_fit(config, costs@, units@),
            entries@.len() == i,
            forall|j: int|
                0 <= j < i ==> #[trigger] entries@[j] == spec_roster_entry(
                    config,
                    funds@,
                    costs@,
                    meters@,
                    crate::display::overrides_view(overrides),
                    units@,
                    property_owners@,
                    disclosed@,
                    j,
                ),
        decreases config.players@.len() - i,
    {
        let player = &config.players[i];
        let player_id = player.player_id;
        let stats = if !disclosed[i] {
            PlayerRosterStats { funds: None, unit_count: None, unit_value: None, income: None }
        } else {
            proof {
                assert(value_units(config.players@, units@, costs@, config.players@[i as int].player_id, units@.len() as int) <= u32::MAX);
            }
            let (unit_count, unit_value) = seat_unit_totals(config, costs, units, player_id);
            let properties = seat_property_count(config, property_owners, player_id);
            PlayerRosterStats {
                funds: Some(funds.get(player_id)),
                unit_count: Some(unit_count),
                unit_value: Some(unit_value),
                income: Some(saturating_mul_u32(properties, config.funds_per_property)),
            }
        };
        let meter = meters.get(player_id);
        let entry = PlayerRosterEntry {
            player_id,
            user_id: player.user_id,
            turn_order: player.turn_order,
            team: clone_text(&player.team),
            eliminated: player.eliminated,
            actual_faction: player.faction,
            actual_faction_code: player.faction_code.clone(),
            actual_faction_name: player.faction_name.clone(),
            co_key: clone_text(&player.co_key),
            co_name: clone_text(&player.co_name),
            tag_co_key: clone_text(&player.tag_co_key),
            tag_co_name: clone_text(&player.tag_co_name),
            display_faction: crate::display::display_faction_for_player(overrides, player_id, player.faction),
            power_charge: match meter {
                Some(m) => Some(m.charge),
                None => None,
            },
            cop_cost: match meter {
                Some(m) => m.cop_cost,
                None => None,
            },
            scop_cost: match meter {
                Some(m) => m.scop_cost,
                None => None,
            },
            power_star_charge: match meter {
                Some(m) => m.star_charge,
                None => None,
            },
            active_power: match meter {
                Some(m) => m.active_power,
                None => None,
            },
            stats,
        };
        entries.push(entry);
        i = i + 1;
    }
    PlayerRosterSnapshot { match_id: config.match_id, map_id: config.map_id, day, active_player_id, players: entries }
}

} // verus!

verus! {

/// A unit built by an archived action: its id, the seat that built it, the
/// price the archive recorded (when it recorded one) and what its kind costs.
#[derive(Clone, Copy, Debug, PartialEq, Eq, Structural)]
pub struct BuiltUnit {
    pub unit_id: u32,
    pub player_id: u32,
    pub cost: Option<u32>,
    pub base_cost: u32,
}

/// What an archived action says about funds. A value the viewer was not
/// shown is absent.
#[derive(Debug)]
pub enum FundEvent {
    /// A unit was built; absent when no copy of it was shown.
    Build { unit: Option<BuiltUnit> },
    /// Two units joined, and the joining seat's funds are now `new_funds`.
    Join { player_id: u32, new_funds: Option<u32> },
    /// A repair left the active seat with `funds`.
    Repair { funds: Option<u32> },
    /// The turn passed (at the end of a turn, a tag, or a resignation that
    /// hands the turn on) and the next seat starts with `next_funds`.
    TurnChange { next_player_id: u32, next_funds: Option<u32> },
    /// A power changed seats' funds: each change names whom it addresses and
    /// the funds it leaves, when it sets any. A power may also put units on
    /// the board, each with its id and what its kind costs.
    Power { changes: Vec<(TargetedPlayer, Option<u32>)>, units_added: Vec<(u32, u32)> },
    /// Anything else, which touches no funds.
    Other,
}

/// The seats a change to `subject` addresses.
pub open spec fn spec_targeted(players: Seq<PlayerRosterPlayer>, subject: TargetedPlayer) -> Option<Seq<u32>> {
    match subject {
        TargetedPlayer::Player(id) => Some(seq![id]),
        TargetedPlayer::Team(team) => Some(seats_on_team(players, team)),
        TargetedPlayer::Global => None,
    }
}

/// Setting funds to `value` for each of `seats`, in order.
pub open spec fn set_each(seats: Seq<u32>, value: u32) -> Seq<(u32, FundUpdate)> {
    seats.map_values(|p: u32| (p, FundUpdate::SetTo(value)))
}

/// The fund updates of a power's changes, in order: a change to a named seat
/// or team sets each of its seats, one to everyone names no seat, and one
/// that sets no funds changes none.
pub open spec fn power_updates(players: Seq<PlayerRosterPlayer>, changes: Seq<(TargetedPlayer, Option<u32>)>) -> Seq<(u32, FundUpdate)>
    decreases changes.len(),
{
    if changes.len() == 0 {
        Seq::empty()
    } else {
        let earlier = power_updates(players, changes.drop_last());
        let (subject, funds) = changes.last();
        match (spec_targeted(players, subject), funds) {
            (Some(seats), Some(value)) => earlier + set_each(seats, value),
            _ => earlier,
        }
    }
}

/// The fund updates an action carries, in order.
pub open spec fn spec_fund_updates(
    event: FundEvent,
    active_player: Option<u32>,
    roster: Option<Seq<PlayerRosterPlayer>>,
) -> Seq<(u32, FundUpdate)> {
    match event {
        FundEvent::Build { unit } => match unit {
            Some(u) => seq![(u.player_id, FundUpdate::Subtract(match u.cost {
                Some(c) => c,
                None => u.base_cost,
            }))],
            None => Seq::empty(),
        },
        FundEvent::Join { player_id, new_funds } => match new_funds {
            Some(value) => seq![(player_id, FundUpdate::SetTo(value))],
            None => Seq::empty(),
        },
        FundEvent::Repair { funds } => match (funds, active_player) {
            (Some(value), Some(active)) => seq![(active, FundUpdate::SetTo(value))],
            _ => Seq::empty(),
        },
        FundEvent::TurnChange { next_player_id, next_funds } => match next_funds {
            Some(value) => seq![(next_player_id, FundUpdate::SetTo(value))],
            None => Seq::empty(),
        },
        FundEvent::Power { changes, .. } => match roster {
            Some(players) => power_updates(players, changes@),
            None => Seq::empty(),
        },
        FundEvent::Other => Seq::empty(),
    }
}

fn single_update(player_id: u32, update: FundUpdate) -> (updates: Vec<(u32, FundUpdate)>)
    ensures
        updates@ == seq![(player_id, update)],
{
    let mut updates = Vec::new();
    updates.push((player_id, update));
    updates
}

/// The changes to seats' funds that one archived action makes: a build
/// spends the unit's price, a join, a repair or a change of turn sets the
/// seat's funds to what the archive shows, and a power sets the funds of
/// every seat a change addresses. The active seat is the one a repair
/// charges; a power's changes need the roster to find a team's seats.
pub fn collect_fund_updates(
    event: &FundEvent,
    active_player: Option<u32>,
    config: Option<&PlayerRosterConfig>,
) -> (updates: Vec<(u32, FundUpdate)>)
    ensures
        updates@ == spec_fund_updates(*event, active_player, match config {
            Some(c) => Some(c.players@),
            None => None,
        }),
{
    match event {
        FundEvent::Build { unit } => match unit {
            Some(u) => single_update(u.player_id, FundUpdate::Subtract(match u.cost {
                Some(c) => c,
                None => u.base_cost,
            })),
            None => Vec::new(),
        },
        FundEvent::Join { player_id, new_funds } => match new_funds {
            Some(value) => single_update(*player_id, FundUpdate::SetTo(*value)),
            None => Vec::new(),
        },
        FundEvent::Repair { funds } => match (funds, active_player) {
            (Some(value), Some(active)) => single_update(active, FundUpdate::SetTo(*value)),
            _ => Vec::new(),
        },
        FundEvent::TurnChange { next_player_id, next_funds } => match next_funds {
            Some(value) => single_update(*next_player_id, FundUpdate::SetTo(*value)),
            None => Vec::new(),
        },
        FundEvent::Power { changes, .. } => match config {
            Some(c) => power_fund_updates(c, changes),
            None => Vec::new(),
        },
        FundEvent::Other => Vec::new(),
    }
}

fn power_fund_updates(config: &PlayerRosterConfig, changes: &Vec<(TargetedPlayer, Option<u32>)>) -> (updates: Vec<(u32, FundUpdate)>)
    ensures
        updates@ == power_updates(config.players@, changes@),
{
    let mut updates: Vec<(u32, FundUpdate)> = Vec::new();
    let mut i: usize = 0;
    while i < changes.len()
        invariant
            0 <= i <= changes@.len(),
            updates@ == power_updates(config.players@, changes@.take(i as int)),
        decreases changes@.len() - i,
    {
        let (subject, funds) = changes[i];
        proof {
            assert(changes@.take(i + 1).drop_last() =~= changes@.take(i as int));
            assert(changes@.take(i + 1).last() == changes@[i as int]);
        }
        match (targeted_players(config, subject), funds) {
            (Some(seats), Some(value)) => {
                let ghost before = updates@;
                let mut j: usize = 0;
                while j < seats.len()
                    invariant
                        0 <= j <= seats@.len(),
                        updates@ == before + set_each(seats@.take(j as int), value),
                    decreases seats@.len() - j,
                {
                    updates.push((seats[j], FundUpdate::SetTo(value)));
                    proof {
                        assert(set_each(seats@.take(j + 1), value) =~= set_each(seats@.take(j as int), value).push((seats@[j as int], FundUpdate::SetTo(value))));
                        assert(before + set_each(seats@.take(j + 1), value) =~= (before + set_each(seats@.take(j as int), value)).push((seats@[j as int], FundUpdate::SetTo(value))));
                    }
                    j = j + 1;
                }
                proof {
                    assert(seats@.take(seats@.len() as int) =~= seats@);
                }
            },
            _ => {},
        }
        i = i + 1;
    }
    proof {
        assert(changes@.take(changes@.len() as int) =~= changes@);
    }
    updates
}

/// Building a unit charges the seat that built it the recorded price (its
/// kind's cost where none was recorded), never below zero, and touches no
/// other seat.
pub proof fn lemma_a_build_charges_its_price(
    funds: Map<u32, u32>,
    unit: BuiltUnit,
    active_player: Option<u32>,
    roster: Option<Seq<PlayerRosterPlayer>>,
    other: u32,
)
    requires
        other != unit.player_id,
    ensures
        ({
            let updates = spec_fund_updates(FundEvent::Build { unit: Some(unit) }, active_player, roster);
            let after = apply_fund_updates_spec(funds, updates, updates.len() as int);
            let price = match unit.cost {
                Some(c) => c,
                None => unit.base_cost,
            };
            &&& funds_of(after, unit.player_id) == saturating_sub(funds_of(funds, unit.player_id), price)
            &&& funds_of(after, other) == funds_of(funds, other)
        }),
{
    let updates = spec_fund_updates(FundEvent::Build { unit: Some(unit) }, active_player, roster);
    assert(updates.len() == 1);
    assert(apply_fund_updates_spec(funds, updates, 0) == funds);
}

/// When the turn passes, the next seat holds exactly the funds the archive
/// shows for it.
pub proof fn lemma_the_next_seat_starts_with_the_archived_funds(
    funds: Map<u32, u32>,
    next_player_id: u32,
    value: u32,
    active_player: Option<u32>,
    roster: Option<Seq<PlayerRosterPlayer>>,
)
    ensures
        ({
            let updates = spec_fund_updates(
                FundEvent::TurnChange { next_player_id, next_funds: Some(value) },
                active_player,
                roster,
            );
            funds_of(apply_fund_updates_spec(funds, updates, updates.len() as int), next_player_id) == value
        }),
{
    let updates = spec_fund_updates(
        FundEvent::TurnChange { next_player_id, next_funds: Some(value) },
        active_player,
        roster,
    );
    assert(updates.len() == 1);
    assert(apply_fund_updates_spec(funds, updates, 0) == funds);
}

/// Which power a seat has running.
#[derive(Clone, Copy, Debug, PartialEq, Eq, Structural)]
pub enum PowerState {
    /// No power is running.
    Off,
    Cop,
    Scop,
}

/// One of a seat's commanders as the match reports it: whether it leads,
/// its charge, and what the rules price its powers and its stars at for the
/// seat's use count (absent where the rules give no price).
#[derive(Clone, Copy, Debug, PartialEq, Eq, Structural)]
pub struct CommanderReading {
    pub active: bool,
    pub power_charge: u64,
    pub cop_cost: Option<u32>,
    pub scop_cost: Option<u32>,
    pub star_charge: Option<u32>,
}

/// The commander whose meter is shown: the first that leads, else the first.
pub open spec fn leading_commander(commanders: Seq<CommanderReading>) -> Option<int> {
    if commanders.len() == 0 {
        None
    } else if exists|i: int| 0 <= i < commanders.len() && commanders[i].active {
        Some(choose|i: int| 0 <= i < commanders.len() && commanders[i].active && forall|j: int| 0 <= j < i ==> !commanders[j].active)
    } else {
        Some(0)
    }
}

pub open spec fn spec_active_power_meter(commanders: Seq<CommanderReading>, power_state: PowerState) -> Option<PlayerPowerMeter> {
    match leading_commander(commanders) {
        None => None,
        Some(i) => {
            let c = commanders[i];
            if c.power_charge > u32::MAX {
                None
            } else {
                Some(PlayerPowerMeter {
                    charge: c.power_charge as u32,
                    cop_cost: c.cop_cost,
                    scop_cost: c.scop_cost,
                    star_charge: c.star_charge,
                    active_power: match power_state {
                        PowerState::Off => None,
                        PowerState::Cop => Some(PowerLevel::Cop),
                        PowerState::Scop => Some(PowerLevel::Scop),
                    },
                })
            }
        },
    }
}

/// The power meter shown for a seat: that of its leading commander (the
/// first that leads, falling back to the first), with the power it has
/// running. No meter for a seat without commanders, or one whose charge does
/// not fit the meter.
pub fn active_power_meter(commanders: &[CommanderReading], power_state: PowerState) -> (meter: Option<PlayerPowerMeter>)
    ensures
        meter == spec_active_power_meter(commanders@, power_state),
{
    if commanders.len() == 0 {
        return None;
    }
    let mut leader: usize = 0;
    let mut i: usize = 0;
    while i < commanders.len()
        invariant
            0 <= i <= commanders@.len(),
            commanders@.len() > 0,
            forall|j: int| 0 <= j < i ==> !commanders@[j].active,
        ensures
            0 <= i <= commanders@.len(),
            forall|j: int| 0 <= j < i ==> !commanders@[j].active,
            i < commanders@.len() ==> commanders@[i as int].active,
        decreases commanders@.len() - i,
    {
        if commanders[i].active {
            break;
        }
        i = i + 1;
    }
    if i < commanders.len() {
        leader = i;
        proof {
            let k = choose|k: int| 0 <= k < commanders@.len() && commanders@[k].active && forall|j: int| 0 <= j < k ==> !commanders@[j].active;
            assert(0 <= i < commanders@.len() && commanders@[i as int].active && forall|j: int| 0 <= j < i ==> !commanders@[j].active);
            assert(k == i);
        }
    }
    let c = commanders[leader];
    if c.power_charge > 4294967295u64 {
        return None;
    }
    Some(PlayerPowerMeter {
        charge: c.power_charge as u32,
        cop_cost: c.cop_cost,
        scop_cost: c.scop_cost,
        star_charge: c.star_charge,
        active_power: match power_state {
            PowerState::Off => None,
            PowerState::Cop => Some(PowerLevel::Cop),
            PowerState::Scop => Some(PowerLevel::Scop),
        },
    })
}

/// `seat` placed among `sorted` after every seat that plays no later than it.
pub open spec fn insert_by_turn(sorted: Seq<PlayerRosterPlayer>, seat: PlayerRosterPlayer) -> Seq<PlayerRosterPlayer>
    decreases sorted.len(),
{
    if sorted.len() == 0 {
        seq![seat]
    } else if sorted.last().turn_order <= seat.turn_order {
        sorted.push(seat)
    } else {
        insert_by_turn(sorted.drop_last(), seat).push(sorted.last())
    }
}

/// The seats in turn order. Seats given the same turn keep the order they
/// were listed in.
pub open spec fn sort_by_turn(seats: Seq<PlayerRosterPlayer>) -> Seq<PlayerRosterPlayer>
    decreases seats.len(),
{
    if seats.len() == 0 {
        Seq::empty()
    } else {
        insert_by_turn(sort_by_turn(seats.drop_last()), seats.last())
    }
}

/// Where `seat` goes among `sorted`: after the last seat, walking back from
/// the end, that plays no later than it.
pub open spec fn turn_slot(sorted: Seq<PlayerRosterPlayer>, seat: PlayerRosterPlayer) -> int
    decreases sorted.len(),
{
    if sorted.len() == 0 {
        0
    } else if sorted.last().turn_order <= seat.turn_order {
        sorted.len() as int
    } else {
        turn_slot(sorted.drop_last(), seat)
    }
}

proof fn lemma_insert_by_turn_is_insert(sorted: Seq<PlayerRosterPlayer>, seat: PlayerRosterPlayer)
    ensures
        0 <= turn_slot(sorted, seat) <= sorted.len(),
        insert_by_turn(sorted, seat) == sorted.insert(turn_slot(sorted, seat), seat),
    decreases sorted.len(),
{
    if sorted.len() > 0 && sorted.last().turn_order > seat.turn_order {
        lemma_insert_by_turn_is_insert(sorted.drop_last(), seat);
        assert(insert_by_turn(sorted, seat) =~= sorted.insert(turn_slot(sorted, seat), seat));
    } else if sorted.len() > 0 {
        assert(sorted.push(seat) =~= sorted.insert(sorted.len() as int, seat));
    } else {
        assert(seq![seat] =~= sorted.insert(0, seat));
    }
}

pub open spec fn turns_in_order(seats: Seq<PlayerRosterPlayer>) -> bool {
    forall|i: int, j: int| 0 <= i < j < seats.len() ==> seats[i].turn_order <= seats[j].turn_order
}

proof fn lemma_insert_keeps_order(sorted: Seq<PlayerRosterPlayer>, seat: PlayerRosterPlayer)
    requires
        turns_in_order(sorted),
    ensures
        turns_in_order(insert_by_turn(sorted, seat)),
        insert_by_turn(sorted, seat).len() == sorted.len() + 1,
        insert_by_turn(sorted, seat).to_multiset() == sorted.to_multiset().insert(seat),
    decreases sorted.len(),
{
    broadcast use vstd::seq_lib::group_to_multiset_ensures;
    if sorted.len() == 0 {
        assert(seq![seat] =~= Seq::<PlayerRosterPlayer>::empty().push(seat));
    } else if sorted.last().turn_order <= seat.turn_order {
    } else {
        let rest = sorted.drop_last();
        assert(turns_in_order(rest));
        lemma_insert_keeps_order(rest, seat);
        let inserted = insert_by_turn(rest, seat);
        let result = inserted.push(sorted.last());
        lemma_insert_by_turn_is_insert(rest, seat);
        assert forall|i: int, j: int| 0 <= i < j < result.len() implies result[i].turn_order <= result[j].turn_order by {
            if j == result.len() - 1 {
                let k = turn_slot(rest, seat);
                if i == k {
                    assert(result[i] == seat);
                } else if i < k {
                    assert(result[i] == rest[i]);
                } else {
                    assert(result[i] == rest[i - 1]);
                }
            }
        }
        assert(sorted =~= rest.push(sorted.last()));
        assert(sorted.to_multiset() == rest.to_multiset().insert(sorted.last()));
    }
}

proof fn lemma_sort_by_turn(seats: Seq<PlayerRosterPlayer>)
    ensures
        turns_in_order(sort_by_turn(seats)),
        sort_by_turn(seats).len() == seats.len(),
        sort_by_turn(seats).to_multiset() == seats.to_multiset(),
    decreases seats.len(),
{
    broadcast use vstd::seq_lib::group_to_multiset_ensures;
    if seats.len() > 0 {
        lemma_sort_by_turn(seats.drop_last());
        lemma_insert_keeps_order(sort_by_turn(seats.drop_last()), seats.last());
        assert(seats =~= seats.drop_last().push(seats.last()));
    }
}

/// Put the seats in turn order, keeping seats given the same turn in the
/// order they were listed in.
pub fn sort_seats_by_turn(seats: Vec<PlayerRosterPlayer>) -> (sorted: Vec<PlayerRosterPlayer>)
    ensures
        sorted@ == sort_by_turn(seats@),
{
    let ghost all = seats@;
    let mut rest = seats;
    let mut sorted: Vec<PlayerRosterPlayer> = Vec::new();
    let ghost mut n: int = 0;
    proof {
        assert(all.skip(0) =~= all);
        assert(all.take(0) =~= Seq::<PlayerRosterPlayer>::empty());
    }
    while rest.len() > 0
        invariant
            0 <= n <= all.len(),
            rest@ == all.skip(n),
            sorted@ == sort_by_turn(all.take(n)),
        decreases rest@.len(),
    {
        let seat = rest.remove(0);
        let mut k: usize = sorted.len();
        proof {
            assert(sorted@.take(k as int) =~= sorted@);
        }
        while k > 0 && sorted[k - 1].turn_order > seat.turn_order
            invariant
                0 <= k <= sorted@.len(),
                turn_slot(sorted@.take(k as int), seat) == turn_slot(sorted@, seat),
            decreases k,
        {
            proof {
                assert(sorted@.take(k as int).drop_last() =~= sorted@.take(k - 1));
            }
            k = k - 1;
        }
        proof {
            if k > 0 {
                assert(sorted@.take(k as int).last() == sorted@[k - 1]);
            }
            lemma_insert_by_turn_is_insert(sorted@, seat);
            assert(all.take(n + 1).drop_last() =~= all.take(n));
            assert(all.take(n + 1).last() == all[n]);
            assert(all.skip(n)[0] == all[n]);
        }
        sorted.insert(k, seat);
        proof {
            assert(all.skip(n).remove(0) =~= all.skip(n + 1));
            n = n + 1;
        }
    }
    proof {
        assert(all.take(n) =~= all);
    }
    sorted
}

/// Seats in turn order are in turn order, and are the same seats.
pub proof fn lemma_sorted_seats_are_the_same_seats_in_turn_order(seats: Seq<PlayerRosterPlayer>)
    ensures
        turns_in_order(sort_by_turn(seats)),
        sort_by_turn(seats).to_multiset() == seats.to_multiset(),
{
    lemma_sort_by_turn(seats);
}

/// The map the pairs make, in order: a key listed twice holds its last value.
pub open spec fn map_from_pairs(pairs: Seq<(u32, u32)>) -> Map<u32, u32>
    decreases pairs.len(),
{
    if pairs.len() == 0 {
        Map::empty()
    } else {
        map_from_pairs(pairs.drop_last()).insert(pairs.last().0, pairs.last().1)
    }
}

/// Seed the roster of an archived match: its seats in turn order, each
/// seat's funds as the match opened, and the price recorded for each unit.
pub fn player_roster_seed_from_replay(
    match_id: u32,
    map_id: u32,
    funds_per_property: u32,
    players: Vec<PlayerRosterPlayer>,
    starting_funds: &[(u32, u32)],
    unit_costs: &[(u32, u32)],
) -> (seed: (PlayerRosterConfig, PlayerFunds, PlayerUnitCosts))
    ensures
        seed.0.match_id == match_id,
        seed.0.map_id == map_id,
        seed.0.funds_per_property == funds_per_property,
        seed.0.players@ == sort_by_turn(players@),
        seed.1@ == map_from_pairs(starting_funds@),
        seed.2@ == map_from_pairs(unit_costs@),
{
    let players = sort_seats_by_turn(players);
    let mut funds = PlayerFunds::new();
    let mut i: usize = 0;
    while i < starting_funds.len()
        invariant
            0 <= i <= starting_funds@.len(),
            funds@ == map_from_pairs(starting_funds@.take(i as int)),
        decreases starting_funds@.len() - i,
    {
        proof {
            assert(starting_funds@.take(i + 1).drop_last() =~= starting_funds@.take(i as int));
            assert(starting_funds@.take(i + 1).last() == starting_funds@[i as int]);
        }
        let (player_id, value) = starting_funds[i];
        funds.set(player_id, value);
        i = i + 1;
    }
    proof {
        assert(starting_funds@.take(starting_funds@.len() as int) =~= starting_funds@);
    }
    let mut costs = PlayerUnitCosts::new();
    let mut i: usize = 0;
    while i < unit_costs.len()
        invariant
            0 <= i <= unit_costs@.len(),
            costs@ == map_from_pairs(unit_costs@.take(i as int)),
        decreases unit_costs@.len() - i,
    {
        proof {
            assert(unit_costs@.take(i + 1).drop_last() =~= unit_costs@.take(i as int));
            assert(unit_costs@.take(i + 1).last() == unit_costs@[i as int]);
        }
        let (unit_id, cost) = unit_costs[i];
        costs.set(unit_id, cost);
        i = i + 1;
    }
    proof {
        assert(unit_costs@.take(unit_costs@.len() as int) =~= unit_costs@);
    }
    (PlayerRosterConfig { match_id, map_id, funds_per_property, players }, funds, costs)
}

/// The price each unit an action puts on the board is counted at: a built
/// unit at its recorded price (its kind's cost where none was recorded), and
/// a unit a power adds at its kind's cost.
pub open spec fn spec_unit_cost_updates(event: FundEvent) -> Seq<(u32, u32)> {
    match event {
        FundEvent::Build { unit } => match unit {
            Some(u) => seq![(u.unit_id, match u.cost {
                Some(c) => c,
                None => u.base_cost,
            })],
            None => Seq::empty(),
        },
        FundEvent::Power { units_added, .. } => units_added@,
        _ => Seq::empty(),
    }
}

pub fn collect_unit_cost_updates(event: &FundEvent) -> (updates: Vec<(u32, u32)>)
    ensures
        updates@ == spec_unit_cost_updates(*event),
{
    match event {
        FundEvent::Build { unit } => match unit {
            Some(u) => {
                let mut updates = Vec::new();
                updates.push((u.unit_id, match u.cost {
                    Some(c) => c,
                    None => u.base_cost,
                }));
                updates
            },
            None => Vec::new(),
        },
        FundEvent::Power { units_added, .. } => {
            let mut updates: Vec<(u32, u32)> = Vec::new();
            let mut i: usize = 0;
            while i < units_added.len()
                invariant
                    0 <= i <= units_added@.len(),
                    updates@ == units_added@.take(i as int),
                decreases units_added@.len() - i,
            {
                updates.push(units_added[i]);
                proof {
                    assert(units_added@.take(i + 1) =~= units_added@.take(i as int).push(units_added@[i as int]));
                }
                i = i + 1;
            }
            proof {
                assert(units_added@.take(units_added@.len() as int) =~= units_added@);
            }
            updates
        },
        _ => Vec::new(),
    }
}

/// The unit prices after the actions, in order.
pub open spec fn spec_costs_after(costs: Map<u32, u32>, events: Seq<FundEvent>) -> Map<u32, u32>
    decreases events.len(),
{
    if events.len() == 0 {
        costs
    } else {
        let earlier = spec_costs_after(costs, events.drop_last());
        map_with_pairs(earlier, spec_unit_cost_updates(events.last()))
    }
}

/// `base` with each pair laid over it, in order.
pub open spec fn map_with_pairs(base: Map<u32, u32>, pairs: Seq<(u32, u32)>) -> Map<u32, u32>
    decreases pairs.len(),
{
    if pairs.len() == 0 {
        base
    } else {
        map_with_pairs(base, pairs.drop_last()).insert(pairs.last().0, pairs.last().1)
    }
}

/// Record the prices of the units the actions put on the board, in order:
/// what a rewind replays to rebuild the prices up to the position it lands
/// on.
pub fn replay_unit_costs(costs: &mut PlayerUnitCosts, events: &[FundEvent])
    ensures
        final(costs)@ == spec_costs_after(old(costs)@, events@),
{
    let ghost start = costs@;
    let mut i: usize = 0;
    while i < events.len()
        invariant
            0 <= i <= events@.len(),
            costs@ == spec_costs_after(start, events@.take(i as int)),
        decreases events@.len() - i,
    {
        proof {
            assert(events@.take(i + 1).drop_last() =~= events@.take(i as int));
            assert(events@.take(i + 1).last() == events@[i as int]);
        }
        let updates = collect_unit_cost_updates(&events[i]);
        let ghost before = costs@;
        let mut j: usize = 0;
        while j < updates.len()
            invariant
                0 <= j <= updates@.len(),
                costs@ == map_with_pairs(before, updates@.take(j as int)),
            decreases updates@.len() - j,
        {
            proof {
                assert(updates@.take(j + 1).drop_last() =~= updates@.take(j as int));
                assert(updates@.take(j + 1).last() == updates@[j as int]);
            }
            let (unit_id, cost) = updates[j];
            costs.set(unit_id, cost);
            j = j + 1;
        }
        proof {
            assert(updates@.take(updates@.len() as int) =~= updates@);
        }
        i = i + 1;
    }
    proof {
        assert(events@.take(events@.len() as int) =~= events@);
    }
}

/// One seat as a transition reports it: its id (absent where it cannot be
/// read), its funds (reported only to the seat itself), whether it is still
/// playing, and its power meter.
#[derive(Clone, Copy, Debug, PartialEq, Eq, Structural)]
pub struct ObservedSeat {
    pub player_id: Option<u32>,
    pub funds: Option<u64>,
    pub active: bool,
    pub meter: Option<PlayerPowerMeter>,
}

/// The funds after the seats' reports, in order: each report of a seat's own
/// funds that a `u32` holds sets them.
pub open spec fn spec_observed_funds(funds: Map<u32, u32>, seats: Seq<ObservedSeat>) -> Map<u32, u32>
    decreases seats.len(),
{
    if seats.len() == 0 {
        funds
    } else {
        let earlier = spec_observed_funds(funds, seats.drop_last());
        let s = seats.last();
        match (s.player_id, s.funds) {
            (Some(id), Some(f)) => if f <= u32::MAX {
                earlier.insert(id, f as u32)
            } else {
                earlier
            },
            _ => earlier,
        }
    }
}

/// Take the funds the transitions report, in order.
pub fn apply_observed_funds(funds: &mut PlayerFunds, seats: &[ObservedSeat])
    ensures
        final(funds)@ == spec_observed_funds(old(funds)@, seats@),
{
    let ghost start = funds@;
    let mut i: usize = 0;
    while i < seats.len()
        invariant
            0 <= i <= seats@.len(),
            funds@ == spec_observed_funds(start, seats@.take(i as int)),
        decreases seats@.len() - i,
    {
        proof {
            assert(seats@.take(i + 1).drop_last() =~= seats@.take(i as int));
            assert(seats@.take(i + 1).last() == seats@[i as int]);
        }
        let s = seats[i];
        if let (Some(id), Some(f)) = (s.player_id, s.funds) {
            if f <= 4294967295u64 {
                funds.set(id, f as u32);
            }
        }
        i = i + 1;
    }
    proof {
        assert(seats@.take(seats@.len() as int) =~= seats@);
    }
}

/// The meters after the seats' reports: every seat's meter is public.
pub open spec fn spec_observed_meters(meters: Map<u32, PlayerPowerMeter>, seats: Seq<ObservedSeat>) -> Map<u32, PlayerPowerMeter>
    decreases seats.len(),
{
    if seats.len() == 0 {
        meters
    } else {
        let earlier = spec_observed_meters(meters, seats.drop_last());
        let s = seats.last();
        match (s.player_id, s.meter) {
            (Some(id), Some(m)) => earlier.insert(id, m),
            _ => earlier,
        }
    }
}

/// Take the power meters one transition reports.
pub fn apply_observed_meters(meters: &mut PlayerPowerMeters, seats: &[ObservedSeat])
    ensures
        final(meters)@ == spec_observed_meters(old(meters)@, seats@),
{
    let ghost start = meters@;
    let mut i: usize = 0;
    while i < seats.len()
        invariant
            0 <= i <= seats@.len(),
            meters@ == spec_observed_meters(start, seats@.take(i as int)),
        decreases seats@.len() - i,
    {
        proof {
            assert(seats@.take(i + 1).drop_last() =~= seats@.take(i as int));
            assert(seats@.take(i + 1).last() == seats@[i as int]);
        }
        let s = seats[i];
        if let (Some(id), Some(m)) = (s.player_id, s.meter) {
            meters.set(id, m);
        }
        i = i + 1;
    }
    proof {
        assert(seats@.take(seats@.len() as int) =~= seats@);
    }
}

/// Every power meter one observation reports: meters are public, so every
/// seat whose id can be read has one.
pub fn power_meters_from_observation(seats: &[ObservedSeat]) -> (meters: PlayerPowerMeters)
    ensures
        meters@ == spec_observed_meters(Map::empty(), seats@),
{
    let mut meters = PlayerPowerMeters::new();
    apply_observed_meters(&mut meters, seats);
    meters
}

/// Where seat `id` first stands in the roster.
pub open spec fn seat_index(players: Seq<PlayerRosterPlayer>, id: u32) -> int {
    choose|i: int| 0 <= i < players.len() && players[i].player_id == id && forall|j: int| 0 <= j < i ==> players[j].player_id != id
}

pub open spec fn has_seat(players: Seq<PlayerRosterPlayer>, id: u32) -> bool {
    exists|i: int| 0 <= i < players.len() && players[i].player_id == id
}

/// The roster after one seat's status: a seat no longer playing is marked
/// eliminated, and one playing is not.
pub open spec fn spec_mark_seat(players: Seq<PlayerRosterPlayer>, id: u32, active: bool) -> Seq<PlayerRosterPlayer> {
    if has_seat(players, id) {
        let k = seat_index(players, id);
        players.update(k, PlayerRosterPlayer { eliminated: !active, ..players[k] })
    } else {
        players
    }
}

pub open spec fn spec_observed_statuses(players: Seq<PlayerRosterPlayer>, seats: Seq<ObservedSeat>) -> Seq<PlayerRosterPlayer>
    decreases seats.len(),
{
    if seats.len() == 0 {
        players
    } else {
        let earlier = spec_observed_statuses(players, seats.drop_last());
        match seats.last().player_id {
            Some(id) => spec_mark_seat(earlier, id, seats.last().active),
            None => earlier,
        }
    }
}

fn mark_seat(players: &mut Vec<PlayerRosterPlayer>, id: u32, active: bool)
    ensures
        final(players)@ == spec_mark_seat(old(players)@, id, active),
{
    let mut i: usize = 0;
    while i < players.len()
        invariant
            0 <= i <= players@.len(),
            players@ == old(players)@,
            forall|j: int| 0 <= j < i ==> players@[j].player_id != id,
        decreases players@.len() - i,
    {
        if players[i].player_id == id {
            proof {
                let k = seat_index(players@, id);
                assert(0 <= i < players@.len() && players@[i as int].player_id == id && forall|j: int| 0 <= j < i ==> players@[j].player_id != id);
                assert(k == i);
            }
            let ghost before = players@;
            let mut seat = players.remove(i);
            seat.eliminated = !active;
            players.insert(i, seat);
            proof {
                assert(players@ =~= spec_mark_seat(before, id, active));
            }
            return;
        }
        i = i + 1;
    }
}

/// Take the seats' statuses one transition reports.
pub fn apply_observed_statuses(players: &mut Vec<PlayerRosterPlayer>, seats: &[ObservedSeat])
    ensures
        final(players)@ == spec_observed_statuses(old(players)@, seats@),
{
    let ghost start = players@;
    let mut i: usize = 0;
    while i < seats.len()
        invariant
            0 <= i <= seats@.len(),
            players@ == spec_observed_statuses(start, seats@.take(i as int)),
        decreases seats@.len() - i,
    {
        proof {
            assert(seats@.take(i + 1).drop_last() =~= seats@.take(i as int));
            assert(seats@.take(i + 1).last() == seats@[i as int]);
        }
        if let Some(id) = seats[i].player_id {
            mark_seat(players, id, seats[i].active);
        }
        i = i + 1;
    }
    proof {
        assert(seats@.take(seats@.len() as int) =~= seats@);
    }
}

proof fn lemma_first_seat(players: Seq<PlayerRosterPlayer>, id: u32, i: int)
    requires
        0 <= i < players.len(),
        players[i].player_id == id,
    ensures
        exists|k: int| 0 <= k < players.len() && players[k].player_id == id && forall|j: int| 0 <= j < k ==> players[j].player_id != id,
    decreases i,
{
    if exists|j: int| 0 <= j < i && players[j].player_id == id {
        let j = choose|j: int| 0 <= j < i && players[j].player_id == id;
        lemma_first_seat(players, id, j);
    }
}

/// A seat that stops playing is marked eliminated, and nothing else about
/// any seat changes.
pub proof fn lemma_a_status_marks_one_seat(players: Seq<PlayerRosterPlayer>, id: u32, active: bool, other: int)
    requires
        0 <= other < players.len(),
        players[other].player_id != id,
    ensures
        spec_mark_seat(players, id, active).len() == players.len(),
        spec_mark_seat(players, id, active)[other] == players[other],
        has_seat(players, id) ==> spec_mark_seat(players, id, active)[seat_index(players, id)].eliminated == !active,
{
    if has_seat(players, id) {
        let i = choose|i: int| 0 <= i < players.len() && players[i].player_id == id;
        lemma_first_seat(players, id, i);
        let k = seat_index(players, id);
        assert(players[k].player_id == id);
    }
}

} // verus!
