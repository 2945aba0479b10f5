//! Seeding the roster of a live match from its bootstrap: the seats come from
//! the bootstrap's player list, everything else from the first observation.
use vstd::prelude::*;
use crate::board::PlayerFaction;
use crate::loading::{append_decimal, decimal};
use crate::roster::{
    clone_text, active_power_meter, spec_active_power_meter, CommanderReading, PlayerFunds, PlayerPowerMeter,
    PlayerPowerMeters, PlayerRosterConfig, PlayerRosterPlayer, PlayerUnitCosts, PowerState,
};

verus! {

/// A seat as the bootstrap lists it, its faction id already looked up:
/// `faction` is absent for an id that names no faction, and the code and
/// name are those of the faction found.
#[derive(Debug)]
pub struct LiveMatchPlayer {
    pub player_id: u32,
    pub faction: Option<PlayerFaction>,
    pub faction_code: String,
    pub faction_name: String,
}

/// A player as the bootstrap observation reports it. `funds` is reported
/// to the player alone; the portraits are those of its first and second
/// commander, where the portrait table has one.
#[derive(Debug)]
pub struct LiveObservedPlayer {
    pub id: String,
    pub team: String,
    pub active: bool,
    pub funds: Option<u64>,
    pub commanders: Vec<CommanderReading>,
    pub power_state: PowerState,
    pub co_key: Option<String>,
    pub co_name: Option<String>,
    pub tag_co_key: Option<String>,
    pub tag_co_name: Option<String>,
}

/// Whether the observed player at `k` names the seat `player_id`: its id is
/// the seat's number written in base ten.
pub open spec fn names_seat(observed: Seq<LiveObservedPlayer>, k: int, player_id: u32) -> bool {
    observed[k].id@ == decimal(player_id as nat)
}

/// The first observed player that names the seat, if one does.
pub open spec fn observed_for(observed: Seq<LiveObservedPlayer>, player_id: u32) -> Option<int> {
    if exists|k: int| 0 <= k < observed.len() && names_seat(observed, k, player_id) {
        Some(
            choose|k: int|
                0 <= k < observed.len() && names_seat(observed, k, player_id) && forall|j: int|
                    0 <= j < k ==> !names_seat(observed, j, player_id),
        )
    } else {
        None
    }
}

/// Whether the player at `i` is the first to report its team.
pub open spec fn opens_a_team(observed: Seq<LiveObservedPlayer>, i: int) -> bool {
    forall|j: int| 0 <= j < i ==> observed[j].team@ != observed[i].team@
}

/// How many distinct teams the first `n` observed players report.
pub open spec fn team_count(observed: Seq<LiveObservedPlayer>, n: int) -> int
    decreases n,
{
    if n <= 0 {
        0
    } else {
        team_count(observed, n - 1) + if opens_a_team(observed, n - 1) {
            1int
        } else {
            0int
        }
    }
}

/// A team game: more than one team, and fewer teams than players.
pub open spec fn is_team_game(observed: Seq<LiveObservedPlayer>) -> bool {
    let teams = team_count(observed, observed.len() as int);
    teams > 1 && teams < observed.len()
}

pub open spec fn found_text(observed: Seq<LiveObservedPlayer>, found: Option<int>, field: spec_fn(LiveObservedPlayer) -> Option<String>) -> Option<String> {
    match found {
        Some(k) => field(observed[k]),
        None => None,
    }
}

/// The roster seat for the bootstrap player `p`, listed at `index` and
/// playing `faction`.
pub open spec fn live_seat(
    p: LiveMatchPlayer,
    index: int,
    faction: PlayerFaction,
    observed: Seq<LiveObservedPlayer>,
    team_game: bool,
) -> PlayerRosterPlayer {
    let found = observed_for(observed, p.player_id);
    PlayerRosterPlayer {
        player_id: p.player_id,
        user_id: 0,
        turn_order: index as u32,
        team: if team_game {
            match found {
                Some(k) => Some(observed[k].team),
                None => None,
            }
        } else {
            None
        },
        eliminated: match found {
            Some(k) => !observed[k].active,
            None => false,
        },
        faction,
        faction_code: p.faction_code,
        faction_name: p.faction_name,
        co_key: found_text(observed, found, |o: LiveObservedPlayer| o.co_key),
        co_name: found_text(observed, found, |o: LiveObservedPlayer| o.co_name),
        tag_co_key: found_text(observed, found, |o: LiveObservedPlayer| o.tag_co_key),
        tag_co_name: found_text(observed, found, |o: LiveObservedPlayer| o.tag_co_name),
    }
}

/// The seats of the first `n` bootstrap players, skipping those whose
/// faction id names no faction.
pub open spec fn live_seats(
    players: Seq<LiveMatchPlayer>,
    observed: Seq<LiveObservedPlayer>,
    team_game: bool,
    n: int,
) -> Seq<PlayerRosterPlayer>
    decreases n,
{
    if n <= 0 {
        Seq::empty()
    } else {
        let earlier = live_seats(players, observed, team_game, n - 1);
        match players[n - 1].faction {
            Some(faction) => earlier.push(live_seat(players[n - 1], n - 1, faction, observed, team_game)),
            None => earlier,
        }
    }
}

/// Funds a `u32` holds, the largest it holds for more.
pub open spec fn clamp_funds(value: u64) -> u32 {
    if value <= u32::MAX {
        value as u32
    } else {
        u32::MAX
    }
}

/// The funds the first `n` seated players report of themselves.
pub open spec fn live_funds(players: Seq<LiveMatchPlayer>, observed: Seq<LiveObservedPlayer>, n: int) -> Map<u32, u32>
    decreases n,
{
    if n <= 0 {
        Map::empty()
    } else {
        let earlier = live_funds(players, observed, n - 1);
        let p = players[n - 1];
        if p.faction is Some {
            match observed_for(observed, p.player_id) {
                Some(k) => match observed[k].funds {
                    Some(value) => earlier.insert(p.player_id, clamp_funds(value)),
                    None => earlier,
                },
                None => earlier,
            }
        } else {
            earlier
        }
    }
}

/// The power meters of the first `n` seated players.
pub open spec fn live_meters(
    players: Seq<LiveMatchPlayer>,
    observed: Seq<LiveObservedPlayer>,
    n: int,
) -> Map<u32, PlayerPowerMeter>
    decreases n,
{
    if n <= 0 {
        Map::empty()
    } else {
        let earlier = live_meters(players, observed, n - 1);
        let p = players[n - 1];
        if p.faction is Some {
            match observed_for(observed, p.player_id) {
                Some(k) => match spec_active_power_meter(observed[k].commanders@, observed[k].power_state) {
                    Some(meter) => earlier.insert(p.player_id, meter),
                    None => earlier,
                },
                None => earlier,
            }
        } else {
            earlier
        }
    }
}

/// The first observed player that names the seat.
fn find_observed(observed: &[LiveObservedPlayer], player_id: u32) -> (found: Option<usize>)
    ensures
        match found {
            Some(k) => k < observed@.len() && observed_for(observed@, player_id) == Some(k as int),
            None => observed_for(observed@, player_id) is None,
        },
{
    let mut id_text = String::new();
    append_decimal(&mut id_text, player_id);
    proof {
        assert(id_text@ =~= decimal(player_id as nat));
    }
    let mut k: usize = 0;
    while k < observed.len()
        invariant
            0 <= k <= observed@.len(),
            id_text@ == decimal(player_id as nat),
            forall|j: int| 0 <= j < k ==> !names_seat(observed@, j, player_id),
        decreases observed@.len() - k,
    {
        if observed[k].id == id_text {
            proof {
                assert(names_seat(observed@, k as int, player_id));
                let c = choose|c: int|
                    0 <= c < observed@.len() && names_seat(observed@, c, player_id) && forall|j: int|
                        0 <= j < c ==> !names_seat(observed@, j, player_id);
                if c < k {
                } else if c > k {
                    assert(!names_seat(observed@, k as int, player_id));
                }
                assert(c == k);
            }
            return Some(k);
        }
        k = k + 1;
    }
    None
}

/// Whether the observation is of a team game.
fn team_game(observed: &[LiveObservedPlayer]) -> (team: bool)
    ensures
        team == is_team_game(observed@),
{
    let mut teams: usize = 0;
    let mut i: usize = 0;
    while i < observed.len()
        invariant
            0 <= i <= observed@.len(),
            teams as int == team_count(observed@, i as int),
            teams <= i,
        decreases observed@.len() - i,
    {
        let mut j: usize = 0;
        let mut opens = true;
        while j < i
            invariant
                0 <= j <= i < observed@.len(),
                opens <==> forall|m: int| 0 <= m < j ==> observed@[m].team@ != observed@[i as int].team@,
            decreases i - j,
        {
            if observed[j].team == observed[i].team {
                opens = false;
            }
            j = j + 1;
        }
        if opens {
            teams = teams + 1;
        }
        i = i + 1;
    }
    teams > 1 && teams < observed.len()
}

/// Seed the roster of a live match from its bootstrap player list and its
/// first observation.
///
/// Every bootstrap player whose faction id names a faction gets a seat, in
/// the order listed, its turn order its place in the list. The first
/// observed player whose id is the seat's number gives the seat's team (in a
/// team game), whether it is out, its commander portraits, its funds (where
/// they are reported) and its power meter. A live match carries no match,
/// map or account ids, and no recorded unit prices.
pub fn player_roster_seed_from_live_match(
    players: &[LiveMatchPlayer],
    observed: &[LiveObservedPlayer],
    income_per_property: u64,
) -> (seed: (PlayerRosterConfig, PlayerFunds, PlayerUnitCosts, PlayerPowerMeters))
    requires
        players@.len() <= u32::MAX as int + 1,
    ensures
        seed.0.match_id == 0,
        seed.0.map_id == 0,
        seed.0.funds_per_property == (if income_per_property <= u32::MAX {
            income_per_property as u32
        } else {
            0
        }),
        seed.0.players@ == live_seats(players@, observed@, is_team_game(observed@), players@.len() as int),
        seed.1@ == live_funds(players@, observed@, players@.len() as int),
        seed.2@ == Map::<u32, u32>::empty(),
        seed.3@ == live_meters(players@, observed@, players@.len() as int),
{
    let team = team_game(observed);
    let mut seats: Vec<PlayerRosterPlayer> = Vec::new();
    let mut funds = PlayerFunds::new();
    let mut meters = PlayerPowerMeters::new();
    let mut i: usize = 0;
    while i < players.len()
        invariant
            0 <= i <= players@.len(),
            players@.len() <= u32::MAX as int + 1,
            team == is_team_game(observed@),
            seats@ == live_seats(players@, observed@, team, i as int),
            funds@ == live_funds(players@, observed@, i as int),
            meters@ == live_meters(players@, observed@, i as int),
        decreases players@.len() - i,
    {
        let p = &players[i];
        match p.faction {
            Some(faction) => {
                let found = find_observed(observed, p.player_id);
                let seat = match found {
                    Some(k) => {
                        let o = &observed[k];
                        PlayerRosterPlayer {
                            player_id: p.player_id,
                            user_id: 0,
                            turn_order: i as u32,
                            team: if team {
                                Some(o.team.clone())
                            } else {
                                None
                            },
                            eliminated: !o.active,
                            faction,
                            faction_code: p.faction_code.clone(),
                            faction_name: p.faction_name.clone(),
                            co_key: clone_text(&o.co_key),
                            co_name: clone_text(&o.co_name),
                            tag_co_key: clone_text(&o.tag_co_key),
                            tag_co_name: clone_text(&o.tag_co_name),
                        }
                    },
                    None => PlayerRosterPlayer {
                        player_id: p.player_id,
                        user_id: 0,
                        turn_order: i as u32,
                        team: None,
                        eliminated: false,
                        faction,
                        faction_code: p.faction_code.clone(),
                        faction_name: p.faction_name.clone(),
                        co_key: None,
                        co_name: None,
                        tag_co_key: None,
                        tag_co_name: None,
                    },
                };
                proof {
                    assert(seat == live_seat(players@[i as int], i as int, faction, observed@, team));
                }
                seats.push(seat);
                if let Some(k) = found {
                    if let Some(value) = observed[k].funds {
                        let clamped: u32 = if value <= 4294967295u64 {
                            value as u32
                        } else {
                            4294967295u32
                        };
                        funds.set(p.player_id, clamped);
                    }
                    if let Some(meter) = active_power_meter(observed[k].commanders.as_slice(), observed[k].power_state) {
                        meters.set(p.player_id, meter);
                    }
                }
            },
            None => {},
        }
        i = i + 1;
    }
    let funds_per_property: u32 = if income_per_property <= 4294967295u64 {
        income_per_property as u32
    } else {
        0
    };
    (
        PlayerRosterConfig { match_id: 0, map_id: 0, funds_per_property, players: seats },
        funds,
        PlayerUnitCosts::new(),
        meters,
    )
}

/// A seat whose observation carries its funds is seeded with funds, and a
/// seat whose observation carries a readable power meter is seeded with a
/// meter: meters are public, so every observed seat with a commander whose
/// charge a meter holds gets one.
pub proof fn lemma_the_seed_keeps_what_was_observed(
    players: Seq<LiveMatchPlayer>,
    observed: Seq<LiveObservedPlayer>,
    i: int,
    n: int,
)
    requires
        0 <= i < n <= players.len(),
        players[i].faction is Some,
        observed_for(observed, players[i].player_id) is Some,
    ensures
        ({
            let k = observed_for(observed, players[i].player_id)->0;
            &&& observed[k].funds is Some ==> live_funds(players, observed, n).contains_key(players[i].player_id)
            &&& spec_active_power_meter(observed[k].commanders@, observed[k].power_state) is Some ==> live_meters(
                players,
                observed,
                n,
            ).contains_key(players[i].player_id)
        }),
    decreases n,
{
    if i < n - 1 {
        lemma_the_seed_keeps_what_was_observed(players, observed, i, n - 1);
    }
}

} // verus!
