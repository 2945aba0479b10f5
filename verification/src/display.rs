//! The faction each seat is drawn in. A viewer may recolour a seat; a seat
//! that was not recoloured is drawn in the faction it plays.
use vstd::prelude::*;
use std::collections::HashMap;
use crate::board::PlayerFaction;
use crate::roster::{PlayerRosterConfig, player_id_for_faction, seat_for_faction};

verus! {

broadcast use vstd::std_specs::hash::group_hash_axioms;

/// The recolourings a viewer asked for, by seat.
#[derive(Debug)]
pub struct PlayerDisplayFactionOverrides(pub HashMap<u32, PlayerFaction>);

impl View for PlayerDisplayFactionOverrides {
    type V = Map<u32, PlayerFaction>;

    open spec fn view(&self) -> Map<u32, PlayerFaction> {
        self.0@
    }
}

pub open spec fn spec_display_faction(overrides: Map<u32, PlayerFaction>, player_id: u32, actual: PlayerFaction) -> PlayerFaction {
    if overrides.contains_key(player_id) {
        overrides[player_id]
    } else {
        actual
    }
}

pub open spec fn spec_set_override(overrides: Map<u32, PlayerFaction>, player_id: u32, faction: Option<PlayerFaction>) -> Map<u32, PlayerFaction> {
    match faction {
        Some(f) => overrides.insert(player_id, f),
        None => overrides.remove(player_id),
    }
}

impl PlayerDisplayFactionOverrides {
    pub fn new() -> (overrides: PlayerDisplayFactionOverrides)
        ensures
            overrides@ == Map::<u32, PlayerFaction>::empty(),
    {
        PlayerDisplayFactionOverrides(HashMap::new())
    }

    /// Recolour a seat, or (with `None`) give it back its own faction.
    /// Answers whether anything changed.
    pub fn set(&mut self, player_id: u32, faction: Option<PlayerFaction>) -> (changed: bool)
        ensures
            final(self)@ == spec_set_override(old(self)@, player_id, faction),
            changed == (spec_set_override(old(self)@, player_id, faction) != old(self)@),
    {
        match faction {
            Some(f) => {
                let previous = self.0.insert(player_id, f);
                proof {
                    if previous == Some(f) {
                        assert(old(self)@.insert(player_id, f) =~= old(self)@);
                    } else {
                        assert(old(self)@.insert(player_id, f)[player_id] == f);
                    }
                }
                previous != Some(f)
            },
            None => {
                let removed = self.0.remove(&player_id);
                proof {
                    if removed.is_none() {
                        assert(old(self)@.remove(player_id) =~= old(self)@);
                    } else {
                        assert(!old(self)@.remove(player_id).contains_key(player_id));
                    }
                }
                removed.is_some()
            },
        }
    }

    /// The faction a seat is drawn in.
    pub fn display_faction_for_player(&self, player_id: u32, actual_faction: PlayerFaction) -> (faction: PlayerFaction)
        ensures
            faction == spec_display_faction(self@, player_id, actual_faction),
    {
        match self.0.get(&player_id) {
            Some(f) => *f,
            None => actual_faction,
        }
    }
}

pub open spec fn spec_display_faction_for_player(
    overrides: Option<Map<u32, PlayerFaction>>,
    player_id: u32,
    actual: PlayerFaction,
) -> PlayerFaction {
    match overrides {
        Some(o) => spec_display_faction(o, player_id, actual),
        None => actual,
    }
}

pub open spec fn overrides_view(overrides: Option<&PlayerDisplayFactionOverrides>) -> Option<Map<u32, PlayerFaction>> {
    match overrides {
        Some(o) => Some(o@),
        None => None,
    }
}

/// The faction a seat is drawn in, when there may be no recolourings at all.
pub fn display_faction_for_player(
    overrides: Option<&PlayerDisplayFactionOverrides>,
    player_id: u32,
    actual_faction: PlayerFaction,
) -> (faction: PlayerFaction)
    ensures
        faction == spec_display_faction_for_player(overrides_view(overrides), player_id, actual_faction),
{
    match overrides {
        Some(o) => o.display_faction_for_player(player_id, actual_faction),
        None => actual_faction,
    }
}

pub open spec fn spec_display_faction_for_actual_faction(
    config: Option<&PlayerRosterConfig>,
    overrides: Option<Map<u32, PlayerFaction>>,
    actual: PlayerFaction,
) -> PlayerFaction {
    match config {
        None => actual,
        Some(c) => match seat_for_faction(c.players@, actual) {
            None => actual,
            Some(player_id) => spec_display_faction_for_player(overrides, player_id, actual),
        },
    }
}

/// The faction an army is drawn in: the recolouring of the seat that plays
/// it, when the roster knows that seat.
pub fn display_faction_for_actual_faction(
    config: Option<&PlayerRosterConfig>,
    overrides: Option<&PlayerDisplayFactionOverrides>,
    actual_faction: PlayerFaction,
) -> (faction: PlayerFaction)
    ensures
        faction == spec_display_faction_for_actual_faction(config, overrides_view(overrides), actual_faction),
{
    let config = match config {
        Some(c) => c,
        None => return actual_faction,
    };
    let player_id = match player_id_for_faction(config, actual_faction) {
        Some(id) => id,
        None => return actual_faction,
    };
    display_faction_for_player(overrides, player_id, actual_faction)
}

/// A recolouring reads back as set, and taking it away gives the seat its own
/// faction again.
pub proof fn lemma_recolouring_reads_back(
    overrides: Map<u32, PlayerFaction>,
    player_id: u32,
    faction: PlayerFaction,
    actual: PlayerFaction,
)
    ensures
        spec_display_faction(spec_set_override(overrides, player_id, Some(faction)), player_id, actual) == faction,
        spec_display_faction(spec_set_override(overrides, player_id, None), player_id, actual) == actual,
{
}

/// Recolouring one seat leaves every other seat as it was drawn.
pub proof fn lemma_recolouring_touches_one_seat(
    overrides: Map<u32, PlayerFaction>,
    player_id: u32,
    faction: Option<PlayerFaction>,
    other: u32,
    actual: PlayerFaction,
)
    requires
        other != player_id,
    ensures
        spec_display_faction(spec_set_override(overrides, player_id, faction), other, actual)
            == spec_display_faction(overrides, other, actual),
{
}

/// Asking for the same recolouring twice changes nothing the second time.
pub proof fn lemma_repeated_recolouring_is_no_change(
    overrides: Map<u32, PlayerFaction>,
    player_id: u32,
    faction: Option<PlayerFaction>,
)
    ensures
        spec_set_override(spec_set_override(overrides, player_id, faction), player_id, faction)
            == spec_set_override(overrides, player_id, faction),
{
    match faction {
        Some(f) => {
            assert(overrides.insert(player_id, f).insert(player_id, f) =~= overrides.insert(player_id, f));
        },
        None => {
            assert(overrides.remove(player_id).remove(player_id) =~= overrides.remove(player_id));
        },
    }
}

} // verus!
