//! What the board draws for each unit and tile, from the viewer's side of
//! the fog.
//!
//! The fog itself (which tiles and units the viewer sees, and what the viewer
//! last saw of a fogged tile) is the rules' answer and is handed in; this
//! module decides what is drawn from it.
use vstd::prelude::*;
use crate::board::PlayerFaction;
use crate::display::{
    display_faction_for_actual_faction, overrides_view, spec_display_faction_for_actual_faction,
    PlayerDisplayFactionOverrides,
};
use crate::roster::PlayerRosterConfig;

verus! {

/// Whose eyes a replay is watched through.
#[derive(Clone, Copy, Debug, PartialEq, Eq, Structural)]
pub enum ReplayViewpoint {
    /// Everything, as no player saw it.
    Spectator,
    /// Whichever seat is playing the turn.
    ActivePlayer,
    Player(u32),
}

/// The seat whose knowledge of the board is drawn under fog: none without
/// fog or for a spectator, the active seat for the active viewpoint, and the
/// named seat otherwise. `replay_known` says whether the replay's state and
/// its seats are loaded at all.
pub open spec fn spec_knowledge_player(
    fog_active: bool,
    viewpoint: Option<ReplayViewpoint>,
    replay_known: bool,
    active_player: Option<u32>,
) -> Option<u32> {
    if !fog_active || !replay_known {
        None
    } else {
        match viewpoint {
            None => None,
            Some(ReplayViewpoint::Spectator) => None,
            Some(ReplayViewpoint::ActivePlayer) => active_player,
            Some(ReplayViewpoint::Player(id)) => Some(id),
        }
    }
}

pub fn knowledge_player(
    fog_active: bool,
    viewpoint: Option<ReplayViewpoint>,
    replay_known: bool,
    active_player: Option<u32>,
) -> (player: Option<u32>)
    ensures
        player == spec_knowledge_player(fog_active, viewpoint, replay_known, active_player),
{
    if !fog_active || !replay_known {
        return None;
    }
    match viewpoint {
        None => None,
        Some(ReplayViewpoint::Spectator) => None,
        Some(ReplayViewpoint::ActivePlayer) => active_player,
        Some(ReplayViewpoint::Player(id)) => Some(id),
    }
}

/// A unit is drawn as able to act unless it belongs to the army whose turn
/// it is and has already acted. With no turn known, its own flag decides.
pub open spec fn spec_unit_is_active(is_active: bool, faction: PlayerFaction, active_faction: Option<PlayerFaction>) -> bool {
    match active_faction {
        Some(active) => is_active || faction != active,
        None => is_active,
    }
}

pub fn unit_is_active(is_active: bool, faction: PlayerFaction, active_faction: Option<PlayerFaction>) -> (active: bool)
    ensures
        active == spec_unit_is_active(is_active, faction, active_faction),
{
    match active_faction {
        Some(active) => is_active || faction != active,
        None => is_active,
    }
}

/// A unit is drawn when it is not inside a transport and the viewer sees it;
/// a unit the server never named is drawn only without fog.
pub open spec fn spec_unit_visible_to_viewer(carried: bool, seen: Option<bool>, fog_active: bool) -> bool {
    if carried {
        false
    } else {
        match seen {
            Some(v) => v,
            None => !fog_active,
        }
    }
}

pub fn unit_visible_to_viewer(carried: bool, seen: Option<bool>, fog_active: bool) -> (visible: bool)
    ensures
        visible == spec_unit_visible_to_viewer(carried, seen, fog_active),
{
    if carried {
        return false;
    }
    match seen {
        Some(v) => v,
        None => !fog_active,
    }
}

/// What a fogged tile is drawn as: what the viewer last saw there, when a
/// viewer's knowledge applies and holds the tile, and the tile as it stands
/// otherwise.
pub open spec fn spec_terrain_for_viewer<T>(fogged: bool, remembered: Option<T>, actual: T) -> T {
    if !fogged {
        actual
    } else {
        match remembered {
            Some(t) => t,
            None => actual,
        }
    }
}

pub fn terrain_for_viewer<T>(fogged: bool, remembered: Option<T>, actual: T) -> (drawn: T)
    ensures
        drawn == spec_terrain_for_viewer(fogged, remembered, actual),
{
    if !fogged {
        return actual;
    }
    match remembered {
        Some(t) => t,
        None => actual,
    }
}

/// A unit's health as its kind reads it: the figure shown, and whether that
/// figure means full health or a destroyed unit.
#[derive(Clone, Copy, Debug, PartialEq, Eq, Structural)]
pub struct HealthReading {
    pub value: u8,
    pub full: bool,
    pub destroyed: bool,
}

/// The badges drawn over a unit.
#[derive(Clone, Copy, Debug, PartialEq, Eq, Structural)]
pub struct ProjectedUnitOverlayFlags {
    /// The health figure, shown only for a damaged unit.
    pub health: Option<u8>,
    pub capturing: bool,
    pub cargo: bool,
    pub dive: bool,
    pub low_ammo: bool,
    pub low_fuel: bool,
}

/// How one unit is drawn.
#[derive(Clone, Copy, Debug, PartialEq, Eq, Structural)]
pub struct ProjectedUnitRenderState {
    pub unit: u16,
    pub faction: PlayerFaction,
    pub visible: bool,
    pub active: bool,
    pub overlays: ProjectedUnitOverlayFlags,
}

/// What is known of one unit on the board.
#[derive(Clone, Copy, Debug, PartialEq, Eq, Structural)]
pub struct UnitFacts {
    /// The unit's kind.
    pub unit: u16,
    pub faction: PlayerFaction,
    pub is_active: bool,
    pub capturing: bool,
    pub has_cargo: bool,
    pub hiding: bool,
    pub health: Option<HealthReading>,
    pub carried: bool,
    /// Whether the viewer sees it; absent for a unit the server never named.
    pub seen: Option<bool>,
}

pub open spec fn spec_projected_health(health: Option<HealthReading>) -> Option<u8> {
    match health {
        Some(h) => if !h.full && !h.destroyed {
            Some(h.value)
        } else {
            None
        },
        None => None,
    }
}

pub open spec fn spec_project_unit(
    facts: UnitFacts,
    fog_active: bool,
    active_faction: Option<PlayerFaction>,
    display_faction: PlayerFaction,
) -> ProjectedUnitRenderState {
    ProjectedUnitRenderState {
        unit: facts.unit,
        faction: display_faction,
        visible: spec_unit_visible_to_viewer(facts.carried, facts.seen, fog_active),
        active: spec_unit_is_active(facts.is_active, facts.faction, active_faction),
        overlays: ProjectedUnitOverlayFlags {
            health: spec_projected_health(facts.health),
            capturing: facts.capturing,
            cargo: facts.has_cargo,
            dive: facts.hiding,
            low_ammo: false,
            low_fuel: false,
        },
    }
}

/// How a unit is drawn: in its seat's display colours, hidden inside a
/// transport or under fog, greyed once it has acted on its own army's turn,
/// with its health shown only when it is damaged, and its capture, cargo and
/// dive badges.
pub fn project_unit_render_state(
    facts: UnitFacts,
    fog_active: bool,
    active_faction: Option<PlayerFaction>,
    roster: Option<&PlayerRosterConfig>,
    overrides: Option<&PlayerDisplayFactionOverrides>,
) -> (state: ProjectedUnitRenderState)
    ensures
        state == spec_project_unit(
            facts,
            fog_active,
            active_faction,
            spec_display_faction_for_actual_faction(roster, overrides_view(overrides), facts.faction),
        ),
{
    let display_faction = display_faction_for_actual_faction(roster, overrides, facts.faction);
    let health = match facts.health {
        Some(h) => if !h.full && !h.destroyed {
            Some(h.value)
        } else {
            None
        },
        None => None,
    };
    ProjectedUnitRenderState {
        unit: facts.unit,
        faction: display_faction,
        visible: unit_visible_to_viewer(facts.carried, facts.seen, fog_active),
        active: unit_is_active(facts.is_active, facts.faction, active_faction),
        overlays: ProjectedUnitOverlayFlags {
            health,
            capturing: facts.capturing,
            cargo: facts.has_cargo,
            dive: facts.hiding,
            low_ammo: false,
            low_fuel: false,
        },
    }
}

/// Whether a unit on the board is drawn at all under the fog: always
/// without fog, always for the viewer's own armies, and otherwise only when
/// it is not hiding and its tile is seen (from the air, for an air unit).
pub open spec fn spec_fog_shows_unit(fog_active: bool, friendly: bool, hiding: bool, tile_seen: bool) -> bool {
    !fog_active || friendly || (!hiding && tile_seen)
}

pub fn fog_shows_unit(fog_active: bool, friendly: bool, hiding: bool, tile_seen: bool) -> (shown: bool)
    ensures
        shown == spec_fog_shows_unit(fog_active, friendly, hiding, tile_seen),
{
    !fog_active || friendly || (!hiding && tile_seen)
}

/// Inside a transport a unit is never drawn, whatever the fog says.
pub proof fn lemma_cargo_is_never_drawn(facts: UnitFacts, fog_active: bool, active_faction: Option<PlayerFaction>, display: PlayerFaction)
    requires
        facts.carried,
    ensures
        !spec_project_unit(facts, fog_active, active_faction, display).visible,
{
}

/// The kinds of building a tile can hold.
#[derive(Clone, Copy, Debug, PartialEq, Eq, Structural)]
pub enum BuildingKind {
    Airport,
    Base,
    City,
    ComTower,
    Headquarters,
    Lab,
    Port,
}

/// What a tile is drawn as: a building and who holds it (nobody, for a
/// neutral one), or any other ground, by its terrain.
#[derive(Clone, Copy, Debug, PartialEq, Eq, Structural)]
pub enum DrawnTerrain {
    Building { kind: BuildingKind, owner: Option<PlayerFaction> },
    Ground(u16),
}

/// A held building is drawn in its holder's display colours; neutral
/// buildings and other ground are drawn as they are.
pub open spec fn spec_terrain_with_display_faction(terrain: DrawnTerrain, display: PlayerFaction) -> DrawnTerrain {
    match terrain {
        DrawnTerrain::Building { kind, owner: Some(_) } => DrawnTerrain::Building { kind, owner: Some(display) },
        _ => terrain,
    }
}

pub fn terrain_with_display_faction(
    terrain: DrawnTerrain,
    roster: Option<&PlayerRosterConfig>,
    overrides: Option<&PlayerDisplayFactionOverrides>,
) -> (drawn: DrawnTerrain)
    ensures
        drawn == match terrain {
            DrawnTerrain::Building { kind, owner: Some(actual) } => spec_terrain_with_display_faction(
                terrain,
                spec_display_faction_for_actual_faction(roster, overrides_view(overrides), actual),
            ),
            _ => terrain,
        },
{
    match terrain {
        DrawnTerrain::Building { kind, owner: Some(actual) } => {
            let display = display_faction_for_actual_faction(roster, overrides, actual);
            if display == actual {
                terrain
            } else {
                DrawnTerrain::Building { kind, owner: Some(display) }
            }
        },
        _ => terrain,
    }
}

} // verus!
