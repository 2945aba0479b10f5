//! A live match as the server reports it to one player: whose turn it is,
//! which army the viewer plays, and the units the viewer can see.
//!
//! The server sends a whole state when the match opens and updates after
//! that. Reading the wire format happens outside; this module keeps the
//! view, the terrain and the units consistent with what was reported.
use vstd::prelude::*;
use std::collections::BTreeMap;
use crate::board::{PlayerFaction, TilePosition};
use crate::loading::{grid_wf, lay_terrain, spec_overrides, TerrainGrid};

verus! {

broadcast use vstd::std_specs::btree::group_btree_axioms;

/// Whose turn it is and who is watching.
#[derive(Debug)]
pub struct MatchViewState {
    pub viewer_slot_index: Option<u8>,
    pub active_player_slot: u8,
    pub day: u32,
    /// The army each seat plays.
    pub slot_factions: BTreeMap<u8, PlayerFaction>,
}

/// The seats' armies as the participants list them: a seat listed twice
/// plays the army it was listed with last.
pub open spec fn listing_map(listing: Seq<(u8, PlayerFaction)>) -> Map<u8, PlayerFaction>
    decreases listing.len(),
{
    if listing.len() == 0 {
        Map::empty()
    } else {
        listing_map(listing.drop_last()).insert(listing.last().0, listing.last().1)
    }
}

/// The army the viewer plays: the army of its seat, when it has a seat that
/// plays one.
pub open spec fn spec_viewer_faction(viewer_slot: Option<u8>, factions: Map<u8, PlayerFaction>) -> Option<PlayerFaction> {
    match viewer_slot {
        Some(slot) => if factions.contains_key(slot) {
            Some(factions[slot])
        } else {
            None
        },
        None => None,
    }
}

/// Whether it is the viewer's turn.
pub open spec fn viewer_turn(viewer_slot: Option<u8>, active_slot: u8) -> bool {
    viewer_slot == Some(active_slot)
}

/// The seats' armies from the participants' listing.
pub fn seat_factions(listing: &[(u8, PlayerFaction)]) -> (factions: BTreeMap<u8, PlayerFaction>)
    ensures
        factions@ == listing_map(listing@),
{
    let mut factions: BTreeMap<u8, PlayerFaction> = BTreeMap::new();
    let mut i: usize = 0;
    while i < listing.len()
        invariant
            0 <= i <= listing@.len(),
            factions@ == listing_map(listing@.take(i as int)),
        decreases listing@.len() - i,
    {
        proof {
            assert(listing@.take(i + 1).drop_last() =~= listing@.take(i as int));
            assert(listing@.take(i + 1).last() == listing@[i as int]);
        }
        let (slot, faction) = listing[i];
        factions.insert(slot, faction);
        i = i + 1;
    }
    proof {
        assert(listing@.take(listing@.len() as int) =~= listing@);
    }
    factions
}

impl MatchViewState {
    /// The army the viewer plays, if the viewer plays at all.
    pub fn viewer_faction(&self) -> (faction: Option<PlayerFaction>)
        ensures
            faction == spec_viewer_faction(self.viewer_slot_index, self.slot_factions@),
    {
        let slot = match self.viewer_slot_index {
            Some(slot) => slot,
            None => return None,
        };
        match self.slot_factions.get(&slot) {
            Some(f) => Some(*f),
            None => None,
        }
    }
}

/// One unit the viewer can see.
#[derive(Debug)]
pub struct LiveUnit {
    /// The server's id for the unit.
    pub id: u64,
    /// The unit's kind.
    pub unit: u16,
    pub faction: PlayerFaction,
    pub position: TilePosition,
    pub hp: u8,
    pub active: bool,
    pub fuel: Option<u32>,
    pub ammo: Option<u32>,
    /// The kinds of the units it carries.
    pub cargo: Vec<u16>,
    pub capture_progress: Option<u8>,
    pub hiding: bool,
}

/// A unit as the server describes it, with its kind and army already read.
#[derive(Debug)]
pub struct WireUnit {
    pub id: u64,
    pub unit: u16,
    pub faction: PlayerFaction,
    pub position: TilePosition,
    pub hp: Option<u8>,
    pub active: Option<bool>,
    pub fuel: Option<u32>,
    pub ammo: Option<u32>,
    pub cargo: Vec<u16>,
    pub capture_progress: Option<u8>,
    pub hiding: bool,
}

/// The unit a description stands for: a unit with no health reported is at
/// full health (10), and one with no activity reported has acted.
pub open spec fn spec_visible_unit(w: WireUnit) -> LiveUnit {
    LiveUnit {
        id: w.id,
        unit: w.unit,
        faction: w.faction,
        position: w.position,
        hp: match w.hp {
            Some(hp) => hp,
            None => 10,
        },
        active: match w.active {
            Some(a) => a,
            None => false,
        },
        fuel: w.fuel,
        ammo: w.ammo,
        cargo: w.cargo,
        capture_progress: w.capture_progress,
        hiding: w.hiding,
    }
}

pub fn parse_visible_unit(w: WireUnit) -> (unit: LiveUnit)
    ensures
        unit == spec_visible_unit(w),
{
    LiveUnit {
        id: w.id,
        unit: w.unit,
        faction: w.faction,
        position: w.position,
        hp: match w.hp {
            Some(hp) => hp,
            None => 10,
        },
        active: match w.active {
            Some(a) => a,
            None => false,
        },
        fuel: w.fuel,
        ammo: w.ammo,
        cargo: w.cargo,
        capture_progress: w.capture_progress,
        hiding: w.hiding,
    }
}

/// No two units share an id.
pub open spec fn ids_unique(units: Seq<LiveUnit>) -> bool {
    forall|i: int, j: int| 0 <= i < j < units.len() ==> units[i].id != units[j].id
}

pub open spec fn has_unit(units: Seq<LiveUnit>, id: u64) -> bool {
    exists|i: int| 0 <= i < units.len() && units[i].id == id
}

/// Where the unit with `id` stands in the list.
pub open spec fn unit_index(units: Seq<LiveUnit>, id: u64) -> int {
    choose|i: int| 0 <= i < units.len() && units[i].id == id && forall|j: int| 0 <= j < i ==> units[j].id != id
}

/// The units after one is revealed: it replaces the unit with its id, or
/// joins the list.
pub open spec fn spec_upsert(units: Seq<LiveUnit>, unit: LiveUnit) -> Seq<LiveUnit> {
    if has_unit(units, unit.id) {
        units.update(unit_index(units, unit.id), unit)
    } else {
        units.push(unit)
    }
}

/// The units after the unit with `id` moves to `to`. A unit of `spent` (the
/// viewer's army, on the viewer's turn) has acted once it moves.
pub open spec fn spec_move(units: Seq<LiveUnit>, id: u64, to: TilePosition, spent: Option<PlayerFaction>) -> Seq<LiveUnit> {
    if has_unit(units, id) {
        let i = unit_index(units, id);
        let u = units[i];
        units.update(i, LiveUnit {
            position: to,
            active: if spent == Some(u.faction) {
                false
            } else {
                u.active
            },
            ..u
        })
    } else {
        units
    }
}

pub open spec fn spec_remove(units: Seq<LiveUnit>, id: u64) -> Seq<LiveUnit> {
    if has_unit(units, id) {
        units.remove(unit_index(units, id))
    } else {
        units
    }
}

/// When the turn passes, every unit of the viewer's army can act exactly when
/// the turn is the viewer's.
pub open spec fn spec_turn_units(units: Seq<LiveUnit>, viewer: Option<PlayerFaction>, viewer_active: bool) -> Seq<LiveUnit> {
    Seq::new(
        units.len(),
        |i: int|
            if viewer == Some(units[i].faction) {
                LiveUnit { active: viewer_active, ..units[i] }
            } else {
                units[i]
            },
    )
}

pub open spec fn spec_upsert_all(units: Seq<LiveUnit>, revealed: Seq<LiveUnit>) -> Seq<LiveUnit>
    decreases revealed.len(),
{
    if revealed.len() == 0 {
        units
    } else {
        spec_upsert(spec_upsert_all(units, revealed.drop_last()), revealed.last())
    }
}

pub open spec fn spec_move_all(units: Seq<LiveUnit>, moved: Seq<(u64, TilePosition)>, spent: Option<PlayerFaction>) -> Seq<LiveUnit>
    decreases moved.len(),
{
    if moved.len() == 0 {
        units
    } else {
        let earlier = spec_move_all(units, moved.drop_last(), spent);
        spec_move(earlier, moved.last().0, moved.last().1, spent)
    }
}

pub open spec fn spec_remove_all(units: Seq<LiveUnit>, removed: Seq<u64>) -> Seq<LiveUnit>
    decreases removed.len(),
{
    if removed.len() == 0 {
        units
    } else {
        spec_remove(spec_remove_all(units, removed.drop_last()), removed.last())
    }
}

fn find_unit(units: &Vec<LiveUnit>, id: u64) -> (found: Option<usize>)
    ensures
        match found {
            Some(i) => has_unit(units@, id) && i == unit_index(units@, id) && i < units@.len(),
            None => !has_unit(units@, id),
        },
{
    let mut i: usize = 0;
    while i < units.len()
        invariant
            0 <= i <= units@.len(),
            forall|j: int| 0 <= j < i ==> units@[j].id != id,
        decreases units@.len() - i,
    {
        if units[i].id == id {
            proof {
                let k = unit_index(units@, id);
                assert(0 <= i < units@.len() && units@[i as int].id == id && forall|j: int| 0 <= j < i ==> units@[j].id != id);
                assert(k == i);
            }
            return Some(i);
        }
        i = i + 1;
    }
    None
}

/// Reveal a unit: replace the unit with its id, or add it.
pub fn upsert_visible_unit(units: &mut Vec<LiveUnit>, unit: LiveUnit)
    requires
        ids_unique(old(units)@),
    ensures
        final(units)@ == spec_upsert(old(units)@, unit),
        ids_unique(final(units)@),
{
    match find_unit(units, unit.id) {
        Some(i) => {
            units.set(i, unit);
        },
        None => {
            units.push(unit);
        },
    }
}

/// Move the unit with `id`, if it is known.
pub fn move_unit(units: &mut Vec<LiveUnit>, id: u64, to: TilePosition, spent: Option<PlayerFaction>)
    requires
        ids_unique(old(units)@),
    ensures
        final(units)@ == spec_move(old(units)@, id, to, spent),
        ids_unique(final(units)@),
{
    if let Some(i) = find_unit(units, id) {
        let ghost before = units@;
        let mut u = units.remove(i);
        u.position = to;
        if spent == Some(u.faction) {
            u.active = false;
        }
        units.insert(i, u);
        proof {
            assert(units@ =~= spec_move(before, id, to, spent));
        }
    }
}

/// Take the unit with `id` off the board, if it is known.
pub fn remove_unit(units: &mut Vec<LiveUnit>, id: u64)
    requires
        ids_unique(old(units)@),
    ensures
        final(units)@ == spec_remove(old(units)@, id),
        ids_unique(final(units)@),
{
    if let Some(i) = find_unit(units, id) {
        let ghost before = units@;
        units.remove(i);
        proof {
            assert forall|a: int, b: int| 0 <= a < b < units@.len() implies units@[a].id != units@[b].id by {
                if a >= i {
                    assert(units@[a] == before[a + 1]);
                }
                if b >= i {
                    assert(units@[b] == before[b + 1]);
                }
            }
        }
    }
}

/// The turn has passed: the viewer's units can act exactly when it is now
/// the viewer's turn.
pub fn set_viewer_units_active(units: &mut Vec<LiveUnit>, viewer: Option<PlayerFaction>, viewer_active: bool)
    requires
        ids_unique(old(units)@),
    ensures
        final(units)@ == spec_turn_units(old(units)@, viewer, viewer_active),
        ids_unique(final(units)@),
{
    let ghost before = units@;
    let mut i: usize = 0;
    while i < units.len()
        invariant
            0 <= i <= units@.len(),
            units@.len() == before.len(),
            forall|j: int| 0 <= j < i ==> units@[j] == spec_turn_units(before, viewer, viewer_active)[j],
            forall|j: int| i <= j < units@.len() ==> units@[j] == before[j],
        decreases units@.len() - i,
    {
        let ghost at = units@;
        let mut u = units.remove(i);
        if viewer == Some(u.faction) {
            u.active = viewer_active;
        }
        units.insert(i, u);
        proof {
            assert forall|j: int| 0 <= j < units@.len() && j != i implies units@[j] == at[j] by {
                if j < i {
                    assert(units@[j] == at.remove(i as int)[j]);
                } else {
                    assert(units@[j] == at.remove(i as int)[j - 1]);
                }
            }
        }
        i = i + 1;
    }
    proof {
        assert(units@ =~= spec_turn_units(before, viewer, viewer_active));
    }
}

/// A change of turn: the seat now playing, and the new day when the day
/// turned over.
#[derive(Clone, Copy, Debug, PartialEq, Eq, Structural)]
pub struct TurnChange {
    pub new_active_player_slot: u8,
    pub new_day: Option<u32>,
}

/// One update from the server, with its units and its terrain already read.
/// Terrain comes as (tile, terrain id): the tiles the viewer now sees, and the
/// tiles whose terrain changed.
#[derive(Debug)]
pub struct MatchUpdate {
    pub day: u32,
    pub active_player_slot: u8,
    pub terrain_revealed: Vec<(TilePosition, u16)>,
    pub terrain_changed: Vec<(TilePosition, u16)>,
    pub units_revealed: Vec<LiveUnit>,
    pub units_moved: Vec<(u64, TilePosition)>,
    pub units_removed: Vec<u64>,
    pub turn_change: Option<TurnChange>,
}

/// The view and the units after an update: revealed units are added or
/// replaced, moved units move (a unit of the viewer's army moved on the
/// viewer's turn has acted), removed units go, and when the turn passes the
/// viewer's units can act exactly when the new turn is the viewer's.
pub open spec fn spec_apply_update(
    viewer_slot: Option<u8>,
    factions: Map<u8, PlayerFaction>,
    units: Seq<LiveUnit>,
    update: MatchUpdate,
) -> (u8, u32, Seq<LiveUnit>) {
    let viewer = spec_viewer_faction(viewer_slot, factions);
    let revealed = spec_upsert_all(units, update.units_revealed@);
    let spent = if viewer_turn(viewer_slot, update.active_player_slot) {
        viewer
    } else {
        None
    };
    let moved = spec_move_all(revealed, update.units_moved@, spent);
    let remaining = spec_remove_all(moved, update.units_removed@);
    match update.turn_change {
        None => (update.active_player_slot, update.day, remaining),
        Some(tc) => (
            tc.new_active_player_slot,
            match tc.new_day {
                Some(d) => d,
                None => update.day,
            },
            spec_turn_units(remaining, viewer, viewer_turn(viewer_slot, tc.new_active_player_slot)),
        ),
    }
}

fn upsert_all(units: &mut Vec<LiveUnit>, revealed: Vec<LiveUnit>)
    requires
        ids_unique(old(units)@),
    ensures
        final(units)@ == spec_upsert_all(old(units)@, revealed@),
        ids_unique(final(units)@),
{
    let ghost all = revealed@;
    let ghost start = units@;
    let mut rest = revealed;
    let ghost mut n: int = 0;
    proof {
        assert(all.skip(0) =~= all);
    }
    while rest.len() > 0
        invariant
            0 <= n <= all.len(),
            rest@ == all.skip(n),
            units@ == spec_upsert_all(start, all.take(n)),
            ids_unique(units@),
        decreases rest@.len(),
    {
        let u = rest.remove(0);
        proof {
            assert(all.take(n + 1).drop_last() =~= all.take(n));
            assert(all.take(n + 1).last() == all[n]);
        }
        upsert_visible_unit(units, u);
        proof {
            assert(all.skip(n).remove(0) =~= all.skip(n + 1));
            n = n + 1;
        }
    }
    proof {
        assert(all.take(n) =~= all);
    }
}

fn move_all(units: &mut Vec<LiveUnit>, moved: &Vec<(u64, TilePosition)>, spent: Option<PlayerFaction>)
    requires
        ids_unique(old(units)@),
    ensures
        final(units)@ == spec_move_all(old(units)@, moved@, spent),
        ids_unique(final(units)@),
{
    let ghost start = units@;
    let mut i: usize = 0;
    while i < moved.len()
        invariant
            0 <= i <= moved@.len(),
            units@ == spec_move_all(start, moved@.take(i as int), spent),
            ids_unique(units@),
        decreases moved@.len() - i,
    {
        proof {
            assert(moved@.take(i + 1).drop_last() =~= moved@.take(i as int));
            assert(moved@.take(i + 1).last() == moved@[i as int]);
        }
        let (id, to) = moved[i];
        move_unit(units, id, to, spent);
        i = i + 1;
    }
    proof {
        assert(moved@.take(moved@.len() as int) =~= moved@);
    }
}

fn remove_all(units: &mut Vec<LiveUnit>, removed: &Vec<u64>)
    requires
        ids_unique(old(units)@),
    ensures
        final(units)@ == spec_remove_all(old(units)@, removed@),
        ids_unique(final(units)@),
{
    let ghost start = units@;
    let mut i: usize = 0;
    while i < removed.len()
        invariant
            0 <= i <= removed@.len(),
            units@ == spec_remove_all(start, removed@.take(i as int)),
            ids_unique(units@),
        decreases removed@.len() - i,
    {
        proof {
            assert(removed@.take(i + 1).drop_last() =~= removed@.take(i as int));
            assert(removed@.take(i + 1).last() == removed@[i as int]);
        }
        remove_unit(units, removed[i]);
        i = i + 1;
    }
    proof {
        assert(removed@.take(removed@.len() as int) =~= removed@);
    }
}

impl MatchViewState {
    /// Open a match from the whole state the server sent: the view, and the
    /// units it reveals, each once.
    pub fn open(
        viewer_slot_index: Option<u8>,
        active_player_slot: u8,
        day: u32,
        slot_factions: Vec<(u8, PlayerFaction)>,
        grid: &mut TerrainGrid,
        terrain: &[(TilePosition, u16)],
        revealed: Vec<LiveUnit>,
    ) -> (opened: (MatchViewState, Vec<LiveUnit>))
        requires
            grid_wf(old(grid).width, old(grid).height, old(grid).tiles@),
        ensures
            final(grid).width == old(grid).width,
            final(grid).height == old(grid).height,
            final(grid).tiles@ == spec_overrides(old(grid).width, old(grid).height, old(grid).tiles@, terrain@),
            grid_wf(final(grid).width, final(grid).height, final(grid).tiles@),
            opened.0.viewer_slot_index == viewer_slot_index,
            opened.0.active_player_slot == active_player_slot,
            opened.0.day == day,
            opened.0.slot_factions@ == listing_map(slot_factions@),
            opened.1@ == spec_upsert_all(Seq::empty(), revealed@),
            ids_unique(opened.1@),
    {
        lay_terrain(grid, terrain);
        let mut units: Vec<LiveUnit> = Vec::new();
        upsert_all(&mut units, revealed);
        let slot_factions = seat_factions(slot_factions.as_slice());
        (MatchViewState { viewer_slot_index, active_player_slot, day, slot_factions }, units)
    }

    /// The armies the viewer counts as friendly: its own, when it plays.
    pub fn friendly_faction(&self) -> (faction: Option<PlayerFaction>)
        ensures
            faction == spec_viewer_faction(self.viewer_slot_index, self.slot_factions@),
    {
        self.viewer_faction()
    }

    /// Apply one update from the server to the view, the terrain and the
    /// units. The revealed terrain is laid first and the changed terrain over
    /// it; a tile off the board is skipped.
    pub fn apply_match_update(&mut self, grid: &mut TerrainGrid, units: &mut Vec<LiveUnit>, update: MatchUpdate)
        requires
            ids_unique(old(units)@),
            grid_wf(old(grid).width, old(grid).height, old(grid).tiles@),
        ensures
            final(grid).width == old(grid).width,
            final(grid).height == old(grid).height,
            final(grid).tiles@ == spec_overrides(
                old(grid).width,
                old(grid).height,
                spec_overrides(old(grid).width, old(grid).height, old(grid).tiles@, update.terrain_revealed@),
                update.terrain_changed@,
            ),
            grid_wf(final(grid).width, final(grid).height, final(grid).tiles@),
            ({
                let (active, day, after) = spec_apply_update(
                    old(self).viewer_slot_index,
                    old(self).slot_factions@,
                    old(units)@,
                    update,
                );
                &&& final(self).active_player_slot == active
                &&& final(self).day == day
                &&& final(units)@ == after
                &&& final(self).viewer_slot_index == old(self).viewer_slot_index
                &&& final(self).slot_factions@ == old(self).slot_factions@
            }),
            ids_unique(final(units)@),
    {
        self.day = update.day;
        self.active_player_slot = update.active_player_slot;
        lay_terrain(grid, update.terrain_revealed.as_slice());
        lay_terrain(grid, update.terrain_changed.as_slice());
        let MatchUpdate { units_revealed, units_moved, units_removed, turn_change, .. } = update;
        upsert_all(units, units_revealed);
        let viewer = self.viewer_faction();
        let spent = if self.viewer_slot_index == Some(self.active_player_slot) {
            viewer
        } else {
            None
        };
        move_all(units, &units_moved, spent);
        remove_all(units, &units_removed);
        if let Some(tc) = turn_change {
            self.active_player_slot = tc.new_active_player_slot;
            if let Some(d) = tc.new_day {
                self.day = d;
            }
            let viewer_active = self.viewer_slot_index == Some(self.active_player_slot);
            set_viewer_units_active(units, viewer, viewer_active);
        }
    }
}

/// When the turn passes to the viewer every unit of the viewer's army can
/// act, and when it passes to anyone else none of them can.
pub proof fn lemma_turn_change_wakes_exactly_the_viewers_army(
    units: Seq<LiveUnit>,
    viewer: PlayerFaction,
    viewer_active: bool,
    i: int,
)
    requires
        0 <= i < units.len(),
        units[i].faction == viewer,
    ensures
        spec_turn_units(units, Some(viewer), viewer_active)[i].active == viewer_active,
{
}

/// A unit the server removed is gone, and every other unit stays.
pub proof fn lemma_a_removed_unit_is_gone(units: Seq<LiveUnit>, id: u64, other: u64)
    requires
        ids_unique(units),
        other != id,
    ensures
        !has_unit(spec_remove(units, id), id),
        has_unit(units, other) == has_unit(spec_remove(units, id), other),
{
    if has_unit(units, id) {
        let k = unit_index(units, id);
        let after = units.remove(k);
        if has_unit(after, id) {
            let j = choose|j: int| 0 <= j < after.len() && after[j].id == id;
            if j < k {
                assert(after[j] == units[j]);
            } else {
                assert(after[j] == units[j + 1]);
            }
        }
        if has_unit(units, other) {
            let j = choose|j: int| 0 <= j < units.len() && units[j].id == other;
            if j < k {
                assert(after[j] == units[j]);
            } else {
                assert(j != k);
                assert(after[j - 1] == units[j]);
            }
        }
        if has_unit(after, other) {
            let j = choose|j: int| 0 <= j < after.len() && after[j].id == other;
            if j < k {
                assert(after[j] == units[j]);
            } else {
                assert(after[j] == units[j + 1]);
            }
        }
    }
}

/// Revealing a unit the viewer already sees replaces it rather than drawing
/// it twice: the units keep one entry per id, and the revealed one is there.
pub proof fn lemma_revealing_twice_draws_once(units: Seq<LiveUnit>, unit: LiveUnit)
    requires
        ids_unique(units),
    ensures
        has_unit(spec_upsert(units, unit), unit.id),
        spec_upsert(spec_upsert(units, unit), unit).len() == spec_upsert(units, unit).len(),
{
    let once = spec_upsert(units, unit);
    if has_unit(units, unit.id) {
        assert(once[unit_index(units, unit.id)].id == unit.id);
    } else {
        assert(once[units.len() as int].id == unit.id);
    }
}

} // verus!
