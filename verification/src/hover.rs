//! The readout of the tile under the pointer.
//!
//! A mouse reads the tile under its cursor. A finger cannot hover, so the
//! readout follows the tile the player last pointed at. The readout is sent
//! only when what it shows changes. What a unit and a tile are called, and
//! which sprite draws a tile, are looked up outside.
use vstd::prelude::*;
use crate::board::{PlayerFaction, Pos};
use crate::gestures::{GestureReport, PointerGestureKind};

verus! {

/// The tile a finger reads after some gestures: each gesture by a finger that
/// names a tile moves it there; a cancel, a mouse, or a gesture off the board
/// leaves it where it was.
pub open spec fn spec_track(gestures: Seq<GestureReport>, inspected: Option<Pos>) -> Option<Pos>
    decreases gestures.len(),
{
    if gestures.len() == 0 {
        inspected
    } else {
        let earlier = spec_track(gestures.drop_last(), inspected);
        let g = gestures.last();
        if g.coarse && g.kind != PointerGestureKind::DragCancel && g.tile is Some {
            g.tile
        } else {
            earlier
        }
    }
}

/// Follow the finger, for the readout only. This commits nothing.
pub fn track_inspected_tile(gestures: &[GestureReport], inspected: Option<Pos>) -> (followed: Option<Pos>)
    ensures
        followed == spec_track(gestures@, inspected),
{
    let mut followed = inspected;
    let mut i: usize = 0;
    while i < gestures.len()
        invariant
            0 <= i <= gestures@.len(),
            followed == spec_track(gestures@.take(i as int), inspected),
        decreases gestures@.len() - i,
    {
        proof {
            assert(gestures@.take(i + 1).drop_last() =~= gestures@.take(i as int));
            assert(gestures@.take(i + 1).last() == gestures@[i as int]);
        }
        let g = gestures[i];
        let cancel = match g.kind {
            PointerGestureKind::DragCancel => true,
            _ => false,
        };
        if g.coarse && !cancel && g.tile.is_some() {
            followed = g.tile;
        }
        i = i + 1;
    }
    proof {
        assert(gestures@.take(gestures@.len() as int) =~= gestures@);
    }
    followed
}

/// The tile the readout is about: the finger's, in a touch session, and the
/// cursor's otherwise.
pub fn hover_position(coarse: bool, inspected: Option<Pos>, cursor: Option<Pos>) -> (position: Option<Pos>)
    ensures
        position == if coarse {
            inspected
        } else {
            cursor
        },
{
    if coarse {
        inspected
    } else {
        cursor
    }
}

/// How the readout shows a unit's ammunition.
#[derive(Clone, Copy, Debug, PartialEq, Eq, Structural)]
pub enum AmmoDisplay {
    /// The unit has no weapon: no ammunition is shown at all.
    NoWeapon,
    /// Every weapon of the unit fires without ammunition.
    Unlimited,
    /// The unit spends ammunition: its count and its maximum apply.
    Counted,
}

/// What the ruleset says about a unit kind's weapons.
#[derive(Clone, Copy, Debug, PartialEq, Eq, Structural)]
pub enum WeaponPolicy {
    Unarmed,
    Unlimited,
    Ammo,
    AmmoWithUnlimited,
}

impl AmmoDisplay {
    /// What the readout says about the weapons of one unit kind, by the
    /// weapon policy its rules give it. A weapon with rounds is counted, even
    /// beside one that never runs out.
    pub fn for_unit(policy: WeaponPolicy) -> (display: AmmoDisplay)
        ensures
            display == match policy {
                WeaponPolicy::Unarmed => AmmoDisplay::NoWeapon,
                WeaponPolicy::Unlimited => AmmoDisplay::Unlimited,
                WeaponPolicy::Ammo | WeaponPolicy::AmmoWithUnlimited => AmmoDisplay::Counted,
            },
    {
        match policy {
            WeaponPolicy::Unarmed => AmmoDisplay::NoWeapon,
            WeaponPolicy::Unlimited => AmmoDisplay::Unlimited,
            WeaponPolicy::Ammo | WeaponPolicy::AmmoWithUnlimited => AmmoDisplay::Counted,
        }
    }
}

/// What a property still owes before it is taken: what capture requires,
/// less what has been put in, never below zero.
pub fn capture_remaining(required: u8, progress: Option<u8>) -> (remaining: Option<u8>)
    ensures
        remaining == match progress {
            Some(p) => Some(if p >= required {
                0u8
            } else {
                (required - p) as u8
            }),
            None => None,
        },
{
    match progress {
        Some(p) => Some(if p >= required {
            0
        } else {
            required - p
        }),
        None => None,
    }
}

/// One unit as the readout compares it.
#[derive(Clone, Copy, Debug, PartialEq, Eq, Structural)]
pub struct HoveredUnitKey {
    /// The unit's kind.
    pub unit: u16,
    /// The army it is drawn in.
    pub faction: PlayerFaction,
    pub health: Option<u8>,
    pub ammo: Option<u32>,
    pub fuel: Option<u32>,
    /// Points already put into taking the property under it.
    pub capture: Option<u8>,
}

/// The tile under the pointer, as the readout compares it.
#[derive(Clone, Copy, Debug, PartialEq, Eq, Structural)]
pub struct HoveredTileKey {
    pub position: Pos,
    pub terrain: u16,
    pub terrain_sprite_index: u16,
    pub unit: Option<HoveredUnitKey>,
}

/// What the readout shows: the tile (none off the board), and the units the
/// unit on it carries, in the order they were loaded.
#[derive(Debug)]
pub struct HoverKey {
    pub tile: Option<HoveredTileKey>,
    pub cargo: Vec<HoveredUnitKey>,
}

/// The unit standing on the hovered tile: how it reads, whether the viewer
/// sees it, and the army it truly belongs to.
#[derive(Clone, Copy, Debug, PartialEq, Eq, Structural)]
pub struct StandingUnit {
    pub key: HoveredUnitKey,
    pub visible: bool,
    pub actual_faction: PlayerFaction,
}

/// Whether a transport's cargo is told: always without fog, and under fog
/// only for the viewer's own armies.
pub open spec fn discloses_cargo(fog_active: bool, friendly: Seq<PlayerFaction>, faction: PlayerFaction) -> bool {
    !fog_active || friendly.contains(faction)
}

/// A carried unit as the readout shows it: it takes nothing, being off the
/// ground.
pub open spec fn carried_key(k: HoveredUnitKey) -> HoveredUnitKey {
    HoveredUnitKey { capture: None, ..k }
}

pub open spec fn spec_read_tile(
    position: Option<Pos>,
    terrain: Option<(u16, u16)>,
    unit: Option<StandingUnit>,
) -> Option<HoveredTileKey> {
    match (position, terrain) {
        (Some(p), Some((t, sprite))) => Some(HoveredTileKey {
            position: p,
            terrain: t,
            terrain_sprite_index: sprite,
            unit: match unit {
                Some(u) => if u.visible {
                    Some(u.key)
                } else {
                    None
                },
                None => None,
            },
        }),
        _ => None,
    }
}

pub open spec fn spec_read_cargo(
    position: Option<Pos>,
    terrain: Option<(u16, u16)>,
    unit: Option<StandingUnit>,
    carried: Seq<HoveredUnitKey>,
    fog_active: bool,
    friendly: Seq<PlayerFaction>,
) -> Seq<HoveredUnitKey> {
    match (position, terrain, unit) {
        (Some(_), Some(_), Some(u)) => if u.visible && discloses_cargo(fog_active, friendly, u.actual_faction) {
            carried.map_values(|k: HoveredUnitKey| carried_key(k))
        } else {
            Seq::empty()
        },
        _ => Seq::empty(),
    }
}

fn holds_faction(factions: &[PlayerFaction], faction: PlayerFaction) -> (found: bool)
    ensures
        found == factions@.contains(faction),
{
    let mut i: usize = 0;
    while i < factions.len()
        invariant
            0 <= i <= factions@.len(),
            forall|j: int| 0 <= j < i ==> factions@[j] != faction,
        decreases factions@.len() - i,
    {
        if factions[i] == faction {
            proof {
                assert(factions@[i as int] == faction);
            }
            return true;
        }
        i = i + 1;
    }
    false
}

/// Read one tile into `key`: the tile and the unit the viewer sees on it,
/// and that unit's cargo where it is told. `terrain` is the tile's terrain
/// and sprite, absent where the board holds no such tile; `carried` are the
/// units the unit on it carries, in the order they were loaded.
pub fn read_hovered_tile(
    position: Option<Pos>,
    terrain: Option<(u16, u16)>,
    unit: Option<StandingUnit>,
    carried: &[HoveredUnitKey],
    fog_active: bool,
    friendly: &[PlayerFaction],
    key: &mut HoverKey,
)
    ensures
        final(key).tile == spec_read_tile(position, terrain, unit),
        final(key).cargo@ == spec_read_cargo(position, terrain, unit, carried@, fog_active, friendly@),
{
    key.tile = None;
    key.cargo = Vec::new();
    let p = match position {
        Some(p) => p,
        None => return,
    };
    let (t, sprite) = match terrain {
        Some(ts) => ts,
        None => return,
    };
    let mut shown: Option<HoveredUnitKey> = None;
    if let Some(u) = unit {
        if u.visible {
            shown = Some(u.key);
            if !fog_active || holds_faction(friendly, u.actual_faction) {
                let mut i: usize = 0;
                while i < carried.len()
                    invariant
                        0 <= i <= carried@.len(),
                        key.cargo@ == carried@.take(i as int).map_values(|k: HoveredUnitKey| carried_key(k)),
                    decreases carried@.len() - i,
                {
                    key.cargo.push(HoveredUnitKey { capture: None, ..carried[i] });
                    proof {
                        assert(carried@.take(i + 1).map_values(|k: HoveredUnitKey| carried_key(k)) =~= carried@.take(
                            i as int,
                        ).map_values(|k: HoveredUnitKey| carried_key(k)).push(carried_key(carried@[i as int])));
                    }
                    i = i + 1;
                }
                proof {
                    assert(carried@.take(carried@.len() as int) =~= carried@);
                }
            }
        }
    }
    key.tile = Some(HoveredTileKey { position: p, terrain: t, terrain_sprite_index: sprite, unit: shown });
}

/// The readout last sent, and this frame's reading.
#[derive(Debug)]
pub struct HoveredTileState {
    pub current: HoverKey,
    pub scratch: HoverKey,
}

pub open spec fn same_reading(a: HoverKey, b: HoverKey) -> bool {
    a.tile == b.tile && a.cargo@ == b.cargo@
}

impl HoveredTileState {
    pub fn new() -> (state: HoveredTileState)
        ensures
            state.current.tile is None,
            state.current.cargo@.len() == 0,
            state.scratch.tile is None,
            state.scratch.cargo@.len() == 0,
    {
        HoveredTileState {
            current: HoverKey { tile: None, cargo: Vec::new() },
            scratch: HoverKey { tile: None, cargo: Vec::new() },
        }
    }

    /// Compare this frame's reading with what was last sent. When it
    /// differs it becomes what was sent, and the readout must be sent.
    pub fn settle(&mut self) -> (changed: bool)
        ensures
            changed == !same_reading(old(self).scratch, old(self).current),
            changed ==> final(self).current.tile == old(self).scratch.tile && final(self).current.cargo@ == old(self).scratch.cargo@,
            !changed ==> final(self).current.tile == old(self).current.tile && final(self).current.cargo@ == old(self).current.cargo@,
    {
        let mut same = self.scratch.tile == self.current.tile && self.scratch.cargo.len() == self.current.cargo.len();
        if same {
            let mut i: usize = 0;
            while i < self.scratch.cargo.len()
                invariant
                    0 <= i <= self.scratch.cargo@.len(),
                    self.scratch.cargo@.len() == self.current.cargo@.len(),
                    same == forall|j: int| 0 <= j < i ==> self.scratch.cargo@[j] == self.current.cargo@[j],
                decreases self.scratch.cargo@.len() - i,
            {
                if self.scratch.cargo[i] != self.current.cargo[i] {
                    same = false;
                }
                i = i + 1;
            }
            proof {
                if same {
                    assert(self.scratch.cargo@ =~= self.current.cargo@);
                }
            }
        }
        if same {
            return false;
        }
        std::mem::swap(&mut self.current, &mut self.scratch);
        true
    }
}

/// A cancelled gesture never moves the readout.
pub proof fn lemma_a_cancel_never_moves_the_readout(gestures: Seq<GestureReport>, inspected: Option<Pos>, g: GestureReport)
    requires
        g.kind == PointerGestureKind::DragCancel,
    ensures
        spec_track(gestures.push(g), inspected) == spec_track(gestures, inspected),
{
    assert(gestures.push(g).drop_last() =~= gestures);
}

} // verus!
