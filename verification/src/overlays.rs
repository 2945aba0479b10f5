//! The badges drawn over a unit: which are shown, and which drawn entity
//! shows each, so that a badge is updated in place rather than drawn twice.
use vstd::prelude::*;
use vstd::string::*;
use crate::loading::{append_decimal, decimal};
use crate::projection::ProjectedUnitOverlayFlags;

verus! {

#[derive(Clone, Copy, Debug, PartialEq, Eq, Structural)]
pub enum OverlayKind {
    Health,
    Capturing,
    Cargo,
    Dive,
    LowAmmo,
    LowFuel,
}

/// The drawn badge of each kind over one unit, at most one per kind.
#[derive(Clone, Copy, Debug, PartialEq, Eq, Structural)]
pub struct UnitOverlayRegistry {
    pub health: Option<u64>,
    pub capturing: Option<u64>,
    pub cargo: Option<u64>,
    pub dive: Option<u64>,
    pub low_ammo: Option<u64>,
    pub low_fuel: Option<u64>,
}

pub open spec fn slot(r: UnitOverlayRegistry, kind: OverlayKind) -> Option<u64> {
    match kind {
        OverlayKind::Health => r.health,
        OverlayKind::Capturing => r.capturing,
        OverlayKind::Cargo => r.cargo,
        OverlayKind::Dive => r.dive,
        OverlayKind::LowAmmo => r.low_ammo,
        OverlayKind::LowFuel => r.low_fuel,
    }
}

pub open spec fn with_slot(r: UnitOverlayRegistry, kind: OverlayKind, entity: Option<u64>) -> UnitOverlayRegistry {
    match kind {
        OverlayKind::Health => UnitOverlayRegistry { health: entity, ..r },
        OverlayKind::Capturing => UnitOverlayRegistry { capturing: entity, ..r },
        OverlayKind::Cargo => UnitOverlayRegistry { cargo: entity, ..r },
        OverlayKind::Dive => UnitOverlayRegistry { dive: entity, ..r },
        OverlayKind::LowAmmo => UnitOverlayRegistry { low_ammo: entity, ..r },
        OverlayKind::LowFuel => UnitOverlayRegistry { low_fuel: entity, ..r },
    }
}

/// What to do about one kind of badge.
#[derive(Clone, Copy, Debug, PartialEq, Eq, Structural)]
pub enum OverlayAction {
    /// Draw the badge afresh, and record what draws it.
    Spawn,
    /// Redraw the badge already drawn by this entity.
    Update(u64),
    /// Take the badge drawn by this entity away.
    Despawn(u64),
    /// Nothing is wanted and nothing is drawn.
    Keep,
}

pub open spec fn spec_reconcile(r: UnitOverlayRegistry, kind: OverlayKind, wanted: bool, alive: bool) -> (UnitOverlayRegistry, OverlayAction) {
    if wanted {
        match slot(r, kind) {
            Some(e) => if alive {
                (r, OverlayAction::Update(e))
            } else {
                (r, OverlayAction::Spawn)
            },
            None => (r, OverlayAction::Spawn),
        }
    } else {
        match slot(r, kind) {
            Some(e) => (with_slot(r, kind, None), OverlayAction::Despawn(e)),
            None => (r, OverlayAction::Keep),
        }
    }
}

impl UnitOverlayRegistry {
    pub fn new() -> (r: UnitOverlayRegistry)
        ensures
            forall|kind: OverlayKind| slot(r, kind) is None,
    {
        UnitOverlayRegistry { health: None, capturing: None, cargo: None, dive: None, low_ammo: None, low_fuel: None }
    }

    pub fn overlay(&self, kind: OverlayKind) -> (entity: Option<u64>)
        ensures
            entity == slot(*self, kind),
    {
        match kind {
            OverlayKind::Health => self.health,
            OverlayKind::Capturing => self.capturing,
            OverlayKind::Cargo => self.cargo,
            OverlayKind::Dive => self.dive,
            OverlayKind::LowAmmo => self.low_ammo,
            OverlayKind::LowFuel => self.low_fuel,
        }
    }

    fn put(&mut self, kind: OverlayKind, entity: Option<u64>)
        ensures
            *final(self) == with_slot(*old(self), kind, entity),
    {
        match kind {
            OverlayKind::Health => self.health = entity,
            OverlayKind::Capturing => self.capturing = entity,
            OverlayKind::Cargo => self.cargo = entity,
            OverlayKind::Dive => self.dive = entity,
            OverlayKind::LowAmmo => self.low_ammo = entity,
            OverlayKind::LowFuel => self.low_fuel = entity,
        }
    }

    /// Record the entity that now draws the badge of `kind`.
    pub fn set_overlay(&mut self, kind: OverlayKind, entity: u64)
        ensures
            *final(self) == with_slot(*old(self), kind, Some(entity)),
    {
        self.put(kind, Some(entity));
    }

    /// Forget the badge of `kind`, handing back the entity that drew it.
    pub fn clear_overlay(&mut self, kind: OverlayKind) -> (entity: Option<u64>)
        ensures
            entity == slot(*old(self), kind),
            *final(self) == with_slot(*old(self), kind, None),
    {
        let entity = self.overlay(kind);
        self.put(kind, None);
        entity
    }

    /// Decide what to do about the badge of `kind`: `wanted` says whether the
    /// unit should show it, and `alive` whether the entity recorded for it
    /// still exists. A badge that is wanted is redrawn in place when it is
    /// drawn, and drawn afresh otherwise; one that is not wanted is taken
    /// away and forgotten.
    pub fn reconcile_overlay(&mut self, kind: OverlayKind, wanted: bool, alive: bool) -> (action: OverlayAction)
        ensures
            (*final(self), action) == spec_reconcile(*old(self), kind, wanted, alive),
    {
        if wanted {
            match self.overlay(kind) {
                Some(e) => if alive {
                    OverlayAction::Update(e)
                } else {
                    OverlayAction::Spawn
                },
                None => OverlayAction::Spawn,
            }
        } else {
            match self.clear_overlay(kind) {
                Some(e) => OverlayAction::Despawn(e),
                None => OverlayAction::Keep,
            }
        }
    }
}

/// The badges a unit's flags ask for, in the order they are drawn.
pub open spec fn spec_wanted_overlays(flags: ProjectedUnitOverlayFlags) -> Seq<(OverlayKind, bool)> {
    seq![
        (OverlayKind::Health, flags.health is Some),
        (OverlayKind::Capturing, flags.capturing),
        (OverlayKind::Cargo, flags.cargo),
        (OverlayKind::Dive, flags.dive),
    ]
}

pub fn wanted_overlays(flags: ProjectedUnitOverlayFlags) -> (wanted: Vec<(OverlayKind, bool)>)
    ensures
        wanted@ == spec_wanted_overlays(flags),
{
    let mut wanted = Vec::new();
    wanted.push((OverlayKind::Health, flags.health.is_some()));
    wanted.push((OverlayKind::Capturing, flags.capturing));
    wanted.push((OverlayKind::Cargo, flags.cargo));
    wanted.push((OverlayKind::Dive, flags.dive));
    proof {
        assert(wanted@ =~= spec_wanted_overlays(flags));
    }
    wanted
}

/// Whether a unit's flags call for the badge of `kind`: the health figure
/// for a damaged unit, and each other badge for its own flag.
pub open spec fn flag_for(flags: ProjectedUnitOverlayFlags, kind: OverlayKind) -> bool {
    match kind {
        OverlayKind::Health => flags.health is Some,
        OverlayKind::Capturing => flags.capturing,
        OverlayKind::Cargo => flags.cargo,
        OverlayKind::Dive => flags.dive,
        OverlayKind::LowAmmo => flags.low_ammo,
        OverlayKind::LowFuel => flags.low_fuel,
    }
}

/// Whether the wanted badges name `kind`.
pub open spec fn lists_badge(wanted: Seq<(OverlayKind, bool)>, kind: OverlayKind) -> bool {
    exists|i: int| 0 <= i < wanted.len() && #[trigger] wanted[i].0 == kind
}

/// Every badge is asked for exactly when the unit's flag for it is set: a
/// diving submarine gets its Dive badge, a carrier its cargo badge, and so
/// on. The four drawn badges are each listed once, and no badge is listed
/// for a flag that is not set.
pub proof fn lemma_each_badge_follows_its_flag(flags: ProjectedUnitOverlayFlags)
    ensures
        forall|i: int|
            0 <= i < spec_wanted_overlays(flags).len() ==> (#[trigger] spec_wanted_overlays(flags)[i]).1 == flag_for(
                flags,
                spec_wanted_overlays(flags)[i].0,
            ),
        forall|kind: OverlayKind|
            kind != OverlayKind::LowAmmo && kind != OverlayKind::LowFuel ==> #[trigger] lists_badge(
                spec_wanted_overlays(flags),
                kind,
            ),
        forall|i: int, j: int|
            0 <= i < j < spec_wanted_overlays(flags).len() ==> (#[trigger] spec_wanted_overlays(flags)[i]).0
                != (#[trigger] spec_wanted_overlays(flags)[j]).0,
{
    let w = spec_wanted_overlays(flags);
    assert forall|kind: OverlayKind| kind != OverlayKind::LowAmmo && kind != OverlayKind::LowFuel implies #[trigger] lists_badge(
        w,
        kind,
    ) by {
        match kind {
            OverlayKind::Health => assert(w[0].0 == kind),
            OverlayKind::Capturing => assert(w[1].0 == kind),
            OverlayKind::Cargo => assert(w[2].0 == kind),
            OverlayKind::Dive => assert(w[3].0 == kind),
            _ => {},
        }
    }
}

/// The sprite a badge is drawn with: the health figure's own sprite, and
/// one sprite each for capturing, cargo and diving. Low ammunition and low
/// fuel have none.
pub open spec fn spec_overlay_sprite(kind: OverlayKind, health: u8) -> Option<Seq<char>> {
    match kind {
        OverlayKind::Health => Some("Healthv2/"@ + decimal(health as nat) + ".png"@),
        OverlayKind::Capturing => Some("Capturing.png"@),
        OverlayKind::Cargo => Some("HasCargo.png"@),
        OverlayKind::Dive => Some("Dive.png"@),
        OverlayKind::LowAmmo => None,
        OverlayKind::LowFuel => None,
    }
}

pub fn overlay_sprite(kind: OverlayKind, health: u8) -> (name: Option<String>)
    ensures
        match name {
            Some(n) => spec_overlay_sprite(kind, health) == Some(n@),
            None => spec_overlay_sprite(kind, health) is None,
        },
{
    match kind {
        OverlayKind::Health => {
            let mut name = String::from_str("Healthv2/");
            append_decimal(&mut name, health as u32);
            name.append(".png");
            Some(name)
        },
        OverlayKind::Capturing => Some(String::from_str("Capturing.png")),
        OverlayKind::Cargo => Some(String::from_str("HasCargo.png")),
        OverlayKind::Dive => Some(String::from_str("Dive.png")),
        OverlayKind::LowAmmo => None,
        OverlayKind::LowFuel => None,
    }
}

/// A badge is drawn by at most one entity, and reconciling it leaves every
/// other kind of badge as it was.
pub proof fn lemma_reconciling_one_badge_leaves_the_others(
    r: UnitOverlayRegistry,
    kind: OverlayKind,
    other: OverlayKind,
    wanted: bool,
    alive: bool,
)
    requires
        other != kind,
    ensures
        slot(spec_reconcile(r, kind, wanted, alive).0, other) == slot(r, other),
{
}

/// A badge no longer wanted is taken away once: reconciling it again finds
/// nothing to take.
pub proof fn lemma_a_badge_is_taken_away_once(r: UnitOverlayRegistry, kind: OverlayKind, alive: bool)
    ensures
        spec_reconcile(spec_reconcile(r, kind, false, alive).0, kind, false, alive).1 == OverlayAction::Keep,
{
}

} // verus!
