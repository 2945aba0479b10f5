//! The build menu offered on a production site.
//!
//! Which units a site can build and what each costs is the rules' answer;
//! this module decides whether the menu opens at all.
use vstd::prelude::*;
use crate::board::TilePosition;

verus! {

/// A building the viewer can build from, and where it is.
#[derive(Clone, Copy, Debug, PartialEq, Eq, Structural)]
pub struct ProductionSite {
    pub x: u8,
    pub y: u8,
    /// The building's terrain.
    pub facility: u16,
}

/// One unit on the build menu.
#[derive(Debug)]
pub struct ProductionOption {
    /// The unit's kind.
    pub unit: u16,
    pub name: String,
    pub cost: u32,
    /// Whether the player's funds reach `cost`. An unaffordable unit is
    /// still listed, the way the source game lists it.
    pub affordable: bool,
}

/// What the viewer's own view of the match says about the tapped tile.
#[derive(Clone, Copy, Debug, PartialEq, Eq, Structural)]
pub struct SiteFacts {
    /// It is the viewer's turn.
    pub viewer_turn: bool,
    /// The turn is in the phase where units act and are built.
    pub unit_action_phase: bool,
    /// The viewer holds the building.
    pub owned_by_viewer: bool,
    /// The tile's terrain.
    pub facility: u16,
}

pub open spec fn spec_site(viewer_seated: bool, position: TilePosition, tile: Option<SiteFacts>) -> Option<ProductionSite> {
    if !viewer_seated || position.x > 255 || position.y > 255 {
        None
    } else {
        match tile {
            Some(t) => if t.viewer_turn && t.unit_action_phase && t.owned_by_viewer {
                Some(ProductionSite { x: position.x as u8, y: position.y as u8, facility: t.facility })
            } else {
                None
            },
            None => None,
        }
    }
}

/// The build menu for a tapped tile, or `None` when the menu closes: the
/// viewer must hold a seat, the tile must be on the board and a building the
/// viewer holds, on the viewer's turn while units act, and the building must
/// offer something. `options` is what the rules say the site can build.
pub fn production_menu(
    viewer_seated: bool,
    position: TilePosition,
    tile: Option<SiteFacts>,
    options: Vec<ProductionOption>,
) -> (menu: Option<(ProductionSite, Vec<ProductionOption>)>)
    ensures
        match menu {
            Some((site, offered)) => spec_site(viewer_seated, position, tile) == Some(site) && offered@ == options@
                && options@.len() > 0,
            None => spec_site(viewer_seated, position, tile) is None || options@.len() == 0,
        },
{
    if !viewer_seated || position.x > 255 || position.y > 255 {
        return None;
    }
    let t = match tile {
        Some(t) => t,
        None => return None,
    };
    if !(t.viewer_turn && t.unit_action_phase && t.owned_by_viewer) {
        return None;
    }
    if options.len() == 0 {
        return None;
    }
    Some((ProductionSite { x: position.x as u8, y: position.y as u8, facility: t.facility }, options))
}

} // verus!
