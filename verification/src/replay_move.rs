//! How a replayed move is shown: animated along its path, or placed at once.
//!
//! What the archive says the move did to the board is applied elsewhere;
//! this module decides what the viewer is shown of it. Which tiles the
//! viewer sees is the fog's answer and is handed in.
use vstd::prelude::*;
use crate::board::TilePosition;

verus! {

/// One tile of a replayed path, and whether the moving unit is visible on it
/// to the seat the archive addressed.
#[derive(Clone, Copy, Debug, PartialEq, Eq, Structural)]
pub struct ReplayPathTile {
    pub position: TilePosition,
    pub unit_visible: bool,
}

/// The path as the viewer sees it: unchanged without fog or for a unit of a
/// friendly army, and otherwise visible only on the tiles the viewer sees
/// the unit on (`seen`, tile by tile).
pub open spec fn spec_path_for_view(path: Seq<ReplayPathTile>, fog_active: bool, friendly: bool, seen: Seq<bool>) -> Seq<ReplayPathTile> {
    if !fog_active || friendly {
        path
    } else {
        Seq::new(
            path.len(),
            |i: int| ReplayPathTile { position: path[i].position, unit_visible: path[i].unit_visible && seen[i] },
        )
    }
}

pub fn path_tiles_for_current_view(path: &[ReplayPathTile], fog_active: bool, friendly: bool, seen: &[bool]) -> (view: Vec<ReplayPathTile>)
    requires
        seen@.len() == path@.len(),
    ensures
        view@ == spec_path_for_view(path@, fog_active, friendly, seen@),
{
    let mut view: Vec<ReplayPathTile> = Vec::new();
    let mut i: usize = 0;
    while i < path.len()
        invariant
            0 <= i <= path@.len(),
            seen@.len() == path@.len(),
            view@ == spec_path_for_view(path@, fog_active, friendly, seen@).take(i as int),
        decreases path@.len() - i,
    {
        let tile = path[i];
        let shown = if !fog_active || friendly {
            tile
        } else {
            ReplayPathTile { position: tile.position, unit_visible: tile.unit_visible && seen[i] }
        };
        view.push(shown);
        proof {
            assert(spec_path_for_view(path@, fog_active, friendly, seen@).take(i + 1) =~= spec_path_for_view(path@, fog_active, friendly, seen@).take(i as int).push(shown));
        }
        i = i + 1;
    }
    proof {
        assert(spec_path_for_view(path@, fog_active, friendly, seen@).take(path@.len() as int) =~= spec_path_for_view(path@, fog_active, friendly, seen@));
    }
    view
}

/// What the move action was besides a move.
#[derive(Clone, Copy, Debug, PartialEq, Eq, Structural)]
pub enum MoveFollowup {
    /// A plain move.
    Nothing,
    /// The unit boards a transport and leaves the board.
    Load,
    /// The unit joins another and is absorbed into it.
    Join,
    /// Anything else done at the destination (fire, capture, supply, ...).
    Other,
}

/// How a replayed move is shown.
#[derive(Clone, Copy, Debug, PartialEq, Eq, Structural)]
pub struct ReplayMovePlan {
    /// Animate the unit along its path, holding the replay until it lands.
    pub animate: bool,
    /// Put the unit on its destination tile. A unit that boards a transport
    /// or joins another is not put anywhere: the board keeps pointing at the
    /// unit that remains there.
    pub place_at_destination: bool,
    /// Apply what the action does at the destination once the animation
    /// lands, rather than now.
    pub defer_followup: bool,
}

pub open spec fn any_visible(path: Seq<ReplayPathTile>) -> bool {
    exists|i: int| 0 <= i < path.len() && path[i].unit_visible
}

/// The plan: animate when the path can be animated and the viewer sees the
/// unit somewhere along it (or no path is known for the view).
pub open spec fn spec_plan_move(view_path: Option<Seq<ReplayPathTile>>, animatable: bool, followup: MoveFollowup) -> ReplayMovePlan {
    let visible = match view_path {
        None => true,
        Some(p) => any_visible(p),
    };
    let animate = visible && animatable;
    ReplayMovePlan {
        animate,
        place_at_destination: followup != MoveFollowup::Load && followup != MoveFollowup::Join,
        defer_followup: animate && followup != MoveFollowup::Nothing,
    }
}

/// Decide how a replayed move is shown. `view_path` is the path as the
/// viewer sees it (none when the archive gave no path), and `animatable`
/// whether the path is long enough to animate.
pub fn plan_replay_move(view_path: Option<&[ReplayPathTile]>, animatable: bool, followup: MoveFollowup) -> (plan: ReplayMovePlan)
    ensures
        plan == spec_plan_move(
            match view_path {
                Some(p) => Some(p@),
                None => None,
            },
            animatable,
            followup,
        ),
{
    let visible = match view_path {
        None => true,
        Some(path) => {
            let mut found = false;
            let mut i: usize = 0;
            while i < path.len()
                invariant
                    0 <= i <= path@.len(),
                    found == exists|j: int| 0 <= j < i && path@[j].unit_visible,
                decreases path@.len() - i,
            {
                if path[i].unit_visible {
                    found = true;
                }
                i = i + 1;
            }
            found
        },
    };
    let animate = visible && animatable;
    let followup_plain = match followup {
        MoveFollowup::Nothing => true,
        _ => false,
    };
    let stays = match followup {
        MoveFollowup::Load | MoveFollowup::Join => false,
        _ => true,
    };
    ReplayMovePlan { animate, place_at_destination: stays, defer_followup: animate && !followup_plain }
}

/// A move the viewer never sees the unit make is not animated, so it never
/// holds the replay.
pub proof fn lemma_an_unseen_move_does_not_hold_the_replay(path: Seq<ReplayPathTile>, animatable: bool, followup: MoveFollowup)
    requires
        forall|i: int| 0 <= i < path.len() ==> !path[i].unit_visible,
    ensures
        !spec_plan_move(Some(path), animatable, followup).animate,
        !spec_plan_move(Some(path), animatable, followup).defer_followup,
{
}

} // verus!

verus! {

/// The unit a transition names: one of the viewer's own by its id, or any
/// other by the stand-in id the viewer's projection gives it.
#[derive(Clone, Copy, Debug, PartialEq, Eq, Structural)]
pub enum ObservedUnitRef {
    Friendly(u32),
    Hidden(u32),
}

/// A unit's move as a transition reports it: the unit, where it left from,
/// and the path it took.
#[derive(Debug)]
pub struct ObservedMove {
    pub unit: ObservedUnitRef,
    pub from: crate::board::Pos,
    pub path: Vec<crate::board::Pos>,
}

/// One transition of an archived action: the seat it was addressed to (its
/// id read as a number, absent where it is none) and its events, in order,
/// each a move or (as `None`) something else.
#[derive(Debug)]
pub struct ObservedTransitionMoves {
    pub recipient: Option<u32>,
    pub events: Vec<Option<ObservedMove>>,
}

/// Whether an event is a move, of a friendly unit when `friendly_only`.
pub open spec fn is_wanted_move(event: Option<ObservedMove>, friendly_only: bool) -> bool {
    match event {
        Some(m) => !friendly_only || m.unit is Friendly,
        None => false,
    }
}

/// Where the first wanted move stands among `events`.
pub open spec fn first_move(events: Seq<Option<ObservedMove>>, friendly_only: bool) -> Option<int>
    decreases events.len(),
{
    if events.len() == 0 {
        None
    } else if is_wanted_move(events[0], friendly_only) {
        Some(0)
    } else {
        match first_move(events.drop_first(), friendly_only) {
            Some(k) => Some(k + 1),
            None => None,
        }
    }
}

/// The first friendly move of all the transitions, taken in order: the
/// transition and the event.
pub open spec fn first_friendly_move(transitions: Seq<ObservedTransitionMoves>) -> Option<(int, int)>
    decreases transitions.len(),
{
    if transitions.len() == 0 {
        None
    } else {
        match first_move(transitions[0].events@, true) {
            Some(k) => Some((0, k)),
            None => match first_friendly_move(transitions.drop_first()) {
                Some((t, k)) => Some((t + 1, k)),
                None => None,
            },
        }
    }
}

/// The first transition addressed to `player`.
pub open spec fn transition_for(transitions: Seq<ObservedTransitionMoves>, player: u32) -> Option<int>
    decreases transitions.len(),
{
    if transitions.len() == 0 {
        None
    } else if transitions[0].recipient == Some(player) {
        Some(0)
    } else {
        match transition_for(transitions.drop_first(), player) {
            Some(t) => Some(t + 1),
            None => None,
        }
    }
}

/// The transition whose view is shown: the only one, or else the one
/// addressed to the seat the replay is watched as (the seat playing the turn
/// for the active viewpoint).
pub open spec fn viewed_transition(
    transitions: Seq<ObservedTransitionMoves>,
    viewpoint: Option<crate::projection::ReplayViewpoint>,
    active_player: Option<u32>,
) -> Option<int> {
    if transitions.len() == 1 {
        Some(0)
    } else {
        match viewpoint {
            Some(crate::projection::ReplayViewpoint::Player(p)) => transition_for(transitions, p),
            Some(crate::projection::ReplayViewpoint::ActivePlayer) => match active_player {
                Some(p) => transition_for(transitions, p),
                None => None,
            },
            _ => None,
        }
    }
}

/// The move that is animated, as (transition, event): the first move of the
/// viewed transition, or with no transition viewed the first friendly move
/// of them all.
pub open spec fn spec_move_for_view(
    transitions: Seq<ObservedTransitionMoves>,
    viewpoint: Option<crate::projection::ReplayViewpoint>,
    active_player: Option<u32>,
) -> Option<(int, int)> {
    match viewed_transition(transitions, viewpoint, active_player) {
        Some(t) => match first_move(transitions[t].events@, false) {
            Some(k) => Some((t, k)),
            None => None,
        },
        None => first_friendly_move(transitions),
    }
}

proof fn lemma_first_move_in_range(events: Seq<Option<ObservedMove>>, friendly_only: bool)
    ensures
        first_move(events, friendly_only) matches Some(k) ==> 0 <= k < events.len() && is_wanted_move(events[k], friendly_only),
    decreases events.len(),
{
    if events.len() > 0 && !is_wanted_move(events[0], friendly_only) {
        lemma_first_move_in_range(events.drop_first(), friendly_only);
    }
}

fn find_move(events: &[Option<ObservedMove>], friendly_only: bool) -> (found: Option<usize>)
    ensures
        match found {
            Some(k) => first_move(events@, friendly_only) == Some(k as int) && k < events@.len(),
            None => first_move(events@, friendly_only) is None,
        },
{
    let mut i: usize = 0;
    proof {
        assert(events@.skip(0) =~= events@);
    }
    while i < events.len()
        invariant
            0 <= i <= events@.len(),
            match first_move(events@.skip(i as int), friendly_only) {
                Some(k) => first_move(events@, friendly_only) == Some(k + i),
                None => first_move(events@, friendly_only) is None,
            },
        decreases events@.len() - i,
    {
        let wanted = match &events[i] {
            Some(m) => !friendly_only || match m.unit {
                ObservedUnitRef::Friendly(_) => true,
                ObservedUnitRef::Hidden(_) => false,
            },
            None => false,
        };
        proof {
            assert(events@.skip(i as int)[0] == events@[i as int]);
            assert(events@.skip(i as int).drop_first() =~= events@.skip(i + 1));
        }
        if wanted {
            return Some(i);
        }
        i = i + 1;
    }
    None
}

fn find_transition(transitions: &[ObservedTransitionMoves], player: u32) -> (found: Option<usize>)
    ensures
        match found {
            Some(t) => transition_for(transitions@, player) == Some(t as int) && t < transitions@.len(),
            None => transition_for(transitions@, player) is None,
        },
{
    let mut i: usize = 0;
    proof {
        assert(transitions@.skip(0) =~= transitions@);
    }
    while i < transitions.len()
        invariant
            0 <= i <= transitions@.len(),
            match transition_for(transitions@.skip(i as int), player) {
                Some(t) => transition_for(transitions@, player) == Some(t + i),
                None => transition_for(transitions@, player) is None,
            },
        decreases transitions@.len() - i,
    {
        proof {
            assert(transitions@.skip(i as int)[0] == transitions@[i as int]);
            assert(transitions@.skip(i as int).drop_first() =~= transitions@.skip(i + 1));
        }
        if transitions[i].recipient == Some(player) {
            return Some(i);
        }
        i = i + 1;
    }
    None
}

fn find_friendly_move(transitions: &[ObservedTransitionMoves]) -> (found: Option<(usize, usize)>)
    ensures
        match found {
            Some((t, k)) => first_friendly_move(transitions@) == Some((t as int, k as int)) && t < transitions@.len()
                && k < transitions@[t as int].events@.len() && first_move(transitions@[t as int].events@, true) == Some(
                k as int,
            ),
            None => first_friendly_move(transitions@) is None,
        },
{
    let mut i: usize = 0;
    proof {
        assert(transitions@.skip(0) =~= transitions@);
    }
    while i < transitions.len()
        invariant
            0 <= i <= transitions@.len(),
            match first_friendly_move(transitions@.skip(i as int)) {
                Some((t, k)) => first_friendly_move(transitions@) == Some((t + i, k)),
                None => first_friendly_move(transitions@) is None,
            },
        decreases transitions@.len() - i,
    {
        proof {
            assert(transitions@.skip(i as int)[0] == transitions@[i as int]);
            assert(transitions@.skip(i as int).drop_first() =~= transitions@.skip(i + 1));
        }
        if let Some(k) = find_move(transitions[i].events.as_slice(), true) {
            return Some((i, k));
        }
        i = i + 1;
    }
    None
}

/// The move a replay animates for the viewer, out of the transitions one
/// action produced: the unit, where it left from, and its path. With one
/// transition, or one addressed to the seat the replay is watched as, the
/// first move that transition reports; with none, the first move of a
/// friendly unit any transition reports.
pub fn movement_for_current_view(
    transitions: &[ObservedTransitionMoves],
    viewpoint: Option<crate::projection::ReplayViewpoint>,
    active_player: Option<u32>,
) -> (movement: Option<(ObservedUnitRef, crate::board::Pos, Vec<crate::board::Pos>)>)
    ensures
        match spec_move_for_view(transitions@, viewpoint, active_player) {
            Some((t, k)) => match transitions@[t].events@[k] {
                Some(m) => {
                    &&& movement is Some
                    &&& movement.unwrap().0 == m.unit
                    &&& movement.unwrap().1 == m.from
                    &&& movement.unwrap().2@ == m.path@
                },
                None => false,
            },
            None => movement is None,
        },
{
    let viewed: Option<usize> = if transitions.len() == 1 {
        Some(0)
    } else {
        match viewpoint {
            Some(crate::projection::ReplayViewpoint::Player(p)) => find_transition(transitions, p),
            Some(crate::projection::ReplayViewpoint::ActivePlayer) => match active_player {
                Some(p) => find_transition(transitions, p),
                None => None,
            },
            _ => None,
        }
    };
    let chosen: Option<(usize, usize)> = match viewed {
        Some(t) => match find_move(transitions[t].events.as_slice(), false) {
            Some(k) => Some((t, k)),
            None => None,
        },
        None => find_friendly_move(transitions),
    };
    match chosen {
        Some((t, k)) => {
            proof {
                lemma_first_move_in_range(transitions@[t as int].events@, false);
                lemma_first_move_in_range(transitions@[t as int].events@, true);
            }
            match &transitions[t].events[k] {
                Some(m) => {
                    let mut path: Vec<crate::board::Pos> = Vec::new();
                    let mut i: usize = 0;
                    while i < m.path.len()
                        invariant
                            0 <= i <= m.path@.len(),
                            path@ == m.path@.take(i as int),
                        decreases m.path@.len() - i,
                    {
                        proof {
                            assert(m.path@.take(i + 1) =~= m.path@.take(i as int).push(m.path@[i as int]));
                        }
                        path.push(m.path[i]);
                        i = i + 1;
                    }
                    proof {
                        assert(m.path@.take(m.path@.len() as int) =~= m.path@);
                    }
                    Some((m.unit, m.from, path))
                },
                None => None,
            }
        },
        None => None,
    }
}

} // verus!
