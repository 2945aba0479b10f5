//! The play board's selection: which unit is in hand, where it is going, and
//! what stepping back means.
//!
//! Nothing here decides what is legal. Whether a tile can be reached, what a
//! route costs and which orders a unit has are the rules' answers; they are
//! handed in, and this module decides what the board does with them.
use vstd::prelude::*;
use crate::board::Pos;

verus! {

/// Where the player is in giving an order.
#[derive(Clone, Copy, Debug, PartialEq, Eq, Structural)]
pub enum PlayUiPhase {
    Idle,
    UnitSelected,
    DestinationSelected,
    /// A command has been sent and the server has not yet answered.
    AwaitingServer,
}

/// The unit in hand: its entity and the tile it was picked up on.
#[derive(Clone, Copy, Debug, PartialEq, Eq, Structural)]
pub struct SelectedUnitSelection {
    pub entity: u64,
    pub origin: Pos,
}

/// A destination the player proposed, with the route there.
#[derive(Debug, PartialEq, Eq)]
pub struct PendingMoveDestinationSelection {
    pub unit: u64,
    pub origin: Pos,
    pub destination: Pos,
    pub path: Vec<Pos>,
    /// The enemy a drag was aimed at, when the destination was reached by
    /// releasing on one.
    pub attack_intent: Option<Pos>,
}

/// The route currently shown beneath the pointer. `drawn_path` is the prefix
/// drawn by hand, kept while the pointer moves.
#[derive(Debug, PartialEq, Eq)]
pub struct ProposedMovePath {
    pub path: Vec<Pos>,
    pub drawn_path: Vec<Pos>,
    pub hovered: Option<Pos>,
    pub was_shift_down: bool,
    /// The enemy the route is currently aimed at.
    pub attack_intent: Option<Pos>,
}

/// An order that was sent, kept so that a refusal can put the board back.
#[derive(Clone, Copy, Debug, PartialEq, Eq, Structural)]
pub enum CommittedKind {
    Delete,
    Move,
    Unload,
}

/// Everything the board held when an order was sent.
#[derive(Debug, PartialEq, Eq)]
pub struct CommittedSnapshot {
    pub unit: u64,
    pub origin: Pos,
    pub range: Vec<(Pos, u8)>,
    pub attack_targets: Vec<(Pos, Vec<Pos>)>,
    pub path: Vec<Pos>,
    pub destination: Pos,
    pub attack_intent: Option<Pos>,
    pub kind: CommittedKind,
}

/// The whole selection state of the play board.
#[derive(Debug, PartialEq, Eq)]
pub struct PlaySelection {
    pub selected: Option<SelectedUnitSelection>,
    /// Tiles the unit in hand can end on, with what reaching each costs.
    pub move_range: Vec<(Pos, u8)>,
    /// Legal firing tiles, grouped by the target they fire on.
    pub attack_targets: Vec<(Pos, Vec<Pos>)>,
    pub pending_destination: Option<PendingMoveDestinationSelection>,
    pub proposed_path: ProposedMovePath,
    pub phase: PlayUiPhase,
}

/// The view of a proposed path: the route, the hand-drawn prefix, the hovered
/// tile, the shift bookkeeping and the aim.
pub type PathView = (Seq<Pos>, Seq<Pos>, Option<Pos>, bool, Option<Pos>);

pub open spec fn path_view(p: ProposedMovePath) -> PathView {
    (p.path@, p.drawn_path@, p.hovered, p.was_shift_down, p.attack_intent)
}

pub open spec fn empty_path_view() -> PathView {
    (Seq::empty(), Seq::empty(), None, false, None)
}

/// The view of a pending destination: unit, origin, destination, route, aim.
pub type PendingView = (u64, Pos, Pos, Seq<Pos>, Option<Pos>);

pub open spec fn pending_view(p: Option<PendingMoveDestinationSelection>) -> Option<PendingView> {
    match p {
        Some(d) => Some((d.unit, d.origin, d.destination, d.path@, d.attack_intent)),
        None => None,
    }
}

pub open spec fn targets_view(t: Seq<(Pos, Vec<Pos>)>) -> Seq<(Pos, Seq<Pos>)> {
    t.map_values(|e: (Pos, Vec<Pos>)| (e.0, e.1@))
}

/// The abstract selection: what the board shows and what it would do next.
pub struct SelectionView {
    pub selected: Option<SelectedUnitSelection>,
    pub move_range: Seq<(Pos, u8)>,
    pub attack_targets: Seq<(Pos, Seq<Pos>)>,
    pub pending: Option<PendingView>,
    pub proposed: PathView,
    pub phase: PlayUiPhase,
}

impl View for PlaySelection {
    type V = SelectionView;

    open spec fn view(&self) -> SelectionView {
        SelectionView {
            selected: self.selected,
            move_range: self.move_range@,
            attack_targets: targets_view(self.attack_targets@),
            pending: pending_view(self.pending_destination),
            proposed: path_view(self.proposed_path),
            phase: self.phase,
        }
    }
}

/// The selection's own consistency: nothing is in hand exactly when the
/// board is idle, and a destination is pending exactly while the order menu
/// is open, for the unit in hand and from its tile.
pub open spec fn selection_wf(v: SelectionView) -> bool {
    &&& (v.phase == PlayUiPhase::Idle <==> v.selected is None)
    &&& (v.pending is Some <==> v.phase == PlayUiPhase::DestinationSelected)
    &&& (v.pending matches Some(p) ==> v.selected matches Some(s) && p.0 == s.entity && p.1 == s.origin)
}

pub open spec fn spec_idle() -> SelectionView {
    SelectionView {
        selected: None,
        move_range: Seq::empty(),
        attack_targets: Seq::empty(),
        pending: None,
        proposed: empty_path_view(),
        phase: PlayUiPhase::Idle,
    }
}

/// Step back to the unit with its range still shown; with nothing in hand,
/// nothing changes.
pub open spec fn spec_return_to_unit(v: SelectionView) -> SelectionView {
    if v.selected is None {
        v
    } else {
        SelectionView { pending: None, proposed: empty_path_view(), phase: PlayUiPhase::UnitSelected, ..v }
    }
}

/// Escape steps back one stage: from an open menu to the unit, and from the
/// unit to nothing. While an order is on its way it does nothing.
pub open spec fn spec_escape(v: SelectionView) -> SelectionView {
    if v.phase == PlayUiPhase::AwaitingServer {
        v
    } else if v.phase == PlayUiPhase::DestinationSelected {
        spec_return_to_unit(v)
    } else {
        spec_idle()
    }
}

pub open spec fn spec_select_unit(
    v: SelectionView,
    entity: u64,
    origin: Pos,
    range: Seq<(Pos, u8)>,
    targets: Seq<(Pos, Seq<Pos>)>,
) -> SelectionView {
    SelectionView {
        selected: Some(SelectedUnitSelection { entity, origin }),
        move_range: range,
        attack_targets: targets,
        pending: None,
        proposed: empty_path_view(),
        phase: PlayUiPhase::UnitSelected,
    }
}

fn empty_path() -> (p: ProposedMovePath)
    ensures
        path_view(p) == empty_path_view(),
{
    ProposedMovePath { path: Vec::new(), drawn_path: Vec::new(), hovered: None, was_shift_down: false, attack_intent: None }
}

impl PlaySelection {
    pub fn new() -> (s: PlaySelection)
        ensures
            s@ == spec_idle(),
    {
        let s = PlaySelection {
            selected: None,
            move_range: Vec::new(),
            attack_targets: Vec::new(),
            pending_destination: None,
            proposed_path: empty_path(),
            phase: PlayUiPhase::Idle,
        };
        proof {
            assert(targets_view(s.attack_targets@) =~= Seq::empty());
        }
        s
    }

    /// Drop everything: nothing in hand, nothing shown.
    pub fn clear_selection_state(&mut self)
        ensures
            final(self)@ == spec_idle(),
    {
        self.selected = None;
        self.move_range = Vec::new();
        self.attack_targets = Vec::new();
        self.pending_destination = None;
        self.proposed_path = empty_path();
        self.phase = PlayUiPhase::Idle;
        proof {
            assert(targets_view(self.attack_targets@) =~= Seq::empty());
        }
    }

    /// Step back to the unit with its range still shown.
    ///
    /// This is what cancelling means everywhere: the menu's Cancel, a press
    /// outside it, Escape, an abandoned drag.
    pub fn return_to_unit_selected(&mut self)
        ensures
            final(self)@ == spec_return_to_unit(old(self)@),
    {
        if self.selected.is_none() {
            return;
        }
        self.pending_destination = None;
        self.proposed_path = empty_path();
        self.phase = PlayUiPhase::UnitSelected;
    }

    /// Escape steps back one stage rather than dropping everything. Answers
    /// whether an open production menu should close.
    pub fn escape(&mut self) -> (close_menu: bool)
        ensures
            final(self)@ == spec_escape(old(self)@),
            close_menu == (old(self).phase != PlayUiPhase::AwaitingServer),
    {
        if self.phase == PlayUiPhase::AwaitingServer {
            return false;
        }
        if self.phase == PlayUiPhase::DestinationSelected {
            self.return_to_unit_selected();
        } else {
            self.clear_selection_state();
        }
        true
    }

    /// Pick up a unit, showing where it can go and whom it can fire on.
    pub fn select_unit(
        &mut self,
        entity: u64,
        origin: Pos,
        range: Vec<(Pos, u8)>,
        attack_targets: Vec<(Pos, Vec<Pos>)>,
    )
        ensures
            final(self)@ == spec_select_unit(old(self)@, entity, origin, range@, targets_view(attack_targets@)),
    {
        self.selected = Some(SelectedUnitSelection { entity, origin });
        self.move_range = range;
        self.attack_targets = attack_targets;
        self.pending_destination = None;
        self.proposed_path = empty_path();
        self.phase = PlayUiPhase::UnitSelected;
    }
}

/// Escape from an open order menu keeps the unit; only pressing it again
/// lets the unit go.
pub proof fn lemma_escape_twice_lets_go(v: SelectionView)
    requires
        v.phase == PlayUiPhase::DestinationSelected,
        v.selected is Some,
    ensures
        spec_escape(v).selected == v.selected,
        spec_escape(v).phase == PlayUiPhase::UnitSelected,
        spec_escape(v).move_range == v.move_range,
        spec_escape(spec_escape(v)) == spec_idle(),
{
}

/// Stepping back never drops the unit in hand, never changes what it can
/// reach, and keeps the selection consistent.
pub proof fn lemma_return_keeps_the_unit(v: SelectionView)
    requires
        selection_wf(v),
        v.phase != PlayUiPhase::AwaitingServer,
    ensures
        spec_return_to_unit(v).selected == v.selected,
        spec_return_to_unit(v).move_range == v.move_range,
        spec_return_to_unit(v).attack_targets == v.attack_targets,
        selection_wf(spec_return_to_unit(v)),
{
}

/// Picking a unit up and pressing Escape leaves the board idle.
pub proof fn lemma_select_then_escape_is_idle(
    v: SelectionView,
    entity: u64,
    origin: Pos,
    range: Seq<(Pos, u8)>,
    targets: Seq<(Pos, Seq<Pos>)>,
)
    ensures
        selection_wf(spec_select_unit(v, entity, origin, range, targets)),
        spec_escape(spec_select_unit(v, entity, origin, range, targets)) == spec_idle(),
{
}

} // verus!

verus! {

/// The firing tiles recorded for `target`: those of the first entry naming it.
pub open spec fn approaches_for(targets: Seq<(Pos, Seq<Pos>)>, target: Pos) -> Option<Seq<Pos>>
    decreases targets.len(),
{
    if targets.len() == 0 {
        None
    } else if targets[0].0 == target {
        Some(targets[0].1)
    } else {
        approaches_for(targets.drop_first(), target)
    }
}

/// The tile to fire on `target` from, if it is a target at all: the end of
/// the route already shown when that is a firing tile and the route is
/// legal, otherwise the first (cheapest) firing tile.
pub open spec fn spec_attack_approach(
    preferred_path: Seq<Pos>,
    approaches: Option<Seq<Pos>>,
    has_field: bool,
    preferred_route_valid: bool,
) -> Option<Pos> {
    match approaches {
        None => None,
        Some(a) => if !has_field {
            None
        } else if preferred_path.len() > 0 && a.contains(preferred_path.last()) && preferred_route_valid {
            Some(preferred_path.last())
        } else if a.len() > 0 {
            Some(a[0])
        } else {
            None
        },
    }
}

fn contains_pos(tiles: &[Pos], tile: Pos) -> (found: bool)
    ensures
        found == tiles@.contains(tile),
{
    let mut i: usize = 0;
    while i < tiles.len()
        invariant
            0 <= i <= tiles@.len(),
            forall|j: int| 0 <= j < i ==> tiles@[j] != tile,
        decreases tiles@.len() - i,
    {
        if tiles[i] == tile {
            proof {
                assert(tiles@[i as int] == tile);
            }
            return true;
        }
        i = i + 1;
    }
    false
}

/// The tile to fire on this enemy from, if it is an enemy at all.
///
/// `approaches` are the firing tiles recorded for it (cheapest first), and
/// `preferred_route_valid` says whether the route already shown is legal.
pub fn attack_approach(
    preferred_path: &[Pos],
    approaches: Option<&[Pos]>,
    has_field: bool,
    preferred_route_valid: bool,
) -> (approach: Option<Pos>)
    ensures
        approach == spec_attack_approach(
            preferred_path@,
            match approaches {
                Some(a) => Some(a@),
                None => None,
            },
            has_field,
            preferred_route_valid,
        ),
{
    let approaches = match approaches {
        Some(a) => a,
        None => return None,
    };
    if !has_field {
        return None;
    }
    let len = preferred_path.len();
    if len > 0 && contains_pos(approaches, preferred_path[len - 1]) && preferred_route_valid {
        return Some(preferred_path[len - 1]);
    }
    if approaches.len() > 0 {
        Some(approaches[0])
    } else {
        None
    }
}

/// What the rules answered about a proposed destination.
pub struct DestinationFacts {
    /// The unit in hand is still on the board, still selectable, and still on
    /// the tile it was picked up from.
    pub unit_still_valid: bool,
    /// The unit has an order it can give without moving.
    pub can_act_in_place: bool,
    /// A movement field was computed for the unit.
    pub has_field: bool,
    /// The destination is inside the movement field.
    pub destination_reachable: bool,
    /// The route proposed by hand is a legal route.
    pub proposed_route_valid: bool,
    /// The cheapest route to the destination, when there is one.
    pub field_route: Option<Vec<Pos>>,
}

pub open spec fn route_view(r: Option<Vec<Pos>>) -> Option<Seq<Pos>> {
    match r {
        Some(v) => Some(v@),
        None => None,
    }
}

/// Which route the menu is opened with: the hand-drawn one when it runs from
/// the unit to the destination and is legal, otherwise the cheapest.
pub open spec fn chosen_route(
    origin: Pos,
    destination: Pos,
    proposed: Seq<Pos>,
    proposed_valid: bool,
    field_route: Option<Seq<Pos>>,
) -> Option<Seq<Pos>> {
    if proposed.len() > 0 && proposed[0] == origin && proposed.last() == destination && proposed_valid {
        Some(proposed)
    } else {
        field_route
    }
}

pub open spec fn spec_open_menu(v: SelectionView, s: SelectedUnitSelection, destination: Pos, path: Seq<Pos>) -> SelectionView {
    SelectionView {
        proposed: (path, v.proposed.1, Some(destination), v.proposed.3, v.proposed.4),
        pending: Some((s.entity, s.origin, destination, path, v.proposed.4)),
        phase: PlayUiPhase::DestinationSelected,
        ..v
    }
}

pub open spec fn spec_confirm_destination(
    v: SelectionView,
    destination: Pos,
    proposed: Seq<Pos>,
    unit_still_valid: bool,
    can_act_in_place: bool,
    has_field: bool,
    destination_reachable: bool,
    proposed_route_valid: bool,
    field_route: Option<Seq<Pos>>,
) -> SelectionView {
    match v.selected {
        None => v,
        Some(s) => if !unit_still_valid {
            spec_idle()
        } else if destination == s.origin {
            if !can_act_in_place {
                spec_return_to_unit(v)
            } else {
                spec_open_menu(v, s, destination, seq![s.origin])
            }
        } else if !has_field || !destination_reachable {
            spec_idle()
        } else {
            match chosen_route(s.origin, destination, proposed, proposed_route_valid, field_route) {
                None => spec_idle(),
                Some(path) => spec_open_menu(v, s, destination, path),
            }
        },
    }
}

fn copy_path(path: &[Pos]) -> (copy: Vec<Pos>)
    ensures
        copy@ == path@,
{
    let mut copy: Vec<Pos> = Vec::new();
    let mut i: usize = 0;
    while i < path.len()
        invariant
            0 <= i <= path@.len(),
            copy@ == path@.take(i as int),
        decreases path@.len() - i,
    {
        copy.push(path[i]);
        proof {
            assert(path@.take(i + 1) =~= path@.take(i as int).push(path@[i as int]));
        }
        i = i + 1;
    }
    proof {
        assert(path@.take(path@.len() as int) =~= path@);
    }
    copy
}

impl PlaySelection {
    fn open_menu(&mut self, s: SelectedUnitSelection, destination: Pos, path: Vec<Pos>)
        ensures
            final(self)@ == spec_open_menu(old(self)@, s, destination, path@),
    {
        let pending_path = copy_path(&path);
        self.proposed_path.path = path;
        self.proposed_path.hovered = Some(destination);
        self.pending_destination = Some(
            PendingMoveDestinationSelection {
                unit: s.entity,
                origin: s.origin,
                destination,
                path: pending_path,
                attack_intent: self.proposed_path.attack_intent,
            },
        );
        self.phase = PlayUiPhase::DestinationSelected;
    }

    /// Propose `destination` for the unit in hand and open the order menu
    /// there, or step back when there is nothing to offer there.
    pub fn confirm_selected_destination(&mut self, destination: Pos, proposed_path: &[Pos], facts: DestinationFacts)
        ensures
            final(self)@ == spec_confirm_destination(
                old(self)@,
                destination,
                proposed_path@,
                facts.unit_still_valid,
                facts.can_act_in_place,
                facts.has_field,
                facts.destination_reachable,
                facts.proposed_route_valid,
                route_view(facts.field_route),
            ),
    {
        let s = match self.selected {
            Some(s) => s,
            None => return,
        };
        if !facts.unit_still_valid {
            self.clear_selection_state();
            return;
        }
        if destination == s.origin {
            if !facts.can_act_in_place {
                self.return_to_unit_selected();
                return;
            }
            let mut path = Vec::new();
            path.push(s.origin);
            self.open_menu(s, destination, path);
            return;
        }
        if !facts.has_field || !facts.destination_reachable {
            self.clear_selection_state();
            return;
        }
        let len = proposed_path.len();
        let path = if len > 0 && proposed_path[0] == s.origin && proposed_path[len - 1] == destination
            && facts.proposed_route_valid {
            Some(copy_path(proposed_path))
        } else {
            facts.field_route
        };
        match path {
            None => self.clear_selection_state(),
            Some(path) => self.open_menu(s, destination, path),
        }
    }
}

/// The selection once a tap aims at `target` from `approach`: the aim is
/// recorded, and the route becomes the route to `approach` (`route`, or
/// nothing when there is none) unless it already ends there.
pub open spec fn spec_aim(v: SelectionView, target: Pos, approach: Pos, route: Option<Seq<Pos>>) -> SelectionView {
    let path = if v.proposed.0.len() > 0 && v.proposed.0.last() == approach {
        v.proposed.0
    } else {
        match route {
            Some(r) => r,
            None => Seq::empty(),
        }
    };
    SelectionView { proposed: (path, v.proposed.1, v.proposed.2, v.proposed.3, Some(target)), ..v }
}

impl PlaySelection {
    /// A tap on an enemy the unit in hand can fire on from `approach`: record
    /// the aim, route to the firing tile (the shown route when it already
    /// ends there, otherwise `approach_route`, the cheapest route there, or
    /// none), and propose the firing tile as the destination. `facts` are
    /// the rules' answers for that destination and that route.
    pub fn aim_and_confirm(
        &mut self,
        target: Pos,
        approach: Pos,
        approach_route: Option<Vec<Pos>>,
        facts: DestinationFacts,
    )
        ensures
            ({
                let aimed = spec_aim(old(self)@, target, approach, route_view(approach_route));
                final(self)@ == spec_confirm_destination(
                    aimed,
                    approach,
                    aimed.proposed.0,
                    facts.unit_still_valid,
                    facts.can_act_in_place,
                    facts.has_field,
                    facts.destination_reachable,
                    facts.proposed_route_valid,
                    route_view(facts.field_route),
                )
            }),
    {
        self.proposed_path.attack_intent = Some(target);
        let len = self.proposed_path.path.len();
        let ends_there = len > 0 && self.proposed_path.path[len - 1] == approach;
        if !ends_there {
            self.proposed_path.path = match approach_route {
                Some(r) => r,
                None => Vec::new(),
            };
        }
        proof {
            assert(self@ == spec_aim(old(self)@, target, approach, route_view(approach_route)));
        }
        let path = copy_path(self.proposed_path.path.as_slice());
        self.confirm_selected_destination(approach, path.as_slice(), facts);
    }
}

/// Proposing a destination keeps the selection consistent.
pub proof fn lemma_confirm_keeps_the_selection_consistent(
    v: SelectionView,
    destination: Pos,
    proposed: Seq<Pos>,
    unit_still_valid: bool,
    can_act_in_place: bool,
    has_field: bool,
    destination_reachable: bool,
    proposed_route_valid: bool,
    field_route: Option<Seq<Pos>>,
)
    requires
        selection_wf(v),
        v.phase == PlayUiPhase::UnitSelected || v.phase == PlayUiPhase::DestinationSelected,
    ensures
        selection_wf(
            spec_confirm_destination(
                v,
                destination,
                proposed,
                unit_still_valid,
                can_act_in_place,
                has_field,
                destination_reachable,
                proposed_route_valid,
                field_route,
            ),
        ),
{
}

/// A unit confirmed on its own tile opens the menu with the one-tile route
/// on which it stands, or stays in hand when it has nothing to do there.
pub proof fn lemma_confirming_in_place(
    v: SelectionView,
    proposed: Seq<Pos>,
    can_act_in_place: bool,
    has_field: bool,
    destination_reachable: bool,
    proposed_route_valid: bool,
    field_route: Option<Seq<Pos>>,
)
    requires
        v.selected is Some,
    ensures
        ({
            let s = v.selected->0;
            let after = spec_confirm_destination(
                v,
                s.origin,
                proposed,
                true,
                can_act_in_place,
                has_field,
                destination_reachable,
                proposed_route_valid,
                field_route,
            );
            &&& can_act_in_place ==> (after.pending matches Some(p) && p.3 == seq![s.origin])
            &&& !can_act_in_place ==> after == spec_return_to_unit(v)
        }),
{
}

} // verus!

verus! {

pub open spec fn snapshot_view(s: CommittedSnapshot) -> (u64, Pos, Seq<(Pos, u8)>, Seq<(Pos, Seq<Pos>)>, Seq<Pos>, Pos, Option<Pos>, CommittedKind) {
    (s.unit, s.origin, s.range@, targets_view(s.attack_targets@), s.path@, s.destination, s.attack_intent, s.kind)
}

pub open spec fn spec_commit(v: SelectionView, kind: CommittedKind) -> (SelectionView, Option<(u64, Pos, Seq<(Pos, u8)>, Seq<(Pos, Seq<Pos>)>, Seq<Pos>, Pos, Option<Pos>, CommittedKind)>) {
    match v.pending {
        None => (v, None),
        Some(p) => (
            SelectionView {
                move_range: Seq::empty(),
                attack_targets: Seq::empty(),
                pending: None,
                proposed: (Seq::empty(), Seq::empty(), None, v.proposed.3, None),
                phase: PlayUiPhase::AwaitingServer,
                ..v
            },
            Some((p.0, p.1, v.move_range, v.attack_targets, p.3, p.2, p.4, kind)),
        ),
    }
}

pub open spec fn spec_reject(
    v: SelectionView,
    snapshot: Option<(u64, Pos, Seq<(Pos, u8)>, Seq<(Pos, Seq<Pos>)>, Seq<Pos>, Pos, Option<Pos>, CommittedKind)>,
) -> SelectionView {
    match snapshot {
        None => v,
        Some(s) => SelectionView {
            selected: Some(SelectedUnitSelection { entity: s.0, origin: s.1 }),
            move_range: s.2,
            attack_targets: s.3,
            pending: None,
            proposed: (s.4, Seq::empty(), None, v.proposed.3, s.6),
            phase: PlayUiPhase::UnitSelected,
        },
    }
}

impl PlaySelection {
    /// The order chosen from the menu is on its way: remember what the board
    /// held, and stop offering anything until the server has answered. The
    /// unit stays in hand.
    pub fn commit_order(&mut self, kind: CommittedKind) -> (snapshot: Option<CommittedSnapshot>)
        ensures
            (final(self)@, match snapshot {
                Some(s) => Some(snapshot_view(s)),
                None => None,
            }) == spec_commit(old(self)@, kind),
    {
        let pending = match self.pending_destination.take() {
            Some(p) => p,
            None => return None,
        };
        let mut range: Vec<(Pos, u8)> = Vec::new();
        std::mem::swap(&mut range, &mut self.move_range);
        let mut targets: Vec<(Pos, Vec<Pos>)> = Vec::new();
        std::mem::swap(&mut targets, &mut self.attack_targets);
        self.proposed_path.path = Vec::new();
        self.proposed_path.drawn_path = Vec::new();
        self.proposed_path.hovered = None;
        self.proposed_path.attack_intent = None;
        self.phase = PlayUiPhase::AwaitingServer;
        proof {
            assert(targets_view(self.attack_targets@) =~= Seq::empty());
        }
        Some(
            CommittedSnapshot {
                unit: pending.unit,
                origin: pending.origin,
                range,
                attack_targets: targets,
                path: pending.path,
                destination: pending.destination,
                attack_intent: pending.attack_intent,
                kind,
            },
        )
    }

    /// Put the board back after a refusal, at the origin with the route
    /// intact.
    pub fn restore_rejected(&mut self, snapshot: Option<CommittedSnapshot>)
        ensures
            final(self)@ == spec_reject(old(self)@, match snapshot {
                Some(s) => Some(snapshot_view(s)),
                None => None,
            }),
    {
        let snapshot = match snapshot {
            Some(s) => s,
            None => return,
        };
        self.selected = Some(SelectedUnitSelection { entity: snapshot.unit, origin: snapshot.origin });
        self.move_range = snapshot.range;
        self.attack_targets = snapshot.attack_targets;
        self.proposed_path.path = snapshot.path;
        self.proposed_path.drawn_path = Vec::new();
        self.proposed_path.hovered = None;
        self.proposed_path.attack_intent = snapshot.attack_intent;
        self.pending_destination = None;
        self.phase = PlayUiPhase::UnitSelected;
    }
}

/// A refused command restores the selection at the origin: the same unit in
/// hand on the same tile, the same reach, and the route that was sent.
pub proof fn lemma_refused_order_restores_the_selection(v: SelectionView, kind: CommittedKind)
    requires
        selection_wf(v),
        v.phase == PlayUiPhase::DestinationSelected,
    ensures
        ({
            let (sent, snapshot) = spec_commit(v, kind);
            let back = spec_reject(sent, snapshot);
            let pending = v.pending->0;
            &&& sent.phase == PlayUiPhase::AwaitingServer
            &&& sent.selected == v.selected
            &&& back.selected == v.selected
            &&& back.move_range == v.move_range
            &&& back.attack_targets == v.attack_targets
            &&& back.proposed.0 == pending.3
            &&& back.proposed.4 == pending.4
            &&& back.phase == PlayUiPhase::UnitSelected
            &&& selection_wf(back)
        }),
{
}

pub open spec fn spec_extend_drag(
    v: SelectionView,
    hovered: Option<Pos>,
    approach: Option<Pos>,
    target_reachable: bool,
    has_field: bool,
    target_route: Option<Seq<Pos>>,
) -> SelectionView {
    if v.selected is None || hovered is None || v.proposed.2 == hovered {
        v
    } else {
        let h = hovered->0;
        let aimed = SelectionView {
            proposed: (v.proposed.0, v.proposed.1, v.proposed.2, v.proposed.3, if approach is Some {
                Some(h)
            } else {
                None
            }),
            ..v
        };
        if !target_reachable {
            aimed
        } else {
            let path = if has_field && target_route is Some {
                target_route->0
            } else {
                v.proposed.0
            };
            SelectionView { proposed: (path, aimed.proposed.1, Some(h), aimed.proposed.3, aimed.proposed.4), ..aimed }
        }
    }
}

impl PlaySelection {
    /// Follow the pointer while a unit is dragged, holding the route at the
    /// last tile it may legally end on.
    ///
    /// `approach` is where the unit would fire from when the pointer is over
    /// an enemy; the route then runs to that tile, and `target_reachable` and
    /// `target_route` describe the tile the route runs to.
    pub fn extend_drag_route(
        &mut self,
        hovered: Option<Pos>,
        approach: Option<Pos>,
        target_reachable: bool,
        has_field: bool,
        target_route: Option<Vec<Pos>>,
    )
        ensures
            final(self)@ == spec_extend_drag(old(self)@, hovered, approach, target_reachable, has_field, route_view(target_route)),
    {
        if self.selected.is_none() {
            return;
        }
        let h = match hovered {
            Some(h) => h,
            None => return,
        };
        if self.proposed_path.hovered == Some(h) {
            return;
        }
        self.proposed_path.attack_intent = match approach {
            Some(_) => Some(h),
            None => None,
        };
        if !target_reachable {
            return;
        }
        self.proposed_path.hovered = Some(h);
        if !has_field {
            return;
        }
        if let Some(path) = target_route {
            self.proposed_path.path = path;
        }
    }

    /// Where a drag that ends now would send the unit: the end of the route
    /// shown, or where it stands when no route is shown.
    pub fn drag_destination(&self) -> (destination: Option<Pos>)
        ensures
            destination == match self.selected {
                None => None,
                Some(s) => if self.proposed_path.path@.len() > 0 {
                    Some(self.proposed_path.path@.last())
                } else {
                    Some(s.origin)
                },
            },
    {
        let s = match self.selected {
            Some(s) => s,
            None => return None,
        };
        let len = self.proposed_path.path.len();
        if len > 0 {
            Some(self.proposed_path.path[len - 1])
        } else {
            Some(s.origin)
        }
    }
}

/// A drag over an enemy keeps its aim even where the firing tile is out of
/// reach, and a drag never moves the route onto a tile it cannot reach.
pub proof fn lemma_drag_never_shows_an_unreachable_route(
    v: SelectionView,
    hovered: Pos,
    approach: Option<Pos>,
    has_field: bool,
    target_route: Option<Seq<Pos>>,
)
    requires
        v.selected is Some,
        v.proposed.2 != Some(hovered),
    ensures
        spec_extend_drag(v, Some(hovered), approach, false, has_field, target_route).proposed.0 == v.proposed.0,
        spec_extend_drag(v, Some(hovered), approach, false, has_field, target_route).proposed.4 == (if approach is Some {
            Some(hovered)
        } else {
            None
        }),
{
}

} // verus!

verus! {

/// Whether a unit may be picked up: it can still act (or carries cargo it
/// can unload), is not itself being carried, and belongs to the viewer.
pub open spec fn spec_unit_is_selectable(
    faction: crate::board::PlayerFaction,
    is_active: bool,
    is_carried: bool,
    has_cargo: bool,
    friendly: Seq<crate::board::PlayerFaction>,
) -> bool {
    (is_active || has_cargo) && !is_carried && friendly.contains(faction)
}

fn contains_faction(factions: &[crate::board::PlayerFaction], faction: crate::board::PlayerFaction) -> (found: bool)
    ensures
        found == factions@.contains(faction),
{
    let mut i: usize = 0;
    while i < factions.len()
        invariant
            0 <= i <= factions@.len(),
            forall|j: int| 0 <= j < i ==> factions@[j] != faction,
        decreases factions@.len() - i,
    {
        if factions[i] == faction {
            proof {
                assert(factions@[i as int] == faction);
            }
            return true;
        }
        i = i + 1;
    }
    false
}

pub fn unit_is_selectable(
    faction: crate::board::PlayerFaction,
    is_active: bool,
    is_carried: bool,
    has_cargo: bool,
    friendly: &[crate::board::PlayerFaction],
) -> (selectable: bool)
    ensures
        selectable == spec_unit_is_selectable(faction, is_active, is_carried, has_cargo, friendly@),
{
    (is_active || has_cargo) && !is_carried && contains_faction(friendly, faction)
}

/// How the unit in hand stands now.
#[derive(Clone, Copy, Debug, PartialEq, Eq, Structural)]
pub struct UnitStanding {
    pub faction: crate::board::PlayerFaction,
    pub position: Pos,
    pub is_active: bool,
    pub is_carried: bool,
    pub has_cargo: bool,
}

/// Whether the selection must go, and whether a sent order's snapshot goes
/// with it.
pub open spec fn spec_invalid_selection(
    v: SelectionView,
    unit: Option<UnitStanding>,
    friendly: Seq<crate::board::PlayerFaction>,
    committed: Option<CommittedKind>,
) -> (bool, bool) {
    match v.selected {
        None => (false, false),
        Some(s) => {
            let awaiting = v.phase == PlayUiPhase::AwaitingServer;
            match unit {
                None => (true, awaiting),
                Some(u) => {
                    let accepted_move_finished = awaiting && !u.is_active && committed == Some(CommittedKind::Move);
                    let invalid = accepted_move_finished || !spec_unit_is_selectable(
                        u.faction,
                        u.is_active,
                        u.is_carried,
                        u.has_cargo,
                        friendly,
                    ) || u.position != s.origin;
                    (invalid, invalid && awaiting)
                },
            }
        },
    }
}

impl PlaySelection {
    /// Whether the unit in hand is still one the board may hold. A unit that
    /// left the board, moved, stopped being selectable, or finished the move
    /// the server accepted is let go; while an order is on its way, letting
    /// go also drops that order's snapshot.
    ///
    /// Answers (clear the selection, drop the snapshot).
    pub fn invalid_selection(
        &self,
        unit: Option<UnitStanding>,
        friendly: &[crate::board::PlayerFaction],
        committed: Option<CommittedKind>,
    ) -> (answer: (bool, bool))
        ensures
            answer == spec_invalid_selection(self@, unit, friendly@, committed),
    {
        let s = match self.selected {
            Some(s) => s,
            None => return (false, false),
        };
        let awaiting = self.phase == PlayUiPhase::AwaitingServer;
        let u = match unit {
            Some(u) => u,
            None => return (true, awaiting),
        };
        let accepted_move_finished = awaiting && !u.is_active && committed == Some(CommittedKind::Move);
        let invalid = accepted_move_finished || !unit_is_selectable(
            u.faction,
            u.is_active,
            u.is_carried,
            u.has_cargo,
            friendly,
        ) || u.position != s.origin;
        (invalid, invalid && awaiting)
    }
}

/// What a tap on the board does.
#[derive(Clone, Copy, Debug, PartialEq, Eq, Structural)]
pub enum TapDecision {
    /// Nothing: the tap missed the board, or an order is on its way.
    Ignore,
    /// The tile is drawn too small to commit to by touch: bring the board
    /// back up to a workable size, and keep the selection.
    ReturnToTouchFloor,
    /// Aim at the enemy on `target` from `approach`, and open the menu there.
    ConfirmAttack { target: Pos, approach: Pos },
    /// Open the order menu at this tile.
    ConfirmDestination(Pos),
    /// Pick up the unit on the tapped tile.
    SelectUnit,
    /// Step back to the unit in hand.
    StepBack,
    /// Let the unit go.
    Clear,
    /// Nothing in hand and nothing on the tile: offer what can be built there.
    OpenProduction,
    /// Nothing in hand, and a tile nothing can be done with.
    CloseMenu,
}

/// What the rules and the board answered about a tapped tile.
#[derive(Clone, Copy, Debug, PartialEq, Eq, Structural)]
pub struct TapFacts {
    /// The tile the tap landed on, when it landed on the board.
    pub tapped: Option<Pos>,
    /// Whether the pointer is a finger and the board is drawn below the
    /// smallest size a finger can commit at.
    pub coarse_below_floor: bool,
    /// Where the unit in hand would fire on the tapped tile from, when the
    /// tapped tile is a target.
    pub approach: Option<Pos>,
    /// The tile the tap resolves to: the tapped tile, or a reachable
    /// neighbour it nearly hit.
    pub destination: Pos,
    /// Whether the unit in hand can end on `destination` (on its own tile:
    /// whether it has an order it can give there).
    pub destination_reachable: bool,
    /// Whether the tapped tile holds a unit the viewer can pick up.
    pub tapped_selectable: bool,
    /// Whether the tapped tile holds any unit (absent off the board index).
    pub tapped_occupied: Option<bool>,
}

pub open spec fn spec_tap_decision(phase: PlayUiPhase, has_selection: bool, f: TapFacts) -> TapDecision {
    match f.tapped {
        None => TapDecision::Ignore,
        Some(tapped) => if phase == PlayUiPhase::AwaitingServer {
            TapDecision::Ignore
        } else if has_selection {
            match f.approach {
                Some(approach) => if f.coarse_below_floor {
                    TapDecision::ReturnToTouchFloor
                } else {
                    TapDecision::ConfirmAttack { target: tapped, approach }
                },
                None => if f.destination_reachable {
                    if f.coarse_below_floor {
                        TapDecision::ReturnToTouchFloor
                    } else {
                        TapDecision::ConfirmDestination(f.destination)
                    }
                } else if f.tapped_selectable {
                    TapDecision::SelectUnit
                } else if phase == PlayUiPhase::DestinationSelected {
                    TapDecision::StepBack
                } else {
                    TapDecision::Clear
                },
            }
        } else if f.tapped_selectable {
            TapDecision::SelectUnit
        } else {
            match f.tapped_occupied {
                Some(false) => TapDecision::OpenProduction,
                _ => TapDecision::CloseMenu,
            }
        },
    }
}

/// Decide what a tap does. A tap on an enemy aims at it; a tap on a tile the
/// unit in hand can reach proposes it; a tap on another friendly unit picks
/// that unit up; a tap on open ground steps back one stage.
pub fn tap_decision(phase: PlayUiPhase, has_selection: bool, facts: TapFacts) -> (decision: TapDecision)
    ensures
        decision == spec_tap_decision(phase, has_selection, facts),
{
    let tapped = match facts.tapped {
        Some(t) => t,
        None => return TapDecision::Ignore,
    };
    if phase == PlayUiPhase::AwaitingServer {
        return TapDecision::Ignore;
    }
    if has_selection {
        if let Some(approach) = facts.approach {
            if facts.coarse_below_floor {
                return TapDecision::ReturnToTouchFloor;
            }
            return TapDecision::ConfirmAttack { target: tapped, approach };
        }
        if facts.destination_reachable {
            if facts.coarse_below_floor {
                return TapDecision::ReturnToTouchFloor;
            }
            return TapDecision::ConfirmDestination(facts.destination);
        }
        if facts.tapped_selectable {
            return TapDecision::SelectUnit;
        }
        if phase == PlayUiPhase::DestinationSelected {
            return TapDecision::StepBack;
        }
        return TapDecision::Clear;
    }
    if facts.tapped_selectable {
        return TapDecision::SelectUnit;
    }
    match facts.tapped_occupied {
        Some(false) => TapDecision::OpenProduction,
        _ => TapDecision::CloseMenu,
    }
}

/// A tap on a unit the viewer can pick up picks it up, with or without a
/// unit in hand, unless the tap aims at an enemy or proposes a tile the unit
/// in hand can reach. So stepping back and letting go only ever happen on a
/// tile with nothing to pick up, and only with a unit in hand.
pub proof fn lemma_a_tap_on_a_ready_unit_picks_it_up(phase: PlayUiPhase, has_selection: bool, f: TapFacts)
    ensures
        f.tapped is Some && phase != PlayUiPhase::AwaitingServer && f.tapped_selectable && f.approach is None
            && !(has_selection && f.destination_reachable) ==> spec_tap_decision(phase, has_selection, f)
            == TapDecision::SelectUnit,
        (spec_tap_decision(phase, has_selection, f) == TapDecision::StepBack || spec_tap_decision(phase, has_selection, f)
            == TapDecision::Clear) ==> has_selection && !f.tapped_selectable && f.approach is None
            && !f.destination_reachable,
{
}

/// With a unit in hand and the board big enough to touch, a tap on an enemy
/// the unit can fire on aims at that enemy from the firing tile, and a tap
/// that resolves to a tile the unit can reach proposes that tile. With
/// nothing in hand, a tap on an empty tile offers what can be built there.
pub proof fn lemma_taps_aim_propose_and_build(phase: PlayUiPhase, has_selection: bool, f: TapFacts)
    requires
        f.tapped is Some,
        phase != PlayUiPhase::AwaitingServer,
    ensures
        has_selection && !f.coarse_below_floor && f.approach is Some ==> spec_tap_decision(phase, has_selection, f)
            == (TapDecision::ConfirmAttack { target: f.tapped->0, approach: f.approach->0 }),
        has_selection && !f.coarse_below_floor && f.approach is None && f.destination_reachable ==> spec_tap_decision(
            phase,
            has_selection,
            f,
        ) == TapDecision::ConfirmDestination(f.destination),
        !has_selection && !f.tapped_selectable ==> (spec_tap_decision(phase, has_selection, f)
            == TapDecision::OpenProduction <==> f.tapped_occupied == Some(false)),
        has_selection && f.approach is None && !f.destination_reachable && !f.tapped_selectable ==> spec_tap_decision(
            phase,
            has_selection,
            f,
        ) == if phase == PlayUiPhase::DestinationSelected {
            TapDecision::StepBack
        } else {
            TapDecision::Clear
        },
        has_selection && f.coarse_below_floor && (f.approach is Some || f.destination_reachable) ==> spec_tap_decision(
            phase,
            has_selection,
            f,
        ) == TapDecision::ReturnToTouchFloor,
{
}

/// No tap commits an order while an order is on its way, and no tap on a
/// board drawn below the touch floor commits anything by finger.
pub proof fn lemma_taps_never_commit_blind(has_selection: bool, f: TapFacts)
    ensures
        spec_tap_decision(PlayUiPhase::AwaitingServer, has_selection, f) == TapDecision::Ignore,
        f.coarse_below_floor ==> !(spec_tap_decision(PlayUiPhase::UnitSelected, has_selection, f) is ConfirmAttack),
        f.coarse_below_floor ==> !(spec_tap_decision(PlayUiPhase::UnitSelected, has_selection, f) is ConfirmDestination),
{
}

} // verus!

verus! {

/// An order on its way to the server.
#[derive(Debug, PartialEq, Eq)]
pub enum CommandRequest {
    /// Move along `path` (from the unit's tile to its destination), then act.
    Move { unit_id: u32, path: Vec<Pos>, action: crate::actions::PostMoveAction },
    /// Put cargo down without moving the transport.
    Unload { transport_id: u32, cargo_id: u64, position: Pos },
    /// Take the unit off the board.
    Delete { unit_id: u32 },
}

/// What kind of order a snapshot is kept for.
pub open spec fn spec_committed_kind(order: crate::actions::UnitOrder) -> CommittedKind {
    match order {
        crate::actions::UnitOrder::Delete => CommittedKind::Delete,
        crate::actions::UnitOrder::Move { .. } => CommittedKind::Move,
        crate::actions::UnitOrder::Unload { .. } => CommittedKind::Unload,
    }
}

pub fn committed_kind(order: crate::actions::UnitOrder) -> (kind: CommittedKind)
    ensures
        kind == spec_committed_kind(order),
{
    match order {
        crate::actions::UnitOrder::Delete => CommittedKind::Delete,
        crate::actions::UnitOrder::Move { .. } => CommittedKind::Move,
        crate::actions::UnitOrder::Unload { .. } => CommittedKind::Unload,
    }
}

/// The request a chosen order sends: a move carries the route the menu was
/// opened with, and an unload and a delete stand alone.
pub fn command_request(order: crate::actions::UnitOrder, unit_id: u32, path: &[Pos]) -> (request: CommandRequest)
    ensures
        match order {
            crate::actions::UnitOrder::Move { action } => request matches CommandRequest::Move { unit_id: u, path: p, action: a }
                && u == unit_id && p@ == path@ && a == action,
            crate::actions::UnitOrder::Unload { cargo_id, position } => request == (CommandRequest::Unload {
                transport_id: unit_id,
                cargo_id,
                position,
            }),
            crate::actions::UnitOrder::Delete => request == (CommandRequest::Delete { unit_id }),
        },
{
    match order {
        crate::actions::UnitOrder::Move { action } => CommandRequest::Move { unit_id, path: copy_path(path), action },
        crate::actions::UnitOrder::Unload { cargo_id, position } => CommandRequest::Unload {
            transport_id: unit_id,
            cargo_id,
            position,
        },
        crate::actions::UnitOrder::Delete => CommandRequest::Delete { unit_id },
    }
}

} // verus!
