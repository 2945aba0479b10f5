//! The route shown under the pointer while a unit is in hand.
//!
//! Hovering proposes the cheapest route; holding Shift draws one by hand, a
//! tile at a time, and stepping back over the last edge erases it. What a
//! route costs, and which is cheapest, is the movement field's answer: the
//! board asks it about the routes it may show and decides here from the
//! answers.
use vstd::prelude::*;
use crate::board::{manhattan, Pos};
use crate::play::{
    approaches_for, attack_approach, spec_attack_approach, targets_view, PathView, PlaySelection,
    PlayUiPhase, SelectionView,
};

verus! {

/// The hand-drawn route so far: the unit's tile, then the tiles drawn.
pub open spec fn spec_route_prefix(origin: Pos, drawn: Seq<Pos>) -> Seq<Pos> {
    seq![origin] + drawn
}

/// A route without its first tile; nothing for an empty route.
pub open spec fn spec_tail(route: Seq<Pos>) -> Seq<Pos> {
    if route.len() == 0 {
        Seq::empty()
    } else {
        route.skip(1)
    }
}

/// Where `tile` first stands in `route`.
pub open spec fn first_index_of(route: Seq<Pos>, tile: Pos) -> int {
    choose|i: int| 0 <= i < route.len() && route[i] == tile && forall|j: int| 0 <= j < i ==> route[j] != tile
}

/// The hand-drawn prefix carried on along `route`: the prefix, then what
/// follows the prefix's last tile on the route. `None` where the route does
/// not pass that tile.
pub open spec fn spec_splice(prefix: Seq<Pos>, route: Seq<Pos>) -> Option<Seq<Pos>> {
    if prefix.len() > 0 && route.contains(prefix.last()) {
        Some(prefix + route.skip(first_index_of(route, prefix.last()) + 1))
    } else {
        None
    }
}

/// Whether the unit in hand can end its move on `tile`.
pub open spec fn spec_in_move_range(range: Seq<(Pos, u8)>, tile: Pos) -> bool {
    exists|i: int| 0 <= i < range.len() && range[i].0 == tile
}

/// What the movement field answered about the routes the board may show for
/// one hover.
///
/// `route` is the cheapest route to the tile the route would run to; each
/// flag says whether one candidate is a legal route: the route shown now, the
/// hand-drawn prefix with the destination added, the prefix carried on along
/// `route` ([`splice_route`]), `route` itself, and the prefix alone.
pub struct RouteAnswers {
    pub route: Option<Vec<Pos>>,
    pub shown_valid: bool,
    pub step_valid: bool,
    pub spliced_valid: bool,
    pub route_valid: bool,
    pub prefix_valid: bool,
}

pub open spec fn answered_route(a: RouteAnswers) -> Option<Seq<Pos>> {
    match a.route {
        Some(r) => Some(r@),
        None => None,
    }
}

/// The route Shift draws to `destination`, and whether it is legal: one more
/// step when the destination is next to the end of the drawing, otherwise the
/// drawing carried on along the cheapest route (or that route alone, when the
/// carried-on drawing is not legal), otherwise the drawing as it stands.
pub open spec fn spec_shift_candidate(prefix: Seq<Pos>, destination: Pos, a: RouteAnswers) -> (Seq<Pos>, bool) {
    if manhattan(prefix.last(), destination) == 1 {
        (prefix.push(destination), a.step_valid)
    } else {
        match answered_route(a) {
            Some(r) => match spec_splice(prefix, r) {
                Some(spliced) => if a.spliced_valid {
                    (spliced, true)
                } else {
                    (r, a.route_valid)
                },
                None => (prefix, a.prefix_valid),
            },
            None => (prefix, a.prefix_valid),
        }
    }
}

/// Route and drawing after a hover that sends the route to `destination`.
pub open spec fn spec_route_to(
    v: SelectionView,
    origin: Pos,
    path: Seq<Pos>,
    drawn: Seq<Pos>,
    destination: Pos,
    aimed: bool,
    shift_down: bool,
    undo: bool,
    a: RouteAnswers,
) -> (Seq<Pos>, Seq<Pos>) {
    let prefix = spec_route_prefix(origin, drawn);
    if undo {
        (prefix, drawn)
    } else if shift_down {
        if destination == origin {
            (seq![origin], Seq::empty())
        } else if prefix.len() >= 2 && prefix[prefix.len() - 2] == destination {
            (prefix.drop_last(), drawn.drop_last())
        } else {
            let (candidate, legal) = spec_shift_candidate(prefix, destination, a);
            if candidate.len() > 0 && candidate.last() == destination && legal {
                (candidate, spec_tail(candidate))
            } else {
                match answered_route(a) {
                    Some(r) => (r, spec_tail(r)),
                    None => (path, drawn),
                }
            }
        }
    } else if aimed && path.len() > 0 && path.last() == destination && a.shown_valid {
        (path, drawn)
    } else if destination != origin && !spec_in_move_range(v.move_range, destination) {
        (path, drawn)
    } else {
        let automatic = match answered_route(a) {
            Some(r) => match spec_splice(prefix, r) {
                Some(spliced) => if a.spliced_valid {
                    spliced
                } else {
                    r
                },
                None => r,
            },
            None => Seq::empty(),
        };
        (automatic, drawn)
    }
}

pub open spec fn with_route(v: SelectionView, p: PathView) -> SelectionView {
    SelectionView { proposed: p, ..v }
}

/// The route shown after the pointer, Shift and Backspace were read for one
/// frame while a unit is in hand.
pub open spec fn spec_update_proposed(
    v: SelectionView,
    drag_held_by_unit: bool,
    has_field: bool,
    shift_down: bool,
    undo: bool,
    hovered: Option<Pos>,
    a: RouteAnswers,
) -> SelectionView {
    if v.phase != PlayUiPhase::UnitSelected || drag_held_by_unit || v.selected is None || !has_field {
        v
    } else {
        let origin = v.selected->0.origin;
        let path = v.proposed.0;
        let shift_started = shift_down && !v.proposed.3;
        let drawn = if undo {
            if v.proposed.1.len() > 0 {
                v.proposed.1.drop_last()
            } else {
                v.proposed.1
            }
        } else if shift_started && v.proposed.1.len() == 0 && path.len() > 1 {
            spec_tail(path)
        } else {
            v.proposed.1
        };
        let shown_hover = if undo {
            None
        } else {
            v.proposed.2
        };
        if hovered == shown_hover && !shift_started && !undo {
            with_route(v, (path, drawn, shown_hover, shift_down, v.proposed.4))
        } else {
            match hovered {
                None => with_route(v, (path, drawn, None, shift_down, None)),
                Some(h) => {
                    let approach = spec_attack_approach(path, approaches_for(v.attack_targets, h), true, a.shown_valid);
                    let intent = if approach is Some {
                        Some(h)
                    } else {
                        None
                    };
                    let destination = match approach {
                        Some(t) => t,
                        None => h,
                    };
                    let routed = spec_route_to(v, origin, path, drawn, destination, approach is Some, shift_down, undo, a);
                    with_route(v, (routed.0, routed.1, Some(h), shift_down, intent))
                },
            }
        }
    }
}

/// The hand-drawn route so far.
pub fn route_prefix(origin: Pos, drawn: &[Pos]) -> (prefix: Vec<Pos>)
    ensures
        prefix@ == spec_route_prefix(origin, drawn@),
{
    let mut prefix: Vec<Pos> = Vec::new();
    prefix.push(origin);
    let mut i: usize = 0;
    while i < drawn.len()
        invariant
            0 <= i <= drawn@.len(),
            prefix@ == seq![origin] + drawn@.take(i as int),
        decreases drawn@.len() - i,
    {
        prefix.push(drawn[i]);
        proof {
            assert(drawn@.take(i + 1) =~= drawn@.take(i as int).push(drawn@[i as int]));
            assert(seq![origin] + drawn@.take(i + 1) =~= (seq![origin] + drawn@.take(i as int)).push(drawn@[i as int]));
        }
        i = i + 1;
    }
    proof {
        assert(drawn@.take(drawn@.len() as int) =~= drawn@);
    }
    prefix
}

/// `route` from `from` on.
fn copy_from(route: &[Pos], from: usize) -> (rest: Vec<Pos>)
    requires
        from <= route@.len(),
    ensures
        rest@ == route@.skip(from as int),
{
    let mut rest: Vec<Pos> = Vec::new();
    let mut i: usize = from;
    while i < route.len()
        invariant
            from <= i <= route@.len(),
            rest@ == route@.subrange(from as int, i as int),
        decreases route@.len() - i,
    {
        rest.push(route[i]);
        proof {
            assert(route@.subrange(from as int, i + 1) =~= route@.subrange(from as int, i as int).push(route@[i as int]));
        }
        i = i + 1;
    }
    rest
}

/// A route without its first tile.
pub fn route_tail(route: &[Pos]) -> (tail: Vec<Pos>)
    ensures
        tail@ == spec_tail(route@),
{
    if route.len() == 0 {
        Vec::new()
    } else {
        copy_from(route, 1)
    }
}

fn first_index(route: &[Pos], tile: Pos) -> (found: Option<usize>)
    ensures
        match found {
            Some(i) => route@.contains(tile) && i == first_index_of(route@, tile) && i < route@.len(),
            None => !route@.contains(tile),
        },
{
    let mut i: usize = 0;
    while i < route.len()
        invariant
            0 <= i <= route@.len(),
            forall|j: int| 0 <= j < i ==> route@[j] != tile,
        decreases route@.len() - i,
    {
        if route[i] == tile {
            proof {
                let k = first_index_of(route@, tile);
                assert(0 <= i < route@.len() && route@[i as int] == tile && forall|j: int| 0 <= j < i ==> route@[j] != tile);
                assert(0 <= k < route@.len() && route@[k] == tile && forall|j: int| 0 <= j < k ==> route@[j] != tile);
                assert(k == i);
            }
            return Some(i);
        }
        i = i + 1;
    }
    None
}

/// The hand-drawn prefix carried on along `route`, when the route passes the
/// prefix's last tile.
pub fn splice_route(prefix: &[Pos], route: &[Pos]) -> (spliced: Option<Vec<Pos>>)
    ensures
        match spliced {
            Some(s) => spec_splice(prefix@, route@) == Some(s@),
            None => spec_splice(prefix@, route@) is None,
        },
{
    let len = prefix.len();
    if len == 0 {
        return None;
    }
    let index = match first_index(route, prefix[len - 1]) {
        Some(index) => index,
        None => return None,
    };
    let route_len = route.len();
    assert(index < route_len);
    let mut spliced = copy_from(prefix, 0);
    let rest = copy_from(route, index + 1);
    let mut i: usize = 0;
    proof {
        assert(prefix@.skip(0) =~= prefix@);
    }
    while i < rest.len()
        invariant
            0 <= i <= rest@.len(),
            spliced@ == prefix@ + rest@.take(i as int),
        decreases rest@.len() - i,
    {
        spliced.push(rest[i]);
        proof {
            assert(rest@.take(i + 1) =~= rest@.take(i as int).push(rest@[i as int]));
            assert(prefix@ + rest@.take(i + 1) =~= (prefix@ + rest@.take(i as int)).push(rest@[i as int]));
        }
        i = i + 1;
    }
    proof {
        assert(rest@.take(rest@.len() as int) =~= rest@);
    }
    Some(spliced)
}

/// Whether the unit in hand can end its move on `tile`.
pub fn in_move_range(range: &[(Pos, u8)], tile: Pos) -> (reachable: bool)
    ensures
        reachable == spec_in_move_range(range@, tile),
{
    let mut i: usize = 0;
    while i < range.len()
        invariant
            0 <= i <= range@.len(),
            forall|j: int| 0 <= j < i ==> range@[j].0 != tile,
        decreases range@.len() - i,
    {
        if range[i].0 == tile {
            return true;
        }
        i = i + 1;
    }
    false
}

/// The firing tiles recorded for `target`.
pub fn approaches_of(targets: &[(Pos, Vec<Pos>)], target: Pos) -> (approaches: Option<&[Pos]>)
    ensures
        match approaches {
            Some(a) => approaches_for(targets_view(targets@), target) == Some(a@),
            None => approaches_for(targets_view(targets@), target) is None,
        },
{
    let mut i: usize = 0;
    proof {
        assert(targets_view(targets@).skip(0) =~= targets_view(targets@));
    }
    while i < targets.len()
        invariant
            0 <= i <= targets@.len(),
            approaches_for(targets_view(targets@).skip(i as int), target) == approaches_for(targets_view(targets@), target),
        decreases targets@.len() - i,
    {
        proof {
            assert(targets_view(targets@).skip(i as int).drop_first() =~= targets_view(targets@).skip(i + 1));
        }
        if targets[i].0 == target {
            return Some(targets[i].1.as_slice());
        }
        i = i + 1;
    }
    None
}

fn shift_candidate(prefix: Vec<Pos>, destination: Pos, answers: &RouteAnswers) -> (chosen: (Vec<Pos>, bool))
    requires
        prefix@.len() > 0,
    ensures
        (chosen.0@, chosen.1) == spec_shift_candidate(prefix@, destination, *answers),
{
    let endpoint = prefix[prefix.len() - 1];
    let dx: u16 = if endpoint.x >= destination.x {
        (endpoint.x - destination.x) as u16
    } else {
        (destination.x - endpoint.x) as u16
    };
    let dy: u16 = if endpoint.y >= destination.y {
        (endpoint.y - destination.y) as u16
    } else {
        (destination.y - endpoint.y) as u16
    };
    if dx + dy == 1 {
        let mut stepped = prefix;
        stepped.push(destination);
        return (stepped, answers.step_valid);
    }
    match &answers.route {
        Some(route) => match splice_route(&prefix, route) {
            Some(spliced) => if answers.spliced_valid {
                (spliced, true)
            } else {
                (copy_from(route, 0), answers.route_valid)
            },
            None => (prefix, answers.prefix_valid),
        },
        None => (prefix, answers.prefix_valid),
    }
}

impl PlaySelection {
    /// Send the route shown to `destination` for a hover.
    fn route_to(
        &mut self,
        origin: Pos,
        destination: Pos,
        aimed: bool,
        shift_down: bool,
        undo: bool,
        answers: RouteAnswers,
    )
        ensures
            ({
                let routed = spec_route_to(
                    old(self)@,
                    origin,
                    old(self)@.proposed.0,
                    old(self)@.proposed.1,
                    destination,
                    aimed,
                    shift_down,
                    undo,
                    answers,
                );
                final(self)@ == with_route(
                    old(self)@,
                    (routed.0, routed.1, old(self)@.proposed.2, old(self)@.proposed.3, old(self)@.proposed.4),
                )
            }),
    {
        let prefix = route_prefix(origin, &self.proposed_path.drawn_path);
        if undo {
            self.proposed_path.path = prefix;
            return;
        }
        if shift_down {
            if destination == origin {
                self.proposed_path.drawn_path = Vec::new();
                let mut only = Vec::new();
                only.push(origin);
                self.proposed_path.path = only;
                return;
            }
            let len = prefix.len();
            if len >= 2 && prefix[len - 2] == destination {
                let mut back = prefix;
                back.pop();
                self.proposed_path.drawn_path.pop();
                self.proposed_path.path = back;
                return;
            }
            let (candidate, legal) = shift_candidate(prefix, destination, &answers);
            let clen = candidate.len();
            if clen > 0 && candidate[clen - 1] == destination && legal {
                self.proposed_path.drawn_path = route_tail(&candidate);
                self.proposed_path.path = candidate;
                return;
            }
            if let Some(route) = answers.route {
                self.proposed_path.drawn_path = route_tail(&route);
                self.proposed_path.path = route;
            }
            return;
        }
        let plen = self.proposed_path.path.len();
        if aimed && plen > 0 && self.proposed_path.path[plen - 1] == destination && answers.shown_valid {
            return;
        }
        if destination != origin && !in_move_range(&self.move_range, destination) {
            return;
        }
        let automatic = match answers.route {
            Some(route) => match splice_route(&prefix, &route) {
                Some(spliced) => if answers.spliced_valid {
                    spliced
                } else {
                    route
                },
                None => route,
            },
            None => Vec::new(),
        };
        self.proposed_path.path = automatic;
    }

    /// Follow the pointer with the route while a unit is in hand.
    ///
    /// Hovering shows the cheapest route, kept on the hand-drawn prefix where
    /// it can be; Shift draws the route tile by tile, and stepping back over
    /// the last edge erases it; Backspace takes back the last drawn tile. A
    /// tile the unit cannot end on leaves the last legal route in place, and
    /// hovering an enemy aims the route at a tile it can be fired on from.
    /// Nothing moves while a drag holds the unit, which draws its own route.
    pub fn update_proposed_move_path(
        &mut self,
        drag_held_by_unit: bool,
        has_field: bool,
        shift_down: bool,
        undo: bool,
        hovered: Option<Pos>,
        answers: RouteAnswers,
    )
        ensures
            final(self)@ == spec_update_proposed(old(self)@, drag_held_by_unit, has_field, shift_down, undo, hovered, answers),
    {
        if self.phase != PlayUiPhase::UnitSelected || drag_held_by_unit {
            return;
        }
        let s = match self.selected {
            Some(s) => s,
            None => return,
        };
        if !has_field {
            return;
        }
        let shift_started = shift_down && !self.proposed_path.was_shift_down;
        self.proposed_path.was_shift_down = shift_down;
        if undo {
            self.proposed_path.drawn_path.pop();
            self.proposed_path.hovered = None;
        } else if shift_started && self.proposed_path.drawn_path.len() == 0 && self.proposed_path.path.len() > 1 {
            self.proposed_path.drawn_path = route_tail(&self.proposed_path.path);
        }
        if hovered == self.proposed_path.hovered && !shift_started && !undo {
            return;
        }
        let h = match hovered {
            Some(h) => h,
            None => {
                self.proposed_path.hovered = None;
                self.proposed_path.attack_intent = None;
                return;
            },
        };
        let approach = attack_approach(
            &self.proposed_path.path,
            approaches_of(&self.attack_targets, h),
            true,
            answers.shown_valid,
        );
        let destination = match approach {
            Some(t) => t,
            None => h,
        };
        self.route_to(s.origin, destination, approach.is_some(), shift_down, undo, answers);
        self.proposed_path.hovered = Some(h);
        self.proposed_path.attack_intent = match approach {
            Some(_) => Some(h),
            None => None,
        };
    }
}

/// Drawing one step with Shift and stepping back over it erases the step:
/// the drawing and the route are what they were before it.
pub proof fn lemma_stepping_back_erases_the_last_edge(v: SelectionView, step: Pos, a: RouteAnswers, b: RouteAnswers)
    requires
        v.phase == PlayUiPhase::UnitSelected,
        v.selected is Some,
        v.proposed.3,
        v.proposed.2 != Some(step),
        ({
            let origin = v.selected->0.origin;
            let prefix = spec_route_prefix(origin, v.proposed.1);
            &&& manhattan(prefix.last(), step) == 1
            &&& step != origin
            &&& (prefix.len() < 2 || prefix[prefix.len() - 2] != step)
            &&& prefix.last() != origin || v.proposed.1.len() == 0
            &&& approaches_for(v.attack_targets, step) is None
            &&& approaches_for(v.attack_targets, prefix.last()) is None
        }),
        a.step_valid,
    ensures
        ({
            let origin = v.selected->0.origin;
            let prefix = spec_route_prefix(origin, v.proposed.1);
            let drawn = spec_update_proposed(v, false, true, true, false, Some(step), a);
            let erased = spec_update_proposed(drawn, false, true, true, false, Some(prefix.last()), b);
            &&& drawn.proposed.0 == prefix.push(step)
            &&& drawn.proposed.1 == v.proposed.1.push(step)
            &&& erased.proposed.0 == prefix
            &&& erased.proposed.1 == v.proposed.1
        }),
{
    let origin = v.selected->0.origin;
    let prefix = spec_route_prefix(origin, v.proposed.1);
    let drawn = spec_update_proposed(v, false, true, true, false, Some(step), a);
    assert(spec_tail(prefix.push(step)) =~= v.proposed.1.push(step));
    assert(spec_route_prefix(origin, v.proposed.1.push(step)) =~= prefix.push(step));
    assert(prefix.push(step).drop_last() =~= prefix);
    assert(v.proposed.1.push(step).drop_last() =~= v.proposed.1);
    if prefix.last() == origin {
        assert(prefix =~= seq![origin]);
    }
}

/// Backspace takes back the last tile drawn by hand, and the route shown
/// becomes exactly what is left of the drawing.
pub proof fn lemma_backspace_takes_back_one_tile(v: SelectionView, shift_down: bool, hovered: Pos, a: RouteAnswers)
    requires
        v.phase == PlayUiPhase::UnitSelected,
        v.selected is Some,
        v.proposed.1.len() > 0,
    ensures
        ({
            let after = spec_update_proposed(v, false, true, shift_down, true, Some(hovered), a);
            &&& after.proposed.1 == v.proposed.1.drop_last()
            &&& after.proposed.0 == spec_route_prefix(v.selected->0.origin, v.proposed.1.drop_last())
        }),
{
}

/// Hovering, without Shift, a tile the unit cannot end on leaves the route
/// that was shown in place.
pub proof fn lemma_out_of_reach_keeps_the_route(v: SelectionView, hovered: Pos, a: RouteAnswers)
    requires
        v.phase == PlayUiPhase::UnitSelected,
        v.selected is Some,
        hovered != v.selected->0.origin,
        !spec_in_move_range(v.move_range, hovered),
        approaches_for(v.attack_targets, hovered) is None,
        !v.proposed.3,
    ensures
        spec_update_proposed(v, false, true, false, false, Some(hovered), a).proposed.0 == v.proposed.0,
{
}

} // verus!
