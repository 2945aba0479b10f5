//! Moving around inside a loaded archive.
//!
//! The keyboard walks an archive one action at a time; a caller can also ask
//! for a boundary, the turn either side of the one being read, or an end of
//! the archive. The turns are read off the outline of boundaries that was
//! produced when the archive was loaded.
use vstd::prelude::*;

verus! {

/// One position an archive can be read at: the day, and the seat whose turn
/// it is (absent once the game is over).
#[derive(Clone, Copy, Debug, PartialEq, Eq, Structural)]
pub struct ReplayBoundary {
    pub day: u32,
    pub active_player: Option<u32>,
}

/// The turn a boundary falls in.
pub type Turn = (u32, Option<u32>);

pub open spec fn turn_of(boundary: ReplayBoundary) -> Turn {
    (boundary.day, boundary.active_player)
}

/// Every boundary the loaded archive can be read at, opening included, so
/// `0` is the position before the first action.
#[derive(Debug)]
pub struct ReplayOutline(pub Vec<ReplayBoundary>);

pub open spec fn spec_turn_at(s: Seq<ReplayBoundary>, index: int) -> Option<Turn> {
    if 0 <= index < s.len() {
        Some(turn_of(s[index]))
    } else {
        None
    }
}

/// How far back from `index` the boundaries keep to `turn`.
pub open spec fn run_start(s: Seq<ReplayBoundary>, turn: Turn, index: int) -> int
    decreases index,
{
    if index > 0 && spec_turn_at(s, index - 1) == Some(turn) {
        run_start(s, turn, index - 1)
    } else {
        index
    }
}

/// Where the turn holding boundary `index` began; `index` itself past the end.
pub open spec fn spec_turn_start(s: Seq<ReplayBoundary>, index: int) -> int {
    match spec_turn_at(s, index) {
        Some(turn) => run_start(s, turn, index),
        None => index,
    }
}

/// The first boundary after `from` (searching up to `s.len()`) whose turn is
/// not `turn`.
pub open spec fn first_other_turn(s: Seq<ReplayBoundary>, turn: Turn, from: int) -> Option<int>
    decreases s.len() - from,
{
    if from >= s.len() {
        None
    } else if spec_turn_at(s, from) != Some(turn) {
        Some(from)
    } else {
        first_other_turn(s, turn, from + 1)
    }
}

/// Where the turn after boundary `index`'s turn begins.
pub open spec fn spec_next_turn_start(s: Seq<ReplayBoundary>, index: int) -> Option<int> {
    match spec_turn_at(s, index) {
        Some(turn) => first_other_turn(s, turn, index + 1),
        None => None,
    }
}

/// Where the turn before boundary `index`'s turn began; a viewer part-way
/// through a turn is taken to the start of that turn first.
pub open spec fn spec_previous_turn_start(s: Seq<ReplayBoundary>, index: int) -> Option<int> {
    let start = spec_turn_start(s, index);
    if start < index {
        Some(start)
    } else if start > 0 {
        Some(spec_turn_start(s, start - 1))
    } else {
        None
    }
}

impl ReplayOutline {
    pub open spec fn boundaries(&self) -> Seq<ReplayBoundary> {
        self.0@
    }

    /// The turn a boundary falls in. Two boundaries in the same turn answer
    /// with the same value.
    pub fn turn_at(&self, index: usize) -> (turn: Option<Turn>)
        ensures
            turn == spec_turn_at(self.boundaries(), index as int),
    {
        if index < self.0.len() {
            let boundary = self.0[index];
            Some((boundary.day, boundary.active_player))
        } else {
            None
        }
    }

    /// Where the turn holding this boundary began.
    pub fn turn_start(&self, index: usize) -> (start: usize)
        ensures
            start as int == spec_turn_start(self.boundaries(), index as int),
            start <= index,
    {
        let turn = match self.turn_at(index) {
            Some(turn) => turn,
            None => return index,
        };
        let mut start = index;
        while start > 0 && self.turn_at(start - 1) == Some(turn)
            invariant
                start <= index < self.boundaries().len(),
                spec_turn_at(self.boundaries(), index as int) == Some(turn),
                run_start(self.boundaries(), turn, start as int) == run_start(
                    self.boundaries(),
                    turn,
                    index as int,
                ),
            decreases start,
        {
            start = start - 1;
        }
        proof {
            assert(run_start(self.boundaries(), turn, start as int) == start);
        }
        start
    }

    /// Where the turn after this boundary's turn begins.
    pub fn next_turn_start(&self, index: usize) -> (next: Option<usize>)
        ensures
            next.is_some() == spec_next_turn_start(self.boundaries(), index as int).is_some(),
            next matches Some(n) ==> spec_next_turn_start(self.boundaries(), index as int) == Some(
                n as int,
            ),
    {
        let turn = match self.turn_at(index) {
            Some(turn) => turn,
            None => return None,
        };
        let len = self.0.len();
        let mut candidate = index + 1;
        while candidate < len
            invariant
                len == self.boundaries().len(),
                index < len,
                index + 1 <= candidate <= len,
                spec_turn_at(self.boundaries(), index as int) == Some(turn),
                first_other_turn(self.boundaries(), turn, candidate as int) == first_other_turn(
                    self.boundaries(),
                    turn,
                    index + 1,
                ),
            decreases len - candidate,
        {
            if self.turn_at(candidate) != Some(turn) {
                return Some(candidate);
            }
            candidate = candidate + 1;
        }
        None
    }

    /// Where the turn before this boundary's turn began.
    ///
    /// A viewer part-way through a turn is taken to the start of the turn they
    /// are reading first, which is the step back they meant.
    pub fn previous_turn_start(&self, index: usize) -> (previous: Option<usize>)
        ensures
            previous.is_some() == spec_previous_turn_start(self.boundaries(), index as int).is_some(),
            previous matches Some(p) ==> spec_previous_turn_start(self.boundaries(), index as int)
                == Some(p as int),
    {
        let start = self.turn_start(index);
        if start < index {
            return Some(start);
        }
        if start > 0 {
            Some(self.turn_start(start - 1))
        } else {
            None
        }
    }
}

} // verus!

verus! {

/// A position a viewer asked for.
#[derive(Clone, Copy, Debug, PartialEq, Eq, Structural)]
pub enum ReplayTarget {
    /// This many actions from where the viewer is standing.
    Action(i32),
    /// This many turns from the one the viewer is reading.
    Turn(i32),
    /// One named boundary.
    Boundary(u32),
    Start,
    End,
}

/// One whole-turn step from `index`: forward to the next turn's start (the
/// end of the archive when there is none), or back to the previous turn's
/// start (the opening when there is none).
pub open spec fn turn_step(s: Seq<ReplayBoundary>, total: int, index: int, forward: bool) -> int {
    if forward {
        match spec_next_turn_start(s, index) {
            Some(n) => n,
            None => total,
        }
    } else {
        match spec_previous_turn_start(s, index) {
            Some(p) => p,
            None => 0,
        }
    }
}

/// `steps` whole-turn steps from `index`, stopping early at a step that goes
/// nowhere (an end of the archive).
pub open spec fn turn_steps(s: Seq<ReplayBoundary>, total: int, index: int, steps: nat, forward: bool) -> int
    decreases steps,
{
    if steps == 0 {
        index
    } else {
        let next = turn_step(s, total, index, forward);
        if next == index {
            index
        } else {
            turn_steps(s, total, next, (steps - 1) as nat, forward)
        }
    }
}

pub open spec fn abs_i32(delta: i32) -> nat {
    if delta < 0 {
        (-delta) as nat
    } else {
        delta as nat
    }
}

/// `current + delta`, held inside `0..=usize::MAX`.
pub open spec fn saturating_offset(current: int, delta: int) -> int {
    if current + delta < 0 {
        0
    } else if current + delta > usize::MAX {
        usize::MAX as int
    } else {
        current + delta
    }
}

/// Where a request lands, before it is held inside the archive.
pub open spec fn unclamped_target(target: ReplayTarget, current: int, total: int, s: Seq<ReplayBoundary>) -> int {
    match target {
        ReplayTarget::Start => 0,
        ReplayTarget::End => total,
        ReplayTarget::Boundary(index) => index as int,
        ReplayTarget::Action(delta) => saturating_offset(current, delta as int),
        ReplayTarget::Turn(delta) => turn_steps(s, total, current, abs_i32(delta), delta > 0),
    }
}

/// Where a request lands: never past the end of the archive.
pub open spec fn spec_resolve_target(target: ReplayTarget, current: int, total: int, s: Seq<ReplayBoundary>) -> int {
    let resolved = unclamped_target(target, current, total, s);
    if resolved < total {
        resolved
    } else {
        total
    }
}

fn offset_by_actions(current: usize, delta: i32) -> (index: usize)
    ensures
        index as int == saturating_offset(current as int, delta as int),
{
    if delta >= 0 {
        let forward = delta as u32 as usize;
        if current > usize::MAX - forward {
            usize::MAX
        } else {
            current + forward
        }
    } else {
        let back = (-(delta as i64)) as u32 as usize;
        if back > current {
            0
        } else {
            current - back
        }
    }
}

/// Resolve a navigation request against the viewer's position `current` in an
/// archive of `total` actions.
pub fn resolve_target(target: ReplayTarget, current: usize, total: usize, outline: &ReplayOutline) -> (resolved: Option<usize>)
    ensures
        resolved == Some(spec_resolve_target(target, current as int, total as int, outline.boundaries()) as usize),
        resolved matches Some(r) ==> r <= total,
{
    let resolved: usize = match target {
        ReplayTarget::Start => 0,
        ReplayTarget::End => total,
        ReplayTarget::Boundary(index) => index as usize,
        ReplayTarget::Action(delta) => offset_by_actions(current, delta),
        ReplayTarget::Turn(delta) => {
            let forward = delta > 0;
            let steps: u32 = if delta < 0 { (-(delta as i64)) as u32 } else { delta as u32 };
            assert(steps as nat == abs_i32(delta));
            let mut index = current;
            let mut left: u32 = steps;
            while left > 0
                invariant
                    turn_steps(outline.boundaries(), total as int, index as int, left as nat, forward)
                        == turn_steps(outline.boundaries(), total as int, current as int, abs_i32(delta), forward),
                ensures
                    index as int == turn_steps(outline.boundaries(), total as int, current as int, abs_i32(delta), forward),
                decreases left,
            {
                let next = if forward {
                    match outline.next_turn_start(index) {
                        Some(n) => n,
                        None => total,
                    }
                } else {
                    match outline.previous_turn_start(index) {
                        Some(p) => p,
                        None => 0,
                    }
                };
                // An end of the archive is as far as the steps go.
                assert(next as int == turn_step(outline.boundaries(), total as int, index as int, forward));
                if next == index {
                    break;
                }
                index = next;
                left = left - 1;
            }
            index
        },
    };
    proof {
        assert(resolved as int == unclamped_target(target, current as int, total as int, outline.boundaries()));
    }
    Some(if resolved < total { resolved } else { total })
}

} // verus!

verus! {

/// Where the viewer is standing in an archive, and what is beside them.
#[derive(Clone, Copy, Debug, PartialEq, Eq, Structural)]
pub struct ReplayPositionChanged {
    /// How many actions have been played, so `0` opens the archive.
    pub index: u32,
    pub total: u32,
    pub day: u32,
    /// The seat holding the turn, absent once the game is over.
    pub active_player_id: Option<u32>,
    /// Where a step back by a whole turn lands, absent in the first turn.
    pub previous_turn_index: Option<u32>,
    /// Where a step on by a whole turn lands, absent in the last turn.
    pub next_turn_index: Option<u32>,
}

pub open spec fn option_index_as_u32(index: Option<int>) -> Option<u32> {
    match index {
        Some(i) => Some(i as u32),
        None => None,
    }
}

pub open spec fn spec_replay_position(
    s: Seq<ReplayBoundary>,
    index: int,
    total: int,
    state_day: u32,
) -> ReplayPositionChanged {
    ReplayPositionChanged {
        index: index as u32,
        total: total as u32,
        day: match spec_turn_at(s, index) {
            Some(turn) => turn.0,
            None => state_day,
        },
        active_player_id: match spec_turn_at(s, index) {
            Some(turn) => turn.1,
            None => None,
        },
        previous_turn_index: option_index_as_u32(spec_previous_turn_start(s, index)),
        next_turn_index: option_index_as_u32(spec_next_turn_start(s, index)),
    }
}

/// What the page is told about where the viewer stands: the day and seat come
/// from the outline, and the day falls back to `state_day` past its end.
pub fn replay_position(outline: &ReplayOutline, index: usize, total: usize, state_day: u32) -> (position: ReplayPositionChanged)
    ensures
        position == spec_replay_position(outline.boundaries(), index as int, total as int, state_day),
{
    let turn = outline.turn_at(index);
    let day = match turn {
        Some(t) => t.0,
        None => state_day,
    };
    let active_player_id = match turn {
        Some(t) => t.1,
        None => None,
    };
    let previous_turn_index = match outline.previous_turn_start(index) {
        Some(p) => Some(p as u32),
        None => None,
    };
    let next_turn_index = match outline.next_turn_start(index) {
        Some(n) => Some(n as u32),
        None => None,
    };
    ReplayPositionChanged {
        index: index as u32,
        total: total as u32,
        day,
        active_player_id,
        previous_turn_index,
        next_turn_index,
    }
}

/// What one navigation request does to the archive.
#[derive(Clone, Copy, Debug, PartialEq, Eq, Structural)]
pub enum NavigationStep {
    /// Nothing: the request was blocked or lands where the viewer stands.
    Stay,
    /// Play the next action, animated, the way the archive is presented.
    Advance,
    /// Jump to this boundary and show where it arrived.
    Seek(u32),
}

pub open spec fn spec_navigation_step(blocked: bool, current: int, target: int) -> NavigationStep {
    if blocked || target == current {
        NavigationStep::Stay
    } else if target == current + 1 {
        NavigationStep::Advance
    } else {
        NavigationStep::Seek(target as u32)
    }
}

/// Decide what a resolved request does: one step forward is presented as a
/// step, anything else is a jump.
pub fn navigation_step(blocked: bool, current: usize, target: usize) -> (step: NavigationStep)
    ensures
        step == spec_navigation_step(blocked, current as int, target as int),
{
    if blocked || target == current {
        NavigationStep::Stay
    } else if current < usize::MAX && target == current + 1 {
        NavigationStep::Advance
    } else {
        NavigationStep::Seek(target as u32)
    }
}

/// The start of the turn holding a boundary is the first boundary of an
/// unbroken run of that turn ending at the boundary.
pub proof fn lemma_turn_start_begins_the_turn(s: Seq<ReplayBoundary>, index: int)
    requires
        0 <= index < s.len(),
    ensures
        0 <= spec_turn_start(s, index) <= index,
        forall|k: int|
            spec_turn_start(s, index) <= k <= index ==> #[trigger] turn_of(s[k]) == turn_of(s[index]),
        spec_turn_start(s, index) == 0 || turn_of(s[spec_turn_start(s, index) - 1]) != turn_of(s[index]),
{
    lemma_run_start(s, turn_of(s[index]), index);
}

proof fn lemma_run_start(s: Seq<ReplayBoundary>, turn: Turn, index: int)
    requires
        0 <= index < s.len(),
        turn_of(s[index]) == turn,
    ensures
        0 <= run_start(s, turn, index) <= index,
        forall|k: int| run_start(s, turn, index) <= k <= index ==> #[trigger] turn_of(s[k]) == turn,
        run_start(s, turn, index) == 0 || turn_of(s[run_start(s, turn, index) - 1]) != turn,
    decreases index,
{
    if index > 0 && spec_turn_at(s, index - 1) == Some(turn) {
        lemma_run_start(s, turn, index - 1);
    }
}

/// A step forward by a turn lands on the first boundary after the current one
/// that belongs to another turn, and every boundary passed over belongs to the
/// current turn.
pub proof fn lemma_next_turn_start_is_the_first_other_turn(s: Seq<ReplayBoundary>, index: int)
    requires
        0 <= index < s.len(),
    ensures
        spec_next_turn_start(s, index) matches Some(n) ==> {
            &&& index < n < s.len()
            &&& turn_of(s[n]) != turn_of(s[index])
            &&& forall|k: int| index < k < n ==> #[trigger] turn_of(s[k]) == turn_of(s[index])
        },
        spec_next_turn_start(s, index) is None ==> forall|k: int|
            index < k < s.len() ==> #[trigger] turn_of(s[k]) == turn_of(s[index]),
{
    lemma_first_other_turn(s, turn_of(s[index]), index + 1);
}

proof fn lemma_first_other_turn(s: Seq<ReplayBoundary>, turn: Turn, from: int)
    requires
        0 <= from,
    ensures
        first_other_turn(s, turn, from) matches Some(n) ==> {
            &&& from <= n < s.len()
            &&& turn_of(s[n]) != turn
            &&& forall|k: int| from <= k < n ==> #[trigger] turn_of(s[k]) == turn
        },
        first_other_turn(s, turn, from) is None ==> forall|k: int|
            from <= k < s.len() ==> #[trigger] turn_of(s[k]) == turn,
    decreases s.len() - from,
{
    if from < s.len() && spec_turn_at(s, from) == Some(turn) {
        lemma_first_other_turn(s, turn, from + 1);
    }
}

/// A step back by a turn always lands strictly before where the viewer
/// stands, and from the middle of a turn it lands on that turn's start.
pub proof fn lemma_previous_turn_start_goes_back(s: Seq<ReplayBoundary>, index: int)
    requires
        0 <= index < s.len(),
    ensures
        spec_previous_turn_start(s, index) matches Some(p) ==> 0 <= p < index,
        spec_turn_start(s, index) < index ==> spec_previous_turn_start(s, index) == Some(
            spec_turn_start(s, index),
        ),
        spec_previous_turn_start(s, index) is None <==> index == 0,
{
    lemma_turn_start_begins_the_turn(s, index);
    let start = spec_turn_start(s, index);
    if start == index && start > 0 {
        lemma_turn_start_begins_the_turn(s, start - 1);
    }
    if index == 0 {
        assert(start == 0);
    }
}

/// A request never leaves the archive: whatever it asks for lands on a
/// boundary between the opening and the end.
pub proof fn lemma_target_never_leaves_the_archive(
    target: ReplayTarget,
    current: int,
    total: int,
    s: Seq<ReplayBoundary>,
)
    requires
        0 <= current,
        0 <= total,
    ensures
        spec_resolve_target(target, current, total, s) <= total,
{
}

} // verus!
