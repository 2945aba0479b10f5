//! The lock that holds an archive (or a live match) still while a move is
//! being watched, and the board review that holds a live match at the edge.
use vstd::prelude::*;

verus! {

/// Held while a unit's move is animated: what waits for the animation to end
/// is kept here, and only the unit being watched can let it go.
#[derive(Debug)]
pub struct ReplayAdvanceLock<D> {
    pub active_entity: Option<u64>,
    pub deferred: Option<D>,
}

impl<D> ReplayAdvanceLock<D> {
    pub fn new() -> (lock: ReplayAdvanceLock<D>)
        ensures
            lock.active_entity is None,
            lock.deferred is None,
    {
        ReplayAdvanceLock { active_entity: None, deferred: None }
    }

    pub fn is_active(&self) -> (active: bool)
        ensures
            active == self.active_entity is Some,
    {
        self.active_entity.is_some()
    }

    pub fn active_entity(&self) -> (entity: Option<u64>)
        ensures
            entity == self.active_entity,
    {
        self.active_entity
    }

    /// Hold the archive while `entity` moves, with what follows the move.
    pub fn activate(&mut self, entity: u64, deferred: D)
        ensures
            final(self).active_entity == Some(entity),
            final(self).deferred == Some(deferred),
    {
        self.active_entity = Some(entity);
        self.deferred = Some(deferred);
    }

    /// The animation of `entity` ended. When it is the one being watched, the
    /// lock opens and hands back what waited for it; any other entity's
    /// animation changes nothing.
    pub fn release_for(&mut self, entity: u64) -> (followup: Option<Option<D>>)
        ensures
            old(self).active_entity == Some(entity) ==> {
                &&& final(self).active_entity is None
                &&& final(self).deferred is None
                &&& followup == Some(old(self).deferred)
            },
            old(self).active_entity != Some(entity) ==> {
                &&& final(self).active_entity == old(self).active_entity
                &&& final(self).deferred == old(self).deferred
                &&& followup is None
            },
    {
        if self.active_entity != Some(entity) {
            return None;
        }
        self.active_entity = None;
        Some(self.deferred.take())
    }
}

/// Whether the board is showing a moment the match has moved on from, and
/// the newest position the host answered with while the viewer reads.
#[derive(Debug)]
pub struct BoardReview<T> {
    pub active: bool,
    /// Only the newest answer is kept: every answer is a whole board.
    pub pending: Option<T>,
}

/// Entering review: the board is being read.
pub open spec fn spec_enter<T>(active: bool, pending: Option<T>) -> (bool, Option<T>) {
    (true, pending)
}

/// An answer arrives: it replaces any answer not yet shown.
pub open spec fn spec_receive<T>(active: bool, pending: Option<T>, position: T) -> (bool, Option<T>) {
    (active, Some(position))
}

/// Leaving review drops the answer waiting to be shown.
pub open spec fn spec_exit<T>(active: bool, pending: Option<T>) -> (bool, Option<T>) {
    if active {
        (false, None)
    } else {
        (active, pending)
    }
}

/// The answer shown now, and the review after: nothing while a move is
/// being watched.
pub open spec fn spec_take_ready<T>(active: bool, pending: Option<T>, lock_active: bool) -> (bool, Option<T>, Option<T>) {
    if lock_active {
        (active, pending, None)
    } else {
        (active, None, pending)
    }
}

impl<T> BoardReview<T> {
    pub fn new() -> (review: BoardReview<T>)
        ensures
            !review.active,
            review.pending is None,
    {
        BoardReview { active: false, pending: None }
    }

    pub fn is_active(&self) -> (active: bool)
        ensures
            active == self.active,
    {
        self.active
    }

    /// The viewer asked to read an earlier moment. Answers whether the board
    /// has just been taken out of the viewer's hands.
    pub fn enter(&mut self) -> (started: bool)
        ensures
            (final(self).active, final(self).pending) == spec_enter(old(self).active, old(self).pending),
            started == !old(self).active,
    {
        if self.active {
            return false;
        }
        self.active = true;
        true
    }

    /// The host answered with a position to show; it replaces any answer not
    /// yet shown.
    pub fn receive(&mut self, position: T)
        ensures
            (final(self).active, final(self).pending) == spec_receive(old(self).active, old(self).pending, position),
    {
        self.pending = Some(position);
    }

    /// The viewer came back to the match as it stands. The reviewed position
    /// waiting to be shown is dropped, and so is every live transition held
    /// at the edge while the viewer read: each of them is older than the board
    /// the page hands over on the way back in. Answers whether the held live
    /// transitions must be dropped.
    pub fn exit(&mut self) -> (drop_held_transitions: bool)
        ensures
            (final(self).active, final(self).pending) == spec_exit(old(self).active, old(self).pending),
            drop_held_transitions == old(self).active,
    {
        if !self.active {
            return false;
        }
        self.active = false;
        self.pending = None;
        true
    }

    /// The reviewed position to show now: none while a move is still being
    /// watched, since an answer shown mid-move would put the board somewhere
    /// else half-way through it.
    pub fn take_ready(&mut self, lock_active: bool) -> (shown: Option<T>)
        ensures
            (final(self).active, final(self).pending, shown) == spec_take_ready(old(self).active, old(self).pending, lock_active),
    {
        if lock_active {
            return None;
        }
        self.pending.take()
    }
}

/// Reading the board and coming back leaves nothing of the review behind,
/// whatever answered in between: the board takes orders again and no
/// reviewed position is waiting.
pub proof fn lemma_review_round_trip_leaves_nothing_behind<T>(active: bool, pending: Option<T>, answer: T)
    ensures
        ({
            let entered = spec_enter(active, pending);
            let answered = spec_receive(entered.0, entered.1, answer);
            spec_exit(answered.0, answered.1) == (false, None::<T>)
        }),
{
}

/// A position that arrives while a move is being watched waits for it, and
/// is then shown exactly once.
pub proof fn lemma_a_position_waits_for_the_move_then_shows_once<T>(active: bool, pending: Option<T>, position: T)
    ensures
        ({
            let answered = spec_receive(active, pending, position);
            let held = spec_take_ready(answered.0, answered.1, true);
            let shown = spec_take_ready(held.0, held.1, false);
            let again = spec_take_ready(shown.0, shown.1, false);
            &&& held.2 is None
            &&& shown.2 == Some(position)
            &&& again.2 is None
        }),
{
}

} // verus!
