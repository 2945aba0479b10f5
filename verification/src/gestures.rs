//! Turning raw pointer events into gestures, for mouse and touch alike.
//!
//! Both pointers commit on release and both must travel further than a small
//! threshold before a press becomes a drag, so neither can commit something
//! the player was only reaching for. Only one pointer is tracked at a time: a
//! second contact means the player is pinching, and no gesture survives that.
//!
//! Where a pointer is on the screen, and whether it has travelled past the
//! threshold, is measured by the caller; this module decides what the events
//! mean.
use vstd::prelude::*;
use std::collections::BTreeSet;
use crate::board::Pos;

verus! {

/// Which pointer a gesture belongs to.
#[derive(Clone, Copy, Debug, PartialEq, Eq, Structural)]
pub enum PointerId {
    Mouse,
    Touch(u64),
}

/// What the pointer did, once it is known which it was.
#[derive(Clone, Copy, Debug, PartialEq, Eq, Structural)]
pub enum PointerGestureKind {
    /// A press that ended where it began.
    Tap,
    /// A press that has begun to travel. Its tile is the tile it began on.
    DragStart,
    /// A drag report after it starts.
    DragMove,
    /// A press released after crossing the drag threshold.
    DragEnd,
    /// The gesture was abandoned: a second contact arrived, or the pointer left.
    DragCancel,
}

/// One gesture report: what happened, the tile it is about (when the pointer
/// is over the board), and whether the pointer is a finger.
#[derive(Clone, Copy, Debug, PartialEq, Eq, Structural)]
pub struct GestureReport {
    pub kind: PointerGestureKind,
    pub tile: Option<Pos>,
    pub coarse: bool,
}

/// The press being tracked.
#[derive(Clone, Copy, Debug, PartialEq, Eq, Structural)]
pub struct ActivePointer {
    pub id: PointerId,
    pub start_tile: Option<Pos>,
    pub dragging: bool,
    /// A gesture that a second contact interrupted. It is tracked to its
    /// release so the release cannot be read as a tap.
    pub abandoned: bool,
    pub coarse: bool,
}

/// The press being tracked, if any.
#[derive(Clone, Copy, Debug, PartialEq, Eq, Structural)]
pub struct PointerState {
    pub primary: Option<ActivePointer>,
}

impl PointerState {
    pub fn new() -> (state: PointerState)
        ensures
            state.primary is None,
    {
        PointerState { primary: None }
    }
}

pub open spec fn report(kind: PointerGestureKind, tile: Option<Pos>, coarse: bool) -> GestureReport {
    GestureReport { kind, tile, coarse }
}

/// A pointer went down on `tile`.
///
/// With a press already tracked, this is a second contact: the first gesture
/// is abandoned (once), and a drag in flight is cancelled.
pub open spec fn spec_press(
    state: PointerState,
    id: PointerId,
    tile: Option<Pos>,
    coarse: bool,
) -> (PointerState, Option<GestureReport>) {
    match state.primary {
        Some(active) => {
            if active.abandoned {
                (state, None)
            } else {
                let next = PointerState { primary: Some(ActivePointer { abandoned: true, ..active }) };
                if active.dragging {
                    (next, Some(report(PointerGestureKind::DragCancel, None, active.coarse)))
                } else {
                    (next, None)
                }
            }
        },
        None => (
            PointerState {
                primary: Some(
                    ActivePointer { id, start_tile: tile, dragging: false, abandoned: false, coarse },
                ),
            },
            None,
        ),
    }
}

/// The pointer `id` moved to `tile`; `beyond_threshold` says whether it is now
/// further from where it went down than a tap may travel.
pub open spec fn spec_travel(
    state: PointerState,
    id: PointerId,
    beyond_threshold: bool,
    tile: Option<Pos>,
) -> (PointerState, Seq<GestureReport>) {
    match state.primary {
        None => (state, Seq::empty()),
        Some(active) => {
            if active.id != id || active.abandoned {
                (state, Seq::empty())
            } else if active.dragging {
                (state, seq![report(PointerGestureKind::DragMove, tile, active.coarse)])
            } else if !beyond_threshold {
                (state, Seq::empty())
            } else {
                (
                    PointerState { primary: Some(ActivePointer { dragging: true, ..active }) },
                    seq![
                        report(PointerGestureKind::DragStart, active.start_tile, active.coarse),
                        report(PointerGestureKind::DragMove, tile, active.coarse),
                    ],
                )
            }
        },
    }
}

/// The pointer `id` came up over `tile` (or was cancelled by the platform).
pub open spec fn spec_release(
    state: PointerState,
    id: PointerId,
    beyond_threshold: bool,
    tile: Option<Pos>,
    cancelled: bool,
) -> (PointerState, Option<GestureReport>) {
    match state.primary {
        None => (state, None),
        Some(active) => {
            if active.id != id {
                (state, None)
            } else {
                let idle = PointerState { primary: None };
                if active.abandoned || cancelled {
                    if active.dragging {
                        (idle, Some(report(PointerGestureKind::DragCancel, None, active.coarse)))
                    } else {
                        (idle, None)
                    }
                } else if active.dragging || beyond_threshold {
                    (idle, Some(report(PointerGestureKind::DragEnd, tile, active.coarse)))
                } else {
                    (idle, Some(report(PointerGestureKind::Tap, tile, active.coarse)))
                }
            }
        },
    }
}

impl PointerState {
    /// A pointer went down over `tile`.
    pub fn press(&mut self, id: PointerId, tile: Option<Pos>, coarse: bool) -> (cancel: Option<GestureReport>)
        ensures
            (*final(self), cancel) == spec_press(*old(self), id, tile, coarse),
    {
        match self.primary {
            Some(active) => {
                if active.abandoned {
                    return None;
                }
                self.primary = Some(ActivePointer { abandoned: true, ..active });
                if active.dragging {
                    Some(GestureReport { kind: PointerGestureKind::DragCancel, tile: None, coarse: active.coarse })
                } else {
                    None
                }
            },
            None => {
                self.primary = Some(
                    ActivePointer { id, start_tile: tile, dragging: false, abandoned: false, coarse },
                );
                None
            },
        }
    }

    /// The pointer `id` moved over `tile`.
    pub fn travel(&mut self, id: PointerId, beyond_threshold: bool, tile: Option<Pos>) -> (reports: Vec<GestureReport>)
        ensures
            (*final(self), reports@) == spec_travel(*old(self), id, beyond_threshold, tile),
    {
        let active = match self.primary {
            Some(active) => active,
            None => return Vec::new(),
        };
        if active.id != id || active.abandoned {
            return Vec::new();
        }
        let mut reports: Vec<GestureReport> = Vec::new();
        if !active.dragging {
            if !beyond_threshold {
                return reports;
            }
            self.primary = Some(ActivePointer { dragging: true, ..active });
            reports.push(
                GestureReport { kind: PointerGestureKind::DragStart, tile: active.start_tile, coarse: active.coarse },
            );
        }
        reports.push(GestureReport { kind: PointerGestureKind::DragMove, tile, coarse: active.coarse });
        reports
    }

    /// The pointer `id` came up over `tile`, or the platform cancelled it.
    pub fn release(
        &mut self,
        id: PointerId,
        beyond_threshold: bool,
        tile: Option<Pos>,
        cancelled: bool,
    ) -> (gesture: Option<GestureReport>)
        ensures
            (*final(self), gesture) == spec_release(*old(self), id, beyond_threshold, tile, cancelled),
    {
        let active = match self.primary {
            Some(active) => active,
            None => return None,
        };
        if active.id != id {
            return None;
        }
        self.primary = None;
        if active.abandoned || cancelled {
            if active.dragging {
                return Some(GestureReport { kind: PointerGestureKind::DragCancel, tile: None, coarse: active.coarse });
            }
            return None;
        }
        let kind = if active.dragging || beyond_threshold {
            PointerGestureKind::DragEnd
        } else {
            PointerGestureKind::Tap
        };
        Some(GestureReport { kind, tile, coarse: active.coarse })
    }
}

/// A second contact never replaces the press being tracked: the pointer that
/// went down first is the one the gesture belongs to until it is released.
pub proof fn lemma_second_contact_keeps_the_first_pointer(
    state: PointerState,
    id: PointerId,
    tile: Option<Pos>,
    coarse: bool,
)
    requires
        state.primary is Some,
    ensures
        spec_press(state, id, tile, coarse).0.primary is Some,
        spec_press(state, id, tile, coarse).0.primary->0.id == state.primary->0.id,
        spec_press(state, id, tile, coarse).0.primary->0.abandoned,
{
}

/// A gesture that a second contact interrupted is never completed: its
/// release is never a tap and never the end of a drag.
pub proof fn lemma_interrupted_gesture_is_never_completed(
    state: PointerState,
    second: PointerId,
    second_tile: Option<Pos>,
    second_coarse: bool,
    beyond_threshold: bool,
    release_tile: Option<Pos>,
    cancelled: bool,
)
    requires
        state.primary is Some,
    ensures
        ({
            let pressed = spec_press(state, second, second_tile, second_coarse).0;
            let released = spec_release(pressed, state.primary->0.id, beyond_threshold, release_tile, cancelled);
            &&& released.0.primary is None
            &&& released.1 matches Some(r) ==> r.kind == PointerGestureKind::DragCancel
        }),
{
}

/// Every drag is announced before it moves: the report that first turns a
/// press into a drag is a drag start on the tile the press began on, followed
/// by the first move.
pub proof fn lemma_drag_starts_before_it_moves(
    state: PointerState,
    id: PointerId,
    beyond_threshold: bool,
    tile: Option<Pos>,
)
    requires
        state.primary matches Some(active) && !active.dragging,
    ensures
        ({
            let (after, reports) = spec_travel(state, id, beyond_threshold, tile);
            &&& reports.len() == 0 || reports.len() == 2
            &&& reports.len() == 2 ==> reports[0].kind == PointerGestureKind::DragStart && reports[0].tile
                == state.primary->0.start_tile && reports[1].kind == PointerGestureKind::DragMove
            &&& reports.len() == 0 ==> after == state
        }),
{
}

/// A press released where it went down, with nothing in between, is a tap on
/// the tile under the release.
pub proof fn lemma_press_and_release_in_place_is_a_tap(
    id: PointerId,
    start: Option<Pos>,
    end: Option<Pos>,
    coarse: bool,
)
    ensures
        ({
            let pressed = spec_press(PointerState { primary: None }, id, start, coarse).0;
            spec_release(pressed, id, false, end, false) == (
                PointerState { primary: None },
                Some(report(PointerGestureKind::Tap, end, coarse)),
            )
        }),
{
}

} // verus!

verus! {

/// Where a pointer is, as the caller measured it: the tile under it (when it
/// is over the board) and whether it lies beyond the drag threshold from
/// where its press began.
#[derive(Clone, Copy, Debug, PartialEq, Eq, Structural)]
pub struct PointerPlace {
    pub tile: Option<Pos>,
    pub beyond_threshold: bool,
}

/// One raw pointer event. A mouse press or release carries the cursor's
/// place when the window knows it; `last` is the place the tracked pointer
/// was last seen at.
#[derive(Clone, Copy, Debug, PartialEq, Eq, Structural)]
pub enum PointerEvent {
    MousePressed { at: Option<PointerPlace> },
    MouseReleased { at: Option<PointerPlace>, last: PointerPlace },
    CursorMoved { at: PointerPlace },
    TouchStarted { id: u64, at: PointerPlace },
    TouchMoved { id: u64, at: PointerPlace },
    TouchEnded { id: u64, at: PointerPlace },
    TouchCanceled { id: u64 },
}

pub open spec fn one_report(report: Option<GestureReport>) -> Seq<GestureReport> {
    match report {
        Some(r) => seq![r],
        None => Seq::empty(),
    }
}

/// The pointer, whether the pointer is known to be a finger, and the
/// reports, after one raw event. A mouse press the window cannot place is
/// skipped; a mouse release it cannot place is read where the pointer was
/// last seen; a touch marks the pointer as a finger; a cancelled touch is
/// released as cancelled.
pub open spec fn spec_dispatch(state: PointerState, coarse: bool, event: PointerEvent) -> (PointerState, bool, Seq<GestureReport>) {
    match event {
        PointerEvent::MousePressed { at } => match at {
            None => (state, coarse, Seq::empty()),
            Some(p) => {
                let (next, cancel) = spec_press(state, PointerId::Mouse, p.tile, false);
                (next, coarse, one_report(cancel))
            },
        },
        PointerEvent::MouseReleased { at, last } => {
            let p = match at {
                Some(p) => p,
                None => last,
            };
            let (next, gesture) = spec_release(state, PointerId::Mouse, p.beyond_threshold, p.tile, false);
            (next, coarse, one_report(gesture))
        },
        PointerEvent::CursorMoved { at } => {
            let (next, reports) = spec_travel(state, PointerId::Mouse, at.beyond_threshold, at.tile);
            (next, coarse, reports)
        },
        PointerEvent::TouchStarted { id, at } => {
            let (next, cancel) = spec_press(state, PointerId::Touch(id), at.tile, true);
            (next, true, one_report(cancel))
        },
        PointerEvent::TouchMoved { id, at } => {
            let (next, reports) = spec_travel(state, PointerId::Touch(id), at.beyond_threshold, at.tile);
            (next, coarse, reports)
        },
        PointerEvent::TouchEnded { id, at } => {
            let (next, gesture) = spec_release(state, PointerId::Touch(id), at.beyond_threshold, at.tile, false);
            (next, coarse, one_report(gesture))
        },
        PointerEvent::TouchCanceled { id } => {
            let (next, gesture) = spec_release(state, PointerId::Touch(id), false, None, true);
            (next, coarse, one_report(gesture))
        },
    }
}

fn report_list(report: Option<GestureReport>) -> (reports: Vec<GestureReport>)
    ensures
        reports@ == one_report(report),
{
    let mut reports: Vec<GestureReport> = Vec::new();
    if let Some(r) = report {
        reports.push(r);
    }
    proof {
        assert(reports@ =~= one_report(report));
    }
    reports
}

impl PointerState {
    /// Take one raw pointer event: what it does to the tracked pointer and to
    /// whether the pointer is a finger, and the gestures it reports.
    pub fn dispatch(&mut self, coarse: &mut bool, event: PointerEvent) -> (reports: Vec<GestureReport>)
        ensures
            (*final(self), *final(coarse), reports@) == spec_dispatch(*old(self), *old(coarse), event),
    {
        match event {
            PointerEvent::MousePressed { at } => match at {
                None => Vec::new(),
                Some(p) => {
                    let cancel = self.press(PointerId::Mouse, p.tile, false);
                    report_list(cancel)
                },
            },
            PointerEvent::MouseReleased { at, last } => {
                let p = match at {
                    Some(p) => p,
                    None => last,
                };
                let gesture = self.release(PointerId::Mouse, p.beyond_threshold, p.tile, false);
                report_list(gesture)
            },
            PointerEvent::CursorMoved { at } => self.travel(PointerId::Mouse, at.beyond_threshold, at.tile),
            PointerEvent::TouchStarted { id, at } => {
                *coarse = true;
                let cancel = self.press(PointerId::Touch(id), at.tile, true);
                report_list(cancel)
            },
            PointerEvent::TouchMoved { id, at } => self.travel(PointerId::Touch(id), at.beyond_threshold, at.tile),
            PointerEvent::TouchEnded { id, at } => {
                let gesture = self.release(PointerId::Touch(id), at.beyond_threshold, at.tile, false);
                report_list(gesture)
            },
            PointerEvent::TouchCanceled { id } => {
                let gesture = self.release(PointerId::Touch(id), false, None, true);
                report_list(gesture)
            },
        }
    }
}

/// The pointer, whether it is a finger, and every report, after `events`
/// are taken one by one in order.
pub open spec fn spec_dispatch_all(state: PointerState, coarse: bool, events: Seq<PointerEvent>) -> (PointerState, bool, Seq<GestureReport>)
    decreases events.len(),
{
    if events.len() == 0 {
        (state, coarse, Seq::empty())
    } else {
        let (s1, c1, r1) = spec_dispatch_all(state, coarse, events.drop_last());
        let (s2, c2, r2) = spec_dispatch(s1, c1, events.last());
        (s2, c2, r1 + r2)
    }
}

/// The events of the left button, in order; other buttons are no pointer.
pub open spec fn left_button_events(buttons: Seq<(bool, PointerEvent)>) -> Seq<PointerEvent>
    decreases buttons.len(),
{
    if buttons.len() == 0 {
        Seq::empty()
    } else {
        let earlier = left_button_events(buttons.drop_last());
        if buttons.last().0 {
            earlier.push(buttons.last().1)
        } else {
            earlier
        }
    }
}

impl PointerState {
    fn dispatch_into(
        &mut self,
        coarse: &mut bool,
        reports: &mut Vec<GestureReport>,
        event: PointerEvent,
        Ghost(start): Ghost<(PointerState, bool)>,
        Ghost(done): Ghost<Seq<PointerEvent>>,
    )
        requires
            (*old(self), *old(coarse), old(reports)@) == spec_dispatch_all(start.0, start.1, done),
        ensures
            (*final(self), *final(coarse), final(reports)@) == spec_dispatch_all(start.0, start.1, done.push(event)),
    {
        let mut more = self.dispatch(coarse, event);
        reports.append(&mut more);
        proof {
            assert(done.push(event).drop_last() =~= done);
        }
    }

    /// Take one frame's pointer events in the order they are handled: the
    /// mouse buttons (of which only the left one is a pointer, each event
    /// marked by whether it is), then the cursor's moves, then the touches.
    pub fn dispatch_frame(
        &mut self,
        coarse: &mut bool,
        buttons: &[(bool, PointerEvent)],
        cursor: &[PointerEvent],
        touches: &[PointerEvent],
    ) -> (reports: Vec<GestureReport>)
        ensures
            (*final(self), *final(coarse), reports@) == spec_dispatch_all(
                *old(self),
                *old(coarse),
                left_button_events(buttons@) + cursor@ + touches@,
            ),
    {
        let ghost start = (*self, *coarse);
        let mut reports: Vec<GestureReport> = Vec::new();
        let ghost mut done: Seq<PointerEvent> = Seq::empty();
        let mut i: usize = 0;
        while i < buttons.len()
            invariant
                0 <= i <= buttons@.len(),
                start == (*old(self), *old(coarse)),
                done == left_button_events(buttons@.take(i as int)),
                (*self, *coarse, reports@) == spec_dispatch_all(start.0, start.1, done),
            decreases buttons@.len() - i,
        {
            proof {
                assert(buttons@.take(i + 1).drop_last() =~= buttons@.take(i as int));
                assert(buttons@.take(i + 1).last() == buttons@[i as int]);
            }
            let (left, event) = buttons[i];
            if left {
                self.dispatch_into(coarse, &mut reports, event, Ghost(start), Ghost(done));
                proof {
                    done = done.push(event);
                }
            }
            i = i + 1;
        }
        proof {
            assert(buttons@.take(buttons@.len() as int) =~= buttons@);
        }
        let ghost after_buttons = done;
        let mut i: usize = 0;
        while i < cursor.len()
            invariant
                0 <= i <= cursor@.len(),
                start == (*old(self), *old(coarse)),
                done == after_buttons + cursor@.take(i as int),
                (*self, *coarse, reports@) == spec_dispatch_all(start.0, start.1, done),
            decreases cursor@.len() - i,
        {
            let event = cursor[i];
            self.dispatch_into(coarse, &mut reports, event, Ghost(start), Ghost(done));
            proof {
                assert(after_buttons + cursor@.take(i + 1) =~= done.push(event));
                done = done.push(event);
            }
            i = i + 1;
        }
        proof {
            assert(cursor@.take(cursor@.len() as int) =~= cursor@);
        }
        let ghost after_cursor = done;
        let mut i: usize = 0;
        while i < touches.len()
            invariant
                0 <= i <= touches@.len(),
                start == (*old(self), *old(coarse)),
                done == after_cursor + touches@.take(i as int),
                (*self, *coarse, reports@) == spec_dispatch_all(start.0, start.1, done),
            decreases touches@.len() - i,
        {
            let event = touches[i];
            self.dispatch_into(coarse, &mut reports, event, Ghost(start), Ghost(done));
            proof {
                assert(after_cursor + touches@.take(i + 1) =~= done.push(event));
                done = done.push(event);
            }
            i = i + 1;
        }
        proof {
            assert(touches@.take(touches@.len() as int) =~= touches@);
        }
        reports
    }
}

/// How a touch moves through its life.
#[derive(Clone, Copy, Debug, PartialEq, Eq, Structural)]
pub enum TouchPhase {
    Started,
    Moved,
    Ended,
    Canceled,
}

/// What the camera does with a frame's touches: nothing when none arrived,
/// take the fingers' places afresh when a finger came or went, pinch when
/// exactly two fingers moved, and otherwise leave the camera to the drag.
#[derive(Clone, Copy, Debug, PartialEq, Eq, Structural)]
pub enum TouchCameraStep {
    Untouched,
    Rebase,
    Pinch,
    Hold,
}

/// The fingers down after `events`, in order: a finger that starts is down,
/// one that ends or is cancelled is not.
pub open spec fn contacts_after(contacts: Set<u64>, events: Seq<(u64, TouchPhase)>) -> Set<u64>
    decreases events.len(),
{
    if events.len() == 0 {
        contacts
    } else {
        let earlier = contacts_after(contacts, events.drop_last());
        let (id, phase) = events.last();
        match phase {
            TouchPhase::Started => earlier.insert(id),
            TouchPhase::Moved => earlier,
            _ => earlier.remove(id),
        }
    }
}

/// Whether a finger came or went among `events`.
pub open spec fn contact_set_changed(events: Seq<(u64, TouchPhase)>) -> bool {
    exists|i: int| 0 <= i < events.len() && #[trigger] events[i].1 != TouchPhase::Moved
}

/// Track the fingers down through one frame's touches, and say what the
/// camera does with them.
pub fn touch_camera_step(contacts: &mut BTreeSet<u64>, events: &[(u64, TouchPhase)]) -> (step: TouchCameraStep)
    ensures
        final(contacts)@ == contacts_after(old(contacts)@, events@),
        step == if events@.len() == 0 {
            TouchCameraStep::Untouched
        } else if contact_set_changed(events@) {
            TouchCameraStep::Rebase
        } else if final(contacts)@.len() == 2 {
            TouchCameraStep::Pinch
        } else {
            TouchCameraStep::Hold
        },
{
    broadcast use vstd::std_specs::btree::group_btree_axioms;
    let mut changed = false;
    let mut i: usize = 0;
    while i < events.len()
        invariant
            0 <= i <= events@.len(),
            contacts@ == contacts_after(old(contacts)@, events@.take(i as int)),
            changed <==> exists|j: int| 0 <= j < i && #[trigger] events@[j].1 != TouchPhase::Moved,
        decreases events@.len() - i,
    {
        let (id, phase) = events[i];
        proof {
            assert(events@.take(i + 1).drop_last() =~= events@.take(i as int));
            assert(events@.take(i + 1).last() == events@[i as int]);
        }
        match phase {
            TouchPhase::Started => {
                changed = true;
                contacts.insert(id);
            },
            TouchPhase::Moved => {},
            _ => {
                changed = true;
                contacts.remove(&id);
            },
        }
        i = i + 1;
    }
    proof {
        assert(events@.take(events@.len() as int) =~= events@);
    }
    if events.len() == 0 {
        TouchCameraStep::Untouched
    } else if changed {
        TouchCameraStep::Rebase
    } else if contacts.len() == 2 {
        TouchCameraStep::Pinch
    } else {
        TouchCameraStep::Hold
    }
}

} // verus!

verus! {

/// Who a drag belongs to. The camera pans on any drag it is not told to keep
/// off; the play board claims a drag that picks up a unit, and the editor one
/// that paints.
#[derive(Clone, Copy, Debug, PartialEq, Eq, Structural)]
pub enum DragOwner {
    Camera,
    Unit,
    Brush,
}

} // verus!
