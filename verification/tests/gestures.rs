use awbrn_client::board::Pos;
use awbrn_client::gestures::{GestureReport, PointerGestureKind, PointerId, PointerState};
use awbrn_client::gestures::{touch_camera_step, PointerEvent, TouchCameraStep, TouchPhase};

#[test]
fn a_press_released_in_place_is_a_tap() {
    let mut state = PointerState::new();
    assert_eq!(state.press(PointerId::Mouse, Some(Pos::new(1, 1)), false), None);
    assert!(state.travel(PointerId::Mouse, false, Some(Pos::new(1, 1))).is_empty());
    let released = state.release(PointerId::Mouse, false, Some(Pos::new(1, 2)), false);
    assert_eq!(
        released,
        Some(GestureReport { kind: PointerGestureKind::Tap, tile: Some(Pos::new(1, 2)), coarse: false })
    );
    assert_eq!(state.primary, None);
}

#[test]
fn travel_past_the_threshold_starts_a_drag_on_the_tile_it_began_on() {
    let mut state = PointerState::new();
    state.press(PointerId::Touch(7), Some(Pos::new(2, 2)), true);
    let reports = state.travel(PointerId::Touch(7), true, Some(Pos::new(3, 2)));
    assert_eq!(reports.len(), 2);
    assert_eq!(reports[0].kind, PointerGestureKind::DragStart);
    assert_eq!(reports[0].tile, Some(Pos::new(2, 2)));
    assert_eq!(reports[1].kind, PointerGestureKind::DragMove);
    assert_eq!(reports[1].tile, Some(Pos::new(3, 2)));
    assert!(reports[1].coarse);

    let more = state.travel(PointerId::Touch(7), false, Some(Pos::new(4, 2)));
    assert_eq!(more.len(), 1, "a drag keeps reporting once it has started");
    let end = state.release(PointerId::Touch(7), false, Some(Pos::new(4, 2)), false);
    assert_eq!(end.map(|r| r.kind), Some(PointerGestureKind::DragEnd));
}

#[test]
fn a_second_contact_cancels_the_drag_and_its_release_is_not_a_tap() {
    let mut state = PointerState::new();
    state.press(PointerId::Touch(1), Some(Pos::new(0, 0)), true);
    state.travel(PointerId::Touch(1), true, Some(Pos::new(1, 0)));
    let cancel = state.press(PointerId::Touch(2), Some(Pos::new(5, 5)), true);
    assert_eq!(cancel.map(|r| r.kind), Some(PointerGestureKind::DragCancel));
    assert_eq!(cancel.and_then(|r| r.tile), None);
    // The second finger is not tracked, and moving the first reports nothing.
    assert!(state.travel(PointerId::Touch(1), true, Some(Pos::new(2, 0))).is_empty());
    assert_eq!(state.release(PointerId::Touch(2), false, None, false), None);
    let release = state.release(PointerId::Touch(1), false, Some(Pos::new(2, 0)), false);
    assert_eq!(release.map(|r| r.kind), Some(PointerGestureKind::DragCancel));
    assert_eq!(state.primary, None);
}

#[test]
fn an_interrupted_press_that_never_dragged_ends_silently() {
    let mut state = PointerState::new();
    state.press(PointerId::Touch(1), None, true);
    assert_eq!(state.press(PointerId::Touch(2), None, true), None);
    assert_eq!(state.release(PointerId::Touch(1), false, None, false), None);
}

#[test]
fn a_platform_cancel_never_commits() {
    let mut state = PointerState::new();
    state.press(PointerId::Touch(3), Some(Pos::new(1, 1)), true);
    assert_eq!(state.release(PointerId::Touch(3), false, Some(Pos::new(1, 1)), true), None);
}

#[test]
fn a_release_that_travelled_without_moving_events_is_a_drag_end() {
    let mut state = PointerState::new();
    state.press(PointerId::Mouse, Some(Pos::new(0, 0)), false);
    let release = state.release(PointerId::Mouse, true, Some(Pos::new(3, 0)), false);
    assert_eq!(release.map(|r| r.kind), Some(PointerGestureKind::DragEnd));
}

#[test]
fn mouse_release_outside_the_window_clears_the_active_pointer() {
    let mut state = PointerState::new();
    state.press(PointerId::Mouse, Some(Pos::new(3, 3)), false);
    assert!(state.primary.is_some());

    // Released with the cursor off the window: there is no tile under it.
    state.release(PointerId::Mouse, false, None, false);

    assert!(state.primary.is_none());
}

fn place(x: u8, y: u8, beyond_threshold: bool) -> awbrn_client::gestures::PointerPlace {
    awbrn_client::gestures::PointerPlace { tile: Some(Pos::new(x, y)), beyond_threshold }
}

#[test]
fn a_mouse_press_the_window_cannot_place_is_skipped() {
    let mut state = PointerState::new();
    let mut coarse = false;
    assert!(state.dispatch(&mut coarse, PointerEvent::MousePressed { at: None }).is_empty());
    assert!(state.primary.is_none());
}

#[test]
fn a_mouse_release_without_a_cursor_is_read_where_the_pointer_was_last() {
    let mut state = PointerState::new();
    let mut coarse = false;
    state.dispatch(&mut coarse, PointerEvent::MousePressed { at: Some(place(1, 1, false)) });
    let reports = state.dispatch(&mut coarse, PointerEvent::MouseReleased { at: None, last: place(1, 2, false) });
    assert_eq!(reports.len(), 1);
    assert_eq!(reports[0].kind, PointerGestureKind::Tap);
    assert_eq!(reports[0].tile, Some(Pos::new(1, 2)));
    assert!(!coarse);
}

#[test]
fn a_touch_marks_the_pointer_coarse_and_a_cancelled_drag_is_cancelled() {
    let mut state = PointerState::new();
    let mut coarse = false;
    state.dispatch(&mut coarse, PointerEvent::TouchStarted { id: 4, at: place(0, 0, false) });
    assert!(coarse);
    let moved = state.dispatch(&mut coarse, PointerEvent::TouchMoved { id: 4, at: place(0, 1, true) });
    assert_eq!(moved.iter().map(|r| r.kind).collect::<Vec<_>>(), vec![PointerGestureKind::DragStart, PointerGestureKind::DragMove]);
    let cancelled = state.dispatch(&mut coarse, PointerEvent::TouchCanceled { id: 4 });
    assert_eq!(cancelled.len(), 1);
    assert_eq!(cancelled[0].kind, PointerGestureKind::DragCancel);
    assert!(state.primary.is_none());
}

#[test]
fn two_fingers_moving_pinch_and_a_finger_coming_or_going_rebases() {
    let mut contacts: std::collections::BTreeSet<u64> = std::collections::BTreeSet::new();
    assert_eq!(touch_camera_step(&mut contacts, &[]), TouchCameraStep::Untouched);
    assert_eq!(
        touch_camera_step(&mut contacts, &[(1, TouchPhase::Started), (2, TouchPhase::Started), (1, TouchPhase::Started)]),
        TouchCameraStep::Rebase
    );
    assert_eq!(contacts.len(), 2, "a finger that starts twice is down once");
    assert_eq!(touch_camera_step(&mut contacts, &[(1, TouchPhase::Moved)]), TouchCameraStep::Pinch);
    assert_eq!(touch_camera_step(&mut contacts, &[(2, TouchPhase::Canceled)]), TouchCameraStep::Rebase);
    assert_eq!(contacts.iter().copied().collect::<Vec<u64>>(), vec![1]);
    assert_eq!(touch_camera_step(&mut contacts, &[(1, TouchPhase::Moved)]), TouchCameraStep::Hold);
    assert_eq!(touch_camera_step(&mut contacts, &[(1, TouchPhase::Ended), (9, TouchPhase::Ended)]), TouchCameraStep::Rebase);
    assert!(contacts.is_empty());
}

#[test]
fn a_frame_takes_buttons_then_the_cursor_then_touches() {
    let mut state = PointerState::new();
    let mut coarse = false;
    // A left press, a right press that is no pointer, a cursor move past the
    // threshold, and a touch that arrives while the mouse is held.
    let reports = state.dispatch_frame(
        &mut coarse,
        &[(true, PointerEvent::MousePressed { at: Some(place(1, 1, false)) }), (false, PointerEvent::MousePressed { at: None })],
        &[PointerEvent::CursorMoved { at: place(2, 1, true) }],
        &[PointerEvent::TouchStarted { id: 3, at: place(4, 4, false) }],
    );
    assert_eq!(
        reports.iter().map(|r| r.kind).collect::<Vec<_>>(),
        vec![PointerGestureKind::DragStart, PointerGestureKind::DragMove, PointerGestureKind::DragCancel],
        "the drag starts from the cursor's move before the touch abandons it"
    );
    assert_eq!(reports[0].tile, Some(Pos::new(1, 1)));
    assert!(coarse);
    assert_eq!(state.primary.unwrap().id, PointerId::Mouse);
}
