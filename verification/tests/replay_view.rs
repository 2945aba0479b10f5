use awbrn_client::board::Pos;
use awbrn_client::projection::ReplayViewpoint;
use awbrn_client::replay_move::{movement_for_current_view, ObservedMove, ObservedTransitionMoves, ObservedUnitRef};

fn moved(unit: ObservedUnitRef, from: (u8, u8), to: (u8, u8)) -> Option<ObservedMove> {
    Some(ObservedMove { unit, from: Pos::new(from.0, from.1), path: vec![Pos::new(from.0, from.1), Pos::new(to.0, to.1)] })
}

fn transition(recipient: Option<u32>, events: Vec<Option<ObservedMove>>) -> ObservedTransitionMoves {
    ObservedTransitionMoves { recipient, events }
}

fn two_seats() -> Vec<ObservedTransitionMoves> {
    vec![
        transition(Some(1), vec![None, moved(ObservedUnitRef::Friendly(11), (0, 0), (0, 1))]),
        transition(Some(2), vec![moved(ObservedUnitRef::Hidden(900), (0, 0), (1, 0)), None]),
    ]
}

#[test]
fn a_lone_transition_shows_its_first_move_whoever_watches() {
    let only = vec![transition(None, vec![None, moved(ObservedUnitRef::Hidden(5), (2, 2), (2, 3))])];
    let (unit, from, path) = movement_for_current_view(&only, Some(ReplayViewpoint::Spectator), None).unwrap();
    assert_eq!(unit, ObservedUnitRef::Hidden(5));
    assert_eq!(from, Pos::new(2, 2));
    assert_eq!(path, vec![Pos::new(2, 2), Pos::new(2, 3)]);
}

#[test]
fn a_seat_sees_the_move_in_the_transition_addressed_to_it() {
    let (unit, ..) = movement_for_current_view(&two_seats(), Some(ReplayViewpoint::Player(2)), None).unwrap();
    assert_eq!(unit, ObservedUnitRef::Hidden(900));
    let (unit, ..) = movement_for_current_view(&two_seats(), Some(ReplayViewpoint::ActivePlayer), Some(1)).unwrap();
    assert_eq!(unit, ObservedUnitRef::Friendly(11));
}

#[test]
fn without_a_seat_the_first_friendly_move_is_shown() {
    let (unit, from, _) = movement_for_current_view(&two_seats(), Some(ReplayViewpoint::Spectator), None).unwrap();
    assert_eq!((unit, from), (ObservedUnitRef::Friendly(11), Pos::new(0, 0)));
    let (unit, ..) = movement_for_current_view(&two_seats(), Some(ReplayViewpoint::Player(7)), None).unwrap();
    assert_eq!(unit, ObservedUnitRef::Friendly(11), "a seat no transition is addressed to sees none of them");
    let (unit, ..) = movement_for_current_view(&two_seats(), Some(ReplayViewpoint::ActivePlayer), None).unwrap();
    assert_eq!(unit, ObservedUnitRef::Friendly(11));
}

#[test]
fn a_viewed_transition_without_a_move_shows_nothing() {
    let transitions = vec![
        transition(Some(1), vec![None]),
        transition(Some(2), vec![moved(ObservedUnitRef::Friendly(3), (0, 0), (0, 1))]),
    ];
    assert!(movement_for_current_view(&transitions, Some(ReplayViewpoint::Player(1)), None).is_none());
    let hidden_only = vec![
        transition(Some(1), vec![moved(ObservedUnitRef::Hidden(3), (0, 0), (0, 1))]),
        transition(Some(2), vec![None]),
    ];
    assert!(movement_for_current_view(&hidden_only, None, None).is_none());
}
