//! Board logic of the awbrn client: what the pointer, the keyboard, the
//! replay controls and the readouts decide, stated and proved over plain
//! values.
pub mod actions;
pub mod board;
pub mod course_arrow;
pub mod display;
pub mod editor;
pub mod gestures;
pub mod hover;
pub mod inspect;
pub mod keyboard;
pub mod live_match;
pub mod live_roster;
pub mod loading;
pub mod move_path;
pub mod overlays;
pub mod play;
pub mod production;
pub mod projection;
pub mod reach;
pub mod replay_fog;
pub mod replay_lock;
pub mod replay_move;
pub mod roster;
pub mod timeline;
pub mod weather;
