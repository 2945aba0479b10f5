//! The weather toggle of the development board.
use vstd::prelude::*;

verus! {

#[derive(Clone, Copy, Debug, PartialEq, Eq, Structural)]
pub enum Weather {
    Clear,
    Snow,
    Rain,
}

pub open spec fn spec_next_weather(w: Weather) -> Weather {
    match w {
        Weather::Clear => Weather::Snow,
        Weather::Snow => Weather::Rain,
        Weather::Rain => Weather::Clear,
    }
}

/// The weather after one press of the toggle: clear, then snow, then rain,
/// then clear again.
pub fn next_weather(w: Weather) -> (next: Weather)
    ensures
        next == spec_next_weather(w),
{
    match w {
        Weather::Clear => Weather::Snow,
        Weather::Snow => Weather::Rain,
        Weather::Rain => Weather::Clear,
    }
}

/// Three presses of the toggle bring back the weather it started from, and
/// no single press leaves the weather as it was.
pub proof fn lemma_toggle_cycles_through_all_three(w: Weather)
    ensures
        spec_next_weather(spec_next_weather(spec_next_weather(w))) == w,
        spec_next_weather(w) != w,
        spec_next_weather(spec_next_weather(w)) != w,
{
}

} // verus!
