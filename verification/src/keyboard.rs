//! Playing a turn without a pointer.
//!
//! A key names a tile, and the tile goes through the same answer a press
//! goes through. Arrows (and WASD, and the numpad) move the cursor; Tab,
//! `E` and `Q` walk the units that can still act and then the bases; Enter
//! and Space answer the tile under the cursor; Ctrl + Enter asks to end the
//! turn.
use vstd::prelude::*;
use crate::board::{Pos, on_board, offset, spec_on_board, spec_offset, reads_before, pos_reads_before};

verus! {

/// The keys the board reads.
#[derive(Clone, Copy, Debug, PartialEq, Eq, Structural)]
pub enum Key {
    ArrowUp,
    ArrowDown,
    ArrowLeft,
    ArrowRight,
    KeyW,
    KeyA,
    KeyS,
    KeyD,
    KeyE,
    KeyQ,
    Numpad2,
    Numpad4,
    Numpad6,
    Numpad8,
    Tab,
    Enter,
    NumpadEnter,
    Space,
    /// Any key the board does not read.
    Other,
}

/// Which way the unit walk goes.
#[derive(Clone, Copy, Debug, PartialEq, Eq, Structural)]
pub enum Cycle {
    Next,
    Previous,
}

/// What a key asks the board to do.
#[derive(Clone, Copy, Debug, PartialEq, Eq, Structural)]
pub enum KeyIntent {
    /// Move the cursor by this many tiles right and down.
    Step(i16, i16),
    /// The next unit that can still act, or the one before it.
    Cycle(Cycle),
    /// Answer the tile the cursor is on.
    Confirm,
    /// Ask the page whether the turn should end.
    EndTurn,
}

pub open spec fn spec_key_intent(key: Key, shift: bool, control: bool) -> Option<KeyIntent> {
    match key {
        Key::Enter | Key::NumpadEnter => if control {
            Some(KeyIntent::EndTurn)
        } else {
            Some(KeyIntent::Confirm)
        },
        Key::ArrowUp | Key::KeyW | Key::Numpad8 => Some(KeyIntent::Step(0i16, -1i16)),
        Key::ArrowDown | Key::KeyS | Key::Numpad2 => Some(KeyIntent::Step(0, 1)),
        Key::ArrowLeft | Key::KeyA | Key::Numpad4 => Some(KeyIntent::Step(-1i16, 0i16)),
        Key::ArrowRight | Key::KeyD | Key::Numpad6 => Some(KeyIntent::Step(1, 0)),
        Key::Tab => if shift {
            None
        } else {
            Some(KeyIntent::Cycle(Cycle::Next))
        },
        Key::KeyE => Some(KeyIntent::Cycle(Cycle::Next)),
        Key::KeyQ => Some(KeyIntent::Cycle(Cycle::Previous)),
        Key::Space => Some(KeyIntent::Confirm),
        Key::Other => None,
    }
}

/// Which of the board's keys this is, if it is one of them.
///
/// Shift changes nothing except on Tab: Shift+Tab is the way out of the board
/// for anyone moving through the page by keyboard. Control is only read on
/// Enter, where it turns answering a tile into asking about the turn.
pub fn key_intent(key: Key, shift: bool, control: bool) -> (intent: Option<KeyIntent>)
    ensures
        intent == spec_key_intent(key, shift, control),
{
    match key {
        Key::Enter | Key::NumpadEnter => if control {
            Some(KeyIntent::EndTurn)
        } else {
            Some(KeyIntent::Confirm)
        },
        Key::ArrowUp | Key::KeyW | Key::Numpad8 => Some(KeyIntent::Step(0i16, -1i16)),
        Key::ArrowDown | Key::KeyS | Key::Numpad2 => Some(KeyIntent::Step(0, 1)),
        Key::ArrowLeft | Key::KeyA | Key::Numpad4 => Some(KeyIntent::Step(-1i16, 0i16)),
        Key::ArrowRight | Key::KeyD | Key::Numpad6 => Some(KeyIntent::Step(1, 0)),
        Key::Tab => if shift {
            None
        } else {
            Some(KeyIntent::Cycle(Cycle::Next))
        },
        Key::KeyE => Some(KeyIntent::Cycle(Cycle::Next)),
        Key::KeyQ => Some(KeyIntent::Cycle(Cycle::Previous)),
        Key::Space => Some(KeyIntent::Confirm),
        Key::Other => None,
    }
}

/// Whether a held (repeating) key still acts: a held key walks the cursor,
/// and never gives an order twice.
pub fn repeat_acts(intent: KeyIntent) -> (acts: bool)
    ensures
        acts == (intent is Step),
{
    match intent {
        KeyIntent::Step(..) => true,
        _ => false,
    }
}

pub open spec fn spec_steering_tile(
    cursor: Option<Pos>,
    pointer: Option<Pos>,
    selected_origin: Option<Pos>,
    width: u8,
    height: u8,
) -> Option<Pos> {
    let candidate = if cursor is Some {
        cursor
    } else if pointer is Some {
        pointer
    } else if selected_origin is Some {
        selected_origin
    } else if width > 0 && height > 0 {
        Some(Pos { x: width / 2, y: height / 2 })
    } else {
        None
    };
    match candidate {
        Some(tile) => if spec_on_board(tile, width, height) {
            Some(tile)
        } else {
            None
        },
        None => None,
    }
}

/// Where the cursor is, for a player who has not moved it yet: the keyboard
/// cursor, then the mouse cursor, then the unit in hand, then the middle of
/// the board — whichever comes first, and only when it is on the board.
pub fn steering_tile(
    cursor: Option<Pos>,
    pointer: Option<Pos>,
    selected_origin: Option<Pos>,
    width: u8,
    height: u8,
) -> (tile: Option<Pos>)
    ensures
        tile == spec_steering_tile(cursor, pointer, selected_origin, width, height),
{
    let candidate = if cursor.is_some() {
        cursor
    } else if pointer.is_some() {
        pointer
    } else if selected_origin.is_some() {
        selected_origin
    } else if width > 0 && height > 0 {
        Some(Pos { x: width / 2, y: height / 2 })
    } else {
        None
    };
    match candidate {
        Some(tile) => if on_board(tile, width, height) {
            Some(tile)
        } else {
            None
        },
        None => None,
    }
}

pub open spec fn spec_step_cursor(standing: Pos, dx: i16, dy: i16, width: u8, height: u8) -> Pos {
    match spec_offset(standing, dx as int, dy as int) {
        Some(next) => if spec_on_board(next, width, height) {
            next
        } else {
            standing
        },
        None => standing,
    }
}

/// Move the cursor one step; a step off the board leaves it where it is.
pub fn step_cursor(standing: Pos, dx: i16, dy: i16, width: u8, height: u8) -> (next: Pos)
    ensures
        next == spec_step_cursor(standing, dx, dy, width, height),
{
    match offset(standing, dx, dy) {
        Some(next) => if on_board(next, width, height) {
            next
        } else {
            standing
        },
        None => standing,
    }
}

/// The tile a key walks the cursor to from `standing`: `None` for a key
/// that is no step.
pub open spec fn walked_to(key: Key, shift: bool, control: bool, standing: Pos, width: u8, height: u8) -> Option<Pos> {
    match spec_key_intent(key, shift, control) {
        Some(KeyIntent::Step(dx, dy)) => Some(spec_step_cursor(standing, dx, dy, width, height)),
        _ => None,
    }
}

/// The direction keys walk the cursor one tile the way they point, whatever
/// modifier is held: left (ArrowLeft, A, numpad 4) one column left, right
/// (ArrowRight, D, numpad 6) one column right, up (ArrowUp, W, numpad 8) one
/// row up, down (ArrowDown, S, numpad 2) one row down; at the edge of the
/// board the cursor stays. So a step and the opposite step come back to
/// where the cursor stood.
pub proof fn lemma_direction_keys_walk_the_way_they_point(
    shift: bool,
    control: bool,
    standing: Pos,
    width: u8,
    height: u8,
)
    requires
        spec_on_board(standing, width, height),
    ensures
        forall|key: Key|
            (key == Key::ArrowLeft || key == Key::KeyA || key == Key::Numpad4) ==> #[trigger] walked_to(
                key,
                shift,
                control,
                standing,
                width,
                height,
            ) == Some(
                if standing.x > 0 {
                    Pos { x: (standing.x - 1) as u8, y: standing.y }
                } else {
                    standing
                },
            ),
        forall|key: Key|
            (key == Key::ArrowRight || key == Key::KeyD || key == Key::Numpad6) ==> #[trigger] walked_to(
                key,
                shift,
                control,
                standing,
                width,
                height,
            ) == Some(
                if standing.x + 1 < width {
                    Pos { x: (standing.x + 1) as u8, y: standing.y }
                } else {
                    standing
                },
            ),
        forall|key: Key|
            (key == Key::ArrowUp || key == Key::KeyW || key == Key::Numpad8) ==> #[trigger] walked_to(
                key,
                shift,
                control,
                standing,
                width,
                height,
            ) == Some(
                if standing.y > 0 {
                    Pos { x: standing.x, y: (standing.y - 1) as u8 }
                } else {
                    standing
                },
            ),
        forall|key: Key|
            (key == Key::ArrowDown || key == Key::KeyS || key == Key::Numpad2) ==> #[trigger] walked_to(
                key,
                shift,
                control,
                standing,
                width,
                height,
            ) == Some(
                if standing.y + 1 < height {
                    Pos { x: standing.x, y: (standing.y + 1) as u8 }
                } else {
                    standing
                },
            ),
        standing.x > 0 ==> walked_to(Key::ArrowRight, shift, control, walked_to(Key::ArrowLeft, shift, control, standing, width, height)->0, width, height)
            == Some(standing),
        standing.y > 0 ==> walked_to(Key::ArrowDown, shift, control, walked_to(Key::ArrowUp, shift, control, standing, width, height)->0, width, height)
            == Some(standing),
{
}

/// Enter answers the tile, and with Control held asks to end the turn; Space
/// answers the tile; Tab walks to the next unit except with Shift held,
/// which leaves the board to the page; E walks forward and Q back.
pub proof fn lemma_order_keys_do_what_they_say(shift: bool, control: bool)
    ensures
        spec_key_intent(Key::Enter, shift, control) == Some(if control { KeyIntent::EndTurn } else { KeyIntent::Confirm }),
        spec_key_intent(Key::NumpadEnter, shift, control) == spec_key_intent(Key::Enter, shift, control),
        spec_key_intent(Key::Space, shift, control) == Some(KeyIntent::Confirm),
        spec_key_intent(Key::Tab, shift, control) == if shift {
            None
        } else {
            Some(KeyIntent::Cycle(Cycle::Next))
        },
        spec_key_intent(Key::KeyE, shift, control) == Some(KeyIntent::Cycle(Cycle::Next)),
        spec_key_intent(Key::KeyQ, shift, control) == Some(KeyIntent::Cycle(Cycle::Previous)),
        spec_key_intent(Key::Other, shift, control) is None,
{
}

/// A cursor that starts on the board never leaves it.
pub proof fn lemma_cursor_stays_on_the_board(standing: Pos, dx: i16, dy: i16, width: u8, height: u8)
    requires
        spec_on_board(standing, width, height),
    ensures
        spec_on_board(spec_step_cursor(standing, dx, dy, width, height), width, height),
{
}

} // verus!

verus! {

/// Whether `s` is strictly increasing in reading order (so also free of
/// repeats).
pub open spec fn strictly_reading_ordered(s: Seq<Pos>) -> bool {
    forall|a: int, b: int| 0 <= a < b < s.len() ==> reads_before(#[trigger] s[a], #[trigger] s[b])
}

/// The tiles of the first `n` units that may still act.
pub open spec fn actionable_unit_tile(units: Seq<(Pos, bool)>, n: int, q: Pos) -> bool {
    exists|j: int| 0 <= j < n && (#[trigger] units[j]).1 && units[j].0 == q
}

proof fn lemma_reading_order_total(a: Pos, b: Pos)
    ensures
        a == b || reads_before(a, b) || reads_before(b, a),
        !(reads_before(a, b) && reads_before(b, a)),
        !reads_before(a, a),
{
}

/// Put `tile` into a reading-ordered list of tiles, unless it is there
/// already.
fn insert_reading_ordered(stops: &mut Vec<Pos>, tile: Pos)
    requires
        strictly_reading_ordered(old(stops)@),
    ensures
        strictly_reading_ordered(final(stops)@),
        forall|q: Pos| #[trigger] final(stops)@.contains(q) <==> (old(stops)@.contains(q) || q == tile),
{
    let len = stops.len();
    let mut k: usize = 0;
    while k < len && pos_reads_before(stops[k], tile)
        invariant
            len == stops@.len(),
            0 <= k <= len,
            forall|a: int| 0 <= a < k ==> reads_before(#[trigger] stops@[a], tile),
        decreases len - k,
    {
        k = k + 1;
    }
    if k < len && stops[k] == tile {
        proof {
            assert(stops@[k as int] == tile);
        }
        return;
    }
    proof {
        if k < len {
            lemma_reading_order_total(stops@[k as int], tile);
        }
        assert forall|a: int| k <= a < len implies reads_before(tile, #[trigger] stops@[a]) by {
            if a > k {
                assert(reads_before(stops@[k as int], stops@[a]));
            }
        }
    }
    let ghost before = stops@;
    stops.insert(k, tile);
    proof {
        assert(stops@ == before.insert(k as int, tile));
        assert forall|a: int, b: int| 0 <= a < b < stops@.len() implies reads_before(
            #[trigger] stops@[a],
            #[trigger] stops@[b],
        ) by {
            if a < k && b < k {
                assert(stops@[a] == before[a]);
                assert(stops@[b] == before[b]);
            } else if a < k && b == k {
            } else if a < k && b > k {
                assert(stops@[b] == before[b - 1]);
            } else if a == k {
                assert(stops@[b] == before[b - 1]);
            } else {
                assert(stops@[a] == before[a - 1]);
                assert(stops@[b] == before[b - 1]);
            }
        }
        assert(stops@[k as int] == tile);
        assert forall|q: Pos| #[trigger] stops@.contains(q) <==> (before.contains(q) || q == tile) by {
            if stops@.contains(q) {
                let a = choose|a: int| 0 <= a < stops@.len() && stops@[a] == q;
                if a < k {
                    assert(before[a] == q);
                } else if a > k {
                    assert(before[a - 1] == q);
                }
            }
            if before.contains(q) {
                let a = choose|a: int| 0 <= a < before.len() && before[a] == q;
                if a < k {
                    assert(stops@[a] == q);
                } else {
                    assert(stops@[a + 1] == q);
                }
            }
            if q == tile {
                assert(stops@[k as int] == q);
            }
        }
    }
}

/// Everything this player may still act on: every unit that may still act,
/// in reading order and once per tile, and then every base, in the order
/// given. The number of unit stops is returned with the list: it is the
/// boundary between the two halves.
///
/// `units` pairs each unit's tile with whether it may still be selected.
pub fn actionable_positions(units: &[(Pos, bool)], sites: &[Pos]) -> (result: (Vec<Pos>, usize))
    ensures
        result.1 <= result.0@.len(),
        strictly_reading_ordered(result.0@.take(result.1 as int)),
        forall|q: Pos|
            result.0@.take(result.1 as int).contains(q) <==> actionable_unit_tile(units@, units@.len() as int, q),
        result.0@.skip(result.1 as int) == sites@,
{
    let mut stops: Vec<Pos> = Vec::new();
    let mut i: usize = 0;
    while i < units.len()
        invariant
            0 <= i <= units@.len(),
            strictly_reading_ordered(stops@),
            forall|q: Pos| stops@.contains(q) <==> actionable_unit_tile(units@, i as int, q),
        decreases units@.len() - i,
    {
        let (tile, selectable) = units[i];
        proof {
            assert forall|q: Pos| actionable_unit_tile(units@, i + 1, q) <==> (actionable_unit_tile(units@, i as int, q)
                || (selectable && tile == q)) by {
                if actionable_unit_tile(units@, i + 1, q) {
                    let j = choose|j: int| 0 <= j < i + 1 && (#[trigger] units@[j]).1 && units@[j].0 == q;
                    if j < i {
                        assert(actionable_unit_tile(units@, i as int, q));
                    }
                }
                if actionable_unit_tile(units@, i as int, q) {
                    let j = choose|j: int| 0 <= j < i && (#[trigger] units@[j]).1 && units@[j].0 == q;
                    assert(0 <= j < i + 1 && units@[j].1 && units@[j].0 == q);
                }
                if selectable && tile == q {
                    assert(units@[i as int].1 && units@[i as int].0 == q);
                }
            }
        }
        if selectable {
            insert_reading_ordered(&mut stops, tile);
        }
        proof {
            assert forall|q: Pos| stops@.contains(q) <==> actionable_unit_tile(units@, i + 1, q) by {
                assert(actionable_unit_tile(units@, i + 1, q) <==> (actionable_unit_tile(units@, i as int, q)
                    || (selectable && tile == q)));
            }
        }
        i = i + 1;
    }
    let unit_count = stops.len();
    let ghost unit_stops = stops@;
    let mut s: usize = 0;
    while s < sites.len()
        invariant
            0 <= s <= sites@.len(),
            unit_count == unit_stops.len(),
            stops@ == unit_stops + sites@.take(s as int),
        decreases sites@.len() - s,
    {
        stops.push(sites[s]);
        proof {
            assert(sites@.take(s + 1) =~= sites@.take(s as int).push(sites@[s as int]));
        }
        s = s + 1;
    }
    proof {
        assert(sites@.take(sites@.len() as int) =~= sites@);
        assert(stops@.take(unit_count as int) =~= unit_stops);
        assert(stops@.skip(unit_count as int) =~= sites@);
    }
    (stops, unit_count)
}

} // verus!

verus! {

/// The first index of `tile` in `stops`.
pub open spec fn index_of(stops: Seq<Pos>, tile: Pos) -> Option<int>
    decreases stops.len(),
{
    if stops.len() == 0 {
        None
    } else if stops[0] == tile {
        Some(0)
    } else {
        match index_of(stops.drop_first(), tile) {
            Some(i) => Some(i + 1),
            None => None,
        }
    }
}

proof fn lemma_index_of_first_match(s: Seq<Pos>, tile: Pos, i: int)
    requires
        0 <= i <= s.len(),
        forall|j: int| 0 <= j < i ==> s[j] != tile,
    ensures
        i < s.len() && s[i] == tile ==> index_of(s, tile) == Some(i),
        i == s.len() ==> index_of(s, tile) is None,
    decreases i,
{
    if i > 0 {
        assert forall|j: int| 0 <= j < i - 1 implies s.drop_first()[j] != tile by {
            assert(s.drop_first()[j] == s[j + 1]);
        }
        lemma_index_of_first_match(s.drop_first(), tile, i - 1);
    } else if s.len() > 0 && i < s.len() {
    }
}

fn position_of(stops: &[Pos], tile: Pos) -> (index: Option<usize>)
    ensures
        match index {
            Some(i) => index_of(stops@, tile) == Some(i as int),
            None => index_of(stops@, tile) is None,
        },
{
    let mut i: usize = 0;
    while i < stops.len()
        invariant
            0 <= i <= stops@.len(),
            forall|j: int| 0 <= j < i ==> stops@[j] != tile,
        decreases stops@.len() - i,
    {
        if stops[i] == tile {
            proof {
                lemma_index_of_first_match(stops@, tile, i as int);
            }
            return Some(i);
        }
        i = i + 1;
    }
    proof {
        lemma_index_of_first_match(stops@, tile, i as int);
    }
    None
}

/// The stop a walk starts from.
///
/// A walk already under way carries on from the stop it is standing on; a
/// cursor resting anywhere else means the walk starts at the end it is
/// walking from.
pub open spec fn walk_first(count: int, standing_at: Option<int>, direction: Cycle) -> int {
    match (standing_at, direction) {
        (Some(i), Cycle::Next) => (i + 1) % count,
        (Some(i), Cycle::Previous) => (i + count - 1) % count,
        (None, Cycle::Next) => 0,
        (None, Cycle::Previous) => count - 1,
    }
}

/// The `offset`-th stop visited by a walk that begins at `first`.
pub open spec fn walk_index(count: int, first: int, offset: int, direction: Cycle) -> int {
    match direction {
        Cycle::Next => (first + offset) % count,
        Cycle::Previous => (first + count - offset) % count,
    }
}

/// Whether the walk stops at index `i`: a base always holds it, and a unit
/// holds it when it has an order to give.
pub open spec fn walk_stops_at(unit_count: int, unit_answers: Seq<bool>, i: int) -> bool {
    i >= unit_count || unit_answers[i]
}

/// The first stop the walk reaches from visit `offset` on.
pub open spec fn walk_from(
    count: int,
    unit_count: int,
    unit_answers: Seq<bool>,
    first: int,
    direction: Cycle,
    offset: int,
) -> Option<int>
    decreases count - offset,
{
    if offset >= count {
        None
    } else if walk_stops_at(unit_count, unit_answers, walk_index(count, first, offset, direction)) {
        Some(walk_index(count, first, offset, direction))
    } else {
        walk_from(count, unit_count, unit_answers, first, direction, offset + 1)
    }
}

pub open spec fn spec_cycle_stop(
    stops: Seq<Pos>,
    unit_count: int,
    unit_answers: Seq<bool>,
    from: Option<Pos>,
    direction: Cycle,
) -> Option<int> {
    if stops.len() == 0 {
        None
    } else {
        let standing_at = match from {
            Some(tile) => index_of(stops, tile),
            None => None,
        };
        let first = walk_first(stops.len() as int, standing_at, direction);
        walk_from(stops.len() as int, unit_count, unit_answers, first, direction, 0)
    }
}

/// Where a Tab (or `E`, or `Q`) lands: the index into `stops` of the first
/// stop, walking from `from` in `direction`, that is a base or a unit with an
/// order to give. `unit_answers[i]` says whether the unit at stop `i` has one.
pub fn cycle_stop(
    stops: &[Pos],
    unit_count: usize,
    unit_answers: &[bool],
    from: Option<Pos>,
    direction: Cycle,
) -> (stop: Option<usize>)
    requires
        unit_count <= stops@.len(),
        unit_answers@.len() == unit_count,
        stops@.len() < usize::MAX / 2,
    ensures
        match stop {
            Some(i) => spec_cycle_stop(stops@, unit_count as int, unit_answers@, from, direction) == Some(i as int),
            None => spec_cycle_stop(stops@, unit_count as int, unit_answers@, from, direction) is None,
        },
{
    let count = stops.len();
    if count == 0 {
        return None;
    }
    let standing_at = match from {
        Some(tile) => position_of(stops, tile),
        None => None,
    };
    proof {
        if let Some(i) = standing_at {
            assert(index_of(stops@, from->0) == Some(i as int));
            lemma_index_of_in_range(stops@, from->0);
        }
    }
    let first = match (standing_at, direction) {
        (Some(index), Cycle::Next) => (index + 1) % count,
        (Some(index), Cycle::Previous) => (index + count - 1) % count,
        (None, Cycle::Next) => 0,
        (None, Cycle::Previous) => count - 1,
    };
    let ghost spec_standing = match from {
        Some(tile) => index_of(stops@, tile),
        None => None,
    };
    proof {
        assert(first as int == walk_first(count as int, spec_standing, direction));
    }
    let mut offset: usize = 0;
    while offset < count
        invariant
            count == stops@.len(),
            spec_cycle_stop(stops@, unit_count as int, unit_answers@, from, direction) == walk_from(
                count as int,
                unit_count as int,
                unit_answers@,
                first as int,
                direction,
                0,
            ),
            0 < count < usize::MAX / 2,
            first < count,
            unit_count <= count,
            unit_answers@.len() == unit_count,
            0 <= offset <= count,
            walk_from(count as int, unit_count as int, unit_answers@, first as int, direction, offset as int)
                == walk_from(count as int, unit_count as int, unit_answers@, first as int, direction, 0),
        decreases count - offset,
    {
        let index = match direction {
            Cycle::Next => (first + offset) % count,
            Cycle::Previous => (first + count - offset) % count,
        };
        assert(index as int == walk_index(count as int, first as int, offset as int, direction));
        if index >= unit_count || unit_answers[index] {
            return Some(index);
        }
        offset = offset + 1;
    }
    None
}

proof fn lemma_index_of_in_range(s: Seq<Pos>, tile: Pos)
    ensures
        index_of(s, tile) matches Some(i) ==> 0 <= i < s.len() && s[i] == tile,
    decreases s.len(),
{
    if s.len() > 0 && s[0] != tile {
        lemma_index_of_in_range(s.drop_first(), tile);
    }
}

/// A walk that finds anything finds a base or a unit with an order to give,
/// and only finds nothing when there is no such stop at all.
pub proof fn lemma_cycle_lands_on_an_answering_stop(
    count: int,
    unit_count: int,
    unit_answers: Seq<bool>,
    first: int,
    direction: Cycle,
    offset: int,
)
    requires
        0 < count,
        0 <= first < count,
        0 <= offset,
        unit_answers.len() == unit_count,
        0 <= unit_count <= count,
    ensures
        walk_from(count, unit_count, unit_answers, first, direction, offset) matches Some(i) ==> 0 <= i < count
            && walk_stops_at(unit_count, unit_answers, i),
        walk_from(count, unit_count, unit_answers, first, direction, offset) is None ==> forall|o: int|
            offset <= o < count ==> !walk_stops_at(
                unit_count,
                unit_answers,
                #[trigger] walk_index(count, first, o, direction),
            ),
    decreases count - offset,
{
    if offset < count {
        lemma_cycle_lands_on_an_answering_stop(count, unit_count, unit_answers, first, direction, offset + 1);
    }
}

} // verus!
