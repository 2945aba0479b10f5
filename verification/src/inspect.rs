//! What an inspected unit reaches, as the board outlines it.
//!
//! How far a unit moves, what it sees and which tiles it can stop on are the
//! rules' answers; this module decides where the firing band is measured
//! from, which tiles it covers, and where a field's outline runs.
use vstd::prelude::*;
use crate::board::{manhattan, offset, on_board, spec_offset, spec_on_board, Pos};

verus! {

pub open spec fn contains_tile(tiles: Seq<Pos>, tile: Pos) -> bool {
    tiles.contains(tile)
}

/// The tiles the firing band is measured from: none for a unit the player
/// commands (its targets are marked on the enemies instead), the unit's own
/// tile for an indirect (`minimum` above one, which fires only from where it
/// stands), and for a direct every tile it can stop on, and its own.
pub open spec fn spec_band_sources(minimum: u32, commanded: bool, origin: Pos, stops: Seq<Pos>) -> Seq<Pos> {
    if commanded {
        Seq::empty()
    } else if minimum > 1 {
        seq![origin]
    } else if stops.contains(origin) {
        stops
    } else {
        stops.push(origin)
    }
}

pub fn band_sources(minimum: u32, commanded: bool, origin: Pos, stops: &[Pos]) -> (sources: Vec<Pos>)
    ensures
        sources@ == spec_band_sources(minimum, commanded, origin, stops@),
{
    let mut sources: Vec<Pos> = Vec::new();
    if commanded {
        return sources;
    }
    if minimum > 1 {
        sources.push(origin);
        return sources;
    }
    let mut found = false;
    let mut i: usize = 0;
    while i < stops.len()
        invariant
            0 <= i <= stops@.len(),
            sources@ == stops@.take(i as int),
            found == exists|j: int| 0 <= j < i && stops@[j] == origin,
        decreases stops@.len() - i,
    {
        proof {
            assert(stops@.take(i + 1) =~= stops@.take(i as int).push(stops@[i as int]));
        }
        if stops[i] == origin {
            found = true;
        }
        sources.push(stops[i]);
        i = i + 1;
    }
    proof {
        assert(stops@.take(stops@.len() as int) =~= stops@);
    }
    if !found {
        sources.push(origin);
    }
    sources
}

/// How far the band is walked: the unit's longest range, held to what a
/// signed 16-bit offset reaches.
pub open spec fn band_radius(maximum: u32) -> int {
    if maximum > 32767 {
        32767
    } else {
        maximum as int
    }
}

/// Whether `tile` lies in the band between `minimum` and `radius` steps of
/// `from`, counted as the ruleset counts range: in steps along the grid.
pub open spec fn in_band(from: Pos, tile: Pos, minimum: u32, radius: int) -> bool {
    minimum <= manhattan(from, tile) <= radius
}

pub open spec fn row_of(from: Pos, tile: Pos) -> int {
    tile.y as int - from.y as int
}

pub open spec fn column_of(from: Pos, tile: Pos) -> int {
    tile.x as int - from.x as int
}

pub open spec fn abs(v: int) -> int {
    if v < 0 {
        -v
    } else {
        v
    }
}

/// Every tile on the board between `minimum` and `maximum` steps of `from`.
pub fn collect_band(from: Pos, minimum: u32, maximum: u32, width: u8, height: u8) -> (band: Vec<Pos>)
    ensures
        forall|tile: Pos| #[trigger] contains_tile(band@, tile) <==> (in_band(from, tile, minimum, band_radius(maximum))
            && spec_on_board(tile, width, height)),
{
    let radius: i32 = if maximum > 32767 {
        32767
    } else {
        maximum as i32
    };
    let mut band: Vec<Pos> = Vec::new();
    let mut dy: i32 = -radius;
    while dy <= radius
        invariant
            radius == band_radius(maximum),
            -radius <= dy <= radius + 1,
            forall|tile: Pos| #[trigger] contains_tile(band@, tile) <==> (in_band(from, tile, minimum, radius as int)
                && spec_on_board(tile, width, height) && row_of(from, tile) < dy),
        decreases radius + 1 - dy,
    {
        let span: i32 = radius - if dy < 0 {
            -dy
        } else {
            dy
        };
        let mut dx: i32 = -span;
        while dx <= span
            invariant
                radius == band_radius(maximum),
                -radius <= dy <= radius,
                span == radius - abs(dy as int),
                -span <= dx <= span + 1,
                forall|tile: Pos| #[trigger] contains_tile(band@, tile) <==> (in_band(from, tile, minimum, radius as int)
                    && spec_on_board(tile, width, height) && (row_of(from, tile) < dy || (row_of(from, tile) == dy
                    && column_of(from, tile) < dx))),
            decreases span + 1 - dx,
        {
            let distance: u32 = (if dx < 0 {
                -dx
            } else {
                dx
            }) as u32 + (if dy < 0 {
                -dy
            } else {
                dy
            }) as u32;
            let ghost before = band@;
            if distance >= minimum {
                if let Some(tile) = offset(from, dx as i16, dy as i16) {
                    if on_board(tile, width, height) {
                        band.push(tile);
                    }
                }
            }
            proof {
                assert forall|tile: Pos| #[trigger] contains_tile(band@, tile) <==> (in_band(from, tile, minimum, radius as int)
                    && spec_on_board(tile, width, height) && (row_of(from, tile) < dy || (row_of(from, tile) == dy
                    && column_of(from, tile) < dx + 1))) by {
                    if row_of(from, tile) == dy && column_of(from, tile) == dx {
                        assert(spec_offset(from, dx as int, dy as int) == Some(tile));
                        assert(manhattan(from, tile) == distance);
                    }
                    if band@.len() > before.len() {
                        assert(band@ == before.push(band@.last()));
                        if contains_tile(band@, tile) && !contains_tile(before, tile) {
                            let k = choose|k: int| 0 <= k < band@.len() && band@[k] == tile;
                            assert(k == before.len());
                        }
                        if contains_tile(before, tile) {
                            let k = choose|k: int| 0 <= k < before.len() && before[k] == tile;
                            assert(band@[k] == tile);
                        }
                    }
                }
            }
            dx = dx + 1;
        }
        proof {
            assert forall|tile: Pos| #[trigger] contains_tile(band@, tile) <==> (in_band(from, tile, minimum, radius as int)
                && spec_on_board(tile, width, height) && row_of(from, tile) < dy + 1) by {
                if in_band(from, tile, minimum, radius as int) && row_of(from, tile) == dy {
                    assert(abs(column_of(from, tile)) + abs(row_of(from, tile)) == manhattan(from, tile));
                }
            }
        }
        dy = dy + 1;
    }
    proof {
        assert forall|tile: Pos| #[trigger] contains_tile(band@, tile) <==> (in_band(from, tile, minimum, radius as int)
            && spec_on_board(tile, width, height)) by {
            if in_band(from, tile, minimum, radius as int) {
                assert(abs(column_of(from, tile)) + abs(row_of(from, tile)) == manhattan(from, tile));
            }
        }
    }
    band
}

/// Which sides of `tile` the outline of `field` runs along: 0 above, 1 to the
/// left, 2 below, 3 to the right. A side is outlined where the neighbour
/// across it is outside the field, or off the top or left of the board.
pub open spec fn spec_boundary_edges(tile: Pos, field: Seq<Pos>) -> Seq<usize> {
    let up = tile.y > 0 && field.contains(Pos { x: tile.x, y: (tile.y - 1) as u8 });
    let left = tile.x > 0 && field.contains(Pos { x: (tile.x - 1) as u8, y: tile.y });
    let down = field.contains(Pos { x: tile.x, y: (tile.y + 1) as u8 });
    let right = field.contains(Pos { x: (tile.x + 1) as u8, y: tile.y });
    (if !up { seq![0usize] } else { Seq::empty() }) + (if !left { seq![1usize] } else { Seq::empty() }) + (if !down {
        seq![2usize]
    } else {
        Seq::empty()
    }) + (if !right { seq![3usize] } else { Seq::empty() })
}

fn holds_tile(field: &[Pos], tile: Pos) -> (found: bool)
    ensures
        found == field@.contains(tile),
{
    let mut i: usize = 0;
    while i < field.len()
        invariant
            0 <= i <= field@.len(),
            forall|j: int| 0 <= j < i ==> field@[j] != tile,
        decreases field@.len() - i,
    {
        if field[i] == tile {
            proof {
                assert(field@[i as int] == tile);
            }
            return true;
        }
        i = i + 1;
    }
    false
}

/// The sides of `tile` that the outline of `field` runs along. The tile is
/// not on the last row or column a coordinate can name.
pub fn boundary_edges(tile: Pos, field: &[Pos]) -> (edges: Vec<usize>)
    requires
        tile.x < 255,
        tile.y < 255,
    ensures
        edges@ == spec_boundary_edges(tile, field@),
{
    let up = tile.y > 0 && holds_tile(field, Pos { x: tile.x, y: tile.y - 1 });
    let left = tile.x > 0 && holds_tile(field, Pos { x: tile.x - 1, y: tile.y });
    let down = holds_tile(field, Pos { x: tile.x, y: tile.y + 1 });
    let right = holds_tile(field, Pos { x: tile.x + 1, y: tile.y });
    let mut edges: Vec<usize> = Vec::new();
    if !up {
        edges.push(0);
    }
    if !left {
        edges.push(1);
    }
    if !down {
        edges.push(2);
    }
    if !right {
        edges.push(3);
    }
    proof {
        assert(edges@ =~= spec_boundary_edges(tile, field@));
    }
    edges
}

/// A direct's band is measured from its own tile whatever its stops, and
/// from each stop once.
pub proof fn lemma_a_direct_measures_from_where_it_stands(origin: Pos, stops: Seq<Pos>, minimum: u32)
    requires
        minimum <= 1,
    ensures
        spec_band_sources(minimum, false, origin, stops).contains(origin),
        forall|p: Pos| stops.contains(p) ==> spec_band_sources(minimum, false, origin, stops).contains(p),
{
    let sources = spec_band_sources(minimum, false, origin, stops);
    if !stops.contains(origin) {
        assert(sources[stops.len() as int] == origin);
        assert forall|p: Pos| stops.contains(p) implies sources.contains(p) by {
            let k = choose|k: int| 0 <= k < stops.len() && stops[k] == p;
            assert(sources[k] == p);
        }
    }
}

/// A tile surrounded by its field on all four sides has no outline.
pub proof fn lemma_an_inner_tile_has_no_outline(tile: Pos, field: Seq<Pos>)
    requires
        0 < tile.x < 255,
        0 < tile.y < 255,
        field.contains(Pos { x: tile.x, y: (tile.y - 1) as u8 }),
        field.contains(Pos { x: (tile.x - 1) as u8, y: tile.y }),
        field.contains(Pos { x: tile.x, y: (tile.y + 1) as u8 }),
        field.contains(Pos { x: (tile.x + 1) as u8, y: tile.y }),
    ensures
        spec_boundary_edges(tile, field).len() == 0,
{
}

/// The subject after a tap while a replay is stepped through: the unit on
/// the tapped tile, except that tapping the unit being read lets go of it,
/// and a tap on an empty tile lets go of everything.
pub open spec fn spec_tap_subject(inspected: Option<u64>, tapped_unit: Option<u64>) -> Option<u64> {
    match tapped_unit {
        Some(e) => if inspected == Some(e) {
            None
        } else {
            Some(e)
        },
        None => None,
    }
}

pub fn read_unit_under_replay_tap(inspected: Option<u64>, tapped_unit: Option<u64>) -> (next: Option<u64>)
    ensures
        next == spec_tap_subject(inspected, tapped_unit),
{
    match tapped_unit {
        Some(e) => if inspected == Some(e) {
            None
        } else {
            Some(e)
        },
        None => None,
    }
}

/// The turn (day and seat) the reading was opened in, and the subject, after
/// the turn is read off the board. Passing to another turn puts the reading
/// down; the first turn the client sees is no boundary.
pub open spec fn spec_turn_boundary(
    opened_in: Option<(u32, Option<u32>)>,
    now: Option<(u32, Option<u32>)>,
    inspected: Option<u64>,
) -> (Option<(u32, Option<u32>)>, Option<u64>) {
    match now {
        None => (opened_in, inspected),
        Some(n) => if opened_in == Some(n) {
            (opened_in, inspected)
        } else if opened_in is Some {
            (Some(n), None)
        } else {
            (Some(n), inspected)
        },
    }
}

pub fn clear_inspection_on_turn_boundary(
    opened_in: Option<(u32, Option<u32>)>,
    now: Option<(u32, Option<u32>)>,
    inspected: Option<u64>,
) -> (next: (Option<(u32, Option<u32>)>, Option<u64>))
    ensures
        next == spec_turn_boundary(opened_in, now, inspected),
{
    let n = match now {
        Some(n) => n,
        None => return (opened_in, inspected),
    };
    let same = match opened_in {
        Some(o) => o.0 == n.0 && o.1 == n.1,
        None => false,
    };
    if same {
        return (opened_in, inspected);
    }
    match opened_in {
        Some(_) => (Some(n), None),
        None => (Some(n), inspected),
    }
}

/// The tile the fields are read from: the proposed destination while a
/// route is held open for the inspected unit, and where it stands otherwise.
pub fn inspection_vantage(inspected: u64, origin: Pos, pending: Option<(u64, Pos)>) -> (vantage: Pos)
    ensures
        vantage == match pending {
            Some((unit, destination)) => if unit == inspected {
                destination
            } else {
                origin
            },
            None => origin,
        },
{
    match pending {
        Some((unit, destination)) => if unit == inspected {
            destination
        } else {
            origin
        },
        None => origin,
    }
}

/// Reading the same unit twice lets go of it, and a third tap reads it
/// again.
pub proof fn lemma_a_second_tap_lets_go(inspected: Option<u64>, unit: u64)
    requires
        inspected != Some(unit),
    ensures
        spec_tap_subject(inspected, Some(unit)) == Some(unit),
        spec_tap_subject(spec_tap_subject(inspected, Some(unit)), Some(unit)) is None,
        spec_tap_subject(spec_tap_subject(spec_tap_subject(inspected, Some(unit)), Some(unit)), Some(unit)) == Some(unit),
{
}

/// A reading stays up for the rest of its turn and goes when the turn
/// passes.
pub proof fn lemma_a_reading_lasts_its_turn(turn: (u32, Option<u32>), next_turn: (u32, Option<u32>), inspected: Option<u64>)
    requires
        turn != next_turn,
    ensures
        spec_turn_boundary(Some(turn), Some(turn), inspected) == (Some(turn), inspected),
        spec_turn_boundary(Some(turn), Some(next_turn), inspected) == (Some(next_turn), None::<u64>),
        spec_turn_boundary(None, Some(turn), inspected) == (Some(turn), inspected),
{
}

} // verus!

verus! {

/// What the rules answer about where a unit can go: its movement budget,
/// every tile it can get to, and the tiles it can come to rest on.
#[derive(Debug)]
pub struct MovementAnswer {
    pub budget: u64,
    pub reach: Vec<Pos>,
    pub destinations: Vec<Pos>,
}

/// What the rules answer about what a unit sees from its vantage: its
/// effective sight, the tiles it reveals, and the tiles in its sight that
/// still conceal a ground unit.
#[derive(Debug)]
pub struct VisionAnswer {
    pub sight: u64,
    pub seen: Vec<Pos>,
    pub blind: Vec<Pos>,
}

/// What the rules say of a unit's kind: its firing band and its sight.
#[derive(Clone, Copy, Debug, PartialEq, Eq, Structural)]
pub struct UnitKindFacts {
    pub range_min: u32,
    pub range_max: u32,
    pub base_vision: u32,
}

/// Effective sight, and what the unit's kind sees before commander, terrain
/// and weather.
#[derive(Clone, Copy, Debug, PartialEq, Eq, Structural)]
pub struct InspectedSight {
    pub tiles: u32,
    pub base: u32,
}

/// The readout's numbers: movement points, the firing band (absent for a
/// unit with no weapon that reaches) and sight (absent without fog).
#[derive(Clone, Copy, Debug, PartialEq, Eq)]
pub struct InspectionReadout {
    pub movement: u32,
    pub range: Option<(u32, u32)>,
    pub sight: Option<InspectedSight>,
}

/// How far the inspected unit reaches with each of its senses. The tiles of
/// each field are listed in no particular order.
#[derive(Debug)]
pub struct InspectionFields {
    /// Where the unit stands, absent when nothing is inspected.
    pub origin: Option<Pos>,
    /// The tile the unit is read from.
    pub vantage: Option<Pos>,
    pub movement: Vec<Pos>,
    pub fire: Vec<Pos>,
    pub vision: Vec<Pos>,
    pub blind: Vec<Pos>,
    pub readout: Option<InspectionReadout>,
    /// Whether the selection already paints this unit's movement.
    pub movement_drawn_by_selection: bool,
}

impl InspectionFields {
    pub fn new() -> (fields: InspectionFields)
        ensures
            fields.is_empty(),
    {
        InspectionFields {
            origin: None,
            vantage: None,
            movement: Vec::new(),
            fire: Vec::new(),
            vision: Vec::new(),
            blind: Vec::new(),
            readout: None,
            movement_drawn_by_selection: false,
        }
    }

    pub open spec fn is_empty(&self) -> bool {
        &&& self.origin is None
        &&& self.vantage is None
        &&& self.movement@.len() == 0
        &&& self.fire@.len() == 0
        &&& self.vision@.len() == 0
        &&& self.blind@.len() == 0
        &&& self.readout is None
        &&& !self.movement_drawn_by_selection
    }

    /// Everywhere the unit's sight reaches: what it reveals, and what it
    /// watches without seeing into. Each tile is listed once.
    pub fn sight_reach(&self) -> (reach: Vec<Pos>)
        ensures
            forall|tile: Pos| #[trigger] reach@.contains(tile) <==> (self.vision@.contains(tile) || self.blind@.contains(tile)),
            no_repeats(reach@),
    {
        let mut reach: Vec<Pos> = Vec::new();
        add_missing(&mut reach, self.vision.as_slice());
        add_missing(&mut reach, self.blind.as_slice());
        reach
    }
}

/// No tile is listed twice.
pub open spec fn no_repeats(tiles: Seq<Pos>) -> bool {
    forall|a: int, b: int| 0 <= a < b < tiles.len() ==> tiles[a] != tiles[b]
}

/// Whether `tile` is among the first `n` tiles of `more`.
pub open spec fn listed_before(more: Seq<Pos>, n: int, tile: Pos) -> bool {
    exists|j: int| 0 <= j < n && more[j] == tile
}

/// Put each tile of `more` that `tiles` lacks after it.
fn add_missing(tiles: &mut Vec<Pos>, more: &[Pos])
    requires
        no_repeats(old(tiles)@),
    ensures
        no_repeats(final(tiles)@),
        forall|tile: Pos| #[trigger] final(tiles)@.contains(tile) <==> (old(tiles)@.contains(tile) || more@.contains(tile)),
{
    let mut i: usize = 0;
    while i < more.len()
        invariant
            0 <= i <= more@.len(),
            no_repeats(tiles@),
            forall|tile: Pos| #[trigger] tiles@.contains(tile) <==> (old(tiles)@.contains(tile) || listed_before(more@, i as int, tile)),
        decreases more@.len() - i,
    {
        let tile = more[i];
        let ghost before = tiles@;
        if !holds_tile(tiles.as_slice(), tile) {
            tiles.push(tile);
        }
        proof {
            assert forall|t: Pos| #[trigger] tiles@.contains(t) <==> (old(tiles)@.contains(t) || listed_before(more@, i + 1, t)) by {
                if tiles@.len() > before.len() {
                    assert(tiles@ == before.push(tile));
                    if tiles@.contains(t) && t != tile {
                        let k = choose|k: int| 0 <= k < tiles@.len() && tiles@[k] == t;
                        assert(before[k] == t);
                    }
                    if before.contains(t) {
                        let k = choose|k: int| 0 <= k < before.len() && before[k] == t;
                        assert(tiles@[k] == t);
                    }
                    assert(tiles@[before.len() as int] == tile);
                }
                if listed_before(more@, i + 1, t) && !listed_before(more@, i as int, t) {
                    let k = choose|k: int| 0 <= k < i + 1 && more@[k] == t;
                    assert(k == i);
                }
                assert(more@[i as int] == tile);
            }
        }
        i = i + 1;
    }
    proof {
        assert forall|t: Pos| #[trigger] more@.contains(t) <==> listed_before(more@, more@.len() as int, t) by {
            if more@.contains(t) {
                let k = choose|k: int| 0 <= k < more@.len() && more@[k] == t;
                assert(listed_before(more@, more@.len() as int, t));
            }
        }
    }
}

/// The tiles of `reach` other than `origin`, in order.
pub open spec fn without(reach: Seq<Pos>, origin: Pos) -> Seq<Pos>
    decreases reach.len(),
{
    if reach.len() == 0 {
        Seq::empty()
    } else if reach.last() == origin {
        without(reach.drop_last(), origin)
    } else {
        without(reach.drop_last(), origin).push(reach.last())
    }
}

/// Whether some source's band holds `tile`, on the board.
pub open spec fn in_fire(sources: Seq<Pos>, tile: Pos, minimum: u32, maximum: u32, width: u8, height: u8) -> bool {
    spec_on_board(tile, width, height) && exists|k: int|
        0 <= k < sources.len() && #[trigger] in_band(sources[k], tile, minimum, band_radius(maximum))
}

/// A count the rules give as a `u64`, read into a `u32`; the largest `u32`
/// for more.
pub open spec fn clamp_count(value: u64) -> u32 {
    if value <= u32::MAX {
        value as u32
    } else {
        u32::MAX
    }
}

fn clamp_u64(value: u64) -> (clamped: u32)
    ensures
        clamped == clamp_count(value),
{
    if value <= 4294967295u64 {
        value as u32
    } else {
        4294967295u32
    }
}

/// The firing band of the unit at `origin`, as the readout gives it: absent
/// for a unit with no weapon that reaches.
pub open spec fn spec_range(kind: UnitKindFacts) -> Option<(u32, u32)> {
    if kind.range_max > 0 {
        Some((kind.range_min, kind.range_max))
    } else {
        None
    }
}

pub open spec fn spec_readout(movement: Option<&MovementAnswer>, vision: Option<&VisionAnswer>, kind: UnitKindFacts) -> InspectionReadout {
    InspectionReadout {
        movement: match movement {
            Some(m) => clamp_count(m.budget),
            None => 0,
        },
        range: spec_range(kind),
        sight: match vision {
            Some(v) => Some(InspectedSight { tiles: clamp_count(v.sight), base: kind.base_vision }),
            None => None,
        },
    }
}

/// The tiles a unit's band is measured from, given what it can stop on.
pub open spec fn fire_sources(movement: Option<&MovementAnswer>, commanded: bool, origin: Pos, kind: UnitKindFacts) -> Seq<Pos> {
    if kind.range_max > 0 {
        spec_band_sources(
            kind.range_min,
            commanded,
            origin,
            match movement {
                Some(m) => m.destinations@,
                None => Seq::empty(),
            },
        )
    } else {
        Seq::empty()
    }
}

/// Add to `into` everything the unit at `origin` reaches.
///
/// `described` says whether the viewer's projection describes the unit on
/// that tile; one it does not leaves the fields as they were, since an empty
/// field says less than a wrong one. `movement` is the rules' movement answer
/// (absent where they give none) and `vision` their sight answer from the
/// vantage (absent in a match without fog, or where they give none). `kind`
/// is absent where the unit's kind cannot be read: the fields then hold
/// movement and sight and no readout. Movement covers every tile the unit
/// can get to but its own; the firing band is measured from the tiles
/// `band_sources` names.
pub fn collect_fields(
    into: &mut InspectionFields,
    origin: Pos,
    commanded: bool,
    described: bool,
    movement: Option<&MovementAnswer>,
    vision: Option<&VisionAnswer>,
    kind: Option<UnitKindFacts>,
    width: u8,
    height: u8,
)
    requires
        no_repeats(old(into).fire@),
    ensures
        final(into).origin == old(into).origin,
        final(into).vantage == old(into).vantage,
        final(into).movement_drawn_by_selection == old(into).movement_drawn_by_selection,
        no_repeats(final(into).fire@),
        !described ==> {
            &&& final(into).movement@ == old(into).movement@
            &&& final(into).fire@ == old(into).fire@
            &&& final(into).vision@ == old(into).vision@
            &&& final(into).blind@ == old(into).blind@
            &&& final(into).readout == old(into).readout
        },
        described ==> {
            &&& final(into).movement@ == old(into).movement@ + match movement {
                Some(m) => without(m.reach@, origin),
                None => Seq::empty(),
            }
            &&& final(into).vision@ == old(into).vision@ + match vision {
                Some(v) => v.seen@,
                None => Seq::empty(),
            }
            &&& final(into).blind@ == old(into).blind@ + match vision {
                Some(v) => v.blind@,
                None => Seq::empty(),
            }
            &&& match kind {
                None => {
                    &&& final(into).fire@ == old(into).fire@
                    &&& final(into).readout == old(into).readout
                },
                Some(k) => {
                    &&& forall|tile: Pos| #[trigger] final(into).fire@.contains(tile) <==> (old(into).fire@.contains(tile)
                        || in_fire(fire_sources(movement, commanded, origin, k), tile, k.range_min, k.range_max, width, height))
                    &&& final(into).readout == Some(spec_readout(movement, vision, k))
                },
            }
        },
{
    if !described {
        return;
    }
    let mut movement_points: u32 = 0;
    let mut stops: Vec<Pos> = Vec::new();
    match movement {
        Some(m) => {
            movement_points = clamp_u64(m.budget);
            append_without(&mut into.movement, m.reach.as_slice(), origin);
            let mut i: usize = 0;
            while i < m.destinations.len()
                invariant
                    0 <= i <= m.destinations@.len(),
                    stops@ == m.destinations@.take(i as int),
                decreases m.destinations@.len() - i,
            {
                proof {
                    assert(m.destinations@.take(i + 1) =~= m.destinations@.take(i as int).push(m.destinations@[i as int]));
                }
                stops.push(m.destinations[i]);
                i = i + 1;
            }
            proof {
                assert(m.destinations@.take(m.destinations@.len() as int) =~= m.destinations@);
            }
        },
        None => {
            proof {
                assert(into.movement@ =~= old(into).movement@ + Seq::<Pos>::empty());
            }
        },
    }
    let mut sight: Option<u32> = None;
    match vision {
        Some(v) => {
            sight = Some(clamp_u64(v.sight));
            append_all(&mut into.vision, v.seen.as_slice());
            append_all(&mut into.blind, v.blind.as_slice());
        },
        None => {
            proof {
                assert(into.vision@ =~= old(into).vision@ + Seq::<Pos>::empty());
                assert(into.blind@ =~= old(into).blind@ + Seq::<Pos>::empty());
            }
        },
    }
    let k = match kind {
        Some(k) => k,
        None => return,
    };
    let range: Option<(u32, u32)> = if k.range_max > 0 {
        Some((k.range_min, k.range_max))
    } else {
        None
    };
    if k.range_max > 0 {
        let sources = band_sources(k.range_min, commanded, origin, stops.as_slice());
        add_bands(&mut into.fire, sources.as_slice(), k.range_min, k.range_max, width, height);
    } else {
        proof {
            assert forall|tile: Pos| #[trigger] into.fire@.contains(tile) <==> (old(into).fire@.contains(tile)
                || in_fire(Seq::empty(), tile, k.range_min, k.range_max, width, height)) by {
            }
        }
    }
    into.readout = Some(InspectionReadout {
        movement: movement_points,
        range,
        sight: match sight {
            Some(tiles) => Some(InspectedSight { tiles, base: k.base_vision }),
            None => None,
        },
    });
}

fn append_all(tiles: &mut Vec<Pos>, more: &[Pos])
    ensures
        final(tiles)@ == old(tiles)@ + more@,
{
    let mut i: usize = 0;
    while i < more.len()
        invariant
            0 <= i <= more@.len(),
            tiles@ == old(tiles)@ + more@.take(i as int),
        decreases more@.len() - i,
    {
        proof {
            assert(more@.take(i + 1) =~= more@.take(i as int).push(more@[i as int]));
        }
        tiles.push(more[i]);
        i = i + 1;
    }
    proof {
        assert(more@.take(more@.len() as int) =~= more@);
    }
}

fn append_without(tiles: &mut Vec<Pos>, reach: &[Pos], origin: Pos)
    ensures
        final(tiles)@ == old(tiles)@ + without(reach@, origin),
{
    let mut i: usize = 0;
    while i < reach.len()
        invariant
            0 <= i <= reach@.len(),
            tiles@ == old(tiles)@ + without(reach@.take(i as int), origin),
        decreases reach@.len() - i,
    {
        proof {
            assert(reach@.take(i + 1).drop_last() =~= reach@.take(i as int));
            assert(reach@.take(i + 1).last() == reach@[i as int]);
        }
        if reach[i] != origin {
            tiles.push(reach[i]);
        }
        proof {
            assert(tiles@ =~= old(tiles)@ + without(reach@.take(i + 1), origin));
        }
        i = i + 1;
    }
    proof {
        assert(reach@.take(reach@.len() as int) =~= reach@);
    }
}

/// Add every tile of each source's band that `fire` does not list yet.
fn add_bands(fire: &mut Vec<Pos>, sources: &[Pos], minimum: u32, maximum: u32, width: u8, height: u8)
    requires
        no_repeats(old(fire)@),
    ensures
        no_repeats(final(fire)@),
        forall|tile: Pos| #[trigger] final(fire)@.contains(tile) <==> (old(fire)@.contains(tile)
            || in_fire(sources@, tile, minimum, maximum, width, height)),
{
    let mut i: usize = 0;
    while i < sources.len()
        invariant
            0 <= i <= sources@.len(),
            no_repeats(fire@),
            forall|tile: Pos| #[trigger] fire@.contains(tile) <==> (old(fire)@.contains(tile)
                || in_fire(sources@.take(i as int), tile, minimum, maximum, width, height)),
        decreases sources@.len() - i,
    {
        let band = collect_band(sources[i], minimum, maximum, width, height);
        let ghost before = fire@;
        add_missing(fire, band.as_slice());
        proof {
            assert forall|tile: Pos| #[trigger] fire@.contains(tile) <==> (old(fire)@.contains(tile)
                || in_fire(sources@.take(i + 1), tile, minimum, maximum, width, height)) by {
                assert(contains_tile(band@, tile) == band@.contains(tile));
                if in_fire(sources@.take(i + 1), tile, minimum, maximum, width, height) {
                    let k = choose|k: int| 0 <= k < i + 1 && #[trigger] in_band(sources@.take(i + 1)[k], tile, minimum, band_radius(maximum));
                    if k < i {
                        assert(sources@.take(i as int)[k] == sources@.take(i + 1)[k]);
                        assert(in_fire(sources@.take(i as int), tile, minimum, maximum, width, height));
                    }
                }
                if in_fire(sources@.take(i as int), tile, minimum, maximum, width, height) {
                    let k = choose|k: int| 0 <= k < i && #[trigger] in_band(sources@.take(i as int)[k], tile, minimum, band_radius(maximum));
                    assert(sources@.take(i + 1)[k] == sources@.take(i as int)[k]);
                }
                if band@.contains(tile) {
                    assert(sources@.take(i + 1)[i as int] == sources@[i as int]);
                    assert(in_band(sources@.take(i + 1)[i as int], tile, minimum, band_radius(maximum)));
                }
                if in_band(sources@[i as int], tile, minimum, band_radius(maximum)) && spec_on_board(tile, width, height) {
                    assert(contains_tile(band@, tile));
                }
            }
        }
        i = i + 1;
    }
    proof {
        assert(sources@.take(sources@.len() as int) =~= sources@);
    }
}

/// The fields after the subject, the selection or a held route changed.
///
/// With nothing inspected the fields are emptied (they already are when
/// they have no origin). Otherwise they are worked out afresh: for a subject
/// standing at `origin`, read from the destination of a route held open for
/// it (from where it stands otherwise), with its movement drawn by the
/// selection when the selection holds it, and everything else added by
/// `collect_fields` from the rules' answers for that vantage. A subject with
/// no tile leaves the fields empty.
pub fn update_inspection_fields(
    fields: &mut InspectionFields,
    inspected: Option<u64>,
    origin: Option<Pos>,
    selected: Option<u64>,
    pending: Option<(u64, Pos)>,
    described: bool,
    movement: Option<&MovementAnswer>,
    vision: Option<&VisionAnswer>,
    kind: Option<UnitKindFacts>,
    width: u8,
    height: u8,
)
    ensures
        inspected is None ==> if old(fields).origin is Some {
            final(fields).is_empty()
        } else {
            *final(fields) == *old(fields)
        },
        inspected is Some && origin is None ==> final(fields).is_empty(),
        match (inspected, origin) {
            (Some(entity), Some(at)) => {
                let vantage = match pending {
                    Some((unit, destination)) => if unit == entity {
                        destination
                    } else {
                        at
                    },
                    None => at,
                };
                let drawn = selected == Some(entity);
                &&& final(fields).origin == Some(at)
                &&& final(fields).vantage == Some(vantage)
                &&& final(fields).movement_drawn_by_selection == drawn
                &&& no_repeats(final(fields).fire@)
                &&& !described ==> {
                    &&& final(fields).movement@.len() == 0
                    &&& final(fields).fire@.len() == 0
                    &&& final(fields).vision@.len() == 0
                    &&& final(fields).blind@.len() == 0
                    &&& final(fields).readout is None
                }
                &&& described ==> {
                    &&& final(fields).movement@ == match movement {
                        Some(m) => without(m.reach@, at),
                        None => Seq::empty(),
                    }
                    &&& final(fields).vision@ == match vision {
                        Some(v) => v.seen@,
                        None => Seq::empty(),
                    }
                    &&& final(fields).blind@ == match vision {
                        Some(v) => v.blind@,
                        None => Seq::empty(),
                    }
                    &&& match kind {
                        None => final(fields).fire@.len() == 0 && final(fields).readout is None,
                        Some(k) => {
                            &&& forall|tile: Pos| #[trigger] final(fields).fire@.contains(tile) <==> in_fire(
                                fire_sources(movement, drawn, at, k),
                                tile,
                                k.range_min,
                                k.range_max,
                                width,
                                height,
                            )
                            &&& final(fields).readout == Some(spec_readout(movement, vision, k))
                        },
                    }
                }
            },
            _ => true,
        },
{
    let entity = match inspected {
        Some(e) => e,
        None => {
            if fields.origin.is_some() {
                *fields = InspectionFields::new();
            }
            return;
        },
    };
    let mut next = InspectionFields::new();
    if let Some(at) = origin {
        let vantage = inspection_vantage(entity, at, pending);
        let drawn = match selected {
            Some(s) => s == entity,
            None => false,
        };
        next.origin = Some(at);
        next.vantage = Some(vantage);
        next.movement_drawn_by_selection = drawn;
        proof {
            assert(next.movement@ =~= Seq::<Pos>::empty());
            assert(next.vision@ =~= Seq::<Pos>::empty());
            assert(next.blind@ =~= Seq::<Pos>::empty());
        }
        collect_fields(&mut next, at, drawn, described, movement, vision, kind, width, height);
        proof {
            assert(Seq::<Pos>::empty() + next.movement@ =~= next.movement@);
        }
    }
    *fields = next;
}

} // verus!
