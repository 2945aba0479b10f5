//! Tile coordinates on the board.
use vstd::prelude::*;

verus! {

/// A tile on the board: `x` columns right and `y` rows down of the top-left
/// tile.
#[derive(Clone, Copy, Debug, PartialEq, Eq, Structural, Hash)]
pub struct Pos {
    pub x: u8,
    pub y: u8,
}

impl Pos {
    pub fn new(x: u8, y: u8) -> (p: Pos)
        ensures
            p.x == x,
            p.y == y,
    {
        Pos { x, y }
    }
}

} // verus!

verus! {

/// An army, by its AWBW faction id.
#[derive(Clone, Copy, Debug, PartialEq, Eq, Structural, Hash)]
pub struct PlayerFaction(pub u8);

} // verus!

verus! {

/// Whether `tile` lies on a board `width` tiles wide and `height` tall.
pub open spec fn spec_on_board(tile: Pos, width: u8, height: u8) -> bool {
    tile.x < width && tile.y < height
}

/// Whether the board holds this tile at all.
pub fn on_board(tile: Pos, width: u8, height: u8) -> (held: bool)
    ensures
        held == spec_on_board(tile, width, height),
{
    tile.x < width && tile.y < height
}

/// The coordinate `dx` right and `dy` down of `from`, when there is one: a
/// tile off the top or left edge, or past 255, has no coordinate at all.
pub open spec fn spec_offset(from: Pos, dx: int, dy: int) -> Option<Pos> {
    let x = from.x as int + dx;
    let y = from.y as int + dy;
    if 0 <= x <= 255 && 0 <= y <= 255 {
        Some(Pos { x: x as u8, y: y as u8 })
    } else {
        None
    }
}

/// The coordinate `dx` right and `dy` down of `from`, where one exists.
///
/// The board is anchored at the origin, so a tile off the top or left edge
/// has no coordinate and is dropped rather than clamped onto the far edge.
pub fn offset(from: Pos, dx: i16, dy: i16) -> (to: Option<Pos>)
    ensures
        to == spec_offset(from, dx as int, dy as int),
{
    let x: i32 = from.x as i32 + dx as i32;
    let y: i32 = from.y as i32 + dy as i32;
    if 0 <= x && x <= 255 && 0 <= y && y <= 255 {
        Some(Pos { x: x as u8, y: y as u8 })
    } else {
        None
    }
}

/// Reading order: row by row from the top, left to right within a row.
pub open spec fn reads_before(a: Pos, b: Pos) -> bool {
    a.y < b.y || (a.y == b.y && a.x < b.x)
}

pub fn pos_reads_before(a: Pos, b: Pos) -> (before: bool)
    ensures
        before == reads_before(a, b),
{
    a.y < b.y || (a.y == b.y && a.x < b.x)
}

/// Map order, the order tiles are compared in when a tie must be broken:
/// by column, then by row.
pub open spec fn map_order_before(a: Pos, b: Pos) -> bool {
    a.x < b.x || (a.x == b.x && a.y < b.y)
}

pub open spec fn manhattan(a: Pos, b: Pos) -> int {
    (if a.x >= b.x { a.x - b.x } else { b.x - a.x }) + (if a.y >= b.y { a.y - b.y } else { b.y - a.y })
}

/// The tiles sharing an edge with this one, in map order: above, left,
/// below, right. Positions are unsigned, so the neighbours off the top and
/// left edges are dropped rather than clamped.
pub open spec fn spec_orthogonal_neighbors(p: Pos) -> Seq<Pos> {
    let up: Seq<Pos> = if p.y > 0 { seq![Pos { x: p.x, y: (p.y - 1) as u8 }] } else { Seq::empty() };
    let left: Seq<Pos> = if p.x > 0 { seq![Pos { x: (p.x - 1) as u8, y: p.y }] } else { Seq::empty() };
    let down: Seq<Pos> = if p.y < 255 { seq![Pos { x: p.x, y: (p.y + 1) as u8 }] } else { Seq::empty() };
    let right: Seq<Pos> = if p.x < 255 { seq![Pos { x: (p.x + 1) as u8, y: p.y }] } else { Seq::empty() };
    up + left + down + right
}

/// The tiles sharing an edge with `p`, in map order.
pub fn orthogonal_neighbors(p: Pos) -> (neighbors: Vec<Pos>)
    ensures
        neighbors@ == spec_orthogonal_neighbors(p),
{
    let mut neighbors: Vec<Pos> = Vec::new();
    if p.y > 0 {
        neighbors.push(Pos { x: p.x, y: p.y - 1 });
    }
    if p.x > 0 {
        neighbors.push(Pos { x: p.x - 1, y: p.y });
    }
    if p.y < 255 {
        neighbors.push(Pos { x: p.x, y: p.y + 1 });
    }
    if p.x < 255 {
        neighbors.push(Pos { x: p.x + 1, y: p.y });
    }
    proof {
        let up: Seq<Pos> = if p.y > 0 { seq![Pos { x: p.x, y: (p.y - 1) as u8 }] } else { Seq::empty() };
        let left: Seq<Pos> = if p.x > 0 { seq![Pos { x: (p.x - 1) as u8, y: p.y }] } else { Seq::empty() };
        let down: Seq<Pos> = if p.y < 255 { seq![Pos { x: p.x, y: (p.y + 1) as u8 }] } else { Seq::empty() };
        let right: Seq<Pos> = if p.x < 255 { seq![Pos { x: (p.x + 1) as u8, y: p.y }] } else { Seq::empty() };
        assert(neighbors@ =~= up + left + down + right);
    }
    neighbors
}

/// Every neighbour is one step away.
pub proof fn lemma_neighbors_are_one_step_away(p: Pos)
    ensures
        forall|i: int|
            0 <= i < spec_orthogonal_neighbors(p).len() ==> manhattan(
                p,
                #[trigger] spec_orthogonal_neighbors(p)[i],
            ) == 1,
{
}

/// A tile as the server and the replay archive name it, by column and row.
#[derive(Clone, Copy, Debug, PartialEq, Eq, Structural)]
pub struct TilePosition {
    pub x: usize,
    pub y: usize,
}

} // verus!
