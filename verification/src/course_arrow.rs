//! The arrow drawn along a route on the board.
use vstd::prelude::*;
use crate::board::Pos;

verus! {

/// Which arrow sprite a tile of the route is drawn with.
#[derive(Clone, Copy, Debug, PartialEq, Eq, Structural)]
pub enum CourseArrowSpriteKind {
    Body,
    Curved,
    Tip,
}

impl CourseArrowSpriteKind {
    pub open spec fn spec_sprite_name(self) -> Seq<char> {
        match self {
            CourseArrowSpriteKind::Body => "Arrow_Body.png"@,
            CourseArrowSpriteKind::Curved => "Arrow_Curved.png"@,
            CourseArrowSpriteKind::Tip => "Arrow_Tip.png"@,
        }
    }

    /// The atlas name of the sprite.
    pub fn sprite_name(self) -> (name: &'static str)
        ensures
            name@ == self.spec_sprite_name(),
    {
        match self {
            CourseArrowSpriteKind::Body => "Arrow_Body.png",
            CourseArrowSpriteKind::Curved => "Arrow_Curved.png",
            CourseArrowSpriteKind::Tip => "Arrow_Tip.png",
        }
    }
}

} // verus!

verus! {

/// One arrow sprite placed on the route.
///
/// `rotation_degrees` is a whole number of degrees, one of `0`, `90`, `-90`
/// and `180`.
#[derive(Clone, Copy, Debug, PartialEq, Eq, Structural)]
pub struct CourseArrowSpawn {
    pub kind: CourseArrowSpriteKind,
    pub position: Pos,
    pub rotation_degrees: i16,
    /// Index in the source path; replay presentation uses it for its stagger
    /// and visibility mask.
    pub path_index: usize,
}

/// The rotation of the tip that arrives at `position` from `previous`.
pub open spec fn tip_rotation(previous: Pos, position: Pos) -> i16 {
    let dx = position.x as int - previous.x as int;
    let dy = position.y as int - previous.y as int;
    if dx > 0 {
        90
    } else if dx < 0 {
        -90i16
    } else if dy > 0 {
        0
    } else {
        180
    }
}

pub open spec fn spec_course_arrow_tip(previous: Pos, position: Pos, path_index: usize) -> CourseArrowSpawn {
    CourseArrowSpawn {
        kind: CourseArrowSpriteKind::Tip,
        position,
        rotation_degrees: tip_rotation(previous, position),
        path_index,
    }
}

/// The sprite drawn on the interior tile `path[index]`, which sits between
/// `path[index - 1]` and `path[index + 1]`; `None` where the three tiles do
/// not turn a corner and do not run straight (a repeated tile).
pub open spec fn interior_spawn(path: Seq<Pos>, index: int) -> Option<CourseArrowSpawn> {
    let previous = path[index - 1];
    let current = path[index];
    let next = path[index + 1];
    let diff_x = next.x as int - previous.x as int;
    let diff_y = next.y as int - previous.y as int;
    if diff_x >= 2 || diff_x <= -2 {
        Some(CourseArrowSpawn {
            kind: CourseArrowSpriteKind::Body,
            position: current,
            rotation_degrees: if diff_x > 0 { 90i16 } else { -90i16 },
            path_index: index as usize,
        })
    } else if diff_y >= 2 || diff_y <= -2 {
        Some(CourseArrowSpawn {
            kind: CourseArrowSpriteKind::Body,
            position: current,
            rotation_degrees: if diff_y > 0 { 180 } else { 0 },
            path_index: index as usize,
        })
    } else {
        let prev_x = current.x as int - previous.x as int;
        let prev_y = current.y as int - previous.y as int;
        let north = prev_y > 0 || current.y as int - next.y as int > 0;
        let east = prev_x < 0 || next.x as int - current.x as int > 0;
        let south = prev_y < 0 || next.y as int - current.y as int > 0;
        let west = prev_x > 0 || current.x as int - next.x as int > 0;
        let rotation: Option<i16> = if west && north {
            Some(0)
        } else if north && east {
            Some(-90i16)
        } else if east && south {
            Some(180)
        } else if south && west {
            Some(90)
        } else {
            None
        };
        match rotation {
            Some(r) => Some(CourseArrowSpawn {
                kind: CourseArrowSpriteKind::Curved,
                position: current,
                rotation_degrees: r,
                path_index: index as usize,
            }),
            None => None,
        }
    }
}

/// The sprites of the interior tiles `path[1]` up to (not including)
/// `path[upto]`, in path order.
pub open spec fn interior_spawns(path: Seq<Pos>, upto: int) -> Seq<CourseArrowSpawn>
    decreases upto,
{
    if upto <= 1 {
        Seq::empty()
    } else {
        let earlier = interior_spawns(path, upto - 1);
        match interior_spawn(path, upto - 1) {
            Some(spawn) => earlier.push(spawn),
            None => earlier,
        }
    }
}

/// The whole arrow along `path`: nothing for a path of fewer than two tiles,
/// otherwise the interior sprites followed by the tip on the last tile.
pub open spec fn spec_course_arrow_spawns(path: Seq<Pos>) -> Seq<CourseArrowSpawn> {
    if path.len() < 2 {
        Seq::empty()
    } else {
        interior_spawns(path, path.len() - 1).push(
            spec_course_arrow_tip(path[path.len() - 2], path[path.len() - 1], (path.len() - 1) as usize),
        )
    }
}

/// The tip of the arrow, pointing from `previous` into `position`.
pub fn course_arrow_tip(previous: Pos, position: Pos, path_index: usize) -> (spawn: CourseArrowSpawn)
    ensures
        spawn == spec_course_arrow_tip(previous, position, path_index),
{
    let rotation_degrees: i16 = if position.x > previous.x {
        90
    } else if position.x < previous.x {
        -90i16
    } else if position.y > previous.y {
        0
    } else {
        180
    };
    CourseArrowSpawn { kind: CourseArrowSpriteKind::Tip, position, rotation_degrees, path_index }
}

fn interior_course_arrow_spawn(path: &[Pos], index: usize) -> (spawn: Option<CourseArrowSpawn>)
    requires
        1 <= index,
        index + 1 < path@.len(),
    ensures
        spawn == interior_spawn(path@, index as int),
{
    let previous = path[index - 1];
    let current = path[index];
    let next = path[index + 1];
    let diff_x: i16 = next.x as i16 - previous.x as i16;
    let diff_y: i16 = next.y as i16 - previous.y as i16;
    if diff_x >= 2 || diff_x <= -2 {
        let rotation_degrees: i16 = if diff_x > 0 { 90 } else { -90 };
        return Some(CourseArrowSpawn {
            kind: CourseArrowSpriteKind::Body,
            position: current,
            rotation_degrees,
            path_index: index,
        });
    }
    if diff_y >= 2 || diff_y <= -2 {
        let rotation_degrees: i16 = if diff_y > 0 { 180 } else { 0 };
        return Some(CourseArrowSpawn {
            kind: CourseArrowSpriteKind::Body,
            position: current,
            rotation_degrees,
            path_index: index,
        });
    }
    let prev_x: i16 = current.x as i16 - previous.x as i16;
    let prev_y: i16 = current.y as i16 - previous.y as i16;
    let north = prev_y > 0 || current.y as i16 - next.y as i16 > 0;
    let east = prev_x < 0 || next.x as i16 - current.x as i16 > 0;
    let south = prev_y < 0 || next.y as i16 - current.y as i16 > 0;
    let west = prev_x > 0 || current.x as i16 - next.x as i16 > 0;
    let rotation_degrees: i16 = if west && north {
        0
    } else if north && east {
        -90i16
    } else if east && south {
        180
    } else if south && west {
        90
    } else {
        return None;
    };
    Some(CourseArrowSpawn {
        kind: CourseArrowSpriteKind::Curved,
        position: current,
        rotation_degrees,
        path_index: index,
    })
}

/// Mode-neutral arrow geometry for a board path.
pub fn build_course_arrow_spawns(path: &[Pos]) -> (spawns: Vec<CourseArrowSpawn>)
    ensures
        spawns@ == spec_course_arrow_spawns(path@),
{
    let len = path.len();
    if len < 2 {
        return Vec::new();
    }
    let mut spawns: Vec<CourseArrowSpawn> = Vec::new();
    let mut index: usize = 1;
    while index < len - 1
        invariant
            len == path@.len(),
            len >= 2,
            1 <= index <= len - 1,
            spawns@ == interior_spawns(path@, index as int),
        decreases len - 1 - index,
    {
        let spawn = interior_course_arrow_spawn(path, index);
        match spawn {
            Some(s) => spawns.push(s),
            None => {},
        }
        index = index + 1;
    }
    spawns.push(course_arrow_tip(path[len - 2], path[len - 1], len - 1));
    spawns
}

} // verus!

verus! {

/// `t` is the tile just above `c`.
pub open spec fn above(t: Pos, c: Pos) -> bool {
    t.x == c.x && t.y + 1 == c.y
}

/// `t` is the tile just below `c`.
pub open spec fn below(t: Pos, c: Pos) -> bool {
    t.x == c.x && t.y == c.y + 1
}

/// `t` is the tile just left of `c`.
pub open spec fn left_of(t: Pos, c: Pos) -> bool {
    t.y == c.y && t.x + 1 == c.x
}

/// `t` is the tile just right of `c`.
pub open spec fn right_of(t: Pos, c: Pos) -> bool {
    t.y == c.y && t.x == c.x + 1
}


/// A route of three tiles `p`, `c`, `n` that turns a corner at `c` is drawn
/// as a curved piece on `c` turned to the two sides the route touches (top
/// and left 0 degrees, top and right -90, right and bottom 180, bottom and
/// left 90), followed by the tip on `n` pointing the way the route last
/// moved (right 90, left -90, down 0, up 180).
pub proof fn lemma_corners_and_tips_point_the_way_the_route_goes(p: Pos, c: Pos, n: Pos)
    ensures
        ({
            let arrow = spec_course_arrow_spawns(seq![p, c, n]);
            let curve = |r: i16| CourseArrowSpawn {
                kind: CourseArrowSpriteKind::Curved,
                position: c,
                rotation_degrees: r,
                path_index: 1,
            };
            let tip = |r: i16| CourseArrowSpawn { kind: CourseArrowSpriteKind::Tip, position: n, rotation_degrees: r, path_index: 2 };
            &&& ((above(p, c) && left_of(n, c)) || (left_of(p, c) && above(n, c))) ==> arrow.len() == 2 && arrow[0]
                == curve(0)
            &&& ((above(p, c) && right_of(n, c)) || (right_of(p, c) && above(n, c))) ==> arrow.len() == 2 && arrow[0]
                == curve(-90i16)
            &&& ((right_of(p, c) && below(n, c)) || (below(p, c) && right_of(n, c))) ==> arrow.len() == 2 && arrow[0]
                == curve(180)
            &&& ((below(p, c) && left_of(n, c)) || (left_of(p, c) && below(n, c))) ==> arrow.len() == 2 && arrow[0]
                == curve(90)
            &&& right_of(n, c) ==> arrow[arrow.len() - 1] == tip(90)
            &&& left_of(n, c) ==> arrow[arrow.len() - 1] == tip(-90i16)
            &&& below(n, c) ==> arrow[arrow.len() - 1] == tip(0)
            &&& above(n, c) ==> arrow[arrow.len() - 1] == tip(180)
        }),
{
    let path = seq![p, c, n];
    assert(path[0] == p && path[1] == c && path[2] == n);
    assert(interior_spawns(path, 1) =~= Seq::empty());
}

/// A route that runs straight through `c` is drawn there with a body piece
/// turned the way it runs: right 90, left -90, down 180, up 0.
pub proof fn lemma_straight_runs_are_drawn_along_their_way(p: Pos, c: Pos, n: Pos)
    ensures
        ({
            let arrow = spec_course_arrow_spawns(seq![p, c, n]);
            let body = |r: i16| CourseArrowSpawn { kind: CourseArrowSpriteKind::Body, position: c, rotation_degrees: r, path_index: 1 };
            &&& (left_of(p, c) && right_of(n, c)) ==> arrow.len() == 2 && arrow[0] == body(90)
            &&& (right_of(p, c) && left_of(n, c)) ==> arrow.len() == 2 && arrow[0] == body(-90i16)
            &&& (above(p, c) && below(n, c)) ==> arrow.len() == 2 && arrow[0] == body(180)
            &&& (below(p, c) && above(n, c)) ==> arrow.len() == 2 && arrow[0] == body(0)
        }),
{
    let path = seq![p, c, n];
    assert(path[0] == p && path[1] == c && path[2] == n);
    assert(interior_spawns(path, 1) =~= Seq::empty());
}

} // verus!
