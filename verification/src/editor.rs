//! The map editor's board logic: turning gestures and keys into edits, and
//! reading what the board holds army by army.
//!
//! What an edit does to the map, where a fold's images land and which
//! buildings pay income are the map rules' answers; they are handed in.
use vstd::prelude::*;
use crate::board::{Pos, PlayerFaction};
use crate::gestures::{DragOwner, GestureReport, PointerGestureKind};

verus! {

/// The edits the pointer and the keyboard ask for.
#[derive(Clone, Copy, Debug, PartialEq, Eq, Structural)]
pub enum EditorCommand {
    /// Open a stroke: everything painted until it ends is one undo step.
    BeginStroke,
    /// Close the stroke in flight.
    EndStroke,
    /// Load the brush that would draw what is on one tile; `ground_only`
    /// asks for the ground under a unit rather than the unit.
    PickBrush { position: Pos, ground_only: bool },
    /// Put the loaded brush on one tile.
    Paint { position: Pos },
    Undo,
    Redo,
}

/// Whether the pointer picks a brush up rather than putting one down: Alt
/// held, and with Shift it asks for the ground.
pub open spec fn spec_eyedropper(alt_held: bool, shift_held: bool) -> Option<bool> {
    if alt_held {
        Some(shift_held)
    } else {
        None
    }
}

pub fn eyedropper(alt_held: bool, shift_held: bool) -> (picking: Option<bool>)
    ensures
        picking == spec_eyedropper(alt_held, shift_held),
{
    if alt_held {
        Some(shift_held)
    } else {
        None
    }
}

/// Who owns the drag after one gesture: a drag that starts over the board
/// without Space held belongs to the brush, and the camera gets every drag
/// back when it ends.
pub open spec fn spec_claim_step(g: GestureReport, space_held: bool, owner: DragOwner) -> DragOwner {
    match g.kind {
        PointerGestureKind::DragStart => if !space_held && g.tile is Some {
            DragOwner::Brush
        } else {
            owner
        },
        PointerGestureKind::DragEnd | PointerGestureKind::DragCancel => DragOwner::Camera,
        _ => owner,
    }
}

pub open spec fn spec_claim(gestures: Seq<GestureReport>, space_held: bool, owner: DragOwner) -> DragOwner
    decreases gestures.len(),
{
    if gestures.len() == 0 {
        owner
    } else {
        spec_claim_step(gestures.last(), space_held, spec_claim(gestures.drop_last(), space_held, owner))
    }
}

/// Claim the drag for the brush so the camera does not pan under it. Space
/// held gives the drag back to the camera.
pub fn claim_drag_for_brush(gestures: &[GestureReport], space_held: bool, owner: DragOwner) -> (claimed: DragOwner)
    ensures
        claimed == spec_claim(gestures@, space_held, owner),
{
    let mut claimed = owner;
    let mut i: usize = 0;
    while i < gestures.len()
        invariant
            0 <= i <= gestures@.len(),
            claimed == spec_claim(gestures@.take(i as int), space_held, owner),
        decreases gestures@.len() - i,
    {
        let g = gestures[i];
        match g.kind {
            PointerGestureKind::DragStart => {
                if !space_held && g.tile.is_some() {
                    claimed = DragOwner::Brush;
                }
            },
            PointerGestureKind::DragEnd | PointerGestureKind::DragCancel => {
                claimed = DragOwner::Camera;
            },
            _ => {},
        }
        proof {
            assert(gestures@.take(i + 1).drop_last() =~= gestures@.take(i as int));
        }
        i = i + 1;
    }
    proof {
        assert(gestures@.take(gestures@.len() as int) =~= gestures@);
    }
    claimed
}

/// The commands one gesture asks for, and whether a stroke is in flight
/// after it.
pub open spec fn spec_paint_step(
    g: GestureReport,
    picking: Option<bool>,
    owner: DragOwner,
    stroke: bool,
) -> (Seq<EditorCommand>, bool) {
    match g.kind {
        PointerGestureKind::Tap => match g.tile {
            None => (Seq::empty(), stroke),
            Some(position) => (
                seq![match picking {
                    Some(ground_only) => EditorCommand::PickBrush { position, ground_only },
                    None => EditorCommand::Paint { position },
                }],
                stroke,
            ),
        },
        PointerGestureKind::DragStart => if owner != DragOwner::Brush {
            (Seq::empty(), stroke)
        } else {
            match picking {
                Some(ground_only) => match g.tile {
                    Some(position) => (seq![EditorCommand::PickBrush { position, ground_only }], stroke),
                    None => (Seq::empty(), stroke),
                },
                None => match g.tile {
                    Some(position) => (seq![EditorCommand::BeginStroke, EditorCommand::Paint { position }], true),
                    None => (seq![EditorCommand::BeginStroke], true),
                },
            }
        },
        PointerGestureKind::DragMove => if !stroke {
            (Seq::empty(), stroke)
        } else {
            match g.tile {
                Some(position) => (seq![EditorCommand::Paint { position }], stroke),
                None => (Seq::empty(), stroke),
            }
        },
        PointerGestureKind::DragEnd | PointerGestureKind::DragCancel => if stroke {
            (seq![EditorCommand::EndStroke], false)
        } else {
            (Seq::empty(), stroke)
        },
    }
}

pub open spec fn spec_paint(
    gestures: Seq<GestureReport>,
    picking: Option<bool>,
    owner: DragOwner,
    stroke: bool,
) -> (Seq<EditorCommand>, bool)
    decreases gestures.len(),
{
    if gestures.len() == 0 {
        (Seq::empty(), stroke)
    } else {
        let earlier = spec_paint(gestures.drop_last(), picking, owner, stroke);
        let last = spec_paint_step(gestures.last(), picking, owner, earlier.1);
        (earlier.0 + last.0, last.1)
    }
}

/// Turn the gestures over the board into edits.
///
/// A tap paints one tile (or picks a brush up, with the eyedropper held). A
/// drag the brush owns is one stroke: it opens on the first tile, paints
/// every tile it crosses, and closes when the drag ends or is abandoned. A
/// drag that starts with the eyedropper held picks from the tile it started
/// on and opens no stroke.
pub fn paint_from_pointer(
    gestures: &[GestureReport],
    picking: Option<bool>,
    owner: DragOwner,
    stroke: &mut bool,
) -> (commands: Vec<EditorCommand>)
    ensures
        (commands@, *final(stroke)) == spec_paint(gestures@, picking, owner, *old(stroke)),
{
    let mut commands: Vec<EditorCommand> = Vec::new();
    let mut i: usize = 0;
    while i < gestures.len()
        invariant
            0 <= i <= gestures@.len(),
            (commands@, *stroke) == spec_paint(gestures@.take(i as int), picking, owner, *old(stroke)),
        decreases gestures@.len() - i,
    {
        let g = gestures[i];
        let ghost before = commands@;
        match g.kind {
            PointerGestureKind::Tap => {
                if let Some(position) = g.tile {
                    commands.push(
                        match picking {
                            Some(ground_only) => EditorCommand::PickBrush { position, ground_only },
                            None => EditorCommand::Paint { position },
                        },
                    );
                }
            },
            PointerGestureKind::DragStart => {
                if owner == DragOwner::Brush {
                    match picking {
                        Some(ground_only) => {
                            if let Some(position) = g.tile {
                                commands.push(EditorCommand::PickBrush { position, ground_only });
                            }
                        },
                        None => {
                            commands.push(EditorCommand::BeginStroke);
                            *stroke = true;
                            if let Some(position) = g.tile {
                                commands.push(EditorCommand::Paint { position });
                            }
                        },
                    }
                }
            },
            PointerGestureKind::DragMove => {
                if *stroke {
                    if let Some(position) = g.tile {
                        commands.push(EditorCommand::Paint { position });
                    }
                }
            },
            PointerGestureKind::DragEnd | PointerGestureKind::DragCancel => {
                if *stroke {
                    commands.push(EditorCommand::EndStroke);
                    *stroke = false;
                }
            },
        }
        proof {
            assert(gestures@.take(i + 1).drop_last() =~= gestures@.take(i as int));
            assert(gestures@.take(i + 1).last() == g);
            let step = spec_paint_step(g, picking, owner, spec_paint(gestures@.take(i as int), picking, owner, *old(stroke)).1);
            assert(commands@ =~= before + step.0);
        }
        i = i + 1;
    }
    proof {
        assert(gestures@.take(gestures@.len() as int) =~= gestures@);
    }
    commands
}

/// Undo and redo from the keyboard: Ctrl (or Cmd) with Z undoes, with Shift
/// as well it redoes, and with Y it redoes.
pub open spec fn spec_undo_key(modifier_held: bool, shift_held: bool, z_pressed: bool, y_pressed: bool) -> Option<EditorCommand> {
    if !modifier_held {
        None
    } else if z_pressed {
        Some(if shift_held {
            EditorCommand::Redo
        } else {
            EditorCommand::Undo
        })
    } else if y_pressed {
        Some(EditorCommand::Redo)
    } else {
        None
    }
}

pub fn undo_from_keyboard(modifier_held: bool, shift_held: bool, z_pressed: bool, y_pressed: bool) -> (command: Option<EditorCommand>)
    ensures
        command == spec_undo_key(modifier_held, shift_held, z_pressed, y_pressed),
{
    if !modifier_held {
        return None;
    }
    if z_pressed {
        Some(if shift_held {
            EditorCommand::Redo
        } else {
            EditorCommand::Undo
        })
    } else if y_pressed {
        Some(EditorCommand::Redo)
    } else {
        None
    }
}

/// Where else the stroke under the pointer would land: the fold's images of
/// the tile, less the tile itself. Nothing while the fold is free, while the
/// eyedropper is held, or while the pointer is off the board.
pub open spec fn spec_fold_images(fold_free: bool, picking: bool, tile: Option<Pos>, images: Seq<Pos>) -> Seq<Pos> {
    if fold_free || picking {
        Seq::empty()
    } else {
        match tile {
            None => Seq::empty(),
            Some(t) => images.filter(|image: Pos| image != t),
        }
    }
}

pub fn fold_images(fold_free: bool, picking: bool, tile: Option<Pos>, images: &[Pos]) -> (shown: Vec<Pos>)
    ensures
        shown@ == spec_fold_images(fold_free, picking, tile, images@),
{
    let mut shown: Vec<Pos> = Vec::new();
    if fold_free || picking {
        return shown;
    }
    let t = match tile {
        Some(t) => t,
        None => return shown,
    };
    let mut i: usize = 0;
    while i < images.len()
        invariant
            0 <= i <= images@.len(),
            shown@ == images@.take(i as int).filter(|image: Pos| image != t),
        decreases images@.len() - i,
    {
        proof {
            assert(images@.take(i + 1).drop_last() =~= images@.take(i as int));
            reveal(Seq::filter);
        }
        if images[i] != t {
            shown.push(images[i]);
        }
        i = i + 1;
    }
    proof {
        assert(images@.take(images@.len() as int) =~= images@);
    }
    shown
}

} // verus!

verus! {

/// What a building is to the readout.
#[derive(Clone, Copy, Debug, PartialEq, Eq, Structural)]
pub enum PropertyKind {
    Headquarters,
    /// A base, airport or port: somewhere an army can build from.
    Production,
    Other,
}

/// One building on the board: who holds it (nobody, for a neutral one),
/// what it is, and whether the rules have it pay income.
#[derive(Clone, Copy, Debug, PartialEq, Eq, Structural)]
pub struct PropertyTile {
    pub owner: Option<PlayerFaction>,
    pub kind: PropertyKind,
    pub pays_income: bool,
}

/// One army on the board, and what it holds.
#[derive(Clone, Copy, Debug, PartialEq, Eq, Structural)]
pub struct EditorArmy {
    pub faction: PlayerFaction,
    /// How many headquarters the army holds. A playable army holds one.
    pub headquarters: u32,
    /// Every building the army holds, headquarters included.
    pub properties: u32,
    /// How many bases, airports and ports the army can build from.
    pub production: u32,
    pub units: u32,
}

/// How the editor folds what is drawn onto the rest of the board.
#[derive(Clone, Copy, Debug, PartialEq, Eq, Structural)]
pub enum Symmetry {
    /// No fold: what is drawn stays where it is drawn.
    NoFold,
    MirrorLeftRight,
    Rotate180,
    QuadMirror,
    /// A quarter turn, which maps a board onto itself only when it is square.
    Rotate90,
    /// A mirror across the diagonal from the top-left corner.
    MirrorDiagonal,
    /// A mirror across the diagonal from the top-right corner.
    MirrorAntiDiagonal,
}

/// Whether a fold needs a square board: a quarter turn and a mirror across
/// either diagonal swap the board's sides.
pub open spec fn needs_square(symmetry: Symmetry) -> bool {
    symmetry == Symmetry::Rotate90 || symmetry == Symmetry::MirrorDiagonal || symmetry == Symmetry::MirrorAntiDiagonal
}

/// Whether a fold maps a `width` by `height` board onto itself: a board that
/// is not square refuses the quarter turn and both diagonals.
pub open spec fn fits(symmetry: Symmetry, width: u8, height: u8) -> bool {
    !needs_square(symmetry) || width == height
}

/// The folds a `width` by `height` board can take, in the order the editor
/// lists them.
pub open spec fn available_symmetries(width: u8, height: u8) -> Seq<Symmetry> {
    if width == height {
        seq![
            Symmetry::NoFold,
            Symmetry::MirrorLeftRight,
            Symmetry::Rotate180,
            Symmetry::QuadMirror,
            Symmetry::Rotate90,
            Symmetry::MirrorDiagonal,
            Symmetry::MirrorAntiDiagonal,
        ]
    } else {
        seq![Symmetry::NoFold, Symmetry::MirrorLeftRight, Symmetry::Rotate180, Symmetry::QuadMirror]
    }
}

/// The board's size, the fold in use, what the edit history allows, and how
/// many edits the session has made.
#[derive(Clone, Copy, Debug, PartialEq, Eq, Structural)]
pub struct EditorBoard {
    pub revision: u32,
    pub width: u8,
    pub height: u8,
    pub symmetry: Symmetry,
    pub can_undo: bool,
    pub can_redo: bool,
}

/// What the board holds, as the editor reads it, with the brush loaded.
#[derive(Debug)]
pub struct EditorReadout<B> {
    pub revision: u32,
    pub width: u8,
    pub height: u8,
    /// The fold in use.
    pub symmetry: Symmetry,
    /// Every fold this board can take.
    pub available_symmetries: Vec<Symmetry>,
    pub can_undo: bool,
    pub can_redo: bool,
    pub brush: B,
    /// The armies the fold seats, in seat order.
    pub roster: Vec<PlayerFaction>,
    /// The armies that hold anything, in the order the game lists them.
    pub armies: Vec<EditorArmy>,
    pub neutral_properties: u32,
    pub units: u32,
    /// Funds per turn every income-paying building is worth, whoever holds it.
    pub board_income: u32,
    /// That figure shared evenly between the armies the fold seats.
    pub income_per_army: u32,
    /// Whether the ground already reads the same under its fold.
    pub symmetric: bool,
    /// How many tiles do not read the same under the fold.
    pub uneven_tiles: u32,
    /// The first of those tiles in board order.
    pub first_uneven_tile: Option<Pos>,
}

pub open spec fn indicator(b: bool) -> nat {
    if b {
        1
    } else {
        0
    }
}

/// Buildings `faction` holds.
pub open spec fn held_properties(ps: Seq<PropertyTile>, faction: PlayerFaction) -> nat
    decreases ps.len(),
{
    if ps.len() == 0 {
        0
    } else {
        held_properties(ps.drop_last(), faction) + indicator(ps.last().owner == Some(faction))
    }
}

/// Headquarters `faction` holds.
pub open spec fn held_headquarters(ps: Seq<PropertyTile>, faction: PlayerFaction) -> nat
    decreases ps.len(),
{
    if ps.len() == 0 {
        0
    } else {
        held_headquarters(ps.drop_last(), faction) + indicator(
            ps.last().owner == Some(faction) && ps.last().kind == PropertyKind::Headquarters,
        )
    }
}

/// Bases, airports and ports `faction` holds.
pub open spec fn held_production(ps: Seq<PropertyTile>, faction: PlayerFaction) -> nat
    decreases ps.len(),
{
    if ps.len() == 0 {
        0
    } else {
        held_production(ps.drop_last(), faction) + indicator(
            ps.last().owner == Some(faction) && ps.last().kind == PropertyKind::Production,
        )
    }
}

/// Units deployed for `faction`.
pub open spec fn deployed_units(ds: Seq<PlayerFaction>, faction: PlayerFaction) -> nat
    decreases ds.len(),
{
    if ds.len() == 0 {
        0
    } else {
        deployed_units(ds.drop_last(), faction) + indicator(ds.last() == faction)
    }
}

/// Buildings nobody holds.
pub open spec fn neutral_count(ps: Seq<PropertyTile>) -> nat
    decreases ps.len(),
{
    if ps.len() == 0 {
        0
    } else {
        neutral_count(ps.drop_last()) + indicator(ps.last().owner is None)
    }
}

/// Buildings that pay income.
pub open spec fn paying_count(ps: Seq<PropertyTile>) -> nat
    decreases ps.len(),
{
    if ps.len() == 0 {
        0
    } else {
        paying_count(ps.drop_last()) + indicator(ps.last().pays_income)
    }
}

/// Whether `faction` holds a building or has a unit on the board.
pub open spec fn holds_anything(ps: Seq<PropertyTile>, ds: Seq<PlayerFaction>, faction: PlayerFaction) -> bool {
    held_properties(ps, faction) > 0 || deployed_units(ds, faction) > 0
}

pub open spec fn army_of(ps: Seq<PropertyTile>, ds: Seq<PlayerFaction>, faction: PlayerFaction) -> EditorArmy {
    EditorArmy {
        faction,
        headquarters: held_headquarters(ps, faction) as u32,
        properties: held_properties(ps, faction) as u32,
        production: held_production(ps, faction) as u32,
        units: deployed_units(ds, faction) as u32,
    }
}

/// The armies in the order the game lists them, each once.
pub open spec fn armies_in_order(armies: Seq<EditorArmy>) -> bool {
    forall|i: int, j: int| 0 <= i < j < armies.len() ==> armies[i].faction.0 < armies[j].faction.0
}

/// The armies read off the board: in order, each holding exactly what the
/// board gives it, and exactly the armies that hold anything.
pub open spec fn tally_matches(armies: Seq<EditorArmy>, ps: Seq<PropertyTile>, ds: Seq<PlayerFaction>) -> bool {
    &&& armies_in_order(armies)
    &&& forall|i: int| 0 <= i < armies.len() ==> armies[i] == army_of(ps, ds, #[trigger] armies[i].faction)
    &&& forall|f: PlayerFaction| holds_anything(ps, ds, f) <==> exists|i: int| 0 <= i < armies.len() && armies[i].faction == f
}

/// The income of `n` paying buildings at `rate` each, held at the largest
/// figure a `u32` holds.
pub open spec fn capped_income(n: nat, rate: u32) -> u32 {
    if n * rate > u32::MAX {
        u32::MAX
    } else {
        (n * rate) as u32
    }
}

/// What the income is shared between: the seats, or one share where the fold
/// seats nobody (or more than a `u32` counts).
pub open spec fn share_divisor(seats: usize) -> u32 {
    if seats == 0 || seats > u32::MAX {
        1
    } else {
        seats as u32
    }
}

proof fn lemma_counts_bounded(ps: Seq<PropertyTile>, ds: Seq<PlayerFaction>, f: PlayerFaction)
    ensures
        held_headquarters(ps, f) <= held_properties(ps, f),
        held_production(ps, f) <= held_properties(ps, f),
        held_properties(ps, f) <= ps.len(),
        neutral_count(ps) <= ps.len(),
        paying_count(ps) <= ps.len(),
        deployed_units(ds, f) <= ds.len(),
    decreases ps.len() + ds.len(),
{
    if ps.len() > 0 {
        lemma_counts_bounded(ps.drop_last(), ds, f);
    }
    if ds.len() > 0 {
        lemma_counts_bounded(ps, ds.drop_last(), f);
    }
}

fn zero_army(faction: PlayerFaction) -> (army: EditorArmy)
    ensures
        army == (EditorArmy { faction, headquarters: 0, properties: 0, production: 0, units: 0 }),
{
    EditorArmy { faction, headquarters: 0, properties: 0, production: 0, units: 0 }
}

/// The seat of `faction` among the armies, added in order when it is new.
fn seat_of(armies: &mut Vec<EditorArmy>, faction: PlayerFaction) -> (seat: usize)
    requires
        armies_in_order(old(armies)@),
    ensures
        seat < final(armies)@.len(),
        seat <= old(armies)@.len(),
        final(armies)@[seat as int].faction == faction,
        armies_in_order(final(armies)@),
        (exists|i: int| 0 <= i < old(armies)@.len() && old(armies)@[i].faction == faction) ==> final(armies)@ == old(armies)@,
        !(exists|i: int| 0 <= i < old(armies)@.len() && old(armies)@[i].faction == faction) ==> final(armies)@ == old(armies)@.insert(
            seat as int,
            EditorArmy { faction, headquarters: 0, properties: 0, production: 0, units: 0 },
        ),
{
    let mut i: usize = 0;
    while i < armies.len()
        invariant
            0 <= i <= armies@.len(),
            armies@ == old(armies)@,
            armies_in_order(armies@),
            forall|j: int| 0 <= j < i ==> armies@[j].faction.0 < faction.0,
        ensures
            0 <= i <= armies@.len(),
            armies@ == old(armies)@,
            forall|j: int| 0 <= j < i ==> armies@[j].faction.0 < faction.0,
            i < armies@.len() ==> armies@[i as int].faction.0 >= faction.0,
        decreases armies@.len() - i,
    {
        if armies[i].faction.0 >= faction.0 {
            break;
        }
        i = i + 1;
    }
    if i < armies.len() && armies[i].faction.0 == faction.0 {
        return i;
    }
    proof {
        assert forall|j: int| 0 <= j < armies@.len() implies armies@[j].faction != faction by {
            if j >= i {
                assert(armies@[i as int].faction.0 > faction.0);
                if j > i {
                    assert(armies@[i as int].faction.0 < armies@[j].faction.0);
                }
            }
        }
    }
    let ghost before = armies@;
    armies.insert(i, zero_army(faction));
    proof {
        assert forall|a: int, b: int| 0 <= a < b < armies@.len() implies armies@[a].faction.0 < armies@[b].faction.0 by {
            if b < i {
            } else if b == i {
                assert(armies@[a] == before[a]);
            } else if a < i {
                assert(armies@[b] == before[b - 1]);
                assert(before[a].faction.0 < faction.0);
                if b - 1 >= i {
                    assert(before[i as int].faction.0 > faction.0 || i == before.len());
                    if b - 1 > i {
                        assert(before[i as int].faction.0 < before[b - 1].faction.0);
                    }
                }
            } else if a == i {
                assert(armies@[b] == before[b - 1]);
                if b - 1 > i {
                    assert(before[i as int].faction.0 < before[b - 1].faction.0);
                }
            } else {
                assert(armies@[a] == before[a - 1]);
                assert(armies@[b] == before[b - 1]);
            }
        }
    }
    i
}

/// The tally after one more building or unit of army `f` is read: every
/// other army's counts are unchanged, and `f` now holds something.
proof fn lemma_tally_step(
    before: Seq<EditorArmy>,
    seated: Seq<EditorArmy>,
    after: Seq<EditorArmy>,
    ps: Seq<PropertyTile>,
    ds: Seq<PlayerFaction>,
    ps2: Seq<PropertyTile>,
    ds2: Seq<PlayerFaction>,
    f: PlayerFaction,
    seat: int,
)
    requires
        tally_matches(before, ps, ds),
        forall|g: PlayerFaction| g != f ==> army_of(ps2, ds2, g) == army_of(ps, ds, g) && (holds_anything(ps2, ds2, g) == holds_anything(ps, ds, g)),
        holds_anything(ps2, ds2, f),
        !holds_anything(ps, ds, f) ==> army_of(ps, ds, f) == (EditorArmy { faction: f, headquarters: 0, properties: 0, production: 0, units: 0 }),
        0 <= seat < seated.len(),
        seat <= before.len(),
        seated[seat].faction == f,
        armies_in_order(seated),
        (exists|i: int| 0 <= i < before.len() && before[i].faction == f) ==> seated == before,
        !(exists|i: int| 0 <= i < before.len() && before[i].faction == f) ==> seated == before.insert(
            seat,
            EditorArmy { faction: f, headquarters: 0, properties: 0, production: 0, units: 0 },
        ),
        after == seated.update(seat, army_of(ps2, ds2, f)),
    ensures
        tally_matches(after, ps2, ds2),
        seated[seat] == army_of(ps, ds, f),
{
    if !(exists|i: int| 0 <= i < before.len() && before[i].faction == f) {
        assert(seated.len() == before.len() + 1);
        assert(seated[seat] == EditorArmy { faction: f, headquarters: 0, properties: 0, production: 0, units: 0 });
        assert forall|i: int| 0 <= i < seated.len() implies seated[i] == army_of(ps, ds, #[trigger] seated[i].faction) by {
            if i < seat {
                assert(seated[i] == before[i]);
            } else if i > seat {
                assert(seated[i] == before[i - 1]);
            }
        }
        assert forall|g: PlayerFaction| g != f implies (holds_anything(ps, ds, g) <==> exists|i: int| 0 <= i < seated.len() && seated[i].faction == g) by {
            if holds_anything(ps, ds, g) {
                let i = choose|i: int| 0 <= i < before.len() && before[i].faction == g;
                if i < seat {
                    assert(seated[i] == before[i]);
                } else {
                    assert(seated[i + 1] == before[i]);
                }
            }
            if exists|i: int| 0 <= i < seated.len() && seated[i].faction == g {
                let i = choose|i: int| 0 <= i < seated.len() && seated[i].faction == g;
                if i < seat {
                    assert(seated[i] == before[i]);
                } else if i > seat {
                    assert(seated[i] == before[i - 1]);
                }
            }
        }
    } else {
        let i = choose|i: int| 0 <= i < before.len() && before[i].faction == f;
        if i != seat {
            assert(before[i].faction.0 < before[seat].faction.0 || before[seat].faction.0 < before[i].faction.0);
        }
    }
    assert forall|i: int| 0 <= i < after.len() implies after[i] == army_of(ps2, ds2, #[trigger] after[i].faction) by {
        if i != seat {
            let g = seated[i].faction;
            assert(g != f) by {
                if i < seat {
                    assert(seated[i].faction.0 < seated[seat].faction.0);
                } else {
                    assert(seated[seat].faction.0 < seated[i].faction.0);
                }
            }
            assert(seated[i] == army_of(ps, ds, g));
        }
    }
    assert(after.len() == seated.len());
    assert forall|g: PlayerFaction| holds_anything(ps2, ds2, g) <==> exists|i: int| 0 <= i < after.len() && after[i].faction == g by {
        if g == f {
            assert(after[seat].faction == f);
        } else {
            assert(holds_anything(ps, ds, g) <==> exists|i: int| 0 <= i < seated.len() && seated[i].faction == g);
            if exists|i: int| 0 <= i < after.len() && after[i].faction == g {
                let i = choose|i: int| 0 <= i < after.len() && after[i].faction == g;
                assert(i != seat);
                assert(seated[i].faction == g);
            }
            if exists|i: int| 0 <= i < seated.len() && seated[i].faction == g {
                let i = choose|i: int| 0 <= i < seated.len() && seated[i].faction == g;
                assert(i != seat);
                assert(after[i].faction == g);
            }
        }
    }
}

/// The sum of `rate` over `n` buildings, saturating.
proof fn lemma_capped_income_step(n: nat, rate: u32, income: u32)
    requires
        income == capped_income(n, rate),
    ensures
        (if income > u32::MAX - rate {
            u32::MAX
        } else {
            (income + rate) as u32
        }) == capped_income(n + 1, rate),
{
    assert((n + 1) * rate == n * rate + rate) by (nonlinear_arith);
    assert(n * rate >= 0) by (nonlinear_arith);
}

/// Read the board, army by army.
///
/// `properties` are the buildings on the board and `deployments` the army of
/// each unit on it; `uneven` are the tiles that do not read the same under
/// the fold in use, in board order, and `roster` the armies the fold seats,
/// between which the income is shared. Each income-paying building is worth
/// `income_per_property`. The board's size, its fold, its history, the
/// brush and the roster are reported as given, with every fold a board of
/// that size can take.
pub fn read_state<B>(
    board: EditorBoard,
    brush: B,
    roster: Vec<PlayerFaction>,
    properties: &[PropertyTile],
    deployments: &[PlayerFaction],
    uneven: &[Pos],
    income_per_property: u32,
) -> (readout: EditorReadout<B>)
    requires
        properties@.len() <= u32::MAX,
        deployments@.len() <= u32::MAX,
    ensures
        readout.revision == board.revision,
        readout.brush == brush,
        readout.roster@ == roster@,
        readout.width == board.width,
        readout.height == board.height,
        readout.symmetry == board.symmetry,
        readout.available_symmetries@ == available_symmetries(board.width, board.height),
        forall|s: Symmetry| readout.available_symmetries@.contains(s) <==> fits(s, board.width, board.height),
        readout.can_undo == board.can_undo,
        readout.can_redo == board.can_redo,
        tally_matches(readout.armies@, properties@, deployments@),
        readout.neutral_properties == neutral_count(properties@),
        readout.units == deployments@.len(),
        readout.board_income == capped_income(paying_count(properties@), income_per_property),
        readout.income_per_army == capped_income(paying_count(properties@), income_per_property) / share_divisor(roster@.len() as usize),
        readout.symmetric == (uneven@.len() == 0),
        readout.uneven_tiles == (if uneven@.len() > u32::MAX {
            u32::MAX
        } else {
            uneven@.len() as u32
        }),
        readout.first_uneven_tile == (if uneven@.len() > 0 {
            Some(uneven@[0])
        } else {
            None
        }),
{
    let mut armies: Vec<EditorArmy> = Vec::new();
    let mut neutral: u32 = 0;
    let mut income: u32 = 0;
    let ghost ps = properties@;
    let ghost no_units = Seq::<PlayerFaction>::empty();
    let mut k: usize = 0;
    proof {
        assert(ps.take(0) =~= Seq::<PropertyTile>::empty());
        assert(paying_count(ps.take(0)) == 0);
        assert(0nat * income_per_property == 0) by (nonlinear_arith);
    }
    while k < properties.len()
        invariant
            0 <= k <= ps.len(),
            ps == properties@,
            ps.len() <= u32::MAX,
            no_units == Seq::<PlayerFaction>::empty(),
            tally_matches(armies@, ps.take(k as int), no_units),
            neutral == neutral_count(ps.take(k as int)),
            income == capped_income(paying_count(ps.take(k as int)), income_per_property),
        decreases ps.len() - k,
    {
        let t = properties[k];
        let ghost pre = ps.take(k as int);
        let ghost more = ps.take(k + 1);
        proof {
            assert(more.drop_last() =~= pre);
            assert(more.last() == t);
            lemma_counts_bounded(pre, no_units, t.owner.unwrap_or(PlayerFaction(0)));
        }
        if t.pays_income {
            proof {
                lemma_capped_income_step(paying_count(pre), income_per_property, income);
            }
            income = if income > u32::MAX - income_per_property {
                u32::MAX
            } else {
                income + income_per_property
            };
        }
        match t.owner {
            None => {
                neutral = neutral + 1;
                proof {
                    assert forall|g: PlayerFaction| army_of(more, no_units, g) == army_of(pre, no_units, g) by {}
                    assert forall|i: int| 0 <= i < armies@.len() implies armies@[i] == army_of(more, no_units, #[trigger] armies@[i].faction) by {}
                    assert forall|g: PlayerFaction| holds_anything(more, no_units, g) <==> exists|i: int| 0 <= i < armies@.len() && armies@[i].faction == g by {
                        assert(holds_anything(more, no_units, g) == holds_anything(pre, no_units, g));
                    }
                }
            },
            Some(f) => {
                let ghost before = armies@;
                let seat = seat_of(&mut armies, f);
                let ghost seated = armies@;
                let ghost after = seated.update(seat as int, army_of(more, no_units, f));
                proof {
                    assert forall|g: PlayerFaction| g != f implies army_of(more, no_units, g) == army_of(pre, no_units, g) && (holds_anything(more, no_units, g) == holds_anything(pre, no_units, g)) by {}
                    assert(deployed_units(no_units, f) == 0);
                    lemma_tally_step(before, seated, after, pre, no_units, more, no_units, f, seat as int);
                }
                let mut a = armies[seat];
                a.properties = a.properties + 1;
                match t.kind {
                    PropertyKind::Headquarters => {
                        a.headquarters = a.headquarters + 1;
                    },
                    PropertyKind::Production => {
                        a.production = a.production + 1;
                    },
                    PropertyKind::Other => {},
                }
                armies.set(seat, a);
                proof {
                    assert(armies@ =~= after);
                }
            },
        }
        k = k + 1;
    }
    proof {
        assert(ps.take(ps.len() as int) =~= ps);
    }
    let ghost ds = deployments@;
    let mut units: u32 = 0;
    let mut k: usize = 0;
    proof {
        assert(ds.take(0) =~= Seq::<PlayerFaction>::empty());
    }
    while k < deployments.len()
        invariant
            0 <= k <= ds.len(),
            ds == deployments@,
            ds.len() <= u32::MAX,
            ps == properties@,
            tally_matches(armies@, ps, ds.take(k as int)),
            units == k,
        decreases ds.len() - k,
    {
        let f = deployments[k];
        let ghost pre = ds.take(k as int);
        let ghost more = ds.take(k + 1);
        proof {
            assert(more.drop_last() =~= pre);
            assert(more.last() == f);
            lemma_counts_bounded(ps, pre, f);
        }
        units = units + 1;
        let ghost before = armies@;
        let seat = seat_of(&mut armies, f);
        let ghost seated = armies@;
        let ghost after = seated.update(seat as int, army_of(ps, more, f));
        proof {
            assert forall|g: PlayerFaction| g != f implies army_of(ps, more, g) == army_of(ps, pre, g) && (holds_anything(ps, more, g) == holds_anything(ps, pre, g)) by {}
            lemma_tally_step(before, seated, after, ps, pre, ps, more, f, seat as int);
        }
        let mut a = armies[seat];
        a.units = a.units + 1;
        armies.set(seat, a);
        proof {
            assert(armies@ =~= after);
        }
        k = k + 1;
    }
    proof {
        assert(ds.take(ds.len() as int) =~= ds);
    }
    let seats = roster.len();
    let divisor: u32 = if seats == 0 || seats > 4294967295usize {
        1
    } else {
        seats as u32
    };
    let uneven_tiles: u32 = if uneven.len() > 4294967295usize {
        u32::MAX
    } else {
        uneven.len() as u32
    };
    let first_uneven_tile = if uneven.len() > 0 {
        Some(uneven[0])
    } else {
        None
    };
    let mut folds: Vec<Symmetry> = Vec::new();
    folds.push(Symmetry::NoFold);
    folds.push(Symmetry::MirrorLeftRight);
    folds.push(Symmetry::Rotate180);
    folds.push(Symmetry::QuadMirror);
    if board.width == board.height {
        folds.push(Symmetry::Rotate90);
        folds.push(Symmetry::MirrorDiagonal);
        folds.push(Symmetry::MirrorAntiDiagonal);
    }
    proof {
        let all = available_symmetries(board.width, board.height);
        assert(folds@ =~= all);
        assert forall|s: Symmetry| all.contains(s) <==> fits(s, board.width, board.height) by {
            if fits(s, board.width, board.height) {
                match s {
                    Symmetry::NoFold => assert(all[0] == s),
                    Symmetry::MirrorLeftRight => assert(all[1] == s),
                    Symmetry::Rotate180 => assert(all[2] == s),
                    Symmetry::QuadMirror => assert(all[3] == s),
                    Symmetry::Rotate90 => assert(all[4] == s),
                    Symmetry::MirrorDiagonal => assert(all[5] == s),
                    Symmetry::MirrorAntiDiagonal => assert(all[6] == s),
                }
            }
        }
    }
    EditorReadout {
        revision: board.revision,
        brush,
        roster,
        width: board.width,
        height: board.height,
        symmetry: board.symmetry,
        available_symmetries: folds,
        can_undo: board.can_undo,
        can_redo: board.can_redo,
        armies,
        neutral_properties: neutral,
        units,
        board_income: income,
        income_per_army: income / divisor,
        symmetric: uneven.len() == 0,
        uneven_tiles,
        first_uneven_tile,
    }
}

pub open spec fn drag_move(tile: Pos, coarse: bool) -> GestureReport {
    GestureReport { kind: PointerGestureKind::DragMove, tile: Some(tile), coarse }
}

pub open spec fn paints(tiles: Seq<Pos>) -> Seq<EditorCommand> {
    tiles.map_values(|position: Pos| EditorCommand::Paint { position })
}

/// A drag the brush owns is one stroke: it opens, paints the tile it started
/// on and every tile it crosses, in order, and closes when the drag ends, so
/// that it undoes as one step; afterwards no stroke is in flight.
pub proof fn lemma_a_drag_is_one_stroke(start: Pos, crossed: Seq<Pos>, coarse: bool, ending: PointerGestureKind)
    requires
        ending == PointerGestureKind::DragEnd || ending == PointerGestureKind::DragCancel,
    ensures
        ({
            let gestures = seq![GestureReport { kind: PointerGestureKind::DragStart, tile: Some(start), coarse }]
                + crossed.map_values(|tile: Pos| drag_move(tile, coarse))
                + seq![GestureReport { kind: ending, tile: None, coarse }];
            spec_paint(gestures, None, DragOwner::Brush, false) == (
                seq![EditorCommand::BeginStroke, EditorCommand::Paint { position: start }] + paints(crossed)
                    + seq![EditorCommand::EndStroke],
                false,
            )
        }),
{
    let head = seq![GestureReport { kind: PointerGestureKind::DragStart, tile: Some(start), coarse }];
    lemma_stroke_paints_what_it_crosses(start, crossed, coarse, crossed.len() as int);
    let body = head + crossed.map_values(|tile: Pos| drag_move(tile, coarse));
    assert(crossed.take(crossed.len() as int) =~= crossed);
    let gestures = body + seq![GestureReport { kind: ending, tile: None, coarse }];
    assert(gestures.drop_last() =~= body);
}

proof fn lemma_stroke_paints_what_it_crosses(start: Pos, crossed: Seq<Pos>, coarse: bool, n: int)
    requires
        0 <= n <= crossed.len(),
    ensures
        spec_paint(
            seq![GestureReport { kind: PointerGestureKind::DragStart, tile: Some(start), coarse }]
                + crossed.take(n).map_values(|tile: Pos| drag_move(tile, coarse)),
            None,
            DragOwner::Brush,
            false,
        ) == (seq![EditorCommand::BeginStroke, EditorCommand::Paint { position: start }] + paints(crossed.take(n)), true),
    decreases n,
{
    let head = seq![GestureReport { kind: PointerGestureKind::DragStart, tile: Some(start), coarse }];
    if n == 0 {
        assert(head + crossed.take(0).map_values(|tile: Pos| drag_move(tile, coarse)) =~= head);
        assert(head.drop_last() =~= Seq::<GestureReport>::empty());
        assert(paints(crossed.take(0)) =~= Seq::<EditorCommand>::empty());
        assert(seq![EditorCommand::BeginStroke, EditorCommand::Paint { position: start }] + paints(crossed.take(0)) =~= seq![EditorCommand::BeginStroke, EditorCommand::Paint { position: start }]);
        assert(Seq::<EditorCommand>::empty() + seq![EditorCommand::BeginStroke, EditorCommand::Paint { position: start }] =~= seq![EditorCommand::BeginStroke, EditorCommand::Paint { position: start }]);
        assert(spec_paint(head.drop_last(), None, DragOwner::Brush, false) == (Seq::<EditorCommand>::empty(), false));
    } else {
        lemma_stroke_paints_what_it_crosses(start, crossed, coarse, n - 1);
        let longer = head + crossed.take(n).map_values(|tile: Pos| drag_move(tile, coarse));
        let shorter = head + crossed.take(n - 1).map_values(|tile: Pos| drag_move(tile, coarse));
        assert(longer.drop_last() =~= shorter);
        assert(longer.last() == drag_move(crossed[n - 1], coarse));
        assert(paints(crossed.take(n)) =~= paints(crossed.take(n - 1)).push(EditorCommand::Paint { position: crossed[n - 1] }));
        assert(seq![EditorCommand::BeginStroke, EditorCommand::Paint { position: start }] + paints(crossed.take(n)) =~= (seq![EditorCommand::BeginStroke, EditorCommand::Paint { position: start }] + paints(crossed.take(n - 1))) + seq![EditorCommand::Paint { position: crossed[n - 1] }]);
    }
}

/// With the eyedropper held the pointer only ever picks: no stroke opens,
/// and nothing is painted.
pub proof fn lemma_a_pick_opens_no_stroke(gestures: Seq<GestureReport>, ground_only: bool, owner: DragOwner)
    ensures
        ({
            let (commands, stroke) = spec_paint(gestures, Some(ground_only), owner, false);
            &&& !stroke
            &&& forall|i: int| 0 <= i < commands.len() ==> (#[trigger] commands[i]) is PickBrush
        }),
    decreases gestures.len(),
{
    if gestures.len() > 0 {
        lemma_a_pick_opens_no_stroke(gestures.drop_last(), ground_only, owner);
        let (earlier, _) = spec_paint(gestures.drop_last(), Some(ground_only), owner, false);
        let (last, _) = spec_paint_step(gestures.last(), Some(ground_only), owner, false);
        assert forall|i: int| 0 <= i < (earlier + last).len() implies (#[trigger] (earlier + last)[i]) is PickBrush by {
            if i >= earlier.len() {
                assert((earlier + last)[i] == last[i - earlier.len()]);
            }
        }
    }
}

} // verus!
