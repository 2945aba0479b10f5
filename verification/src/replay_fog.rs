//! What the viewer remembers of the board under fog in a replay.
//!
//! Each tile the viewer sees is remembered as it stands. A fogged tile is
//! drawn as the viewer last saw it, where that differs from what is there
//! now: a property captured out of sight keeps its old colours. Which tiles
//! are fogged is the rules' answer and is handed in, tile by tile, in the
//! same order as the viewer's memory.
use vstd::prelude::*;

verus! {

/// One tile of the board: whether it is fogged, and what is there now (none
/// for a tile off the map).
#[derive(Clone, Copy, Debug, PartialEq, Eq, Structural)]
pub struct FoggedTile {
    pub fogged: bool,
    pub actual: Option<u16>,
}

/// The memory after a look at the board: each tile in view is remembered as
/// it stands.
pub open spec fn spec_remember(tiles: Seq<FoggedTile>, known: Seq<Option<u16>>) -> Seq<Option<u16>> {
    Seq::new(
        known.len(),
        |i: int|
            if !tiles[i].fogged && tiles[i].actual is Some {
                tiles[i].actual
            } else {
                known[i]
            },
    )
}

/// What a tile is drawn as instead of what is there: what was last seen of a
/// fogged tile, where that differs from what is there now.
pub open spec fn spec_override(tile: FoggedTile, known: Option<u16>) -> Option<u16> {
    if tile.fogged {
        match (known, tile.actual) {
            (Some(k), Some(a)) => if k != a {
                Some(k)
            } else {
                None
            },
            _ => None,
        }
    } else {
        None
    }
}

pub open spec fn spec_overrides(tiles: Seq<FoggedTile>, known: Seq<Option<u16>>) -> Seq<Option<u16>> {
    Seq::new(known.len(), |i: int| spec_override(tiles[i], known[i]))
}

/// Refresh the viewer's memory from the board and decide what each tile is
/// drawn as.
///
/// `memory` is what the viewer whose eyes the replay is watched through
/// remembers, tile by tile; `None` when no viewer's memory applies (no fog,
/// a spectator, or a seat whose memory was never kept). Without a viewer
/// (`has_viewer` false) every tile is drawn as it is. With a viewer whose
/// memory is missing, nothing changes (`None` overrides). Otherwise the
/// memory is refreshed and the overrides follow from it.
pub fn refresh_terrain_knowledge(
    has_viewer: bool,
    tiles: &[FoggedTile],
    memory: Option<Vec<Option<u16>>>,
) -> (refreshed: (Option<Vec<Option<u16>>>, Option<Vec<Option<u16>>>))
    requires
        memory matches Some(m) ==> m@.len() == tiles@.len(),
    ensures
        !has_viewer ==> refreshed.0 == memory && (refreshed.1 matches Some(o) && o@ == Seq::new(tiles@.len(), |i: int| None::<u16>)),
        has_viewer && memory is None ==> refreshed.0 is None && refreshed.1 is None,
        has_viewer && memory is Some ==> ({
            let remembered = spec_remember(tiles@, memory->0@);
            &&& refreshed.0 matches Some(m) && m@ == remembered
            &&& refreshed.1 matches Some(o) && o@ == spec_overrides(tiles@, remembered)
        }),
{
    if !has_viewer {
        let mut cleared: Vec<Option<u16>> = Vec::new();
        let mut i: usize = 0;
        while i < tiles.len()
            invariant
                0 <= i <= tiles@.len(),
                cleared@ == Seq::new(i as nat, |j: int| None::<u16>),
            decreases tiles@.len() - i,
        {
            cleared.push(None);
            proof {
                assert(cleared@ =~= Seq::new((i + 1) as nat, |j: int| None::<u16>));
            }
            i = i + 1;
        }
        return (memory, Some(cleared));
    }
    let mut known = match memory {
        Some(m) => m,
        None => return (None, None),
    };
    let ghost before = known@;
    let mut i: usize = 0;
    while i < tiles.len()
        invariant
            0 <= i <= tiles@.len(),
            known@.len() == tiles@.len(),
            before.len() == tiles@.len(),
            forall|j: int| 0 <= j < i ==> known@[j] == spec_remember(tiles@, before)[j],
            forall|j: int| i <= j < known@.len() ==> known@[j] == before[j],
        decreases tiles@.len() - i,
    {
        let t = tiles[i];
        if !t.fogged && t.actual.is_some() {
            known.set(i, t.actual);
        }
        i = i + 1;
    }
    proof {
        assert(known@ =~= spec_remember(tiles@, before));
    }
    let mut overrides: Vec<Option<u16>> = Vec::new();
    let mut i: usize = 0;
    while i < tiles.len()
        invariant
            0 <= i <= tiles@.len(),
            known@.len() == tiles@.len(),
            overrides@ == spec_overrides(tiles@, known@).take(i as int),
        decreases tiles@.len() - i,
    {
        let t = tiles[i];
        let o = if t.fogged {
            match (known[i], t.actual) {
                (Some(k), Some(a)) => if k != a {
                    Some(k)
                } else {
                    None
                },
                _ => None,
            }
        } else {
            None
        };
        overrides.push(o);
        proof {
            assert(spec_overrides(tiles@, known@).take(i + 1) =~= spec_overrides(tiles@, known@).take(i as int).push(o));
        }
        i = i + 1;
    }
    proof {
        assert(spec_overrides(tiles@, known@).take(tiles@.len() as int) =~= spec_overrides(tiles@, known@));
    }
    (Some(known), Some(overrides))
}

/// A tile in view is never drawn as anything but what is there, and is
/// remembered as it is.
pub proof fn lemma_a_tile_in_view_is_drawn_as_it_is(tiles: Seq<FoggedTile>, known: Seq<Option<u16>>, i: int)
    requires
        known.len() == tiles.len(),
        0 <= i < tiles.len(),
        !tiles[i].fogged,
        tiles[i].actual is Some,
    ensures
        spec_remember(tiles, known)[i] == tiles[i].actual,
        spec_overrides(tiles, spec_remember(tiles, known))[i] is None,
{
}

/// Looking again without anything changing changes nothing: refreshing the
/// memory twice remembers what once does.
pub proof fn lemma_remembering_twice_is_remembering_once(tiles: Seq<FoggedTile>, known: Seq<Option<u16>>)
    requires
        known.len() == tiles.len(),
    ensures
        spec_remember(tiles, spec_remember(tiles, known)) == spec_remember(tiles, known),
{
    assert(spec_remember(tiles, spec_remember(tiles, known)) =~= spec_remember(tiles, known));
}

} // verus!
