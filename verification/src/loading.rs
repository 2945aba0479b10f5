//! Where assets are fetched from, and the map a replay is played on.
use vstd::prelude::*;
use vstd::string::*;
use crate::board::TilePosition;

verus! {

/// The digits of `n` in base ten, most significant first.
pub open spec fn decimal(n: nat) -> Seq<char>
    decreases n,
{
    if n < 10 {
        seq![digit_char(n)]
    } else {
        decimal(n / 10).push(digit_char(n % 10))
    }
}

pub open spec fn digit_char(d: nat) -> char {
    if d == 0 {
        '0'
    } else if d == 1 {
        '1'
    } else if d == 2 {
        '2'
    } else if d == 3 {
        '3'
    } else if d == 4 {
        '4'
    } else if d == 5 {
        '5'
    } else if d == 6 {
        '6'
    } else if d == 7 {
        '7'
    } else if d == 8 {
        '8'
    } else {
        '9'
    }
}

fn append_digit(s: &mut String, d: u32)
    requires
        d < 10,
    ensures
        final(s)@ == old(s)@.push(digit_char(d as nat)),
{
    let text = if d == 0 {
        "0"
    } else if d == 1 {
        "1"
    } else if d == 2 {
        "2"
    } else if d == 3 {
        "3"
    } else if d == 4 {
        "4"
    } else if d == 5 {
        "5"
    } else if d == 6 {
        "6"
    } else if d == 7 {
        "7"
    } else if d == 8 {
        "8"
    } else {
        "9"
    };
    proof {
        reveal_strlit("0");
        reveal_strlit("1");
        reveal_strlit("2");
        reveal_strlit("3");
        reveal_strlit("4");
        reveal_strlit("5");
        reveal_strlit("6");
        reveal_strlit("7");
        reveal_strlit("8");
        reveal_strlit("9");
    }
    s.append(text);
    proof {
        assert(final(s)@ =~= old(s)@.push(digit_char(d as nat)));
    }
}

/// Write `n` in base ten after what `s` holds.
pub fn append_decimal(s: &mut String, n: u32)
    ensures
        final(s)@ == old(s)@ + decimal(n as nat),
    decreases n,
{
    if n >= 10 {
        append_decimal(s, n / 10);
    }
    append_digit(s, n % 10);
    proof {
        if n >= 10 {
            assert(old(s)@ + decimal(n as nat) =~= (old(s)@ + decimal((n / 10) as nat)).push(digit_char((n % 10) as nat)));
        } else {
            assert(old(s)@ + decimal(n as nat) =~= old(s)@.push(digit_char((n % 10) as nat)));
        }
    }
}

/// Where the asset of an AWBW map is fetched from.
pub trait MapAssetPathResolver {
    fn resolve_path(&self, map_id: u32) -> String;
}

/// Maps are fetched from `maps/<id>.json`.
pub struct DefaultMapAssetPathResolver;

impl MapAssetPathResolver for DefaultMapAssetPathResolver {
    fn resolve_path(&self, map_id: u32) -> (path: String)
        ensures
            path@ == "maps/"@ + decimal(map_id as nat) + ".json"@,
    {
        let mut path = String::from_str("maps/");
        append_decimal(&mut path, map_id);
        path.append(".json");
        path
    }
}

/// Where a static asset, named by its logical path, is fetched from.
pub trait StaticAssetPathResolver {
    fn resolve_path(&self, logical_path: &str) -> String;
}

/// Static assets are fetched from their logical paths.
pub struct DefaultStaticAssetPathResolver;

impl StaticAssetPathResolver for DefaultStaticAssetPathResolver {
    fn resolve_path(&self, logical_path: &str) -> (path: String)
        ensures
            path@ == logical_path@,
    {
        String::from_str(logical_path)
    }
}

/// The terrain of a map, row by row from the top: `tiles[y * width + x]` is
/// the tile `x` columns right and `y` rows down.
pub struct TerrainGrid {
    pub width: usize,
    pub height: usize,
    pub tiles: Vec<u16>,
}

pub open spec fn grid_wf(width: usize, height: usize, tiles: Seq<u16>) -> bool {
    tiles.len() == width * height
}

pub open spec fn in_grid(width: usize, height: usize, p: TilePosition) -> bool {
    p.x < width && p.y < height
}

pub open spec fn tile_index(width: usize, p: TilePosition) -> int {
    p.y * width + p.x
}

/// The terrain after the replay's buildings are laid over the map, in order:
/// each building on the board replaces the terrain under it, and one off the
/// board is skipped.
pub open spec fn spec_overrides(width: usize, height: usize, tiles: Seq<u16>, buildings: Seq<(TilePosition, u16)>) -> Seq<u16>
    decreases buildings.len(),
{
    if buildings.len() == 0 {
        tiles
    } else {
        let earlier = spec_overrides(width, height, tiles, buildings.drop_last());
        let (p, terrain) = buildings.last();
        if in_grid(width, height, p) {
            earlier.update(tile_index(width, p), terrain)
        } else {
            earlier
        }
    }
}

proof fn lemma_index_in_grid(width: usize, height: usize, p: TilePosition)
    requires
        in_grid(width, height, p),
    ensures
        0 <= tile_index(width, p) < width * height,
{
    assert(p.y * width + p.x < width * height) by (nonlinear_arith)
        requires
            p.x < width,
            p.y < height,
    ;
    assert(p.y * width >= 0) by (nonlinear_arith);
}

proof fn lemma_overrides_keep_length(width: usize, height: usize, tiles: Seq<u16>, buildings: Seq<(TilePosition, u16)>)
    requires
        grid_wf(width, height, tiles),
    ensures
        spec_overrides(width, height, tiles, buildings).len() == tiles.len(),
    decreases buildings.len(),
{
    if buildings.len() > 0 {
        lemma_overrides_keep_length(width, height, tiles, buildings.drop_last());
        if in_grid(width, height, buildings.last().0) {
            lemma_index_in_grid(width, height, buildings.last().0);
        }
    }
}

/// Lay the buildings an archived match records over its map, so that the
/// board opens with every property in the hands the match started with.
pub fn apply_replay_building_overrides(grid: &mut TerrainGrid, buildings: &[(TilePosition, u16)])
    requires
        grid_wf(old(grid).width, old(grid).height, old(grid).tiles@),
    ensures
        final(grid).width == old(grid).width,
        final(grid).height == old(grid).height,
        final(grid).tiles@ == spec_overrides(old(grid).width, old(grid).height, old(grid).tiles@, buildings@),
        grid_wf(final(grid).width, final(grid).height, final(grid).tiles@),
{
    lay_terrain(grid, buildings);
}

/// Lay terrain over the board, in order: each tile on the board takes the
/// terrain given for it, and a tile off the board is skipped.
pub fn lay_terrain(grid: &mut TerrainGrid, buildings: &[(TilePosition, u16)])
    requires
        grid_wf(old(grid).width, old(grid).height, old(grid).tiles@),
    ensures
        final(grid).width == old(grid).width,
        final(grid).height == old(grid).height,
        final(grid).tiles@ == spec_overrides(old(grid).width, old(grid).height, old(grid).tiles@, buildings@),
        grid_wf(final(grid).width, final(grid).height, final(grid).tiles@),
{
    let ghost start = grid.tiles@;
    let mut i: usize = 0;
    while i < buildings.len()
        invariant
            0 <= i <= buildings@.len(),
            grid.width == old(grid).width,
            grid.height == old(grid).height,
            start == old(grid).tiles@,
            grid_wf(grid.width, grid.height, start),
            grid.tiles@ == spec_overrides(grid.width, grid.height, start, buildings@.take(i as int)),
        decreases buildings@.len() - i,
    {
        let (p, terrain) = buildings[i];
        proof {
            assert(buildings@.take(i + 1).drop_last() =~= buildings@.take(i as int));
            assert(buildings@.take(i + 1).last() == buildings@[i as int]);
            lemma_overrides_keep_length(grid.width, grid.height, start, buildings@.take(i as int));
        }
        let total = grid.tiles.len();
        if p.x < grid.width && p.y < grid.height {
            proof {
                lemma_index_in_grid(grid.width, grid.height, p);
                assert(p.y * grid.width + p.x < total);
                assert(p.y * grid.width <= p.y * grid.width + p.x);
            }
            let row_start = p.y * grid.width;
            let index = row_start + p.x;
            grid.tiles.set(index, terrain);
        }
        i = i + 1;
    }
    proof {
        assert(buildings@.take(buildings@.len() as int) =~= buildings@);
        lemma_overrides_keep_length(grid.width, grid.height, start, buildings@);
    }
}

/// A building laid on the board is what the board shows there, whatever was
/// there before, until a later building replaces it.
pub proof fn lemma_the_last_building_on_a_tile_wins(
    width: usize,
    height: usize,
    tiles: Seq<u16>,
    buildings: Seq<(TilePosition, u16)>,
    p: TilePosition,
    terrain: u16,
)
    requires
        grid_wf(width, height, tiles),
        in_grid(width, height, p),
    ensures
        spec_overrides(width, height, tiles, buildings.push((p, terrain)))[tile_index(width, p)] == terrain,
{
    assert(buildings.push((p, terrain)).drop_last() =~= buildings);
    lemma_overrides_keep_length(width, height, tiles, buildings);
    lemma_index_in_grid(width, height, p);
}

/// A building off the board changes nothing.
pub proof fn lemma_a_building_off_the_board_changes_nothing(
    width: usize,
    height: usize,
    tiles: Seq<u16>,
    buildings: Seq<(TilePosition, u16)>,
    p: TilePosition,
    terrain: u16,
)
    requires
        !in_grid(width, height, p),
    ensures
        spec_overrides(width, height, tiles, buildings.push((p, terrain))) == spec_overrides(width, height, tiles, buildings),
{
    assert(buildings.push((p, terrain)).drop_last() =~= buildings);
}

} // verus!

verus! {

/// One seat of a loaded replay, as the page lists it.
#[derive(Debug)]
pub struct ReplayLoadedPlayer {
    pub player_id: u32,
    pub user_id: u32,
    pub order: u32,
    pub team: Option<String>,
    pub eliminated: bool,
    pub faction_code: String,
    pub faction_name: String,
    pub co_key: Option<String>,
    pub co_name: Option<String>,
    pub tag_co_key: Option<String>,
    pub tag_co_name: Option<String>,
}

/// What the page is told when a replay has loaded.
#[derive(Debug)]
pub struct ReplayLoaded {
    pub game_id: u32,
    pub map_id: u32,
    pub day: u32,
    pub fog: bool,
    pub team_game: bool,
    pub players: Vec<ReplayLoadedPlayer>,
}

/// One game of an archive, with its seats as the archive lists them. Each
/// seat's `turn_order` is its order in the game, its `team` the team the
/// archive names, and its commander names are those the portrait table
/// gives (absent for an id the table lacks).
#[derive(Debug)]
pub struct ArchivedGame {
    pub id: u32,
    pub map_id: u32,
    pub day: u32,
    pub fog: bool,
    pub team: bool,
    pub seats: Vec<crate::roster::PlayerRosterPlayer>,
}

/// A seat as the page lists it: its team only in a team game.
pub open spec fn loaded_player(seat: crate::roster::PlayerRosterPlayer, team_game: bool) -> ReplayLoadedPlayer {
    ReplayLoadedPlayer {
        player_id: seat.player_id,
        user_id: seat.user_id,
        order: seat.turn_order,
        team: if team_game {
            seat.team
        } else {
            None
        },
        eliminated: seat.eliminated,
        faction_code: seat.faction_code,
        faction_name: seat.faction_name,
        co_key: seat.co_key,
        co_name: seat.co_name,
        tag_co_key: seat.tag_co_key,
        tag_co_name: seat.tag_co_name,
    }
}

/// What the page is told of a loaded replay: the first game of the archive,
/// its seats in turn order (seats given the same turn as the archive lists
/// them). Nothing, for an archive without games.
pub fn replay_loaded_event(games: Vec<ArchivedGame>) -> (loaded: Option<ReplayLoaded>)
    ensures
        games@.len() == 0 ==> loaded is None,
        games@.len() > 0 ==> {
            let first = games@[0];
            let sorted = crate::roster::sort_by_turn(first.seats@);
            &&& loaded is Some
            &&& loaded->0.game_id == first.id
            &&& loaded->0.map_id == first.map_id
            &&& loaded->0.day == first.day
            &&& loaded->0.fog == first.fog
            &&& loaded->0.team_game == first.team
            &&& loaded->0.players@.len() == sorted.len()
            &&& forall|i: int|
                0 <= i < sorted.len() ==> #[trigger] loaded->0.players@[i] == loaded_player(sorted[i], first.team)
        },
{
    let mut games = games;
    if games.len() == 0 {
        return None;
    }
    let first = games.remove(0);
    let sorted = crate::roster::sort_seats_by_turn(first.seats);
    let mut players: Vec<ReplayLoadedPlayer> = Vec::new();
    let mut i: usize = 0;
    while i < sorted.len()
        invariant
            0 <= i <= sorted@.len(),
            players@.len() == i,
            forall|j: int| 0 <= j < i ==> #[trigger] players@[j] == loaded_player(sorted@[j], first.team),
        decreases sorted@.len() - i,
    {
        let seat = &sorted[i];
        let team = if first.team {
            crate::roster::clone_text(&seat.team)
        } else {
            None
        };
        players.push(ReplayLoadedPlayer {
            player_id: seat.player_id,
            user_id: seat.user_id,
            order: seat.turn_order,
            team,
            eliminated: seat.eliminated,
            faction_code: seat.faction_code.clone(),
            faction_name: seat.faction_name.clone(),
            co_key: crate::roster::clone_text(&seat.co_key),
            co_name: crate::roster::clone_text(&seat.co_name),
            tag_co_key: crate::roster::clone_text(&seat.tag_co_key),
            tag_co_name: crate::roster::clone_text(&seat.tag_co_name),
        });
        i = i + 1;
    }
    Some(ReplayLoaded {
        game_id: first.id,
        map_id: first.map_id,
        day: first.day,
        fog: first.fog,
        team_game: first.team,
        players,
    })
}

} // verus!
