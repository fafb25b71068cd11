//! Maps: their text form, and the checks a map must pass before a game can
//! start on it.
//!
//! A map is written as lines of text, one line per row and the top row first.
//! Inside the engine the bottom row comes first, so the last line is row 0.
//! Every line has as many bytes as the grid is wide, and each byte stands for
//! one tile:
//!
//! | byte | tile    |
//! |------|---------|
//! | `s`  | player  |
//! | `#`  | steel   |
//! | `%`  | wall    |
//! | `.`  | dirt    |
//! | `o`  | rock    |
//! | `*`  | diamond |
//!
//! Every other byte is empty ground.

use vstd::prelude::*;
use crate::model::GridModel;
use crate::position::GridPos;
use crate::tile::TileType;

verus! {

/// Why a map cannot be used.
#[derive(Copy, Clone, Debug, PartialEq, Eq, Structural)]
pub enum MapError {
    /// A line is longer or shorter than the first line.
    LinesNotEqualLen,
    /// A second player was found.
    MultipleStart,
    /// No player was found, or there is none at the start position.
    NoStart,
    /// The number of tiles is not width times height.
    SizeMismatch,
    /// A tile of the border is neither steel nor wall.
    OpenBorder,
    /// A creature's counter is the largest number there is, so that it could
    /// not count up.
    CreatureCounter,
}

impl MapError {
    /// What went wrong, in words.
    pub fn message(&self) -> (text: String)
        ensures
            text@ == self.spec_message()@,
    {
        match self {
            MapError::LinesNotEqualLen => "Lines not equal len".to_owned(),
            MapError::MultipleStart => "Multiple starting positions found".to_owned(),
            MapError::NoStart => "No start position found".to_owned(),
            MapError::SizeMismatch => "Tile count is not width times height".to_owned(),
            MapError::OpenBorder => "Border is not closed by steel and walls".to_owned(),
            MapError::CreatureCounter => "Creature counter is out of range".to_owned(),
        }
    }

    /// What went wrong, in words.
    pub open spec fn spec_message(&self) -> &'static str {
        match self {
            MapError::LinesNotEqualLen => "Lines not equal len",
            MapError::MultipleStart => "Multiple starting positions found",
            MapError::NoStart => "No start position found",
            MapError::SizeMismatch => "Tile count is not width times height",
            MapError::OpenBorder => "Border is not closed by steel and walls",
            MapError::CreatureCounter => "Creature counter is out of range",
        }
    }
}

/// The byte `s`, which stands for the player.
pub const PLAYER_BYTE: u8 = 0x73;

/// The byte `#`, which stands for steel.
pub const STEEL_BYTE: u8 = 0x23;

/// The byte `%`, which stands for a wall.
pub const WALL_BYTE: u8 = 0x25;

/// The byte `.`, which stands for dirt.
pub const DIRT_BYTE: u8 = 0x2e;

/// The byte `o`, which stands for a rock.
pub const ROCK_BYTE: u8 = 0x6f;

/// The byte `*`, which stands for a diamond.
pub const DIAMOND_BYTE: u8 = 0x2a;

/// The tile that a byte of a map's text stands for.
pub open spec fn spec_tile_for(ch: u8) -> TileType {
    if ch == PLAYER_BYTE {
        TileType::Player
    } else if ch == STEEL_BYTE {
        TileType::Steel
    } else if ch == WALL_BYTE {
        TileType::Wall
    } else if ch == DIRT_BYTE {
        TileType::Dirt
    } else if ch == ROCK_BYTE {
        TileType::Rock
    } else if ch == DIAMOND_BYTE {
        TileType::Diamond
    } else {
        TileType::Empty
    }
}

/// The tile that a byte of a map's text stands for.
#[verifier::when_used_as_spec(spec_tile_for)]
pub fn tile_for(ch: u8) -> (kind: TileType)
    ensures
        kind == spec_tile_for(ch),
{
    if ch == PLAYER_BYTE {
        TileType::Player
    } else if ch == STEEL_BYTE {
        TileType::Steel
    } else if ch == WALL_BYTE {
        TileType::Wall
    } else if ch == DIRT_BYTE {
        TileType::Dirt
    } else if ch == ROCK_BYTE {
        TileType::Rock
    } else if ch == DIAMOND_BYTE {
        TileType::Diamond
    } else {
        TileType::Empty
    }
}

/// Row `y` of the grid, counted from the bottom: the lines list the top row
/// first.
pub open spec fn row(lines: Seq<Vec<u8>>, y: int) -> Seq<u8> {
    lines[lines.len() - 1 - y]@
}

/// The width of the grid that `lines` describe: the length of the first line.
pub open spec fn map_width(lines: Seq<Vec<u8>>) -> nat {
    if lines.len() == 0 {
        0
    } else {
        lines[0]@.len()
    }
}

/// The number of players among `cells`.
pub open spec fn starts_in(cells: Seq<u8>) -> nat
    decreases cells.len(),
{
    if cells.len() == 0 {
        0
    } else {
        starts_in(cells.drop_last()) + if cells.last() == PLAYER_BYTE {
            1nat
        } else {
            0nat
        }
    }
}

/// The number of players in the rows below row `y`.
pub open spec fn starts_below(lines: Seq<Vec<u8>>, y: int) -> nat
    decreases y,
{
    if y <= 0 {
        0
    } else {
        starts_below(lines, y - 1) + starts_in(row(lines, y - 1))
    }
}

/// Whether every row below row `y` is as long as the grid is wide.
pub open spec fn even_below(lines: Seq<Vec<u8>>, y: int) -> bool {
    forall|r: int| 0 <= r < y ==> (#[trigger] row(lines, r)).len() == map_width(lines)
}

/// What is wrong with the text of a map, if anything.
///
/// The rows are read from the bottom up, and the first fault met is the one
/// reported: a second player counts only if it stands below every line of the
/// wrong length. A text without lines has no player.
pub open spec fn load_error(lines: Seq<Vec<u8>>) -> Option<MapError> {
    let height = lines.len() as int;
    if exists|y: int|
        0 <= y <= height && even_below(lines, y) && #[trigger] starts_below(lines, y) >= 2 {
        Some(MapError::MultipleStart)
    } else if !even_below(lines, height) {
        Some(MapError::LinesNotEqualLen)
    } else if starts_below(lines, height) == 0 {
        Some(MapError::NoStart)
    } else {
        None
    }
}

pub proof fn lemma_starts_in_prefix(cells: Seq<u8>, k: int)
    requires
        0 <= k <= cells.len(),
    ensures
        starts_in(cells.take(k)) <= starts_in(cells),
    decreases cells.len(),
{
    if k == cells.len() {
        assert(cells.take(k) == cells);
    } else {
        lemma_starts_in_prefix(cells.drop_last(), k);
        assert(cells.drop_last().take(k) == cells.take(k));
    }
}

pub proof fn lemma_starts_below_grows(lines: Seq<Vec<u8>>, a: int, b: int)
    requires
        a <= b,
    ensures
        starts_below(lines, a) <= starts_below(lines, b),
    decreases b - a,
{
    if a < b {
        lemma_starts_below_grows(lines, a, b - 1);
    }
}

/// A parsed map: what a game starts from.
#[derive(Debug)]
pub struct MapDescription {
    pub tiles: Vec<TileType>,
    pub width: usize,
    pub height: usize,
    pub start: GridPos,
}

impl Clone for MapDescription {
    fn clone(&self) -> (r: Self)
        ensures
            r@ == self@,
    {
        MapDescription {
            tiles: self.tiles.clone(),
            width: self.width,
            height: self.height,
            start: self.start,
        }
    }
}

impl View for MapDescription {
    type V = GridModel;

    /// The grid of a game that starts on this map, with no diamond collected.
    open spec fn view(&self) -> GridModel {
        GridModel {
            width: self.width as nat,
            height: self.height as nat,
            tiles: self.tiles@,
            player_pos: self.start@,
            diamond_count: 0,
        }
    }
}

impl MapDescription {
    /// Whether this map is what `lines` say: the grid is as wide as the first
    /// line is long and as high as there are lines, the tile of column `x` in
    /// row `y` stands at `x + y * width` and is the one that the byte stands
    /// for, and `start` is the position of the only player.
    pub open spec fn describes(&self, lines: Seq<Vec<u8>>) -> bool {
        &&& self.width == map_width(lines)
        &&& self.height == lines.len()
        &&& self.tiles@.len() == self.width * self.height
        &&& forall|x: int, y: int|
            0 <= x < self.width && 0 <= y < self.height ==> self.tiles@[x + y * self.width]
                == tile_for(#[trigger] row(lines, y)[x])
        &&& forall|i: int|
            0 <= i < self.tiles@.len() ==> ((#[trigger] self.tiles@[i]) is Player <==> i
                == self.start@)
        &&& 0 <= self.start@ < self.tiles@.len()
    }

    /// Reads a map from its lines, top row first.
    ///
    /// Fails where a line is not as long as the first one, where a second
    /// player is found, and where no player is found. The rows are read from
    /// the bottom up and the first fault met is reported.
    pub fn load(lines: &Vec<Vec<u8>>) -> (r: Result<MapDescription, MapError>)
        ensures
            match r {
                Ok(map) => load_error(lines@) is None && map.describes(lines@),
                Err(e) => load_error(lines@) == Some(e),
            },
    {
        let mut start: Option<GridPos> = None;
        let height = lines.len();
        let width = if height == 0 {
            0
        } else {
            lines[0].len()
        };
        let mut tiles: Vec<TileType> = Vec::new();

        let mut y: usize = 0;
        assert(0 * width == 0);
        while y < height
            invariant
                y <= height,
                height == lines@.len(),
                width == map_width(lines@),
                tiles@.len() == y * width,
                even_below(lines@, y as int),
                starts_below(lines@, y as int) == (if start is Some {
                    1nat
                } else {
                    0nat
                }),
                forall|x1: int, y1: int|
                    0 <= x1 < width && 0 <= y1 < y ==> tiles@[x1 + y1 * width] == tile_for(
                        #[trigger] row(lines@, y1)[x1],
                    ),
                forall|i: int|
                    0 <= i < tiles@.len() ==> ((#[trigger] tiles@[i]) is Player <==> (start matches Some(
                        s,
                    ) && s@ == i)),
                start matches Some(s) ==> s@ < tiles@.len(),
            decreases height - y,
        {
            let line = &lines[height - 1 - y];
            assert(line@ == row(lines@, y as int));
            if width != line.len() {
                proof {
                    assert forall|y2: int|
                        0 <= y2 <= height && even_below(lines@, y2) implies #[trigger] starts_below(
                        lines@,
                        y2,
                    ) < 2 by {
                        if y2 > y {
                            assert(row(lines@, y as int).len() == map_width(lines@));
                        }
                        lemma_starts_below_grows(lines@, y2, y as int);
                    }
                    assert(!even_below(lines@, height as int)) by {
                        if even_below(lines@, height as int) {
                            assert(row(lines@, y as int).len() == map_width(lines@));
                        }
                    }
                }
                return Err(MapError::LinesNotEqualLen);
            }
            let mut x: usize = 0;
            assert(line@.take(0) == Seq::<u8>::empty());
            while x < width
                invariant
                    x <= width,
                    y < height,
                    height == lines@.len(),
                    width == line@.len(),
                    width == map_width(lines@),
                    line@ == row(lines@, y as int),
                    tiles@.len() == y * width + x,
                    even_below(lines@, y as int),
                    starts_below(lines@, y as int) + starts_in(line@.take(x as int)) == (if start is Some {
                        1nat
                    } else {
                        0nat
                    }),
                    forall|x1: int, y1: int|
                        0 <= x1 < width && 0 <= y1 < y ==> tiles@[x1 + y1 * width] == tile_for(
                            #[trigger] row(lines@, y1)[x1],
                        ),
                    forall|x1: int|
                        0 <= x1 < x ==> tiles@[x1 + y * width] == tile_for(#[trigger] line@[x1]),
                    forall|i: int|
                        0 <= i < tiles@.len() ==> ((#[trigger] tiles@[i]) is Player <==> (start matches Some(
                            s,
                        ) && s@ == i)),
                    start matches Some(s) ==> s@ < tiles@.len(),
                decreases width - x,
            {
                let ch = line[x];
                let ghost before = tiles@;
                proof {
                    assert(line@.take(x + 1).drop_last() == line@.take(x as int));
                    assert(line@.take(x + 1).last() == ch);
                }
                if ch == PLAYER_BYTE {
                    if start.is_some() {
                        proof {
                            lemma_starts_in_prefix(line@, x + 1);
                            lemma_even_next(lines@, y as int);
                            assert(starts_below(lines@, y + 1) >= 2);
                        }
                        return Err(MapError::MultipleStart);
                    }
                    assert(tiles.len() == x + y * width);
                    start = Some(GridPos::from_xy(x, y, width));
                }
                tiles.push(tile_for(ch));
                x += 1;
                proof {
                    assert forall|x1: int, y1: int| 0 <= x1 < width && 0 <= y1 < y implies tiles@[x1
                        + y1 * width] == tile_for(#[trigger] row(lines@, y1)[x1]) by {
                        lemma_cell_below(x1, y1, y as int, width as int);
                        assert(tiles@[x1 + y1 * width] == before[x1 + y1 * width]);
                    }
                }
            }
            proof {
                assert(line@.take(width as int) == line@);
                assert((y + 1) * width == y * width + width) by (nonlinear_arith);
                lemma_even_next(lines@, y as int);
            }
            y += 1;
        }

        proof {
            assert forall|y2: int|
                0 <= y2 <= height && even_below(lines@, y2) implies #[trigger] starts_below(
                lines@,
                y2,
            ) < 2 by {
                lemma_starts_below_grows(lines@, y2, height as int);
            }
            assert(height * width == width * height) by (nonlinear_arith);
        }
        match start {
            Some(start) => Ok(MapDescription { tiles, width, height, start }),
            None => Err(MapError::NoStart),
        }
    }
}

/// Rows of the right length below row `y`, and one in row `y`, are rows of the
/// right length below row `y + 1`.
proof fn lemma_even_next(lines: Seq<Vec<u8>>, y: int)
    requires
        even_below(lines, y),
        row(lines, y).len() == map_width(lines),
    ensures
        even_below(lines, y + 1),
{
    assert forall|r: int| 0 <= r < y + 1 implies (#[trigger] row(lines, r)).len() == map_width(
        lines,
    ) by {
        if r < y {
            assert(row(lines, r).len() == map_width(lines));
        }
    }
}

/// A tile of a row below row `y` stands before the first tile of row `y`.
proof fn lemma_cell_below(x1: int, y1: int, y: int, width: int)
    requires
        0 <= x1 < width,
        0 <= y1 < y,
    ensures
        0 <= x1 + y1 * width < y * width,
{
    assert(y1 * width + width <= y * width) by (nonlinear_arith)
        requires
            0 <= y1 < y,
            0 < width,
    ;
    assert(0 <= y1 * width) by (nonlinear_arith)
        requires
            0 <= y1,
            0 < width,
    ;
}

/// Whether the tile at `i` is a player that does not stand at the start.
pub open spec fn second_player_at(grid: GridModel, i: int) -> bool {
    grid.in_range(i) && i != grid.player_pos && grid.tiles[i] is Player
}

/// Whether the tile at `i` is part of the border and neither steel nor wall.
pub open spec fn open_border_at(grid: GridModel, i: int) -> bool {
    grid.in_range(i) && grid.on_border(i) && !grid.tiles[i].is_impassable()
}

/// Whether the tile at `i` is a creature whose counter cannot go up.
pub open spec fn full_counter_at(grid: GridModel, i: int) -> bool {
    grid.in_range(i) && (grid.tiles[i] matches TileType::Creature { counter, .. } && counter
        == usize::MAX)
}

/// What keeps a grid from being well formed, if anything. Of several faults
/// the one named first here is reported: the size, the start, a second player,
/// the border, a creature's counter.
pub open spec fn defect(grid: GridModel) -> Option<MapError> {
    if grid.tiles.len() != grid.width * grid.height {
        Some(MapError::SizeMismatch)
    } else if !(grid.in_range(grid.player_pos) && grid.tiles[grid.player_pos] is Player) {
        Some(MapError::NoStart)
    } else if exists|i: int| second_player_at(grid, i) {
        Some(MapError::MultipleStart)
    } else if exists|i: int| open_border_at(grid, i) {
        Some(MapError::OpenBorder)
    } else if exists|i: int| full_counter_at(grid, i) {
        Some(MapError::CreatureCounter)
    } else {
        None
    }
}

/// A grid is well formed exactly if it has no defect.
pub proof fn lemma_defect_free(grid: GridModel)
    ensures
        defect(grid) is None <==> grid.wf(),
{
    if defect(grid) is None {
        assert forall|i: int| grid.in_range(i) implies ((#[trigger] grid.tiles[i]) is Player <==> i
            == grid.player_pos) by {
            assert(!second_player_at(grid, i));
        }
        assert forall|i: int| grid.in_range(i) && grid.on_border(i) implies (
        #[trigger] grid.tiles[i]).is_impassable() by {
            assert(!open_border_at(grid, i));
        }
        assert forall|i: int| grid.in_range(i) implies ((#[trigger] grid.tiles[i]) matches TileType::Creature {
            counter,
            ..
        } ==> counter < usize::MAX) by {
            assert(!full_counter_at(grid, i));
        }
    }
    if grid.wf() {
        assert forall|i: int| !second_player_at(grid, i) by {
            if grid.in_range(i) {
                assert(grid.tiles[i] is Player <==> i == grid.player_pos);
            }
        }
        assert forall|i: int| !open_border_at(grid, i) by {
            if grid.in_range(i) && grid.on_border(i) {
                assert(grid.tiles[i].is_impassable());
            }
        }
        assert forall|i: int| !full_counter_at(grid, i) by {
            if grid.in_range(i) {
                assert(grid.tiles[i] is Creature ==> grid.tiles[i]->counter < usize::MAX);
            }
        }
    }
}

/// A grid's defect does not depend on its diamond counter.
pub proof fn lemma_defect_ignores_count(grid: GridModel, diamond_count: nat)
    ensures
        defect(GridModel { diamond_count, ..grid }) == defect(grid),
{
    let other = GridModel { diamond_count, ..grid };
    assert forall|j: int| second_player_at(other, j) == second_player_at(grid, j) by {}
    assert forall|j: int| open_border_at(other, j) == open_border_at(grid, j) by {}
    assert forall|j: int| full_counter_at(other, j) == full_counter_at(grid, j) by {}
}

/// Looks for what keeps the grid with these parts, and no diamond collected,
/// from being well formed.
pub fn find_defect(width: usize, height: usize, tiles: &Vec<TileType>, start: GridPos) -> (r:
    Option<MapError>)
    ensures
        r == defect(
            GridModel {
                width: width as nat,
                height: height as nat,
                tiles: tiles@,
                player_pos: start@,
                diamond_count: 0,
            },
        ),
{
    let ghost grid = GridModel {
        width: width as nat,
        height: height as nat,
        tiles: tiles@,
        player_pos: start@,
        diamond_count: 0,
    };
    let size_fits = match width.checked_mul(height) {
        Some(size) => size == tiles.len(),
        None => false,
    };
    assert(size_fits <==> tiles.len() == width * height);
    if !size_fits {
        return Some(MapError::SizeMismatch);
    }
    if start.0 >= tiles.len() || !tiles[start.0].is_player() {
        return Some(MapError::NoStart);
    }
    assert(width > 0 && height > 0) by (nonlinear_arith)
        requires
            width * height > 0,
    ;
    let mut second_player = false;
    let mut open_border = false;
    let mut full_counter = false;
    let mut i: usize = 0;
    while i < tiles.len()
        invariant
            i <= tiles.len(),
            width > 0,
            height > 0,
            grid.tiles == tiles@,
            grid.width == width,
            grid.height == height,
            grid.player_pos == start@,
            second_player <==> exists|j: int| 0 <= j < i && second_player_at(grid, j),
            open_border <==> exists|j: int| 0 <= j < i && open_border_at(grid, j),
            full_counter <==> exists|j: int| 0 <= j < i && full_counter_at(grid, j),
        decreases tiles.len() - i,
    {
        let kind = tiles[i];
        let x: usize = i % width;
        let y: usize = i / width;
        if kind.is_player() && i != start.0 {
            assert(second_player_at(grid, i as int));
            second_player = true;
        }
        if (x == 0 || x == width - 1 || y == 0 || y == height - 1) && !kind.is_impassable() {
            assert(open_border_at(grid, i as int));
            open_border = true;
        }
        if let TileType::Creature { counter, direction: _ } = kind {
            if counter == usize::MAX {
                assert(full_counter_at(grid, i as int));
                full_counter = true;
            }
        }
        i += 1;
    }
    let r = if second_player {
        Some(MapError::MultipleStart)
    } else if open_border {
        Some(MapError::OpenBorder)
    } else if full_counter {
        Some(MapError::CreatureCounter)
    } else {
        None
    };
    r
}

} // verus!
