//! The mathematical model of the grid and of one tick.
//!
//! A [`GridModel`] is the grid as plain mathematics: a sequence of tiles with
//! the player's index and the diamond counter. Every rule of the engine is a
//! function from model to model here, and the executable engine is proved to
//! compute exactly these functions.
//!
//! A tick is `move_player` followed by `sweep_upto` over every position. The
//! two places where the engine breaks a tie appear as the argument `pick`: the
//! sweep takes one pick per position, and a position that has only one
//! possible outcome ignores its pick. `picks_allowed` says which picks a grid
//! offers, and `picks_follow` which of them a given source makes.

use vstd::prelude::*;
use crate::input::{Action, Direction};
use crate::position::step;
use crate::random::Bound;
use crate::tile::TileType;

verus! {

/// Where a tile goes in one step of the sweep, and what it becomes there.
pub struct Placement {
    pub pos: int,
    pub kind: TileType,
}

/// The grid as a mathematical value.
pub struct GridModel {
    pub width: nat,
    pub height: nat,
    /// Row after row, lowest row first: the tile of column `x` in row `y` has
    /// index `x + y * width`.
    pub tiles: Seq<TileType>,
    /// The index of the one `Player` tile.
    pub player_pos: int,
    /// The number of diamonds collected so far.
    pub diamond_count: nat,
}

impl GridModel {
    /// Whether `i` lies in the first or last row or column.
    pub open spec fn on_border(self, i: int) -> bool {
        let w = self.width as int;
        let h = self.height as int;
        i % w == 0 || i % w == w - 1 || i / w == 0 || i / w == h - 1
    }

    /// Whether `i` is the index of a tile.
    pub open spec fn in_range(self, i: int) -> bool {
        0 <= i < self.tiles.len()
    }

    /// The invariant of the engine: the tile array fills the grid, exactly
    /// one tile is the player and `player_pos` is its index, the border is made
    /// of steel and walls, and no creature's counter is at the end of its range.
    pub open spec fn wf(self) -> bool {
        &&& self.tiles.len() == self.width * self.height
        &&& self.in_range(self.player_pos)
        &&& forall|i: int|
            self.in_range(i) ==> ((#[trigger] self.tiles[i]) is Player <==> i == self.player_pos)
        &&& forall|i: int|
            self.in_range(i) && self.on_border(i) ==> (#[trigger] self.tiles[i]).is_impassable()
        &&& forall|i: int|
            self.in_range(i) ==> ((#[trigger] self.tiles[i]) matches TileType::Creature {
                counter,
                ..
            } ==> counter < usize::MAX)
    }

    /// The index next to `pos` in direction `d`.
    pub open spec fn neighbor(self, pos: int, d: Direction) -> int {
        step(pos, d, self.width as int)
    }

    /// The grid with other tiles, and nothing else changed.
    pub open spec fn with_tiles(self, tiles: Seq<TileType>) -> GridModel {
        GridModel { tiles, ..self }
    }

    /// The grid with `kind` written at `pos`.
    pub open spec fn set_tile(self, pos: int, kind: TileType) -> GridModel {
        GridModel { tiles: self.tiles.update(pos, kind), ..self }
    }

    /// The grid after the tile at `src` has been moved to `dst`: first `dst`
    /// is given what `src` holds, so that whatever was at `dst` is gone, then
    /// `src` is emptied. A tile moved onto itself is therefore left empty. The
    /// player's index follows the player.
    pub open spec fn move_object(self, src: int, dst: int) -> GridModel {
        GridModel {
            tiles: self.tiles.update(dst, self.tiles[src]).update(src, TileType::Empty),
            player_pos: if self.player_pos == src {
                dst
            } else {
                self.player_pos
            },
            ..self
        }
    }

    // ---------------------------------------------------------------
    // The player's actions
    // ---------------------------------------------------------------

    /// Whether an action in direction `d` changes any tile: the player steps
    /// onto the tile in front, or pushes the rock in front onto empty ground.
    pub open spec fn action_moves(self, d: Direction) -> bool {
        let dst = self.neighbor(self.player_pos, d);
        let past = self.neighbor(dst, d);
        self.tiles[dst].can_be_stepped_on() || (self.tiles[dst].can_be_pushed()
            && self.tiles[past].is_empty())
    }

    /// The grid after one action in direction `d`.
    ///
    /// A diamond in front of the player is counted before anything else is
    /// looked at, whether or not a move follows. Then the player steps onto a
    /// tile that can be stepped on; or a rock in front with empty ground
    /// behind it is pushed one tile and the player follows; or nothing moves.
    pub open spec fn apply_action(self, d: Direction) -> GridModel {
        let dst = self.neighbor(self.player_pos, d);
        let past = self.neighbor(dst, d);
        let counted = GridModel {
            diamond_count: if self.tiles[dst].is_diamond() {
                self.diamond_count + 1
            } else {
                self.diamond_count
            },
            ..self
        };
        if self.tiles[dst].can_be_stepped_on() {
            counted.move_object(self.player_pos, dst)
        } else if self.tiles[dst].can_be_pushed() && self.tiles[past].is_empty() {
            counted.move_object(dst, past).move_object(self.player_pos, dst)
        } else {
            counted
        }
    }

    /// The grid after the pending actions have been resolved: they are tried
    /// in order, and the first one that changes a tile ends the resolution.
    pub open spec fn move_player(self, actions: Seq<Action>) -> GridModel
        decreases actions.len(),
    {
        if actions.len() == 0 {
            self
        } else if self.action_moves(actions[0].direction) {
            self.apply_action(actions[0].direction)
        } else {
            self.apply_action(actions[0].direction).move_player(actions.skip(1))
        }
    }

    /// How often a diamond is the tile in front of the player while `actions`
    /// are resolved: each such diamond is collected.
    pub open spec fn diamonds_taken(self, actions: Seq<Action>) -> nat
        decreases actions.len(),
    {
        if actions.len() == 0 {
            0
        } else {
            let d = actions[0].direction;
            let here: nat = if self.tiles[self.neighbor(self.player_pos, d)].is_diamond() {
                1
            } else {
                0
            };
            if self.action_moves(d) {
                here
            } else {
                here + self.apply_action(d).diamonds_taken(actions.skip(1))
            }
        }
    }

    // ---------------------------------------------------------------
    // One position of the sweep
    // ---------------------------------------------------------------

    /// Whether the tile beside `pos` in direction `side` and the tile below
    /// that one are both empty, so that an object at `pos` can roll there.
    pub open spec fn side_free(self, pos: int, side: Direction) -> bool {
        let beside = self.neighbor(pos, side);
        self.tiles[beside].is_empty() && self.tiles[self.neighbor(beside, Direction::Down)].is_empty()
    }

    /// Whether an object at `pos` rests on something it can roll off.
    pub open spec fn rests_on_slope(self, pos: int) -> bool {
        self.tiles[self.neighbor(pos, Direction::Down)].can_be_rolled_on()
    }

    /// Where a falling object at `pos` rolls to, if it rolls. With both sides
    /// free, pick 0 is the left side and any other pick the right side.
    pub open spec fn roll_target(self, pos: int, pick: nat) -> Option<int> {
        let left = self.neighbor(pos, Direction::Left);
        let right = self.neighbor(pos, Direction::Right);
        if !self.rests_on_slope(pos) {
            None
        } else if self.side_free(pos, Direction::Left) && self.side_free(pos, Direction::Right) {
            if pick == 0 {
                Some(left)
            } else {
                Some(right)
            }
        } else if self.side_free(pos, Direction::Left) {
            Some(left)
        } else if self.side_free(pos, Direction::Right) {
            Some(right)
        } else {
            None
        }
    }

    /// Where a falling object at `pos` falls to: one tile down, if that tile
    /// is empty.
    pub open spec fn fall_target(self, pos: int) -> Option<int> {
        let below = self.neighbor(pos, Direction::Down);
        if self.tiles[below].is_empty() {
            Some(below)
        } else {
            None
        }
    }

    /// `found` with `d` added at its end, if a creature at `pos` that faces
    /// `facing` may turn to `d`: `d` is not straight back and leads to empty
    /// ground.
    pub open spec fn add_turn(
        self,
        found: Seq<Direction>,
        pos: int,
        facing: Direction,
        d: Direction,
    ) -> Seq<Direction> {
        if d != facing.opposite() && self.tiles[self.neighbor(pos, d)] == TileType::Empty {
            found.push(d)
        } else {
            found
        }
    }

    /// The directions that a blocked creature at `pos` chooses from, in the
    /// order left, right, up, down.
    pub open spec fn free_turns(self, pos: int, facing: Direction) -> Seq<Direction> {
        let a = self.add_turn(Seq::empty(), pos, facing, Direction::Left);
        let b = self.add_turn(a, pos, facing, Direction::Right);
        let c = self.add_turn(b, pos, facing, Direction::Up);
        self.add_turn(c, pos, facing, Direction::Down)
    }

    /// A creature that has waited one tick: its counter is one up.
    pub open spec fn waited(counter: usize, direction: Direction) -> TileType {
        TileType::Creature { counter: (counter + 1) as usize, direction }
    }

    /// A creature that has walked one step from `pos` in direction `d`: it
    /// faces `d` and counts from 0 again.
    pub open spec fn walked(self, pos: int, d: Direction) -> Placement {
        Placement {
            pos: self.neighbor(pos, d),
            kind: TileType::Creature { counter: 0, direction: d },
        }
    }

    /// Where a creature at `pos` that faces `facing` walks, if it walks.
    ///
    /// It walks straight on where the ground ahead is empty. It stands still
    /// in front of the player. Blocked by anything else, it turns to the free
    /// turn number `pick`; with no free turn it goes straight back, if the
    /// ground behind it is empty.
    pub open spec fn creature_move(self, pos: int, facing: Direction, pick: nat) -> Option<
        Placement,
    > {
        let front = self.tiles[self.neighbor(pos, facing)];
        let turns = self.free_turns(pos, facing);
        if front.is_empty() {
            Some(self.walked(pos, facing))
        } else if !front.can_be_bounced_on() {
            None
        } else if turns.len() > 0 {
            Some(self.walked(pos, turns[pick as int]))
        } else if self.tiles[self.neighbor(pos, facing.opposite())] is Empty {
            Some(self.walked(pos, facing.opposite()))
        } else {
            None
        }
    }

    /// What the sweep does at `pos`: `None` where the tile stays as it is,
    /// else the place the tile goes to and what it becomes there.
    ///
    /// A rock or diamond rolls, or else falls. A creature whose counter is not
    /// 2 modulo 3 stays and counts one up; one whose counter is 2 modulo 3
    /// tries to walk. Every other tile stays.
    pub open spec fn outcome_at(self, pos: int, pick: nat) -> Option<Placement> {
        let tile = self.tiles[pos];
        if tile.can_fall() {
            match self.roll_target(pos, pick) {
                Some(dst) => Some(Placement { pos: dst, kind: tile }),
                None => match self.fall_target(pos) {
                    Some(dst) => Some(Placement { pos: dst, kind: tile }),
                    None => None,
                },
            }
        } else {
            match tile {
                TileType::Creature { counter, direction } => if counter % 3 == 2 {
                    self.creature_move(pos, direction, pick)
                } else {
                    Some(Placement { pos: pos, kind: Self::waited(counter, direction) })
                },
                _ => None,
            }
        }
    }

    /// The number of ways an object at `pos` can roll: 2 where both sides
    /// are free, else 1.
    pub open spec fn roll_options(self, pos: int) -> nat {
        if self.rests_on_slope(pos) && self.side_free(pos, Direction::Left) && self.side_free(
            pos,
            Direction::Right,
        ) {
            2
        } else {
            1
        }
    }

    /// The number of ways a walking creature at `pos` can go: the number of
    /// its free turns where it is blocked and has any, else 1.
    pub open spec fn turn_options(self, pos: int, facing: Direction) -> nat {
        let front = self.tiles[self.neighbor(pos, facing)];
        let turns = self.free_turns(pos, facing);
        if !front.is_empty() && front.can_be_bounced_on() && turns.len() > 0 {
            turns.len()
        } else {
            1
        }
    }

    /// The number of picks that the sweep distinguishes at `pos`. It is 1
    /// wherever the outcome is determined.
    pub open spec fn options_at(self, pos: int) -> nat {
        match self.tiles[pos] {
            TileType::Rock | TileType::Diamond => self.roll_options(pos),
            TileType::Creature { counter, direction } => if counter % 3 == 2 {
                self.turn_options(pos, direction)
            } else {
                1
            },
            _ => 1,
        }
    }

    /// The grid after the sweep has dealt with position `pos`.
    pub open spec fn step_at(self, pos: int, pick: nat) -> GridModel {
        match self.outcome_at(pos, pick) {
            None => self,
            Some(placement) => self.move_object(pos, placement.pos).set_tile(
                placement.pos,
                placement.kind,
            ),
        }
    }

    // ---------------------------------------------------------------
    // The sweep and the tick
    // ---------------------------------------------------------------

    /// The grid after the sweep has dealt with the positions below `n`, in
    /// increasing order, each on the grid as the earlier ones left it.
    /// Position `i` uses `picks[i]`.
    pub open spec fn sweep_upto(self, n: int, picks: Seq<nat>) -> GridModel
        decreases n,
    {
        if n <= 0 {
            self
        } else {
            self.sweep_upto(n - 1, picks).step_at(n - 1, picks[n - 1])
        }
    }

    /// Whether each of the first `n` picks is one that its position offers at
    /// the moment the sweep reaches it.
    pub open spec fn picks_allowed(self, n: int, picks: Seq<nat>) -> bool
        decreases n,
    {
        n <= 0 || (self.picks_allowed(n - 1, picks) && picks[n - 1] < self.sweep_upto(
            n - 1,
            picks,
        ).options_at(n - 1))
    }

    /// Whether `pick` is what a source with this bound picks at `pos`. Where
    /// the position offers one outcome only, or the bound leaves the pick
    /// free, every pick is.
    pub open spec fn pick_follows(self, pos: int, pick: nat, bound: Bound) -> bool {
        self.options_at(pos) > 1 ==> (bound(self.options_at(pos)) matches Some(b) ==> pick == b)
    }

    /// Whether each of the first `n` picks is what a source with this bound
    /// picks at the moment the sweep reaches its position.
    pub open spec fn picks_follow(self, n: int, picks: Seq<nat>, bound: Bound) -> bool
        decreases n,
    {
        n <= 0 || (self.picks_follow(n - 1, picks, bound) && self.sweep_upto(
            n - 1,
            picks,
        ).pick_follows(n - 1, picks[n - 1], bound))
    }

    /// The grid after one tick: the player's actions are resolved, then every
    /// position is swept once.
    pub open spec fn tick(self, actions: Seq<Action>, picks: Seq<nat>) -> GridModel {
        self.move_player(actions).sweep_upto(self.tiles.len() as int, picks)
    }

    /// Whether `picks` holds one allowed pick for every position of the grid.
    pub open spec fn tick_allows(self, actions: Seq<Action>, picks: Seq<nat>) -> bool {
        &&& picks.len() == self.tiles.len()
        &&& self.move_player(actions).picks_allowed(self.tiles.len() as int, picks)
    }

    /// Whether `picks` holds, for every position of the grid, an allowed pick
    /// that a source with this bound makes.
    pub open spec fn tick_draws(self, actions: Seq<Action>, bound: Bound, picks: Seq<nat>) -> bool {
        &&& self.tick_allows(actions, picks)
        &&& self.move_player(actions).picks_follow(self.tiles.len() as int, picks, bound)
    }

    /// Whether `after` is a grid that one tick with `actions` can lead to.
    pub open spec fn ticks_to(self, actions: Seq<Action>, after: GridModel) -> bool {
        exists|picks: Seq<nat>| #[trigger]
            self.tick_allows(actions, picks) && after == self.tick(actions, picks)
    }

    /// Whether `after` is a grid that one tick with `actions` can lead to
    /// when the picks come from a source with this bound.
    pub open spec fn ticks_to_with(self, actions: Seq<Action>, bound: Bound, after: GridModel) -> bool {
        exists|picks: Seq<nat>| #[trigger]
            self.tick_draws(actions, bound, picks) && after == self.tick(actions, picks)
    }

    /// Every tile that can move, or that something can move onto, lies
    /// strictly inside the border, so that all eight tiles around it exist.
    pub proof fn lemma_inside(self, i: int)
        requires
            self.wf(),
            self.in_range(i),
            !self.tiles[i].is_impassable(),
        ensures
            self.width + 1 <= i,
            i + self.width + 1 < self.tiles.len(),
    {
        let w = self.width as int;
        let h = self.height as int;
        assert(w > 0 && h > 0) by (nonlinear_arith)
            requires
                0 <= i < w * h,
                w >= 0,
                h >= 0,
        ;
        assert(!self.on_border(i));
        vstd::arithmetic::div_mod::lemma_fundamental_div_mod(i, w);
        vstd::arithmetic::div_mod::lemma_mod_bound(i, w);
        let q = i / w;
        let r = i % w;
        assert(i == w * q + r);
        assert(0 <= q < h) by (nonlinear_arith)
            requires
                i == w * q + r,
                0 <= r < w,
                0 <= i < w * h,
        ;
        assert(1 <= q <= h - 2);
        assert(1 <= r <= w - 2);
        assert(w * 1 <= w * q <= w * (h - 2)) by (nonlinear_arith)
            requires
                1 <= q <= h - 2,
                w > 0,
        ;
        assert(w * (h - 2) == w * h - 2 * w) by (nonlinear_arith);
    }

    /// The three facts that no rule of the engine ever changes.
    pub open spec fn same_shape(self, other: GridModel) -> bool {
        &&& self.width == other.width
        &&& self.height == other.height
        &&& self.tiles.len() == other.tiles.len()
    }

    /// Moving a tile that is not part of the border onto a tile that is
    /// neither part of the border nor the player keeps the grid well formed.
    pub proof fn lemma_move_keeps_wf(self, src: int, dst: int)
        requires
            self.wf(),
            self.in_range(src),
            self.in_range(dst),
            src != dst,
            !self.tiles[src].is_impassable(),
            !self.tiles[dst].is_impassable(),
            !(self.tiles[dst] is Player),
        ensures
            self.move_object(src, dst).wf(),
            self.move_object(src, dst).same_shape(self),
    {
        let after = self.move_object(src, dst);
        assert forall|i: int| after.in_range(i) implies ((#[trigger] after.tiles[i]) is Player
            <==> i == after.player_pos) by {
            assert(self.tiles[i] is Player <==> i == self.player_pos);
        }
        assert forall|i: int| after.in_range(i) && after.on_border(i) implies (
        #[trigger] after.tiles[i]).is_impassable() by {
            assert(self.on_border(i));
            assert(self.tiles[i].is_impassable());
        }
        assert forall|i: int| after.in_range(i) implies ((#[trigger] after.tiles[i]) matches TileType::Creature {
            counter,
            ..
        } ==> counter < usize::MAX) by {
            assert(self.tiles[i] is Creature ==> self.tiles[i]->counter < usize::MAX);
        }
    }

    /// Every free turn is a direction other than straight back that leads to
    /// empty ground.
    pub proof fn lemma_free_turns(self, pos: int, facing: Direction, k: int)
        requires
            0 <= k < self.free_turns(pos, facing).len(),
        ensures
            self.free_turns(pos, facing)[k] != facing.opposite(),
            self.tiles[self.neighbor(pos, self.free_turns(pos, facing)[k])] == TileType::Empty,
            self.free_turns(pos, facing).len() <= 3,
    {
        let a = self.add_turn(Seq::empty(), pos, facing, Direction::Left);
        let b = self.add_turn(a, pos, facing, Direction::Right);
        let c = self.add_turn(b, pos, facing, Direction::Up);
        let d = self.add_turn(c, pos, facing, Direction::Down);
        assert(d == self.free_turns(pos, facing));
        assert(a.len() <= 1 && b.len() <= a.len() + 1 && c.len() <= b.len() + 1 && d.len()
            <= c.len() + 1);
    }

    /// The machine's largest `usize` is a multiple of 3, so a counter that is
    /// not 2 modulo 3 is not the one just below it.
    pub proof fn lemma_counter_step(counter: usize)
        requires
            counter < usize::MAX,
            counter % 3 != 2,
        ensures
            counter + 1 < usize::MAX,
    {
        assert(usize::MAX == 0xffff_ffff || usize::MAX == 0xffff_ffff_ffff_ffff) by {
            assert(usize::BITS == 32 || usize::BITS == 64);
        }
    }

    /// Writing a creature that has room to count over a tile that is neither
    /// part of the border nor the player keeps the grid well formed.
    pub proof fn lemma_creature_keeps_wf(self, pos: int, kind: TileType)
        requires
            self.wf(),
            self.in_range(pos),
            !self.tiles[pos].is_impassable(),
            !(self.tiles[pos] is Player),
            kind is Creature,
            kind->counter < usize::MAX,
        ensures
            self.set_tile(pos, kind).wf(),
            self.set_tile(pos, kind).same_shape(self),
    {
        let after = self.set_tile(pos, kind);
        assert forall|i: int| after.in_range(i) implies ((#[trigger] after.tiles[i]) is Player
            <==> i == after.player_pos) by {
            assert(self.tiles[i] is Player <==> i == self.player_pos);
        }
        assert forall|i: int| after.in_range(i) && after.on_border(i) implies (
        #[trigger] after.tiles[i]).is_impassable() by {
            assert(self.on_border(i));
            assert(self.tiles[i].is_impassable());
        }
        assert forall|i: int| after.in_range(i) implies ((#[trigger] after.tiles[i]) matches TileType::Creature {
            counter,
            ..
        } ==> counter < usize::MAX) by {
            assert(self.tiles[i] is Creature ==> self.tiles[i]->counter < usize::MAX);
        }
    }

    /// One step of the sweep keeps the grid well formed, and leaves the
    /// player and the diamond counter alone.
    pub proof fn lemma_step_keeps_wf(self, pos: int, pick: nat)
        requires
            self.wf(),
            self.in_range(pos),
            pick < self.options_at(pos),
        ensures
            self.step_at(pos, pick).wf(),
            self.step_at(pos, pick).same_shape(self),
            self.step_at(pos, pick).player_pos == self.player_pos,
            self.step_at(pos, pick).diamond_count == self.diamond_count,
    {
        let after = self.step_at(pos, pick);
        match self.outcome_at(pos, pick) {
            None => {},
            Some(placement) => {
                let tile = self.tiles[pos];
                let dst = placement.pos;
                self.lemma_inside(pos);
                if tile.can_fall() {
                    assert(self.tiles[dst] is Empty);
                    self.lemma_move_keeps_wf(pos, dst);
                    assert(after.tiles =~= self.move_object(pos, dst).tiles);
                } else {
                    let counter = tile->counter;
                    let facing = tile->direction;
                    if counter % 3 == 2 {
                        if !self.tiles[self.neighbor(pos, facing)].is_empty()
                            && self.free_turns(pos, facing).len() > 0 {
                            self.lemma_free_turns(pos, facing, pick as int);
                        }
                        assert(self.tiles[dst] is Empty);
                        self.lemma_move_keeps_wf(pos, dst);
                        self.move_object(pos, dst).lemma_creature_keeps_wf(dst, placement.kind);
                    } else {
                        Self::lemma_counter_step(counter);
                        self.lemma_creature_keeps_wf(pos, placement.kind);
                        assert(after.tiles =~= self.set_tile(pos, placement.kind).tiles);
                    }
                }
            },
        }
    }

    /// Where a step of the sweep puts a tile: on its own position, or on a
    /// tile of the grid that is empty.
    pub proof fn lemma_outcome_lands(self, pos: int, pick: nat)
        requires
            self.wf(),
            self.in_range(pos),
            pick < self.options_at(pos),
        ensures
            self.outcome_at(pos, pick) matches Some(placement) ==> {
                &&& self.in_range(placement.pos)
                &&& !(self.tiles[pos] is Player)
                &&& placement.pos == pos || self.tiles[placement.pos] is Empty
            },
    {
        match self.outcome_at(pos, pick) {
            None => {},
            Some(placement) => {
                self.lemma_inside(pos);
                if let TileType::Creature { counter, direction } = self.tiles[pos] {
                    if counter % 3 == 2 && !self.tiles[self.neighbor(pos, direction)].is_empty()
                        && self.free_turns(pos, direction).len() > 0 {
                        self.lemma_free_turns(pos, direction, pick as int);
                    }
                }
            },
        }
    }

    /// One action keeps the grid well formed. An action that moves nothing
    /// changes nothing at all, and the counter goes up by one exactly where the
    /// tile in front of the player is a diamond.
    pub proof fn lemma_action_keeps_wf(self, d: Direction)
        requires
            self.wf(),
        ensures
            self.apply_action(d).wf(),
            self.apply_action(d).same_shape(self),
            !self.action_moves(d) ==> self.apply_action(d) == self,
            self.apply_action(d).diamond_count == self.diamond_count + (if self.tiles[self.neighbor(
                self.player_pos,
                d,
            )].is_diamond() {
                1nat
            } else {
                0nat
            }),
    {
        let p = self.player_pos;
        let dst = self.neighbor(p, d);
        let past = self.neighbor(dst, d);
        self.lemma_inside(p);
        let counted = GridModel {
            diamond_count: if self.tiles[dst].is_diamond() {
                self.diamond_count + 1
            } else {
                self.diamond_count
            },
            ..self
        };
        assert(counted.wf()) by {
            assert forall|i: int| counted.in_range(i) && counted.on_border(i) implies (
            #[trigger] counted.tiles[i]).is_impassable() by {
                assert(self.on_border(i));
            }
        }
        if self.tiles[dst].can_be_stepped_on() {
            counted.lemma_move_keeps_wf(p, dst);
        } else if self.tiles[dst].can_be_pushed() && self.tiles[past].is_empty() {
            self.lemma_inside(dst);
            counted.lemma_move_keeps_wf(dst, past);
            counted.move_object(dst, past).lemma_move_keeps_wf(p, dst);
        }
    }

    /// Resolving the player's actions keeps the grid well formed and counts
    /// each diamond taken.
    pub proof fn lemma_move_player_keeps_wf(self, actions: Seq<Action>)
        requires
            self.wf(),
        ensures
            self.move_player(actions).wf(),
            self.move_player(actions).same_shape(self),
            self.move_player(actions).diamond_count == self.diamond_count + self.diamonds_taken(
                actions,
            ),
            self.diamonds_taken(actions) <= 1,
        decreases actions.len(),
    {
        if actions.len() > 0 {
            let d = actions[0].direction;
            self.lemma_action_keeps_wf(d);
            if !self.action_moves(d) {
                self.lemma_move_player_keeps_wf(actions.skip(1));
            }
        }
    }

    /// The sweep of the positions below `n` reads only the first `n` picks.
    pub proof fn lemma_sweep_reads_prefix(
        self,
        n: int,
        picks: Seq<nat>,
        other: Seq<nat>,
        bound: Bound,
    )
        requires
            forall|i: int| 0 <= i < n ==> picks[i] == other[i],
        ensures
            self.sweep_upto(n, picks) == self.sweep_upto(n, other),
            self.picks_allowed(n, picks) == self.picks_allowed(n, other),
            self.picks_follow(n, picks, bound) == self.picks_follow(n, other, bound),
        decreases n,
    {
        if n > 0 {
            self.lemma_sweep_reads_prefix(n - 1, picks, other, bound);
        }
    }

    /// The sweep keeps the grid well formed, and leaves the player and the
    /// diamond counter alone.
    pub proof fn lemma_sweep_keeps_wf(self, n: int, picks: Seq<nat>)
        requires
            self.wf(),
            n <= self.tiles.len(),
            self.picks_allowed(n, picks),
        ensures
            self.sweep_upto(n, picks).wf(),
            self.sweep_upto(n, picks).same_shape(self),
            self.sweep_upto(n, picks).player_pos == self.player_pos,
            self.sweep_upto(n, picks).diamond_count == self.diamond_count,
        decreases n,
    {
        if n > 0 {
            self.lemma_sweep_keeps_wf(n - 1, picks);
            self.sweep_upto(n - 1, picks).lemma_step_keeps_wf(n - 1, picks[n - 1]);
        }
    }

    /// Whether nothing on the grid is due to move: the sweep would leave every
    /// tile as it is.
    pub open spec fn at_rest(self) -> bool {
        forall|pos: int, pick: nat|
            self.in_range(pos) ==> #[trigger] self.outcome_at(pos, pick) is None
    }

    /// The sweep changes nothing on a grid that is at rest.
    pub proof fn lemma_sweep_at_rest(self, n: int, picks: Seq<nat>)
        requires
            self.at_rest(),
            n <= self.tiles.len(),
        ensures
            self.sweep_upto(n, picks) == self,
        decreases n,
    {
        if n > 0 {
            self.lemma_sweep_at_rest(n - 1, picks);
            assert(self.outcome_at(n - 1, picks[n - 1]) is None);
        }
    }

    /// A step of the sweep changes the tile it deals with and, at most, one
    /// tile that was empty: every other tile stays as it is.
    pub proof fn lemma_step_frame(self, pos: int, pick: nat, other: int)
        requires
            self.wf(),
            self.in_range(pos),
            pick < self.options_at(pos),
            self.in_range(other),
            other != pos,
            !(self.tiles[other] is Empty),
        ensures
            self.step_at(pos, pick).tiles[other] == self.tiles[other],
    {
        self.lemma_outcome_lands(pos, pick);
    }

    /// The player's actions change no wall, no steel and no creature.
    pub proof fn lemma_move_player_frame(self, actions: Seq<Action>, other: int)
        requires
            self.wf(),
            self.in_range(other),
            self.tiles[other].is_impassable() || self.tiles[other] is Creature,
        ensures
            self.move_player(actions).tiles[other] == self.tiles[other],
        decreases actions.len(),
    {
        if actions.len() > 0 {
            let d = actions[0].direction;
            self.lemma_inside(self.player_pos);
            self.lemma_action_keeps_wf(d);
            if self.tiles[self.neighbor(self.player_pos, d)].can_be_pushed() {
                self.lemma_inside(self.neighbor(self.player_pos, d));
            }
            if !self.action_moves(d) {
                self.lemma_move_player_frame(actions.skip(1), other);
            }
        }
    }

    /// Whether the tile at `pos` is the only one that is due to move: the
    /// sweep leaves every tile before it as it is and, once it has dealt with
    /// `pos` on pick `pick`, every tile after it too.
    pub open spec fn moves_alone(self, pos: int, pick: nat) -> bool {
        &&& forall|j: int, any: nat| 0 <= j < pos ==> #[trigger] self.outcome_at(j, any) is None
        &&& forall|j: int, any: nat|
            pos < j < self.tiles.len() ==> #[trigger] self.step_at(pos, pick).outcome_at(j, any)
                is None
    }

    /// Where one tile moves alone, the whole sweep does what its step does.
    pub proof fn lemma_sweep_of_one(self, n: int, picks: Seq<nat>, pos: int)
        requires
            self.in_range(pos),
            self.moves_alone(pos, picks[pos]),
            self.step_at(pos, picks[pos]).tiles.len() == self.tiles.len(),
            n <= self.tiles.len(),
        ensures
            n <= pos ==> self.sweep_upto(n, picks) == self,
            n > pos ==> self.sweep_upto(n, picks) == self.step_at(pos, picks[pos]),
        decreases n,
    {
        if n > 0 {
            self.lemma_sweep_of_one(n - 1, picks, pos);
            if n - 1 < pos {
                assert(self.outcome_at(n - 1, picks[n - 1]) is None);
            } else if n - 1 > pos {
                assert(self.step_at(pos, picks[pos]).outcome_at(n - 1, picks[n - 1]) is None);
            }
        }
    }

    /// Two runs of the sweep whose picks come from the same source do the
    /// same, if the source is bound wherever there is a choice.
    pub proof fn lemma_sweep_is_determined(
        self,
        n: int,
        picks: Seq<nat>,
        other: Seq<nat>,
        bound: Bound,
    )
        requires
            forall|k: nat| k >= 2 ==> (#[trigger] bound(k)) is Some,
            self.picks_allowed(n, picks),
            self.picks_allowed(n, other),
            self.picks_follow(n, picks, bound),
            self.picks_follow(n, other, bound),
        ensures
            self.sweep_upto(n, picks) == self.sweep_upto(n, other),
            forall|i: int| 0 <= i < n ==> picks[i] == other[i],
        decreases n,
    {
        if n > 0 {
            self.lemma_sweep_is_determined(n - 1, picks, other, bound);
            let before = self.sweep_upto(n - 1, picks);
            let options = before.options_at(n - 1);
            if options > 1 {
                assert(bound(options) is Some);
            }
            assert(picks[n - 1] == other[n - 1]);
        }
    }

    /// The sweep changes no wall and no steel.
    pub proof fn lemma_sweep_keeps_walls(self, n: int, picks: Seq<nat>, pos: int)
        requires
            self.wf(),
            n <= self.tiles.len(),
            self.picks_allowed(n, picks),
            self.in_range(pos),
            self.tiles[pos].is_impassable(),
        ensures
            self.sweep_upto(n, picks).tiles[pos] == self.tiles[pos],
        decreases n,
    {
        if n > 0 {
            let before = self.sweep_upto(n - 1, picks);
            self.lemma_sweep_keeps_walls(n - 1, picks, pos);
            self.lemma_sweep_keeps_wf(n - 1, picks);
            if n - 1 != pos {
                before.lemma_step_frame(n - 1, picks[n - 1], pos);
            }
        }
    }

    /// Actions of which none moves anything change nothing, and take no
    /// diamond.
    pub proof fn lemma_idle_actions(self, actions: Seq<Action>)
        requires
            forall|i: int| 0 <= i < actions.len() ==> !self.action_moves(#[trigger] actions[i].direction),
        ensures
            self.move_player(actions) == self,
            self.diamonds_taken(actions) == 0,
        decreases actions.len(),
    {
        if actions.len() > 0 {
            let rest = actions.skip(1);
            assert(!self.action_moves(actions[0].direction));
            assert(self.apply_action(actions[0].direction) == self);
            assert forall|i: int| 0 <= i < rest.len() implies !self.action_moves(
                #[trigger] rest[i].direction,
            ) by {
                assert(rest[i] == actions[i + 1]);
            }
            self.lemma_idle_actions(rest);
        }
    }
}

} // verus!
