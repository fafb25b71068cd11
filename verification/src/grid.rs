//! The grid and the engine that runs it, one tick at a time.

use vstd::prelude::*;
use crate::input::{Action, Direction};
use crate::map::{
    defect, find_defect, lemma_defect_free, lemma_defect_ignores_count, MapDescription, MapError,
};
use crate::model::{GridModel, Placement};
use crate::position::GridPos;
use crate::random::{unbound, PickSource, ThreadRandom};
use crate::tile::{Tile, TileType};

verus! {

/// The state of one game: the tiles, where the player is, and how many
/// diamonds were collected.
///
/// The engine asks for a well-formed grid, see [`GridState::wf`], and keeps it
/// well formed. [`GridState::new`] builds one from a map and checks it;
/// writing to the fields or through [`GridState::set_tile`] is unchecked, and
/// [`GridState::is_well_formed`] checks again.
#[derive(Debug)]
pub struct GridState {
    pub height: usize,
    pub width: usize,
    pub tiles: Vec<TileType>,
    pub player_pos: GridPos,
    pub diamond_count: usize,
}

impl View for GridState {
    type V = GridModel;

    open spec fn view(&self) -> GridModel {
        GridModel {
            width: self.width as nat,
            height: self.height as nat,
            tiles: self.tiles@,
            player_pos: self.player_pos@,
            diamond_count: self.diamond_count as nat,
        }
    }
}

impl Default for GridState {
    /// A grid without tiles. No tick can run on it.
    fn default() -> (r: Self)
        ensures
            r@.tiles.len() == 0,
            r@.width == 0,
            r@.height == 0,
            r@.player_pos == 0,
            r@.diamond_count == 0,
    {
        GridState {
            height: 0,
            width: 0,
            tiles: Vec::new(),
            player_pos: GridPos(0),
            diamond_count: 0,
        }
    }
}

impl Clone for GridState {
    fn clone(&self) -> (r: Self)
        ensures
            r@ == self@,
    {
        GridState {
            height: self.height,
            width: self.width,
            tiles: self.tiles.clone(),
            player_pos: self.player_pos,
            diamond_count: self.diamond_count,
        }
    }
}

/// The index that a position names, if there is a position.
pub open spec fn target_of(r: Option<GridPos>) -> Option<int> {
    match r {
        Some(pos) => Some(pos@),
        None => None,
    }
}

/// The placement that a tile stands for, if there is a tile.
pub open spec fn placement_of(r: Option<Tile>) -> Option<Placement> {
    match r {
        Some(tile) => Some(Placement { pos: tile.pos@, kind: tile.kind }),
        None => None,
    }
}

impl GridState {
    /// The engine's invariant, stated on the model.
    pub open spec fn wf(&self) -> bool {
        self@.wf()
    }

    /// Starts a game on `map`, with no diamond collected, if the map is fit
    /// for one: the tiles fill the grid, the only player stands at the start,
    /// the border is closed by steel and walls, and every creature can count.
    pub fn new(map: MapDescription) -> (r: Result<GridState, MapError>)
        ensures
            match r {
                Ok(grid) => defect(map@) is None && grid@ == map@ && grid.wf(),
                Err(e) => defect(map@) == Some(e),
            },
    {
        match find_defect(map.width, map.height, &map.tiles, map.start) {
            Some(e) => Err(e),
            None => {
                proof {
                    lemma_defect_free(map@);
                }
                let MapDescription { height, width, tiles, start } = map;
                Ok(GridState { height, width, tiles, player_pos: start, diamond_count: 0 })
            },
        }
    }

    /// Whether the grid is well formed, so that a tick can run on it.
    pub fn is_well_formed(&self) -> (b: bool)
        ensures
            b == self.wf(),
    {
        let found = find_defect(self.width, self.height, &self.tiles, self.player_pos);
        proof {
            lemma_defect_ignores_count(self@, 0);
            lemma_defect_free(self@);
        }
        found.is_none()
    }

    pub fn height(&self) -> (h: usize)
        ensures
            h == self@.height,
    {
        self.height
    }

    pub fn width(&self) -> (w: usize)
        ensures
            w == self@.width,
    {
        self.width
    }

    /// The tile at `pos`.
    pub fn get_tile(&self, pos: GridPos) -> (kind: TileType)
        requires
            self@.in_range(pos@),
        ensures
            kind == self@.tiles[pos@],
    {
        *self.get_tile_ref(pos)
    }

    /// The position next to `pos` in `direction`, and the tile found there.
    pub fn get_tile_relative(&self, pos: GridPos, direction: Direction) -> (tile: Tile)
        requires
            self@.in_range(self@.neighbor(pos@, direction)),
        ensures
            tile.pos@ == self@.neighbor(pos@, direction),
            tile.kind == self@.tiles[tile.pos@],
    {
        assert(self.tiles.len() <= usize::MAX);
        let dst_pos = pos.direction(direction, self.width);
        let dst_type = self.get_tile(dst_pos);
        Tile { pos: dst_pos, kind: dst_type }
    }

    /// Writes `v` at `pos`. Nothing else is checked or changed.
    pub fn set_tile(&mut self, pos: GridPos, v: TileType)
        requires
            old(self)@.in_range(pos@),
        ensures
            final(self)@ == old(self)@.set_tile(pos@, v),
    {
        *self.get_tile_mut(pos) = v;
    }

    pub fn get_tile_ref(&self, pos: GridPos) -> (kind: &TileType)
        requires
            self@.in_range(pos@),
        ensures
            *kind == self@.tiles[pos@],
    {
        &self.tiles[pos.0]
    }

    /// The tile at `pos`, to be written through.
    pub fn get_tile_mut(&mut self, pos: GridPos) -> (kind: &mut TileType)
        requires
            old(self)@.in_range(pos@),
        ensures
            *kind == old(self)@.tiles[pos@],
            final(self)@ == old(self)@.set_tile(pos@, *final(kind)),
    {
        &mut self.tiles[pos.0]
    }

    /// Moves the tile at `src_pos` to `dst_pos`: `dst_pos` is given the tile,
    /// so that what was there is destroyed, and then `src_pos` is emptied. A
    /// tile moved onto itself is left empty. Where the tile moved is the
    /// player, `player_pos` follows. Nothing is checked but that.
    pub fn move_grid_object(&mut self, src_pos: GridPos, dst_pos: GridPos)
        requires
            old(self)@.in_range(src_pos@),
            old(self)@.in_range(dst_pos@),
            old(self).player_pos == src_pos ==> old(self)@.tiles[src_pos@] is Player,
        ensures
            final(self)@ == old(self)@.move_object(src_pos@, dst_pos@),
    {
        let src_type = self.get_tile(src_pos);
        self.set_tile(dst_pos, src_type);
        self.set_tile(src_pos, TileType::Empty);

        if self.player_pos == src_pos {
            self.player_pos = dst_pos;
        }
    }

    /// Where the object at `current_pos` falls to: the position below, if it
    /// is empty.
    pub fn try_fall(&self, current_pos: GridPos) -> (r: Option<GridPos>)
        requires
            self@.in_range(self@.neighbor(current_pos@, Direction::Down)),
        ensures
            target_of(r) == self@.fall_target(current_pos@),
    {
        let below = self.get_tile_relative(current_pos, Direction::Down);

        if below.kind.is_empty() {
            Some(below.pos)
        } else {
            None
        }
    }

    /// Where the object at `current_pos` rolls to, if it rolls: it rests on
    /// something that can be rolled on, and beside it, on the left or on the
    /// right, the tile and the tile below that are empty. With both sides free,
    /// `source` picks one of left and right, in that order.
    pub fn try_roll<S: PickSource>(&self, current_pos: GridPos, source: &mut S) -> (r: Option<
        GridPos,
    >)
        requires
            self@.in_range(self@.neighbor(current_pos@, Direction::Down)),
            self@.rests_on_slope(current_pos@) ==> self@.in_range(current_pos@ - self@.width - 1)
                && self@.in_range(current_pos@ + 1),
        ensures
            final(source).bound() == old(source).bound(),
            exists|pick: nat|
                {
                    &&& pick < self@.roll_options(current_pos@)
                    &&& target_of(r) == #[trigger] self@.roll_target(current_pos@, pick)
                    &&& self@.roll_options(current_pos@) > 1 ==> ((old(source).bound())(
                        2,
                    ) matches Some(b) ==> pick == b)
                },
    {
        let down = self.get_tile_relative(current_pos, Direction::Down);
        if !down.kind.can_be_rolled_on() {
            assert(self@.roll_target(current_pos@, 0) is None);
            return None;
        }
        let left = self.get_tile_relative(current_pos, Direction::Left);
        let down_left = self.get_tile_relative(left.pos, Direction::Down);
        let right = self.get_tile_relative(current_pos, Direction::Right);
        let down_right = self.get_tile_relative(right.pos, Direction::Down);

        let left_free = left.kind.is_empty() && down_left.kind.is_empty();
        let right_free = right.kind.is_empty() && down_right.kind.is_empty();
        assert(left_free == self@.side_free(current_pos@, Direction::Left));
        assert(right_free == self@.side_free(current_pos@, Direction::Right));

        match (left_free, right_free) {
            (true, true) => {
                let choices = [left.pos, right.pos];
                let k = source.pick(2);
                assert(target_of(Some(choices[k as int])) == self@.roll_target(
                    current_pos@,
                    k as nat,
                ));
                Some(choices[k])
            },
            (true, false) => {
                assert(self@.roll_target(current_pos@, 0) == Some(left.pos@));
                Some(left.pos)
            },
            (false, true) => {
                assert(self@.roll_target(current_pos@, 0) == Some(right.pos@));
                Some(right.pos)
            },
            (false, false) => {
                assert(self@.roll_target(current_pos@, 0) is None);
                None
            },
        }
    }

    /// Adds `d` to `found` if a creature at `current_pos` that faces `facing`
    /// may turn to `d`.
    fn add_turn(
        &self,
        found: &mut Vec<Direction>,
        current_pos: GridPos,
        facing: Direction,
        d: Direction,
    )
        requires
            d != facing.opposite() ==> self@.in_range(self@.neighbor(current_pos@, d)),
        ensures
            final(found)@ == self@.add_turn(old(found)@, current_pos@, facing, d),
    {
        if d != facing.opposite() && self.get_tile_relative(current_pos, d).kind
            == TileType::Empty {
            found.push(d);
        }
    }

    /// Where the creature at `current_pos`, which faces `direction`, walks to
    /// and what it becomes there; `None` where it stays.
    ///
    /// It walks straight on where the ground ahead is empty, and stands still
    /// in front of the player. Blocked by anything else, it takes one of its
    /// free turns, which `source` picks, or goes straight back if it has none
    /// and the ground behind it is empty. A creature that walks starts to
    /// count again from 0.
    pub fn try_creature_move<S: PickSource>(
        &self,
        current_pos: GridPos,
        direction: Direction,
        source: &mut S,
    ) -> (r: Option<Tile>)
        requires
            self@.in_range(self@.neighbor(current_pos@, direction)),
            ({
                let front = self@.tiles[self@.neighbor(current_pos@, direction)];
                !front.is_empty() && front.can_be_bounced_on() ==> {
                    &&& forall|d: Direction|
                        d != direction.opposite() ==> self@.in_range(
                            #[trigger] self@.neighbor(current_pos@, d),
                        )
                    &&& self@.free_turns(current_pos@, direction).len() == 0 ==> self@.in_range(
                        self@.neighbor(current_pos@, direction.opposite()),
                    )
                }
            }),
        ensures
            final(source).bound() == old(source).bound(),
            exists|pick: nat|
                {
                    &&& pick < self@.turn_options(current_pos@, direction)
                    &&& placement_of(r) == #[trigger] self@.creature_move(
                        current_pos@,
                        direction,
                        pick,
                    )
                    &&& self@.turn_options(current_pos@, direction) > 1 ==> ((old(
                        source,
                    ).bound())(self@.turn_options(current_pos@, direction)) matches Some(b)
                        ==> pick == b)
                },
    {
        let front = self.get_tile_relative(current_pos, direction);
        if front.kind.is_empty() {
            let r = Some(
                Tile { pos: front.pos, kind: TileType::Creature { counter: 0, direction: direction } },
            );
            assert(placement_of(r) == self@.creature_move(current_pos@, direction, 0));
            return r;
        }
        if !front.kind.can_be_bounced_on() {
            assert(self@.creature_move(current_pos@, direction, 0) is None);
            return None;
        }
        // any open side will do; turning all the way around comes last

        let mut filtered: Vec<Direction> = Vec::new();
        assert(self@.in_range(self@.neighbor(current_pos@, Direction::Left)) || Direction::Left
            == direction.opposite());
        assert(self@.in_range(self@.neighbor(current_pos@, Direction::Right)) || Direction::Right
            == direction.opposite());
        assert(self@.in_range(self@.neighbor(current_pos@, Direction::Up)) || Direction::Up
            == direction.opposite());
        assert(self@.in_range(self@.neighbor(current_pos@, Direction::Down)) || Direction::Down
            == direction.opposite());
        self.add_turn(&mut filtered, current_pos, direction, Direction::Left);
        self.add_turn(&mut filtered, current_pos, direction, Direction::Right);
        self.add_turn(&mut filtered, current_pos, direction, Direction::Up);
        self.add_turn(&mut filtered, current_pos, direction, Direction::Down);
        assert(filtered@ == self@.free_turns(current_pos@, direction));

        if filtered.len() > 0 {
            let k = source.pick(filtered.len());
            let new_direction = filtered[k];
            proof {
                self@.lemma_free_turns(current_pos@, direction, k as int);
            }
            let new_tile = self.get_tile_relative(current_pos, new_direction);
            let r = Some(
                Tile {
                    pos: new_tile.pos,
                    kind: TileType::Creature { counter: 0, direction: new_direction },
                },
            );
            assert(placement_of(r) == self@.creature_move(current_pos@, direction, k as nat));
            return r;
        }
        let opposite = self.get_tile_relative(current_pos, direction.opposite());
        match opposite.kind {
            TileType::Empty => {
                let r = Some(
                    Tile {
                        pos: opposite.pos,
                        kind: TileType::Creature { counter: 0, direction: direction.opposite() },
                    },
                );
                assert(placement_of(r) == self@.creature_move(current_pos@, direction, 0));
                r
            },
            _ => {
                assert(self@.creature_move(current_pos@, direction, 0) is None);
                None
            },
        }
    }

    /// What the sweep does at `current_pos`: where the tile there goes and
    /// what it becomes, or `None` where it stays as it is. Nothing is changed
    /// yet.
    pub fn run_tick_for_pos<S: PickSource>(&self, current_pos: GridPos, source: &mut S) -> (r:
        Option<Tile>)
        requires
            self.wf(),
            self@.in_range(current_pos@),
        ensures
            final(source).bound() == old(source).bound(),
            exists|pick: nat|
                {
                    &&& pick < self@.options_at(current_pos@)
                    &&& placement_of(r) == #[trigger] self@.outcome_at(current_pos@, pick)
                    &&& self@.pick_follows(current_pos@, pick, old(source).bound())
                },
    {
        let tile = self.get_tile(current_pos);
        if tile.can_fall() {
            proof {
                self@.lemma_inside(current_pos@);
            }
            let rolled = self.try_roll(current_pos, source);
            let ghost k = choose|pick: nat|
                {
                    &&& pick < self@.roll_options(current_pos@)
                    &&& target_of(rolled) == #[trigger] self@.roll_target(current_pos@, pick)
                    &&& self@.roll_options(current_pos@) > 1 ==> ((old(source).bound())(
                        2,
                    ) matches Some(b) ==> pick == b)
                };
            if let Some(new_pos) = rolled {
                let r = Some(Tile { pos: new_pos, kind: tile });
                assert(placement_of(r) == self@.outcome_at(current_pos@, k));
                return r;
            }
            if let Some(new_pos) = self.try_fall(current_pos) {
                let r = Some(Tile { pos: new_pos, kind: tile });
                assert(placement_of(r) == self@.outcome_at(current_pos@, k));
                return r;
            }
            assert(self@.outcome_at(current_pos@, k) is None);
            return None;
        }
        if let TileType::Creature { counter, direction } = tile {
            // the counter slows the creatures down
            if counter % 3 == 2 {
                proof {
                    self@.lemma_inside(current_pos@);
                }
                let walked = self.try_creature_move(current_pos, direction, source);
                let ghost k = choose|pick: nat|
                    {
                        &&& pick < self@.turn_options(current_pos@, direction)
                        &&& placement_of(walked) == #[trigger] self@.creature_move(
                            current_pos@,
                            direction,
                            pick,
                        )
                        &&& self@.turn_options(current_pos@, direction) > 1 ==> ((old(
                            source,
                        ).bound())(self@.turn_options(current_pos@, direction)) matches Some(b)
                            ==> pick == b)
                    };
                assert(placement_of(walked) == self@.outcome_at(current_pos@, k));
                return walked;
            } else {
                let r = Some(
                    Tile {
                        pos: current_pos,
                        kind: TileType::Creature { counter: counter + 1, direction: direction },
                    },
                );
                assert(placement_of(r) == self@.outcome_at(current_pos@, 0));
                return r;
            }
        }
        assert(self@.outcome_at(current_pos@, 0) is None);
        None
    }

    /// Resolves the player's pending actions: they are tried in order, and
    /// the first one that moves anything ends the resolution.
    ///
    /// A diamond in front of the player is counted. The player steps onto
    /// empty ground, dirt or a diamond, or pushes a rock that has empty ground
    /// behind it and follows it.
    pub fn move_player(&mut self, action: Vec<Action>)
        requires
            old(self).wf(),
            old(self)@.diamond_count + old(self)@.diamonds_taken(action@) <= usize::MAX,
        ensures
            final(self)@ == old(self)@.move_player(action@),
            final(self).wf(),
    {
        let player_pos = self.player_pos;
        let mut i: usize = 0;
        assert(action@.skip(0) == action@);
        while i < action.len()
            invariant_except_break
                i <= action.len(),
                self.wf(),
                self@.diamond_count + self@.diamonds_taken(action@.skip(i as int)) <= usize::MAX,
                self.player_pos == player_pos,
                old(self)@.move_player(action@) == self@.move_player(action@.skip(i as int)),
            ensures
                self@ == old(self)@.move_player(action@),
                self.wf(),
            decreases action.len() - i,
        {
            let direction = action[i].direction;
            let ghost before = self@;
            proof {
                before.lemma_inside(player_pos@);
                before.lemma_action_keeps_wf(direction);
                assert(action@.skip(i as int)[0] == action@[i as int]);
                assert(action@.skip(i as int).skip(1) == action@.skip(i + 1));
            }
            let dst = self.get_tile_relative(player_pos, direction);
            if dst.kind.is_diamond() {
                self.diamond_count += 1;
            }
            if dst.kind.can_be_stepped_on() {
                self.move_grid_object(player_pos, dst.pos);
                assert(self@ == before.apply_action(direction));
                break ;
            }
            if dst.kind.can_be_pushed() {
                proof {
                    before.lemma_inside(dst.pos@);
                }
                let past_dst = self.get_tile_relative(dst.pos, direction);
                if past_dst.kind.is_empty() {
                    self.move_grid_object(dst.pos, past_dst.pos);
                    self.move_grid_object(player_pos, dst.pos);
                    assert(self@ == before.apply_action(direction));
                    break ;
                }
            }
            assert(self@ == before.apply_action(direction));
            i += 1;
        }
    }

    /// Runs one tick with tie-breaks from `source`: resolves the player's
    /// actions, then sweeps every position once, in increasing index order.
    ///
    /// Each position is dealt with on the grid as the earlier positions left
    /// it, so a tile that has moved to a higher index is met again in the same
    /// sweep, and one that has moved to a lower index is not.
    ///
    /// The grid after the tick is the model's `tick` for some picks that the
    /// positions allow and that `source` is bound to make. Where the source is
    /// bound wherever there is a choice, that is one grid only.
    pub fn run_tick_with<S: PickSource>(&mut self, action: Vec<Action>, source: &mut S)
        requires
            old(self).wf(),
            old(self)@.diamond_count + old(self)@.diamonds_taken(action@) <= usize::MAX,
        ensures
            old(self)@.ticks_to_with(action@, old(source).bound(), final(self)@),
            final(source).bound() == old(source).bound(),
            final(self).wf(),
            final(self)@.same_shape(old(self)@),
            final(self)@.diamond_count == old(self)@.diamond_count + old(self)@.diamonds_taken(
                action@,
            ),
            final(self)@.player_pos == old(self)@.move_player(action@).player_pos,
            forall|i: int|
                old(self)@.in_range(i) && (#[trigger] old(self)@.tiles[i]).is_impassable()
                    ==> final(self)@.tiles[i] == old(self)@.tiles[i],
    {
        let ghost actions = action@;
        proof {
            old(self)@.lemma_move_player_keeps_wf(actions);
        }
        self.move_player(action);

        let ghost start = self@;
        let ghost mut picks: Seq<nat> = Seq::empty();
        let n = self.tiles.len();
        let mut i: usize = 0;
        while i < n
            invariant
                i <= n,
                n == start.tiles.len(),
                start.wf(),
                picks.len() == i,
                start.picks_allowed(i as int, picks),
                start.picks_follow(i as int, picks, old(source).bound()),
                source.bound() == old(source).bound(),
                self@ == start.sweep_upto(i as int, picks),
            decreases n - i,
        {
            let pos = GridPos(i);
            let ghost before = self@;
            proof {
                start.lemma_sweep_keeps_wf(i as int, picks);
            }
            let outcome = self.run_tick_for_pos(pos, source);
            proof {
                let k = choose|pick: nat|
                    {
                        &&& pick < before.options_at(pos@)
                        &&& placement_of(outcome) == #[trigger] before.outcome_at(pos@, pick)
                        &&& before.pick_follows(pos@, pick, old(source).bound())
                    };
                before.lemma_outcome_lands(pos@, k);
                start.lemma_sweep_reads_prefix(
                    i as int,
                    picks,
                    picks.push(k),
                    old(source).bound(),
                );
                picks = picks.push(k);
            }
            if let Some(new_tile) = outcome {
                self.move_grid_object(pos, new_tile.pos);
                // the tick may change the kind: a creature's direction and counter
                self.set_tile(new_tile.pos, new_tile.kind);
            }
            i += 1;
        }
        proof {
            start.lemma_sweep_keeps_wf(n as int, picks);
            assert(old(self)@.tick_draws(actions, old(source).bound(), picks));
            assert(self@ == old(self)@.tick(actions, picks));
            assert forall|i: int|
                old(self)@.in_range(i) && (
                #[trigger] old(self)@.tiles[i]).is_impassable() implies self@.tiles[i] == old(
                self,
            )@.tiles[i] by {
                crate::laws::lemma_tick_keeps_walls(old(self)@, actions, picks, i);
            }
        }
    }

    /// Runs one tick, with random tie-breaks: the grid after it is the
    /// model's `tick` for some picks that the positions allow.
    pub fn run_tick(&mut self, action: Vec<Action>)
        requires
            old(self).wf(),
            old(self)@.diamond_count + old(self)@.diamonds_taken(action@) <= usize::MAX,
        ensures
            old(self)@.ticks_to(action@, final(self)@),
            final(self).wf(),
            final(self)@.same_shape(old(self)@),
            final(self)@.diamond_count == old(self)@.diamond_count + old(self)@.diamonds_taken(
                action@,
            ),
            final(self)@.player_pos == old(self)@.move_player(action@).player_pos,
            forall|i: int|
                old(self)@.in_range(i) && (#[trigger] old(self)@.tiles[i]).is_impassable()
                    ==> final(self)@.tiles[i] == old(self)@.tiles[i],
    {
        let mut source = ThreadRandom::new();
        let ghost before = self@;
        let ghost actions = action@;
        self.run_tick_with(action, &mut source);
        proof {
            let picks = choose|picks: Seq<nat>| #[trigger]
                before.tick_draws(actions, unbound(), picks) && self@ == before.tick(
                    actions,
                    picks,
                );
            assert(before.tick_allows(actions, picks));
        }
    }
}

} // verus!
