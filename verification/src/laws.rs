//! What holds of every game: laws of the model, each proved from the
//! definitions in [`crate::model`].
//!
//! The executable engine computes the model's functions, so each law holds of
//! every tick that [`crate::grid::GridState::run_tick`] runs.

use vstd::prelude::*;
use crate::input::{Action, Direction};
use crate::model::GridModel;
use crate::random::Bound;
use crate::tile::TileType;

verus! {

/// What one tick is given: the player's actions and a pick for each position.
pub struct TickInput {
    pub actions: Seq<Action>,
    pub picks: Seq<nat>,
}

impl GridModel {
    /// The grid after the ticks that `inputs` describe, one after another.
    pub open spec fn ticks(self, inputs: Seq<TickInput>) -> GridModel
        decreases inputs.len(),
    {
        if inputs.len() == 0 {
            self
        } else {
            self.ticks(inputs.drop_last()).tick(inputs.last().actions, inputs.last().picks)
        }
    }

    /// Whether each of `inputs` holds picks that its tick allows.
    pub open spec fn ticks_allow(self, inputs: Seq<TickInput>) -> bool
        decreases inputs.len(),
    {
        inputs.len() == 0 || (self.ticks_allow(inputs.drop_last()) && self.ticks(
            inputs.drop_last(),
        ).tick_allows(inputs.last().actions, inputs.last().picks))
    }

    /// The number of diamonds taken in the course of `inputs`.
    pub open spec fn diamonds_taken_in(self, inputs: Seq<TickInput>) -> nat
        decreases inputs.len(),
    {
        if inputs.len() == 0 {
            0
        } else {
            self.diamonds_taken_in(inputs.drop_last()) + self.ticks(
                inputs.drop_last(),
            ).diamonds_taken(inputs.last().actions)
        }
    }
}

/// One tick keeps a well-formed grid well formed: the tiles still fill the
/// same grid, exactly one tile is the player and `player_pos` is its index,
/// and the border is still steel and walls. The diamond counter goes up by the
/// number of diamonds taken, which is 0 or 1.
pub proof fn lemma_tick_keeps_wf(grid: GridModel, actions: Seq<Action>, picks: Seq<nat>)
    requires
        grid.wf(),
        grid.tick_allows(actions, picks),
    ensures
        grid.tick(actions, picks).wf(),
        grid.tick(actions, picks).same_shape(grid),
        grid.tick(actions, picks).diamond_count == grid.diamond_count + grid.diamonds_taken(actions),
        grid.tick(actions, picks).diamond_count >= grid.diamond_count,
        grid.diamonds_taken(actions) <= 1,
{
    grid.lemma_move_player_keeps_wf(actions);
    grid.move_player(actions).lemma_sweep_keeps_wf(grid.tiles.len() as int, picks);
}

/// Steel and walls keep their places through a tick, whatever the player
/// does and whatever the picks: the border, which is made of them, is never
/// changed.
pub proof fn lemma_tick_keeps_walls(
    grid: GridModel,
    actions: Seq<Action>,
    picks: Seq<nat>,
    pos: int,
)
    requires
        grid.wf(),
        grid.tick_allows(actions, picks),
        grid.in_range(pos),
        grid.tiles[pos].is_impassable(),
    ensures
        grid.tick(actions, picks).tiles[pos] == grid.tiles[pos],
{
    grid.lemma_move_player_frame(actions, pos);
    grid.lemma_move_player_keeps_wf(actions);
    grid.move_player(actions).lemma_sweep_keeps_walls(grid.tiles.len() as int, picks, pos);
}

/// Actions of which none moves anything leave the tiles, the player's
/// position and the diamond counter as they were, so that the tick is the
/// sweep alone.
pub proof fn lemma_idle_actions_tick(grid: GridModel, actions: Seq<Action>, picks: Seq<nat>)
    requires
        forall|i: int|
            0 <= i < actions.len() ==> !grid.action_moves(#[trigger] actions[i].direction),
    ensures
        grid.move_player(actions) == grid,
        grid.diamonds_taken(actions) == 0,
        grid.tick(actions, picks) == grid.sweep_upto(grid.tiles.len() as int, picks),
{
    grid.lemma_idle_actions(actions);
}

/// Any number of ticks, with any actions, keep a well-formed grid well
/// formed, so that no tick ever reads or writes a tile outside the grid. The
/// diamond counter never goes down: it goes up by the number of diamonds
/// taken.
pub proof fn lemma_ticks_keep_wf(grid: GridModel, inputs: Seq<TickInput>)
    requires
        grid.wf(),
        grid.ticks_allow(inputs),
    ensures
        grid.ticks(inputs).wf(),
        grid.ticks(inputs).same_shape(grid),
        grid.ticks(inputs).diamond_count == grid.diamond_count + grid.diamonds_taken_in(inputs),
        grid.ticks(inputs).diamond_count >= grid.diamond_count,
    decreases inputs.len(),
{
    if inputs.len() > 0 {
        lemma_ticks_keep_wf(grid, inputs.drop_last());
        lemma_tick_keeps_wf(
            grid.ticks(inputs.drop_last()),
            inputs.last().actions,
            inputs.last().picks,
        );
    }
}

/// A push: with a rock in front of the player and empty ground behind the
/// rock, one action in that direction leaves the player's old tile empty,
/// puts the player where the rock was and the rock one tile further. No other
/// tile changes, and no diamond is counted.
pub proof fn lemma_push(grid: GridModel, action: Action)
    requires
        grid.wf(),
        grid.tiles[grid.neighbor(grid.player_pos, action.direction)] == TileType::Rock,
        grid.tiles[grid.neighbor(
            grid.neighbor(grid.player_pos, action.direction),
            action.direction,
        )] == TileType::Empty,
    ensures
        ({
            let from = grid.player_pos;
            let rock = grid.neighbor(from, action.direction);
            let past = grid.neighbor(rock, action.direction);
            let after = grid.move_player(seq![action]);
            &&& after.tiles == grid.tiles.update(from, TileType::Empty).update(
                rock,
                TileType::Player,
            ).update(past, TileType::Rock)
            &&& after.player_pos == rock
            &&& after.diamond_count == grid.diamond_count
            &&& after.same_shape(grid)
        }),
{
    let from = grid.player_pos;
    let rock = grid.neighbor(from, action.direction);
    let past = grid.neighbor(rock, action.direction);
    grid.lemma_inside(from);
    grid.lemma_inside(rock);
    let after = grid.move_player(seq![action]);
    assert(seq![action][0] == action);
    assert(after == grid.apply_action(action.direction));
    assert(after.tiles =~= grid.tiles.update(from, TileType::Empty).update(
        rock,
        TileType::Player,
    ).update(past, TileType::Rock));
}

/// A blocked push: with a rock in front of the player and anything but empty
/// ground behind the rock, an action in that direction changes nothing.
pub proof fn lemma_push_blocked(grid: GridModel, action: Action)
    requires
        grid.wf(),
        grid.tiles[grid.neighbor(grid.player_pos, action.direction)] == TileType::Rock,
        grid.tiles[grid.neighbor(
            grid.neighbor(grid.player_pos, action.direction),
            action.direction,
        )] != TileType::Empty,
    ensures
        grid.move_player(seq![action]) == grid,
{
    grid.lemma_inside(grid.player_pos);
    grid.lemma_inside(grid.neighbor(grid.player_pos, action.direction));
    let rest = seq![action].skip(1);
    assert(seq![action][0] == action);
    assert(rest.len() == 0);
    assert(grid.apply_action(action.direction) == grid);
    assert(grid.move_player(rest) == grid);
}

/// A fall: a rock or diamond with empty ground below it goes one tile
/// straight down when the sweep reaches it, whatever the pick, and nothing
/// else changes.
pub proof fn lemma_fall(grid: GridModel, pos: int, pick: nat)
    requires
        grid.wf(),
        grid.in_range(pos),
        grid.tiles[pos].can_fall(),
        grid.tiles[grid.neighbor(pos, Direction::Down)] == TileType::Empty,
    ensures
        grid.options_at(pos) == 1,
        grid.step_at(pos, pick) == grid.with_tiles(
            grid.tiles.update(pos, TileType::Empty).update(
                grid.neighbor(pos, Direction::Down),
                grid.tiles[pos],
            ),
        ),
{
    let below = grid.neighbor(pos, Direction::Down);
    grid.lemma_inside(pos);
    assert(grid.roll_target(pos, pick) is None);
    assert(grid.step_at(pos, pick).tiles =~= grid.tiles.update(pos, TileType::Empty).update(
        below,
        grid.tiles[pos],
    ));
}

/// A rock or diamond stays where it is when the sweep reaches it, if the tile
/// below it is not empty and is nothing to roll off, or if neither side is
/// free.
pub proof fn lemma_rest(grid: GridModel, pos: int, pick: nat)
    requires
        grid.wf(),
        grid.in_range(pos),
        grid.tiles[pos].can_fall(),
        grid.tiles[grid.neighbor(pos, Direction::Down)] != TileType::Empty,
        !grid.rests_on_slope(pos) || (!grid.side_free(pos, Direction::Left) && !grid.side_free(
            pos,
            Direction::Right,
        )),
    ensures
        grid.options_at(pos) == 1,
        grid.step_at(pos, pick) == grid,
{
}

/// A roll with both sides free: the object goes left on pick 0 and right on
/// every other pick. It never stays and never falls.
pub proof fn lemma_roll_either_way(grid: GridModel, pos: int, pick: nat)
    requires
        grid.wf(),
        grid.in_range(pos),
        grid.tiles[pos].can_fall(),
        grid.rests_on_slope(pos),
        grid.side_free(pos, Direction::Left),
        grid.side_free(pos, Direction::Right),
    ensures
        grid.options_at(pos) == 2,
        pick == 0 ==> grid.step_at(pos, pick) == grid.with_tiles(
            grid.tiles.update(pos, TileType::Empty).update(pos - 1, grid.tiles[pos]),
        ),
        pick != 0 ==> grid.step_at(pos, pick) == grid.with_tiles(
            grid.tiles.update(pos, TileType::Empty).update(pos + 1, grid.tiles[pos]),
        ),
{
    grid.lemma_inside(pos);
    let dst = if pick == 0 {
        pos - 1
    } else {
        pos + 1
    };
    assert(grid.roll_target(pos, pick) == Some(dst));
    assert(grid.step_at(pos, pick).tiles =~= grid.tiles.update(pos, TileType::Empty).update(
        dst,
        grid.tiles[pos],
    ));
}

/// The throttle: a creature whose counter is not 2 modulo 3 does not move
/// when the sweep reaches it. Its counter goes up by one, it keeps its
/// direction, and nothing else changes.
pub proof fn lemma_creature_waits(grid: GridModel, pos: int, pick: nat)
    requires
        grid.wf(),
        grid.in_range(pos),
        grid.tiles[pos] is Creature,
        grid.tiles[pos]->counter % 3 != 2,
    ensures
        grid.options_at(pos) == 1,
        grid.tiles[pos]->counter + 1 <= usize::MAX,
        grid.step_at(pos, pick) == grid.set_tile(
            pos,
            GridModel::waited(grid.tiles[pos]->counter, grid.tiles[pos]->direction),
        ),
{
    let counter = grid.tiles[pos]->counter;
    let direction = grid.tiles[pos]->direction;
    let after = GridModel::waited(counter, direction);
    assert(grid.step_at(pos, pick).tiles =~= grid.tiles.update(pos, after));
}

/// A creature whose counter is 2 modulo 3 walks as `creature_move` says when
/// the sweep reaches it: it ends on empty ground next to where it was, facing
/// the way it went and counting from 0 again, or it stays exactly as it is.
pub proof fn lemma_creature_walks(grid: GridModel, pos: int, pick: nat)
    requires
        grid.wf(),
        grid.in_range(pos),
        grid.tiles[pos] is Creature,
        grid.tiles[pos]->counter % 3 == 2,
        pick < grid.options_at(pos),
    ensures
        grid.creature_move(pos, grid.tiles[pos]->direction, pick) is None ==> grid.step_at(
            pos,
            pick,
        ) == grid,
        grid.creature_move(pos, grid.tiles[pos]->direction, pick) matches Some(placement) ==> ({
            &&& exists|d: Direction| placement == #[trigger] grid.walked(pos, d)
            &&& grid.tiles[placement.pos] == TileType::Empty
            &&& grid.step_at(pos, pick) == grid.with_tiles(
                grid.tiles.update(pos, TileType::Empty).update(placement.pos, placement.kind),
            )
        }),
{
    let direction = grid.tiles[pos]->direction;
    grid.lemma_outcome_lands(pos, pick);
    grid.lemma_inside(pos);
    match grid.creature_move(pos, direction, pick) {
        None => {},
        Some(placement) => {
            let d = placement.kind->direction;
            assert(placement == grid.walked(pos, d));
            assert(grid.step_at(pos, pick).tiles =~= grid.tiles.update(pos, TileType::Empty).update(
                placement.pos,
                placement.kind,
            ));
        },
    }
}

/// A push in a whole tick: where the grid is at rest once the rock has been
/// pushed, the tick yields empty ground, the player and the rock in a row, and
/// no other change, whatever the picks.
pub proof fn lemma_push_tick(grid: GridModel, action: Action, picks: Seq<nat>)
    requires
        grid.wf(),
        grid.tiles[grid.neighbor(grid.player_pos, action.direction)] == TileType::Rock,
        grid.tiles[grid.neighbor(
            grid.neighbor(grid.player_pos, action.direction),
            action.direction,
        )] == TileType::Empty,
        grid.move_player(seq![action]).at_rest(),
    ensures
        ({
            let from = grid.player_pos;
            let rock = grid.neighbor(from, action.direction);
            let past = grid.neighbor(rock, action.direction);
            let after = grid.tick(seq![action], picks);
            &&& after.tiles == grid.tiles.update(from, TileType::Empty).update(
                rock,
                TileType::Player,
            ).update(past, TileType::Rock)
            &&& after.player_pos == rock
            &&& after.diamond_count == grid.diamond_count
            &&& after.same_shape(grid)
        }),
{
    lemma_push(grid, action);
    grid.move_player(seq![action]).lemma_sweep_at_rest(grid.tiles.len() as int, picks);
}

/// A blocked push in a whole tick: where the grid is at rest, the tick
/// changes nothing at all, whatever the picks.
pub proof fn lemma_push_blocked_tick(grid: GridModel, action: Action, picks: Seq<nat>)
    requires
        grid.wf(),
        grid.tiles[grid.neighbor(grid.player_pos, action.direction)] == TileType::Rock,
        grid.tiles[grid.neighbor(
            grid.neighbor(grid.player_pos, action.direction),
            action.direction,
        )] != TileType::Empty,
        grid.at_rest(),
    ensures
        grid.tick(seq![action], picks) == grid,
{
    lemma_push_blocked(grid, action);
    grid.lemma_sweep_at_rest(grid.tiles.len() as int, picks);
}

/// The tile at `pos` after the sweep has dealt with the positions below `n`,
/// where that tile is a creature that waits.
proof fn lemma_waiting_through_sweep(grid: GridModel, n: int, picks: Seq<nat>, pos: int)
    requires
        grid.wf(),
        n <= grid.tiles.len(),
        grid.picks_allowed(n, picks),
        grid.in_range(pos),
        grid.tiles[pos] is Creature,
        grid.tiles[pos]->counter % 3 != 2,
    ensures
        n <= pos ==> grid.sweep_upto(n, picks).tiles[pos] == grid.tiles[pos],
        n > pos ==> grid.sweep_upto(n, picks).tiles[pos] == GridModel::waited(
            grid.tiles[pos]->counter,
            grid.tiles[pos]->direction,
        ),
    decreases n,
{
    if n > 0 {
        let before = grid.sweep_upto(n - 1, picks);
        lemma_waiting_through_sweep(grid, n - 1, picks, pos);
        grid.lemma_sweep_keeps_wf(n - 1, picks);
        if n - 1 == pos {
            lemma_creature_waits(before, pos, picks[n - 1]);
        } else {
            before.lemma_step_frame(n - 1, picks[n - 1], pos);
        }
    }
}

/// The throttle in a whole tick: a creature whose counter is not 2 modulo 3
/// stands on the same tile after the tick, with its counter one up and its
/// direction unchanged, whatever the player does and whatever else moves.
pub proof fn lemma_creature_waits_a_tick(
    grid: GridModel,
    actions: Seq<Action>,
    picks: Seq<nat>,
    pos: int,
)
    requires
        grid.wf(),
        grid.tick_allows(actions, picks),
        grid.in_range(pos),
        grid.tiles[pos] is Creature,
        grid.tiles[pos]->counter % 3 != 2,
    ensures
        grid.tick(actions, picks).tiles[pos] == GridModel::waited(
            grid.tiles[pos]->counter,
            grid.tiles[pos]->direction,
        ),
{
    grid.lemma_move_player_frame(actions, pos);
    grid.lemma_move_player_keeps_wf(actions);
    lemma_waiting_through_sweep(grid.move_player(actions), grid.tiles.len() as int, picks, pos);
}

/// A tick on a grid at rest, with actions that move nothing, changes nothing.
pub proof fn lemma_tick_at_rest(grid: GridModel, actions: Seq<Action>, picks: Seq<nat>)
    requires
        grid.move_player(actions) == grid,
        grid.at_rest(),
    ensures
        grid.tick(actions, picks) == grid,
{
    grid.lemma_sweep_at_rest(grid.tiles.len() as int, picks);
}

/// A fall in a whole tick: a rock or diamond that moves alone, with empty
/// ground below it, is one tile further down after the tick and no further,
/// and nothing else has changed. A tick later it falls again if the ground
/// below it is empty again, and rests if it has landed, as the two laws of the
/// single step say.
pub proof fn lemma_fall_tick(grid: GridModel, actions: Seq<Action>, picks: Seq<nat>, pos: int)
    requires
        grid.wf(),
        grid.move_player(actions) == grid,
        grid.in_range(pos),
        grid.tiles[pos].can_fall(),
        grid.tiles[grid.neighbor(pos, Direction::Down)] == TileType::Empty,
        picks.len() == grid.tiles.len(),
        grid.moves_alone(pos, picks[pos]),
    ensures
        grid.tick(actions, picks) == grid.with_tiles(
            grid.tiles.update(pos, TileType::Empty).update(
                grid.neighbor(pos, Direction::Down),
                grid.tiles[pos],
            ),
        ),
{
    grid.lemma_inside(pos);
    lemma_fall(grid, pos, picks[pos]);
    grid.lemma_sweep_of_one(grid.tiles.len() as int, picks, pos);
}

/// With picks from a source that is bound wherever there is a choice, a tick
/// has one outcome only: the engine is a function of the grid, the actions and
/// the source.
pub proof fn lemma_bound_tick_is_determined(
    grid: GridModel,
    actions: Seq<Action>,
    bound: Bound,
    first: GridModel,
    second: GridModel,
)
    requires
        forall|k: nat| k >= 2 ==> (#[trigger] bound(k)) is Some,
        grid.ticks_to_with(actions, bound, first),
        grid.ticks_to_with(actions, bound, second),
    ensures
        first == second,
{
    let picks = choose|picks: Seq<nat>| #[trigger]
        grid.tick_draws(actions, bound, picks) && first == grid.tick(actions, picks);
    let other = choose|picks: Seq<nat>| #[trigger]
        grid.tick_draws(actions, bound, picks) && second == grid.tick(actions, picks);
    grid.move_player(actions).lemma_sweep_is_determined(
        grid.tiles.len() as int,
        picks,
        other,
        bound,
    );
}

/// Whatever the source, a tick that it drives is a tick.
pub proof fn lemma_ticks_to_with(
    grid: GridModel,
    actions: Seq<Action>,
    bound: Bound,
    after: GridModel,
)
    requires
        grid.ticks_to_with(actions, bound, after),
    ensures
        grid.ticks_to(actions, after),
{
    let picks = choose|picks: Seq<nat>| #[trigger]
        grid.tick_draws(actions, bound, picks) && after == grid.tick(actions, picks);
    assert(grid.tick_allows(actions, picks));
}

/// Whichever picks a sweep is allowed, it is allowed them from the start.
proof fn lemma_allowed_so_far(grid: GridModel, m: int, n: int, picks: Seq<nat>)
    requires
        m <= n,
        grid.picks_allowed(n, picks),
    ensures
        grid.picks_allowed(m, picks),
    decreases n - m,
{
    if m < n {
        lemma_allowed_so_far(grid, m, n - 1, picks);
    }
}

/// The order of the sweep: a tile that the sweep has passed, and that is not
/// empty ground, stays as it is for the rest of the tick. So whatever has
/// moved to a lower index, down or to the left, moves no more in this tick;
/// only what has moved to a higher index can be met again.
pub proof fn lemma_passed_tile_stays(
    grid: GridModel,
    passed: int,
    n: int,
    picks: Seq<nat>,
    pos: int,
)
    requires
        grid.wf(),
        0 <= pos < passed <= n <= grid.tiles.len(),
        grid.picks_allowed(n, picks),
        grid.sweep_upto(passed, picks).tiles[pos] != TileType::Empty,
    ensures
        grid.sweep_upto(n, picks).tiles[pos] == grid.sweep_upto(passed, picks).tiles[pos],
    decreases n - passed,
{
    if passed < n {
        lemma_allowed_so_far(grid, n - 1, n, picks);
        lemma_passed_tile_stays(grid, passed, n - 1, picks, pos);
        grid.lemma_sweep_keeps_wf(n - 1, picks);
        grid.sweep_upto(n - 1, picks).lemma_step_frame(n - 1, picks[n - 1], pos);
    }
}

} // verus!
