use rockfall::grid::GridState;
use rockfall::input::{Action, Direction};
use rockfall::map::MapDescription;
use rockfall::position::GridPos;
use rockfall::random::{FirstPick, LastPick, PickSource, ThreadRandom};
use rockfall::tile::{Tile, TileType};

fn grid_from(rows: &[&str]) -> GridState {
    let lines: Vec<Vec<u8>> = rows.iter().map(|row| row.as_bytes().to_vec()).collect();
    let map = MapDescription::load(&lines).expect("the map should load");
    GridState::new(map).expect("the map should be fit for a game")
}

fn picture(grid: &GridState) -> Vec<String> {
    let mut rows = Vec::new();
    for y in (0..grid.height()).rev() {
        let mut row = String::new();
        for x in 0..grid.width() {
            let pos = GridPos::from_xy(x, y, grid.width());
            row.push(match grid.get_tile(pos) {
                TileType::Empty => ' ',
                TileType::Player => 's',
                TileType::Dirt => '.',
                TileType::Rock => 'o',
                TileType::Wall => '%',
                TileType::Diamond => '*',
                TileType::Steel => '#',
                TileType::Creature { .. } => 'c',
            });
        }
        rows.push(row);
    }
    rows
}

fn go(direction: Direction) -> Vec<Action> {
    vec![Action { fire: false, direction }]
}

fn at(grid: &GridState, x: usize, y: usize) -> GridPos {
    GridPos::from_xy(x, y, grid.width())
}

fn creature(counter: usize, direction: Direction) -> TileType {
    TileType::Creature { counter, direction }
}

#[test]
fn push_moves_rock_and_player() {
    let mut grid = grid_from(&["#####", "#so #", "#####"]);
    grid.run_tick_with(go(Direction::Right), &mut FirstPick);
    assert_eq!(picture(&grid), vec!["#####", "# so#", "#####"]);
    assert_eq!(grid.player_pos, at(&grid, 2, 1));
    assert_eq!(grid.diamond_count, 0);
    assert!(grid.is_well_formed());
}

#[test]
fn push_to_the_left() {
    let mut grid = grid_from(&["#####", "# os#", "#####"]);
    grid.run_tick(go(Direction::Left));
    assert_eq!(picture(&grid), vec!["#####", "#os #", "#####"]);
    assert_eq!(grid.player_pos, at(&grid, 2, 1));
}

#[test]
fn push_blocked_by_wall() {
    let mut grid = grid_from(&["#####", "#so%#", "#####"]);
    let before = picture(&grid);
    grid.run_tick_with(go(Direction::Right), &mut FirstPick);
    assert_eq!(picture(&grid), before);
    assert_eq!(grid.player_pos, at(&grid, 1, 1));
}

#[test]
fn push_blocked_by_second_rock() {
    let mut grid = grid_from(&["######", "#soo #", "######"]);
    let before = picture(&grid);
    grid.run_tick_with(go(Direction::Right), &mut FirstPick);
    assert_eq!(picture(&grid), before);
}

#[test]
fn diamond_cannot_be_pushed() {
    let mut grid = grid_from(&["#####", "#s* #", "#####"]);
    grid.run_tick_with(go(Direction::Right), &mut FirstPick);
    assert_eq!(picture(&grid), vec!["#####", "# s #", "#####"]);
    assert_eq!(grid.diamond_count, 1);
}

#[test]
fn pushed_rock_falls_in_the_same_tick() {
    let mut grid = grid_from(&["#####", "#so #", "#.. #", "#####"]);
    grid.run_tick_with(go(Direction::Right), &mut FirstPick);
    assert_eq!(picture(&grid), vec!["#####", "# s #", "#..o#", "#####"]);
}

#[test]
fn player_steps_on_empty_dirt_and_diamond() {
    let mut grid = grid_from(&["#####", "#s.*#", "#####"]);
    grid.run_tick_with(go(Direction::Right), &mut FirstPick);
    assert_eq!(picture(&grid), vec!["#####", "# s*#", "#####"]);
    assert_eq!(grid.diamond_count, 0);
    grid.run_tick_with(go(Direction::Right), &mut FirstPick);
    assert_eq!(picture(&grid), vec!["#####", "#  s#", "#####"]);
    assert_eq!(grid.diamond_count, 1);
    grid.run_tick_with(go(Direction::Left), &mut FirstPick);
    assert_eq!(picture(&grid), vec!["#####", "# s #", "#####"]);
    assert_eq!(grid.diamond_count, 1);
    assert_eq!(grid.player_pos, at(&grid, 2, 1));
}

#[test]
fn player_is_stopped_by_steel_and_wall() {
    let mut grid = grid_from(&["####", "#s%#", "####"]);
    let before = picture(&grid);
    grid.run_tick_with(go(Direction::Right), &mut FirstPick);
    grid.run_tick_with(go(Direction::Left), &mut FirstPick);
    grid.run_tick_with(go(Direction::Up), &mut FirstPick);
    grid.run_tick_with(go(Direction::Down), &mut FirstPick);
    assert_eq!(picture(&grid), before);
    assert_eq!(grid.player_pos, at(&grid, 1, 1));
}

#[test]
fn no_action_no_move() {
    let mut grid = grid_from(&["#####", "# s #", "#####"]);
    let before = picture(&grid);
    grid.run_tick_with(Vec::new(), &mut FirstPick);
    assert_eq!(picture(&grid), before);
}

#[test]
fn first_action_that_moves_wins() {
    let mut grid = grid_from(&["#####", "#   #", "#s  #", "#####"]);
    let actions = vec![
        Action { fire: false, direction: Direction::Left },
        Action { fire: true, direction: Direction::Up },
        Action { fire: false, direction: Direction::Right },
    ];
    grid.run_tick_with(actions, &mut FirstPick);
    assert_eq!(picture(&grid), vec!["#####", "#s  #", "#   #", "#####"]);
}

#[test]
fn move_player_alone_leaves_rocks_in_the_air() {
    let mut grid = grid_from(&["#####", "# o #", "#s  #", "#####"]);
    grid.move_player(go(Direction::Right));
    assert_eq!(picture(&grid), vec!["#####", "# o #", "# s #", "#####"]);
}

#[test]
fn rock_falls_one_tile_per_tick_and_stops() {
    let mut grid = grid_from(&["#####", "#  o#", "#   #", "#s  #", "#####"]);
    grid.run_tick_with(Vec::new(), &mut FirstPick);
    assert_eq!(picture(&grid), vec!["#####", "#   #", "#  o#", "#s  #", "#####"]);
    grid.run_tick_with(Vec::new(), &mut FirstPick);
    assert_eq!(picture(&grid), vec!["#####", "#   #", "#   #", "#s o#", "#####"]);
    grid.run_tick_with(Vec::new(), &mut FirstPick);
    assert_eq!(picture(&grid), vec!["#####", "#   #", "#   #", "#s o#", "#####"]);
}

#[test]
fn diamond_falls_like_a_rock() {
    let mut grid = grid_from(&["####", "#s*#", "#. #", "####"]);
    grid.run_tick_with(Vec::new(), &mut LastPick);
    assert_eq!(picture(&grid), vec!["####", "#s #", "#.*#", "####"]);
    assert_eq!(grid.diamond_count, 0);
}

#[test]
fn rock_rests_on_dirt() {
    let mut grid = grid_from(&["#####", "# o #", "# . #", "#s  #", "#####"]);
    let before = picture(&grid);
    grid.run_tick_with(Vec::new(), &mut FirstPick);
    assert_eq!(picture(&grid), before);
}

#[test]
fn try_fall_names_the_tile_below() {
    let grid = grid_from(&["#####", "# o #", "#s  #", "#####"]);
    assert_eq!(grid.try_fall(at(&grid, 2, 2)), Some(at(&grid, 2, 1)));
    assert_eq!(grid.try_fall(at(&grid, 1, 1)), None);
}

#[test]
fn roll_tie_first_pick_goes_left() {
    let mut grid = grid_from(&["#######", "#  o  #", "#  %  #", "#s    #", "#######"]);
    let rock = at(&grid, 3, 3);
    assert_eq!(grid.try_roll(rock, &mut FirstPick), Some(at(&grid, 2, 3)));
    assert_eq!(
        grid.run_tick_for_pos(rock, &mut FirstPick),
        Some(Tile { pos: at(&grid, 2, 3), kind: TileType::Rock })
    );
    grid.run_tick_with(Vec::new(), &mut FirstPick);
    assert_eq!(picture(&grid), vec!["#######", "# o   #", "#  %  #", "#s    #", "#######"]);
}

#[test]
fn roll_tie_last_pick_goes_right() {
    let mut grid = grid_from(&["#######", "#  o  #", "#  %  #", "#s    #", "#######"]);
    let rock = at(&grid, 3, 3);
    assert_eq!(grid.try_roll(rock, &mut LastPick), Some(at(&grid, 4, 3)));
    assert_eq!(
        grid.run_tick_for_pos(rock, &mut LastPick),
        Some(Tile { pos: at(&grid, 4, 3), kind: TileType::Rock })
    );
    // the rock lands on a position that the sweep has yet to reach, and falls on
    grid.run_tick_with(Vec::new(), &mut LastPick);
    assert_eq!(picture(&grid), vec!["#######", "#     #", "#  %o #", "#s    #", "#######"]);
}

#[test]
fn roll_tie_random_pick_goes_left_or_right() {
    let mut went_left = 0;
    let mut went_right = 0;
    for _ in 0..200 {
        let grid = grid_from(&["#######", "#  o  #", "#  %  #", "#s    #", "#######"]);
        let target = grid.try_roll(at(&grid, 3, 3), &mut ThreadRandom::new());
        if target == Some(at(&grid, 2, 3)) {
            went_left += 1;
        } else if target == Some(at(&grid, 4, 3)) {
            went_right += 1;
        } else {
            panic!("the rock must roll: {:?}", target);
        }
    }
    assert_eq!(went_left + went_right, 200);
    assert!(went_left > 0);
    assert!(went_right > 0);
}

#[test]
fn random_tick_rolls_the_rock_off_the_wall() {
    for _ in 0..50 {
        let mut grid = grid_from(&["#######", "#  o  #", "#  %  #", "#s    #", "#######"]);
        grid.run_tick(Vec::new());
        let rows = picture(&grid);
        let left = vec!["#######", "# o   #", "#  %  #", "#s    #", "#######"];
        let right = vec!["#######", "#     #", "#  %o #", "#s    #", "#######"];
        assert!(rows == left || rows == right);
        assert!(grid.is_well_formed());
    }
}

#[test]
fn thread_random_stays_below_the_bound() {
    let mut source = ThreadRandom::new();
    for n in 1..40usize {
        for _ in 0..20 {
            assert!(source.pick(n) < n);
        }
    }
    assert_eq!(source.pick(1), 0);
}

#[test]
fn first_and_last_pick() {
    assert_eq!(FirstPick.pick(1), 0);
    assert_eq!(FirstPick.pick(3), 0);
    assert_eq!(LastPick.pick(1), 0);
    assert_eq!(LastPick.pick(3), 2);
}

#[test]
fn roll_only_one_side_free() {
    let mut grid = grid_from(&["#######", "# .o  #", "#  %  #", "#s    #", "#######"]);
    assert_eq!(grid.try_roll(at(&grid, 3, 3), &mut FirstPick), Some(at(&grid, 4, 3)));
    grid.run_tick_with(Vec::new(), &mut FirstPick);
    assert_eq!(picture(&grid), vec!["#######", "# .   #", "#  %o #", "#s    #", "#######"]);

    let mut grid = grid_from(&["#######", "#  o  #", "#  %. #", "#s    #", "#######"]);
    assert_eq!(grid.try_roll(at(&grid, 3, 3), &mut LastPick), Some(at(&grid, 2, 3)));
    grid.run_tick_with(Vec::new(), &mut LastPick);
    assert_eq!(picture(&grid), vec!["#######", "# o   #", "#  %. #", "#s    #", "#######"]);
}

#[test]
fn roll_no_side_free() {
    let mut grid = grid_from(&["#######", "# .o. #", "#  %  #", "#s    #", "#######"]);
    let before = picture(&grid);
    assert_eq!(grid.try_roll(at(&grid, 3, 3), &mut FirstPick), None);
    assert_eq!(grid.run_tick_for_pos(at(&grid, 3, 3), &mut FirstPick), None);
    grid.run_tick_with(Vec::new(), &mut FirstPick);
    assert_eq!(picture(&grid), before);
}

#[test]
fn rock_rolls_off_rock_and_diamond_but_not_off_steel() {
    let grid = grid_from(&["#####", "# o #", "# o #", "#s. #", "#####"]);
    assert_eq!(grid.try_roll(at(&grid, 2, 3), &mut FirstPick), Some(at(&grid, 1, 3)));
    let grid = grid_from(&["#####", "# o #", "# * #", "#s. #", "#####"]);
    assert_eq!(grid.try_roll(at(&grid, 2, 3), &mut LastPick), Some(at(&grid, 3, 3)));
    let grid = grid_from(&["#####", "#s  #", "# o #", "#####"]);
    assert_eq!(grid.try_roll(at(&grid, 2, 1), &mut FirstPick), None);
}

#[test]
fn column_of_three_rocks_falls_together() {
    let mut grid = grid_from(&[
        "#####", "# o #", "# o #", "# o #", "#   #", "#   #", "#s  #", "#####",
    ]);
    grid.run_tick_with(Vec::new(), &mut FirstPick);
    assert_eq!(
        picture(&grid),
        vec!["#####", "#   #", "# o #", "# o #", "# o #", "#   #", "#s  #", "#####"]
    );
    grid.run_tick_with(Vec::new(), &mut FirstPick);
    assert_eq!(
        picture(&grid),
        vec!["#####", "#   #", "#   #", "# o #", "# o #", "# o #", "#s  #", "#####"]
    );
    grid.run_tick_with(Vec::new(), &mut FirstPick);
    assert_eq!(
        picture(&grid),
        vec!["#####", "#   #", "#   #", "#   #", "# o #", "# o #", "#so #", "#####"]
    );
    // the lowest rock rests on steel now. The one above it rolls off it to the
    // right, the only free side, and falls on at once; the top one follows down.
    grid.run_tick_with(Vec::new(), &mut FirstPick);
    assert_eq!(
        picture(&grid),
        vec!["#####", "#   #", "#   #", "#   #", "#   #", "# o #", "#soo#", "#####"]
    );
    grid.run_tick_with(Vec::new(), &mut FirstPick);
    assert_eq!(
        picture(&grid),
        vec!["#####", "#   #", "#   #", "#   #", "#   #", "# o #", "#soo#", "#####"]
    );
}

#[test]
fn creature_waits_two_ticks_then_walks() {
    let mut grid = grid_from(&["######", "#    #", "#s   #", "######"]);
    let start = at(&grid, 3, 2);
    grid.set_tile(start, creature(0, Direction::Left));
    grid.run_tick_with(Vec::new(), &mut FirstPick);
    assert_eq!(grid.get_tile(start), creature(1, Direction::Left));
    grid.run_tick_with(Vec::new(), &mut FirstPick);
    assert_eq!(grid.get_tile(start), creature(2, Direction::Left));
    grid.run_tick_with(Vec::new(), &mut FirstPick);
    assert_eq!(grid.get_tile(start), TileType::Empty);
    assert_eq!(grid.get_tile(at(&grid, 2, 2)), creature(0, Direction::Left));
    grid.run_tick_with(Vec::new(), &mut FirstPick);
    assert_eq!(grid.get_tile(at(&grid, 2, 2)), creature(1, Direction::Left));
    assert!(grid.is_well_formed());
}

#[test]
fn creature_walking_right_is_met_again_in_the_same_sweep() {
    let mut grid = grid_from(&["######", "#    #", "#s   #", "######"]);
    grid.set_tile(at(&grid, 2, 2), creature(2, Direction::Right));
    grid.run_tick_with(Vec::new(), &mut FirstPick);
    assert_eq!(grid.get_tile(at(&grid, 2, 2)), TileType::Empty);
    assert_eq!(grid.get_tile(at(&grid, 3, 2)), creature(1, Direction::Right));
}

#[test]
fn creature_decision_on_counter() {
    let mut grid = grid_from(&["######", "#    #", "#s   #", "######"]);
    let pos = at(&grid, 2, 2);
    grid.set_tile(pos, creature(4, Direction::Up));
    assert_eq!(
        grid.run_tick_for_pos(pos, &mut FirstPick),
        Some(Tile { pos, kind: creature(5, Direction::Up) })
    );
    grid.set_tile(pos, creature(5, Direction::Right));
    assert_eq!(
        grid.run_tick_for_pos(pos, &mut FirstPick),
        Some(Tile { pos: at(&grid, 3, 2), kind: creature(0, Direction::Right) })
    );
}

#[test]
fn creature_blocked_by_wall_takes_a_free_turn() {
    // a creature that faces the border, with both sides open
    let mut grid = grid_from(&["#####", "#   #", "#   #", "#s  #", "#####"]);
    let pos = at(&grid, 3, 2);
    grid.set_tile(pos, creature(2, Direction::Right));
    // the free turns, in the order left, right, up, down, without the way back (left)
    assert_eq!(
        grid.try_creature_move(pos, Direction::Right, &mut FirstPick),
        Some(Tile { pos: at(&grid, 3, 3), kind: creature(0, Direction::Up) })
    );
    assert_eq!(
        grid.try_creature_move(pos, Direction::Right, &mut LastPick),
        Some(Tile { pos: at(&grid, 3, 1), kind: creature(0, Direction::Down) })
    );
    for _ in 0..50 {
        let chosen = grid.try_creature_move(pos, Direction::Right, &mut ThreadRandom::new());
        let up = Some(Tile { pos: at(&grid, 3, 3), kind: creature(0, Direction::Up) });
        let down = Some(Tile { pos: at(&grid, 3, 1), kind: creature(0, Direction::Down) });
        assert!(chosen == up || chosen == down);
    }
}

#[test]
fn creature_turns_back_only_as_a_last_resort() {
    let mut grid = grid_from(&["#####", "#  .#", "#   #", "#s .#", "#####"]);
    let pos = at(&grid, 3, 2);
    grid.set_tile(pos, creature(2, Direction::Right));
    assert_eq!(
        grid.try_creature_move(pos, Direction::Right, &mut LastPick),
        Some(Tile { pos: at(&grid, 2, 2), kind: creature(0, Direction::Left) })
    );
    grid.run_tick_with(Vec::new(), &mut LastPick);
    assert_eq!(grid.get_tile(at(&grid, 2, 2)), creature(0, Direction::Left));
    assert_eq!(grid.get_tile(pos), TileType::Empty);
}

#[test]
fn creature_shut_in_keeps_its_counter() {
    let mut grid = grid_from(&["#####", "#s .#", "# . #", "#  .#", "#####"]);
    let pos = at(&grid, 3, 2);
    grid.set_tile(pos, creature(2, Direction::Right));
    assert_eq!(grid.try_creature_move(pos, Direction::Right, &mut FirstPick), None);
    let before = picture(&grid);
    grid.run_tick_with(Vec::new(), &mut FirstPick);
    assert_eq!(picture(&grid), before);
    assert_eq!(grid.get_tile(pos), creature(2, Direction::Right));
    // once a side opens up, it walks
    grid.set_tile(at(&grid, 3, 3), TileType::Empty);
    assert_eq!(
        grid.try_creature_move(pos, Direction::Right, &mut FirstPick),
        Some(Tile { pos: at(&grid, 3, 3), kind: creature(0, Direction::Up) })
    );
    // it goes up, where the sweep meets it again and lets it count
    grid.run_tick_with(Vec::new(), &mut FirstPick);
    assert_eq!(grid.get_tile(pos), TileType::Empty);
    assert_eq!(grid.get_tile(at(&grid, 3, 3)), creature(1, Direction::Up));
}

#[test]
fn creature_stands_still_in_front_of_the_player() {
    let mut grid = grid_from(&["#####", "#   #", "#s  #", "#   #", "#####"]);
    let pos = at(&grid, 2, 2);
    grid.set_tile(pos, creature(2, Direction::Left));
    assert_eq!(grid.try_creature_move(pos, Direction::Left, &mut FirstPick), None);
    grid.run_tick_with(Vec::new(), &mut FirstPick);
    assert_eq!(grid.get_tile(pos), creature(2, Direction::Left));
    assert_eq!(grid.get_tile(at(&grid, 1, 2)), TileType::Player);
}

#[test]
fn creature_counter_five_counts_as_two() {
    let mut grid = grid_from(&["#####", "#   #", "#s  #", "#####"]);
    let pos = at(&grid, 2, 2);
    grid.set_tile(pos, creature(5, Direction::Down));
    grid.run_tick_with(Vec::new(), &mut FirstPick);
    assert_eq!(grid.get_tile(pos), TileType::Empty);
    assert_eq!(grid.get_tile(at(&grid, 2, 1)), creature(0, Direction::Down));
}

#[test]
fn move_grid_object_overwrites_and_clears() {
    let mut grid = grid_from(&["#####", "#s.o#", "#####"]);
    grid.move_grid_object(at(&grid, 3, 1), at(&grid, 2, 1));
    assert_eq!(picture(&grid), vec!["#####", "#so #", "#####"]);
    assert_eq!(grid.player_pos, at(&grid, 1, 1));
    grid.move_grid_object(at(&grid, 1, 1), at(&grid, 3, 1));
    assert_eq!(picture(&grid), vec!["#####", "# os#", "#####"]);
    assert_eq!(grid.player_pos, at(&grid, 3, 1));
}

#[test]
fn move_onto_itself_leaves_the_tile_empty() {
    let mut grid = grid_from(&["#####", "#s.o#", "#####"]);
    let rock = at(&grid, 3, 1);
    grid.move_grid_object(rock, rock);
    assert_eq!(grid.get_tile(rock), TileType::Empty);
    assert_eq!(picture(&grid), vec!["#####", "#s. #", "#####"]);
    assert_eq!(grid.player_pos, at(&grid, 1, 1));
    // empty ground moved onto itself stays empty
    grid.move_grid_object(rock, rock);
    assert_eq!(picture(&grid), vec!["#####", "#s. #", "#####"]);
}

#[test]
fn actions_that_move_nothing_change_nothing() {
    let mut grid = grid_from(&["#####", "##%##", "#os%#", "##o##", "#####"]);
    let before = picture(&grid);
    let actions = vec![
        Action { fire: false, direction: Direction::Up },
        Action { fire: true, direction: Direction::Right },
        Action { fire: false, direction: Direction::Left },
        Action { fire: false, direction: Direction::Down },
    ];
    grid.move_player(actions);
    assert_eq!(picture(&grid), before);
    assert_eq!(grid.player_pos, at(&grid, 2, 2));
    assert_eq!(grid.diamond_count, 0);
    grid.move_player(Vec::new());
    assert_eq!(picture(&grid), before);
}

#[test]
fn tick_runs_with_a_full_counter_where_no_diamond_is_taken() {
    let mut grid = grid_from(&["#####", "#s .#", "#####"]);
    grid.diamond_count = usize::MAX;
    grid.run_tick_with(go(Direction::Right), &mut FirstPick);
    assert_eq!(picture(&grid), vec!["#####", "# s.#", "#####"]);
    assert_eq!(grid.diamond_count, usize::MAX);
}

#[test]
fn steel_and_walls_keep_their_places() {
    let mut grid = grid_from(&[
        "#########",
        "#o o%o  #",
        "#s%. * o#",
        "#  %o   #",
        "#########",
    ]);
    grid.set_tile(at(&grid, 6, 1), creature(2, Direction::Left));
    let fixed: Vec<(usize, TileType)> = grid
        .tiles
        .iter()
        .enumerate()
        .filter(|(_, tile)| tile.is_impassable())
        .map(|(i, tile)| (i, *tile))
        .collect();
    assert_eq!(fixed.len(), 27);
    let ways = [Direction::Right, Direction::Up, Direction::Left, Direction::Down];
    for tick in 0..60usize {
        grid.run_tick(go(ways[tick % 4]));
        for (i, tile) in &fixed {
            assert_eq!(grid.tiles[*i], *tile);
        }
        assert_eq!(grid.width(), 9);
        assert_eq!(grid.height(), 5);
    }
}

#[test]
fn tile_access() {
    let mut grid = grid_from(&["#####", "#s.o#", "#####"]);
    assert_eq!(grid.width(), 5);
    assert_eq!(grid.height(), 3);
    let player = at(&grid, 1, 1);
    assert_eq!(grid.get_tile(player), TileType::Player);
    assert_eq!(*grid.get_tile_ref(at(&grid, 2, 1)), TileType::Dirt);
    assert_eq!(
        grid.get_tile_relative(player, Direction::Right),
        Tile { pos: at(&grid, 2, 1), kind: TileType::Dirt }
    );
    assert_eq!(
        grid.get_tile_relative(player, Direction::Up),
        Tile { pos: at(&grid, 1, 2), kind: TileType::Steel }
    );
    assert_eq!(
        grid.get_tile_relative(player, Direction::Down),
        Tile { pos: at(&grid, 1, 0), kind: TileType::Steel }
    );
    assert_eq!(
        grid.get_tile_relative(player, Direction::Left),
        Tile { pos: at(&grid, 0, 1), kind: TileType::Steel }
    );
    grid.set_tile(at(&grid, 2, 1), TileType::Diamond);
    assert_eq!(grid.get_tile(at(&grid, 2, 1)), TileType::Diamond);
    *grid.get_tile_mut(at(&grid, 3, 1)) = TileType::Empty;
    assert_eq!(picture(&grid), vec!["#####", "#s* #", "#####"]);
}

#[test]
fn ticks_keep_the_grid_well_formed() {
    let mut grid = grid_from(&[
        "##########",
        "#o*o.o o.#",
        "#.o %  * #",
        "# s.o%o .#",
        "#*  .   o#",
        "##########",
    ]);
    grid.set_tile(at(&grid, 6, 1), creature(0, Direction::Right));
    grid.set_tile(at(&grid, 2, 1), creature(1, Direction::Up));
    let ways = [Direction::Left, Direction::Down, Direction::Right, Direction::Up];
    let mut last_count = 0;
    for tick in 0..200usize {
        let actions = vec![
            Action { fire: false, direction: ways[tick % 4] },
            Action { fire: false, direction: ways[(tick / 4) % 4] },
        ];
        grid.run_tick(actions);
        assert!(grid.is_well_formed());
        assert_eq!(grid.get_tile(grid.player_pos), TileType::Player);
        let players = grid.tiles.iter().filter(|tile| **tile == TileType::Player).count();
        assert_eq!(players, 1);
        assert!(grid.diamond_count >= last_count);
        assert!(grid.diamond_count <= last_count + 1);
        last_count = grid.diamond_count;
        assert_eq!(grid.tiles.len(), 60);
    }
}

#[test]
fn broken_grid_is_not_well_formed() {
    let mut grid = grid_from(&["#####", "#s  #", "#####"]);
    assert!(grid.is_well_formed());
    grid.set_tile(at(&grid, 4, 1), TileType::Empty);
    assert!(!grid.is_well_formed());
    grid.set_tile(at(&grid, 4, 1), TileType::Wall);
    assert!(grid.is_well_formed());
    grid.set_tile(at(&grid, 2, 1), TileType::Player);
    assert!(!grid.is_well_formed());
    grid.set_tile(at(&grid, 2, 1), creature(usize::MAX, Direction::Up));
    assert!(!grid.is_well_formed());
    grid.set_tile(at(&grid, 2, 1), creature(usize::MAX - 1, Direction::Up));
    assert!(grid.is_well_formed());
    grid.player_pos = at(&grid, 2, 1);
    assert!(!grid.is_well_formed());
}

#[test]
fn default_grid_is_empty() {
    let grid = GridState::default();
    assert_eq!(grid.width(), 0);
    assert_eq!(grid.height(), 0);
    assert!(grid.tiles.is_empty());
    assert_eq!(grid.diamond_count, 0);
    assert!(!grid.is_well_formed());
}

#[test]
fn clone_is_equal() {
    let grid = grid_from(&["#####", "#s.o#", "#####"]);
    let copy = grid.clone();
    assert_eq!(picture(&copy), picture(&grid));
    assert_eq!(copy.player_pos, grid.player_pos);
    assert_eq!(copy.diamond_count, grid.diamond_count);
}

struct Script {
    picks: Vec<usize>,
    asked: Vec<usize>,
}

impl PickSource for Script {
    fn pick(&mut self, n: usize) -> usize {
        self.asked.push(n);
        self.picks.remove(0) % n
    }
}

#[test]
fn scripted_source_drives_the_sweep() {
    // two rocks on walls, each free to roll either way, and a cornered creature
    let mut grid = grid_from(&[
        "###########",
        "#  o   o  #",
        "#  %   %  #",
        "#s        #",
        "###########",
    ]);
    grid.set_tile(at(&grid, 9, 1), creature(2, Direction::Right));
    let mut script = Script { picks: vec![1, 1, 0], asked: Vec::new() };
    grid.run_tick_with(Vec::new(), &mut script);
    // the creature, low in the grid, comes first: up is its only free turn, and the
    // source is asked all the same. It goes up, where the sweep meets it again.
    // Then the left rock rolls right and falls on, and the right rock rolls left.
    assert_eq!(script.asked, vec![1, 2, 2]);
    assert!(script.picks.is_empty());
    assert_eq!(
        picture(&grid),
        vec!["###########", "#     o   #", "#  %o  % c#", "#s        #", "###########"]
    );
    assert_eq!(grid.get_tile(at(&grid, 9, 2)), creature(1, Direction::Up));
}
