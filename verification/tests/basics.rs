use rockfall::input::Direction;
use rockfall::position::GridPos;
use rockfall::score::{calculate_score, POINTS_PER_DIAMOND};
use rockfall::tile::TileType;

fn every_kind() -> Vec<TileType> {
    vec![
        TileType::Empty,
        TileType::Player,
        TileType::Dirt,
        TileType::Rock,
        TileType::Wall,
        TileType::Diamond,
        TileType::Steel,
        TileType::Creature { counter: 1, direction: Direction::Up },
    ]
}

fn kinds_where(holds: fn(TileType) -> bool) -> Vec<TileType> {
    every_kind().into_iter().filter(|kind| holds(*kind)).collect()
}

#[test]
fn grid_pos_steps() {
    let pos = GridPos::new(27);
    assert_eq!(pos.index(), 27);
    assert_eq!(pos.up(10), GridPos::new(37));
    assert_eq!(pos.down(10), GridPos::new(17));
    assert_eq!(pos.left(), GridPos::new(26));
    assert_eq!(pos.right(), GridPos::new(28));
    assert_eq!(pos.direction(Direction::Up, 10), GridPos::new(37));
    assert_eq!(pos.direction(Direction::Down, 10), GridPos::new(17));
    assert_eq!(pos.direction(Direction::Left, 10), GridPos::new(26));
    assert_eq!(pos.direction(Direction::Right, 10), GridPos::new(28));
}

#[test]
fn grid_pos_steps_across_rows() {
    // stepping does no bounds checking: left of the first column is the end of the
    // row below
    assert_eq!(GridPos::from_xy(0, 2, 10).left(), GridPos::from_xy(9, 1, 10));
    assert_eq!(GridPos::from_xy(9, 1, 10).right(), GridPos::from_xy(0, 2, 10));
}

#[test]
fn grid_pos_xy() {
    assert_eq!(GridPos::from_xy(3, 2, 10), GridPos::new(23));
    assert_eq!(GridPos::from_xy(0, 0, 10), GridPos::new(0));
    assert_eq!(GridPos::from_xy(9, 0, 10), GridPos::new(9));
    assert_eq!(GridPos::new(23).to_xy(10), (3, 2));
    assert_eq!(GridPos::new(9).to_xy(10), (9, 0));
    assert_eq!(GridPos::new(10).to_xy(10), (0, 1));
    assert_eq!(GridPos::new(5).to_xy(1), (0, 5));
    assert_eq!(GridPos::default(), GridPos::new(0));
    assert_eq!(GridPos::from_xy(usize::MAX, 0, 7).index(), usize::MAX);
}

#[test]
fn tile_capabilities() {
    assert_eq!(
        kinds_where(TileType::can_fall),
        vec![TileType::Rock, TileType::Diamond]
    );
    assert_eq!(
        kinds_where(TileType::can_be_rolled_on),
        vec![TileType::Rock, TileType::Wall, TileType::Diamond]
    );
    assert_eq!(
        kinds_where(|kind| !kind.can_be_bounced_on()),
        vec![TileType::Player]
    );
    assert_eq!(
        kinds_where(TileType::can_be_stepped_on),
        vec![TileType::Empty, TileType::Dirt, TileType::Diamond]
    );
    assert_eq!(kinds_where(TileType::is_empty), vec![TileType::Empty]);
    assert_eq!(kinds_where(TileType::is_player), vec![TileType::Player]);
    assert_eq!(kinds_where(TileType::is_diamond), vec![TileType::Diamond]);
    assert_eq!(kinds_where(TileType::can_be_pushed), vec![TileType::Rock]);
    assert_eq!(
        kinds_where(TileType::is_impassable),
        vec![TileType::Wall, TileType::Steel]
    );
}

#[test]
fn tile_sprites() {
    assert_eq!(TileType::Empty.to_sprite_number(), None);
    assert_eq!(TileType::Player.to_sprite_number(), Some(0));
    assert_eq!(TileType::Dirt.to_sprite_number(), Some(2));
    assert_eq!(TileType::Rock.to_sprite_number(), Some(3));
    assert_eq!(TileType::Steel.to_sprite_number(), Some(4));
    assert_eq!(TileType::Wall.to_sprite_number(), Some(5));
    assert_eq!(TileType::Diamond.to_sprite_number(), Some(6));
    let creature = TileType::Creature { counter: 9, direction: Direction::Left };
    assert_eq!(creature.to_sprite_number(), Some(7));
    assert_eq!(TileType::default(), TileType::Empty);
}

#[test]
fn score_is_five_per_diamond() {
    assert_eq!(POINTS_PER_DIAMOND, 5);
    assert_eq!(calculate_score(0), 0);
    assert_eq!(calculate_score(1), 5);
    assert_eq!(calculate_score(3), 15);
    assert_eq!(calculate_score(1234), 6170);
}
