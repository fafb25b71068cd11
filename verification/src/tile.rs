//! Tile kinds and what each of them allows.

use vstd::prelude::*;
use crate::input::Direction;
use crate::position::GridPos;

verus! {

/// What occupies one position of the grid.
///
/// A creature carries its own state: `counter` throttles it, so that it walks
/// on every third tick, and `direction` is the way it faces. A creature is
/// updated by writing a new tile value in its place.
#[derive(Copy, Clone, Debug, PartialEq, Eq, Structural)]
pub enum TileType {
    Empty,
    Player,
    Dirt,
    Rock,
    Wall,
    Diamond,
    Steel,
    Creature { counter: usize, direction: Direction },
}

/// A position together with the tile kind found or to be placed there.
#[derive(Copy, Clone, Debug, PartialEq, Eq, Structural)]
pub struct Tile {
    pub pos: GridPos,
    pub kind: TileType,
}

impl Default for TileType {
    fn default() -> (r: Self)
        ensures
            r == TileType::Empty,
    {
        TileType::Empty
    }
}

impl TileType {
    /// Rocks and diamonds are subject to gravity.
    pub open spec fn spec_can_fall(self) -> bool {
        self is Rock || self is Diamond
    }

    /// A falling object resting on a rock, a diamond or a wall may roll off it.
    pub open spec fn spec_can_be_rolled_on(self) -> bool {
        self is Rock || self is Diamond || self is Wall
    }

    /// A creature turns away from anything but the player.
    pub open spec fn spec_can_be_bounced_on(self) -> bool {
        !(self is Player)
    }

    /// The player may walk onto empty ground, dirt and diamonds.
    pub open spec fn spec_can_be_stepped_on(self) -> bool {
        self is Empty || self is Dirt || self is Diamond
    }

    /// Empty ground is where things fall, roll and walk to.
    pub open spec fn spec_is_empty(self) -> bool {
        self is Empty
    }

    /// The one tile that the keyboard moves.
    pub open spec fn spec_is_player(self) -> bool {
        self is Player
    }

    /// A diamond in front of the player is counted as collected.
    pub open spec fn spec_is_diamond(self) -> bool {
        self is Diamond
    }

    /// The player may push a rock.
    pub open spec fn spec_can_be_pushed(self) -> bool {
        self is Rock
    }

    /// Steel and walls never move and nothing moves onto them: they make up
    /// the border of every well-formed grid.
    pub open spec fn spec_is_impassable(self) -> bool {
        self is Steel || self is Wall
    }

    /// The index of this tile's picture in the sprite sheet; empty ground has
    /// none.
    pub open spec fn spec_to_sprite_number(self) -> Option<usize> {
        match self {
            TileType::Empty => None,
            TileType::Player => Some(0usize),
            TileType::Dirt => Some(2usize),
            TileType::Rock => Some(3usize),
            TileType::Steel => Some(4usize),
            TileType::Wall => Some(5usize),
            TileType::Diamond => Some(6usize),
            TileType::Creature { .. } => Some(7usize),
        }
    }

    /// The index of this tile's picture in the sprite sheet; empty ground has
    /// none.
    #[verifier::when_used_as_spec(spec_to_sprite_number)]
    pub fn to_sprite_number(self) -> (r: Option<usize>)
        ensures
            r == self.spec_to_sprite_number(),
    {
        match self {
            TileType::Empty => None,
            TileType::Player => Some(0),
            TileType::Dirt => Some(2),
            TileType::Rock => Some(3),
            TileType::Steel => Some(4),
            TileType::Wall => Some(5),
            TileType::Diamond => Some(6),
            TileType::Creature { counter: _, direction: _ } => Some(7),
        }
    }

    /// Steel and walls never move and nothing moves onto them.
    #[verifier::when_used_as_spec(spec_is_impassable)]
    pub fn is_impassable(self) -> (b: bool)
        ensures
            b == self.spec_is_impassable(),
    {
        match self {
            TileType::Steel => true,
            TileType::Wall => true,
            _ => false,
        }
    }

    /// Rocks and diamonds are subject to gravity.
    #[verifier::when_used_as_spec(spec_can_fall)]
    pub fn can_fall(self) -> (b: bool)
        ensures
            b == self.spec_can_fall(),
    {
        match self {
            TileType::Rock => true,
            TileType::Diamond => true,
            _ => false,
        }
    }

    /// A falling object resting on a rock, a diamond or a wall may roll off it.
    #[verifier::when_used_as_spec(spec_can_be_rolled_on)]
    pub fn can_be_rolled_on(self) -> (b: bool)
        ensures
            b == self.spec_can_be_rolled_on(),
    {
        match self {
            TileType::Rock => true,
            TileType::Diamond => true,
            TileType::Wall => true,
            _ => false,
        }
    }

    /// A creature turns away from anything but the player.
    #[verifier::when_used_as_spec(spec_can_be_bounced_on)]
    pub fn can_be_bounced_on(self) -> (b: bool)
        ensures
            b == self.spec_can_be_bounced_on(),
    {
        match self {
            TileType::Player => false,
            _ => true,
        }
    }

    /// The player may walk onto empty ground, dirt and diamonds.
    #[verifier::when_used_as_spec(spec_can_be_stepped_on)]
    pub fn can_be_stepped_on(self) -> (b: bool)
        ensures
            b == self.spec_can_be_stepped_on(),
    {
        match self {
            TileType::Empty => true,
            TileType::Dirt => true,
            TileType::Diamond => true,
            _ => false,
        }
    }

    /// Empty ground is where things fall, roll and walk to.
    #[verifier::when_used_as_spec(spec_is_empty)]
    pub fn is_empty(self) -> (b: bool)
        ensures
            b == self.spec_is_empty(),
    {
        match self {
            TileType::Empty => true,
            _ => false,
        }
    }

    /// The one tile that the keyboard moves.
    #[verifier::when_used_as_spec(spec_is_player)]
    pub fn is_player(self) -> (b: bool)
        ensures
            b == self.spec_is_player(),
    {
        match self {
            TileType::Player => true,
            _ => false,
        }
    }

    /// A diamond in front of the player is counted as collected.
    #[verifier::when_used_as_spec(spec_is_diamond)]
    pub fn is_diamond(self) -> (b: bool)
        ensures
            b == self.spec_is_diamond(),
    {
        match self {
            TileType::Diamond => true,
            _ => false,
        }
    }

    /// The player may push a rock.
    #[verifier::when_used_as_spec(spec_can_be_pushed)]
    pub fn can_be_pushed(self) -> (b: bool)
        ensures
            b == self.spec_can_be_pushed(),
    {
        match self {
            TileType::Rock => true,
            _ => false,
        }
    }
}

} // verus!
