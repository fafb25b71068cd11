//! Linear addressing of a grid whose width is known.

use vstd::prelude::*;
use crate::input::Direction;

verus! {

/// The index that one step from `pos` in direction `d` leads to, on a grid that
/// is `width` tiles wide. Rows are stored one after another, lowest row first,
/// so a step up adds `width` and a step to the right adds one.
pub open spec fn step(pos: int, d: Direction, width: int) -> int {
    match d {
        Direction::Up => pos + width,
        Direction::Down => pos - width,
        Direction::Left => pos - 1,
        Direction::Right => pos + 1,
    }
}

/// A position on the grid: the linear index `x + y * width` of a tile.
///
/// Stepping does no bounds checking of its own. Each step asks only that the
/// arithmetic stays within `usize`; that the result names a tile of the grid
/// follows from the grid's enclosed border.
#[derive(Copy, Clone, Debug, PartialEq, Eq, Structural)]
pub struct GridPos(pub usize);

impl View for GridPos {
    type V = int;

    open spec fn view(&self) -> int {
        self.0 as int
    }
}

impl Default for GridPos {
    fn default() -> (r: Self)
        ensures
            r@ == 0,
    {
        GridPos(0)
    }
}

impl GridPos {
    /// The position with linear index `i`.
    pub fn new(i: usize) -> (r: Self)
        ensures
            r@ == i,
    {
        GridPos(i)
    }

    /// The linear index of this position.
    pub fn index(self) -> (i: usize)
        ensures
            i == self@,
    {
        self.0
    }

    /// The position of column `x` in row `y`.
    pub fn from_xy(x: usize, y: usize, width: usize) -> (r: Self)
        requires
            x + y * width <= usize::MAX,
        ensures
            r@ == x + y * width,
    {
        assert(y * width <= usize::MAX) by (nonlinear_arith)
            requires
                x + y * width <= usize::MAX,
                x >= 0,
        ;
        GridPos(x + y * width)
    }

    /// One step in direction `d`.
    pub fn direction(self, d: Direction, width: usize) -> (r: Self)
        requires
            0 <= step(self@, d, width as int) <= usize::MAX,
        ensures
            r@ == step(self@, d, width as int),
    {
        match d {
            Direction::Up => self.up(width),
            Direction::Down => self.down(width),
            Direction::Left => self.left(),
            Direction::Right => self.right(),
        }
    }

    /// The column and the row of this position.
    pub fn to_xy(self, width: usize) -> (r: (usize, usize))
        requires
            width > 0,
        ensures
            r.0 == self@ % (width as int),
            r.1 == self@ / (width as int),
    {
        let x: usize = self.0 % width;
        let y: usize = self.0 / width;
        (x, y)
    }

    /// The position one row higher.
    pub fn up(self, width: usize) -> (r: Self)
        requires
            self@ + width <= usize::MAX,
        ensures
            r@ == self@ + width,
    {
        GridPos(self.0 + width)
    }

    /// The position one row lower.
    pub fn down(self, width: usize) -> (r: Self)
        requires
            self@ >= width,
        ensures
            r@ == self@ - width,
    {
        GridPos(self.0 - width)
    }

    /// The position one column to the left.
    pub fn left(self) -> (r: Self)
        requires
            self@ >= 1,
        ensures
            r@ == self@ - 1,
    {
        GridPos(self.0 - 1)
    }

    /// The position one column to the right.
    pub fn right(self) -> (r: Self)
        requires
            self@ < usize::MAX,
        ensures
            r@ == self@ + 1,
    {
        GridPos(self.0 + 1)
    }
}

} // verus!
