//! A falling-rock puzzle engine on a tile grid.
//!
//! The grid holds dirt, rocks, diamonds, walls, steel and wandering creatures.
//! One call of [`grid::GridState::run_tick`] resolves the player's pending
//! actions and then sweeps every position once, in increasing index order,
//! letting rocks and diamonds fall or roll and creatures walk.
//!
//! Every executable function carries a contract over the mathematical model in
//! [`model`], and the laws that relate several functions are proved in [`laws`].

pub mod input;

pub mod position;

pub mod tile;

pub mod model;

pub mod random;

pub mod grid;

pub mod map;

pub mod score;

pub mod laws;
