//! The board engine of a mine-clearing puzzle: deferred, seeded mine placement
//! that keeps the first revealed cell safe, neighbour counts, flood-fill reveal
//! and win/loss detection, each with a machine-checked contract.

pub mod cell;
pub mod clock;
pub mod engine;
pub mod fill;
pub mod grid;
pub mod laws;
pub mod layout;
pub mod model;
pub mod moves;
pub mod render;
pub mod rng;
pub mod screen;
pub mod session;
pub mod shuffle;
pub mod tally;
