//! A Sokoban-style puzzle game: the grid model, the movement resolver, the
//! fixed-timestep world tick, level construction and the application's
//! screen state machine, each with a verified contract.

pub mod app;
pub mod cell;
pub mod geometry;
pub mod grid;
pub mod input;
pub mod laws;
pub mod level;
pub mod timing;
pub mod world;

pub use app::{App, CurrentScreen, LEVEL_COUNT, MenuItem};
pub use cell::Cell;
pub use geometry::{Coord, Direction, Offset};
pub use grid::Grid;
pub use input::{Key, KeyBind};
pub use level::Level;
pub use timing::{TICK_NANOS, frame_wait, ticks_due};
