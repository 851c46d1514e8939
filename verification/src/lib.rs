//! Conway's Game of Life on a sparse lattice, with the pan-and-zoom viewport
//! through which the lattice is observed and edited.
//!
//! - [`lattice`]: cells, and the integer key under which a cell is stored;
//! - [`cells`]: the set of live cells;
//! - [`rule`]: which cells live in the next generation;
//! - [`engine`]: one tick of the simulation;
//! - [`view`]: zoom scale, pan offset and the transforms between pixels and
//!   cells;
//! - [`input`]: the inputs of the host and what they lead to;
//! - [`state`]: the program's state and the operations on it.
//!
//! The library does no input or output. Its host hands it inputs and ticks,
//! and renders the frames that it describes.

pub mod lattice;
pub mod cells;
pub mod rule;
pub mod engine;
pub mod view;
pub mod input;
pub mod state;
