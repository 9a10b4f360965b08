//! Core logic of Conway's Game of Life on a fixed rectangular grid:
//! the cell store, the generation step, and a small library of
//! named patterns that can be stamped onto the grid.

pub mod cell;
pub mod cell_state;
pub mod grid;
pub mod laws;
pub mod lifes;
pub mod mode;
