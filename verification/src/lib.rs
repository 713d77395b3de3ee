//! A toroidal two-dimensional cellular automaton (Conway's Game of Life).
//!
//! A [`Universe`] owns a width, a height, and a packed bit array with one flag
//! per cell, addressed row-major. It can be seeded, edited cell by cell,
//! stamped with named multi-cell patterns, advanced one generation at a time
//! under the fixed birth/survival rule, and rendered as text. Grid edges wrap
//! around, so every cell has exactly eight neighbors.

pub mod bits;
pub mod grid;
pub mod universe;

pub use universe::Cell;
pub use universe::GridError;
pub use universe::Pattern;
pub use universe::Universe;
