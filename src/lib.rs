//! A tic-tac-toe grid that fits into two bytes.
//!
//! Each of the nine fields is blank, taken by player X or taken by player O, so
//! a grid is one of `3^9` states. The grid stores them as the digits of a
//! base-3 number in a `u16`, reads and writes single fields by arithmetic,
//! and evaluates who, if anyone, holds a row, a column or a diagonal.
pub mod encoding;
pub mod field_state;
pub mod grid;
pub mod grid_state;
pub mod index;

pub use encoding::GRID_COUNT;
pub use field_state::FieldState;
pub use grid::{Grid, TooBigValue};
pub use grid_state::GridState;
pub use index::{
    GridIndex, TooBigIndex, BOTTOM, BOTTOM_LEFT, BOTTOM_RIGHT, LEFT, MIDDLE, RIGHT, TOP, TOP_LEFT,
    TOP_RIGHT,
};
