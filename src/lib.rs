//! A three-dimensional Life-like cellular automaton with decaying cells.
//!
//! A cubic lattice of cells is advanced one tick at a time: every cell's
//! count of fully alive neighbours is taken from the previous tick, and then
//! each cell moves through the dead, alive and dying states by a pair of rule
//! tables. The visible cells can then be read out as render instances.

pub mod cell;
pub mod grid;
pub mod laws;
pub mod rules;
pub mod seed;

pub use cell::{Cell, CellColor, Instance};
pub use grid::Grid;
pub use rules::{ConfigError, RuleTable};
