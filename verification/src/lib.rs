//! A bounded (non-toroidal) cellular automaton over a fixed-size grid:
//! a bounds-checked grid of boolean cells, and a generation-update rule
//! (Conway's Game of Life) that advances the whole grid one step at a time
//! through a scratch buffer, so that every cell's next state is computed
//! from the previous generation only.

pub mod algorithm;
pub mod grid;
