//! A cellular-automaton simulation engine: a rectangular grid of cells
//! evolves under a Game-of-Life rule extended with three "vanishing" steps
//! that let dying cells fade out over several generations. The grid is seeded
//! by stamping weighted-randomly chosen, hand-designed patterns onto a coarse
//! placement lattice, rejecting placements that would overflow the grid or
//! overlap an earlier placement.

pub mod gol_patterns;
pub mod grid;
pub mod placement;
pub mod rng;
pub mod transition;
pub mod types;
pub mod utils;
