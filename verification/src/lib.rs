use vstd::prelude::*;

pub mod counting;
pub mod grid;
pub mod partition;
mod rng;
pub mod sampler;

pub use grid::{get_grid, get_grid_flat, get_grid_partitioned, sample_columns, MINES_THRESHOLD};
pub use partition::{partition_work, plan_batches};
pub use sampler::{get_mines, pick_random};

verus! {

/// Error returned when a request asks for more mines than the grid has cells.
#[derive(Debug, Clone, Copy, PartialEq, Eq, Structural)]
pub struct MinesOverflowError;

impl MinesOverflowError {
    /// A human-readable description of the error.
    pub fn message(&self) -> (r: String)
        ensures
            r@ == "There are more mines than possible slots"@,
    {
        "There are more mines than possible slots".to_string()
    }
}

} // verus!
