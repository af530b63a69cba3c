//! The solved-maze record and its validation.
//!
//! A solved maze pairs a rectangular grid of traversal costs with the
//! path that the external solver found through it. The grid's shape must
//! agree with the declared height and width, and the path must hold at
//! least two cells. Whether the path's moves are legal is not decided
//! here: the step circuit alone judges the moves.

use vstd::prelude::*;

use crate::errors::PipelineError;

verus! {

/// A solved maze as handed to the prover: the grid of cell costs, its
/// declared dimensions, and the solver's path as absolute coordinates.
pub struct SolvedMaze {
    /// Row-major grid of non-negative traversal costs.
    pub maze: Vec<Vec<u32>>,
    /// Declared number of rows.
    pub height: u32,
    /// Declared number of columns.
    pub width: u32,
    /// The path as `(row, col)` pairs; signed so that deltas can be formed.
    pub solution: Vec<(i32, i32)>,
}

impl SolvedMaze {
    /// The grid has the declared shape: `height` rows, each of length
    /// `width`, and both dimensions are positive, so that the starting
    /// cell exists.
    pub open spec fn dims_ok(self) -> bool {
        &&& self.maze@.len() == self.height as int
        &&& self.height > 0
        &&& self.width > 0
        &&& forall|i: int| 0 <= i < self.maze@.len() ==> (#[trigger] self.maze@[i])@.len() == self.width as int
    }

    /// The path holds at least two cells: one move at the very least.
    pub open spec fn path_long_enough(self) -> bool {
        self.solution@.len() >= 2
    }

    /// A well-formed input for the scheduler: right shape, long enough path.
    pub open spec fn wf(self) -> bool {
        self.dims_ok() && self.path_long_enough()
    }

    /// Cell `i` of the path lies inside the grid.
    pub open spec fn cell_in_grid(self, i: int) -> bool {
        &&& 0 <= self.solution@[i].0 < self.height as int
        &&& 0 <= self.solution@[i].1 < self.width as int
    }

    /// Every cell of the path lies inside the grid.
    pub open spec fn all_cells_in_grid(self) -> bool {
        forall|i: int| 0 <= i < self.solution@.len() ==> #[trigger] self.cell_in_grid(i)
    }

    /// Checks the record's shape: the grid must match the declared
    /// dimensions and the path must hold at least two cells. Shape
    /// errors win over path-length errors, in that order.
    pub fn validate(&self) -> (r: Result<(), PipelineError>)
        ensures
            r is Ok <==> self.wf(),
            !self.dims_ok() ==> r == Err::<(), PipelineError>(PipelineError::DimensionMismatch),
            self.dims_ok() && !self.path_long_enough() ==> r == Err::<(), PipelineError>(
                PipelineError::PathTooShort,
            ),
    {
        if self.height == 0 || self.width == 0 {
            return Err(PipelineError::DimensionMismatch);
        }
        if self.maze.len() != self.height as usize {
            return Err(PipelineError::DimensionMismatch);
        }
        let mut i: usize = 0;
        while i < self.maze.len()
            invariant
                0 <= i <= self.maze@.len(),
                forall|j: int| 0 <= j < i ==> (#[trigger] self.maze@[j])@.len() == self.width as int,
            decreases self.maze@.len() - i,
        {
            if self.maze[i].len() != self.width as usize {
                return Err(PipelineError::DimensionMismatch);
            }
            i = i + 1;
        }
        if self.solution.len() < 2 {
            return Err(PipelineError::PathTooShort);
        }
        Ok(())
    }

    /// Reports whether every path cell lies inside the grid. The proving
    /// pipeline itself does not gate on this: an out-of-grid move is left
    /// for the step circuit's witness generator to reject.
    pub fn solution_in_grid(&self) -> (r: bool)
        ensures
            r <==> self.all_cells_in_grid(),
    {
        let mut i: usize = 0;
        while i < self.solution.len()
            invariant
                0 <= i <= self.solution@.len(),
                forall|j: int| 0 <= j < i ==> #[trigger] self.cell_in_grid(j),
            decreases self.solution@.len() - i,
        {
            let (row, col) = self.solution[i];
            if row < 0 || col < 0 {
                assert(!self.cell_in_grid(i as int));
                return false;
            }
            if self.height as i64 <= row as i64 || self.width as i64 <= col as i64 {
                assert(!self.cell_in_grid(i as int));
                return false;
            }
            assert(self.cell_in_grid(i as int));
            i = i + 1;
        }
        true
    }
}

} // verus!
