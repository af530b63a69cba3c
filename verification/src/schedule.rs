//! The step scheduler.
//!
//! A path of absolute coordinates becomes a sequence of per-step witness
//! bundles, one per move, together with the initial public state threaded
//! into the first step of the recursion. The scheduler translates
//! faithfully and judges nothing: a move the circuit would reject is still
//! scheduled, and only the witness generator turns it away.

use vstd::prelude::*;

use crate::errors::PipelineError;
use crate::solution::SolvedMaze;

verus! {

/// The domain tag that heads the initial public state.
pub const DOMAIN_TAG: u64 = 123;

/// The private inputs of one recursion step: the full grid (the circuit
/// takes it as a private input each step rather than a commitment), its
/// dimensions, and this step's move as `(delta row, delta col)`.
#[derive(Debug)]
pub struct WitnessBundle {
    /// The whole grid, re-supplied to every step.
    pub grid: Vec<Vec<u32>>,
    /// Number of rows.
    pub height: u32,
    /// Number of columns.
    pub width: u32,
    /// The move taken at this step.
    pub mv: (i32, i32),
}

/// The fixed-arity public state threaded through the recursion: a domain
/// tag, the current row and column, and the running cost accumulator.
#[derive(Clone, Copy, Debug, PartialEq, Eq, Structural)]
pub struct PublicState {
    /// Domain separation tag.
    pub tag: u64,
    /// Current row.
    pub row: u64,
    /// Current column.
    pub col: u64,
    /// Running traversal cost.
    pub cost: u64,
}

/// What the scheduler hands the folding prover: one witness bundle per
/// step and the initial public state of the primary circuit.
#[derive(Debug)]
pub struct Schedule {
    /// One bundle per move of the path.
    pub steps: Vec<WitnessBundle>,
    /// Initial public state of the primary circuit.
    pub z0_primary: PublicState,
}

/// The grid as a sequence of rows of cell costs.
pub open spec fn grid_view(g: Vec<Vec<u32>>) -> Seq<Seq<u32>> {
    g@.map_values(|row: Vec<u32>| row@)
}

/// The row delta of step `i`, as an unbounded integer.
pub open spec fn spec_delta_row(m: SolvedMaze, i: int) -> int {
    m.solution@[i + 1].0 - m.solution@[i].0
}

/// The column delta of step `i`, as an unbounded integer.
pub open spec fn spec_delta_col(m: SolvedMaze, i: int) -> int {
    m.solution@[i + 1].1 - m.solution@[i].1
}

/// Every step delta of the path fits the signed range used for moves.
pub open spec fn deltas_fit(m: SolvedMaze) -> bool {
    forall|i: int|
        0 <= i < m.solution@.len() - 1 ==> {
            &&& i32::MIN <= #[trigger] spec_delta_row(m, i) <= i32::MAX
            &&& i32::MIN <= spec_delta_col(m, i) <= i32::MAX
        }
}

/// The initial public state: the domain tag, the start coordinates, and
/// the cost of the starting cell, regardless of the path taken.
pub open spec fn spec_z0(m: SolvedMaze) -> PublicState {
    PublicState { tag: DOMAIN_TAG, row: 0, col: 0, cost: m.maze@[0]@[0] as u64 }
}

/// Bundle `i` of a schedule for `m`: the whole grid with its dimensions,
/// and exactly the step's delta as the move.
pub open spec fn bundle_matches(b: WitnessBundle, m: SolvedMaze, i: int) -> bool {
    &&& grid_view(b.grid) == grid_view(m.maze)
    &&& b.height == m.height
    &&& b.width == m.width
    &&& b.mv.0 == spec_delta_row(m, i)
    &&& b.mv.1 == spec_delta_col(m, i)
}

/// `s` is precisely the schedule of `m`: one bundle per move, each a
/// faithful translation, and the fixed initial public state.
pub open spec fn is_schedule_of(s: Schedule, m: SolvedMaze) -> bool {
    &&& s.steps@.len() == m.solution@.len() - 1
    &&& forall|i: int| 0 <= i < s.steps@.len() ==> bundle_matches(#[trigger] s.steps@[i], m, i)
    &&& s.z0_primary == spec_z0(m)
}

/// Copies one row of the grid.
fn clone_row(row: &Vec<u32>) -> (r: Vec<u32>)
    ensures
        r@ == row@,
{
    let mut r: Vec<u32> = Vec::new();
    let mut i: usize = 0;
    while i < row.len()
        invariant
            0 <= i <= row@.len(),
            r@ == row@.subrange(0, i as int),
        decreases row@.len() - i,
    {
        r.push(row[i]);
        assert(r@ =~= row@.subrange(0, i + 1));
        i = i + 1;
    }
    assert(r@ =~= row@);
    r
}

/// Copies the whole grid.
fn clone_grid(g: &Vec<Vec<u32>>) -> (r: Vec<Vec<u32>>)
    ensures
        grid_view(r) == grid_view(*g),
{
    let mut r: Vec<Vec<u32>> = Vec::new();
    let mut i: usize = 0;
    while i < g.len()
        invariant
            0 <= i <= g@.len(),
            r@.len() == i,
            forall|j: int| 0 <= j < i ==> (#[trigger] r@[j])@ == g@[j]@,
        decreases g@.len() - i,
    {
        r.push(clone_row(&g[i]));
        i = i + 1;
    }
    assert(grid_view(r) =~= grid_view(*g));
    r
}

/// Converts the absolute path to per-step witness bundles and builds the
/// initial public state. Exactly `len(path) - 1` bundles come out, each
/// carrying the grid, its dimensions, and the step's move as the plain
/// coordinate difference; the move is not judged here. Fails precisely
/// when some delta does not fit the signed range of a move.
pub fn schedule(m: &SolvedMaze) -> (r: Result<Schedule, PipelineError>)
    requires
        m.path_long_enough(),
        m.maze@.len() > 0,
        m.maze@[0]@.len() > 0,
    ensures
        r is Ok <==> deltas_fit(*m),
        !deltas_fit(*m) ==> r == Err::<Schedule, PipelineError>(PipelineError::ArithmeticOverflow),
        r matches Ok(s) ==> is_schedule_of(s, *m),
{
    let num_steps: usize = m.solution.len() - 1;
    let mut steps: Vec<WitnessBundle> = Vec::new();
    let mut i: usize = 0;
    while i < num_steps
        invariant
            0 <= i <= num_steps,
            num_steps == m.solution@.len() - 1,
            steps@.len() == i,
            forall|j: int| 0 <= j < i ==> bundle_matches(#[trigger] steps@[j], *m, j),
        decreases num_steps - i,
    {
        let (r1, c1) = m.solution[i + 1];
        let (r0, c0) = m.solution[i];
        let dr = match r1.checked_sub(r0) {
            Some(d) => d,
            None => {
                assert(!(i32::MIN <= spec_delta_row(*m, i as int) <= i32::MAX));
                return Err(PipelineError::ArithmeticOverflow);
            },
        };
        let dc = match c1.checked_sub(c0) {
            Some(d) => d,
            None => {
                assert(!(i32::MIN <= spec_delta_col(*m, i as int) <= i32::MAX));
                return Err(PipelineError::ArithmeticOverflow);
            },
        };
        let bundle = WitnessBundle {
            grid: clone_grid(&m.maze),
            height: m.height,
            width: m.width,
            mv: (dr, dc),
        };
        steps.push(bundle);
        i = i + 1;
    }
    assert forall|j: int|
        0 <= j < m.solution@.len() - 1 implies {
            &&& i32::MIN <= #[trigger] spec_delta_row(*m, j) <= i32::MAX
            &&& i32::MIN <= spec_delta_col(*m, j) <= i32::MAX
        } by {
        assert(bundle_matches(steps@[j], *m, j));
    }
    let z0_primary = PublicState { tag: DOMAIN_TAG, row: 0, col: 0, cost: m.maze[0][0] as u64 };
    Ok(Schedule { steps, z0_primary })
}

/// The path moves one cell along a single axis at every step: each delta
/// pair has absolute values summing to one.
pub open spec fn path_moves_valid(m: SolvedMaze) -> bool {
    forall|i: int|
        0 <= i < m.solution@.len() - 1 ==> {
            ||| (spec_delta_row(m, i) == 1 || spec_delta_row(m, i) == -1) && #[trigger] spec_delta_col(m, i) == 0
            ||| spec_delta_row(m, i) == 0 && (spec_delta_col(m, i) == 1 || spec_delta_col(m, i) == -1)
        }
}

/// A scheduled move is a unit move or stands still: for a valid path
/// every bundle's move lies in `{(1,0), (-1,0), (0,1), (0,-1), (0,0)}`,
/// each derived as the coordinate difference of consecutive path cells.
pub proof fn lemma_schedule_moves_bounded(m: SolvedMaze, s: Schedule)
    requires
        m.path_long_enough(),
        path_moves_valid(m),
        is_schedule_of(s, m),
    ensures
        forall|i: int|
            0 <= i < s.steps@.len() ==> {
                let mv = (#[trigger] s.steps@[i]).mv;
                ||| (mv.0 == 1 || mv.0 == -1) && mv.1 == 0
                ||| mv.0 == 0 && (mv.1 == 1 || mv.1 == -1)
                ||| mv.0 == 0 && mv.1 == 0
            },
{
    assert forall|i: int| 0 <= i < s.steps@.len() implies {
        let mv = (#[trigger] s.steps@[i]).mv;
        ||| (mv.0 == 1 || mv.0 == -1) && mv.1 == 0
        ||| mv.0 == 0 && (mv.1 == 1 || mv.1 == -1)
        ||| mv.0 == 0 && mv.1 == 0
    } by {
        assert(bundle_matches(s.steps@[i], m, i));
    }
}

} // verus!
