use maze_snark::errors::PipelineError;
use maze_snark::schedule::{schedule, DOMAIN_TAG};
use maze_snark::solution::SolvedMaze;

fn solved(maze: Vec<Vec<u32>>, height: u32, width: u32, solution: Vec<(i32, i32)>) -> SolvedMaze {
    SolvedMaze { maze, height, width, solution }
}

#[test]
fn trivial_two_by_two_one_step() {
    let m = solved(vec![vec![1, 1], vec![1, 1]], 2, 2, vec![(0, 0), (0, 1)]);
    assert!(m.validate().is_ok());
    let s = schedule(&m).unwrap();
    assert_eq!(s.steps.len(), 1);
    assert_eq!(s.steps[0].mv, (0, 1));
    assert_eq!(s.steps[0].grid, vec![vec![1, 1], vec![1, 1]]);
    assert_eq!(s.steps[0].height, 2);
    assert_eq!(s.steps[0].width, 2);
    assert_eq!(s.z0_primary.tag, DOMAIN_TAG);
    assert_eq!(s.z0_primary.row, 0);
    assert_eq!(s.z0_primary.col, 0);
    assert_eq!(s.z0_primary.cost, 1);
}

#[test]
fn three_by_three_l_path() {
    let maze = vec![vec![1, 1, 1], vec![1, 9, 1], vec![1, 1, 1]];
    let m = solved(maze.clone(), 3, 3, vec![(0, 0), (1, 0), (2, 0), (2, 1), (2, 2)]);
    assert!(m.validate().is_ok());
    let s = schedule(&m).unwrap();
    assert_eq!(s.steps.len(), 4);
    let moves: Vec<(i32, i32)> = s.steps.iter().map(|b| b.mv).collect();
    assert_eq!(moves, vec![(1, 0), (1, 0), (0, 1), (0, 1)]);
    for b in &s.steps {
        assert_eq!(b.grid, maze);
        assert_eq!(b.height, 3);
        assert_eq!(b.width, 3);
    }
    assert_eq!(s.z0_primary.tag, DOMAIN_TAG);
    assert_eq!(s.z0_primary.cost, 1);
}

#[test]
fn diagonal_move_is_scheduled_not_judged() {
    let m = solved(vec![vec![1, 1], vec![1, 1]], 2, 2, vec![(0, 0), (1, 1)]);
    let s = schedule(&m).unwrap();
    assert_eq!(s.steps.len(), 1);
    assert_eq!(s.steps[0].mv, (1, 1));
}

#[test]
fn out_of_grid_move_is_scheduled_not_judged() {
    let m = solved(vec![vec![1, 1], vec![1, 1]], 2, 2, vec![(0, 0), (0, -1)]);
    assert!(!m.solution_in_grid());
    let s = schedule(&m).unwrap();
    assert_eq!(s.steps.len(), 1);
    assert_eq!(s.steps[0].mv, (0, -1));
}

#[test]
fn corner_touching_path() {
    let m = solved(
        vec![vec![1, 2], vec![3, 4]],
        2,
        2,
        vec![(0, 0), (0, 1), (1, 1), (1, 0)],
    );
    assert!(m.solution_in_grid());
    let s = schedule(&m).unwrap();
    assert_eq!(s.steps.len(), 3);
    let moves: Vec<(i32, i32)> = s.steps.iter().map(|b| b.mv).collect();
    assert_eq!(moves, vec![(0, 1), (1, 0), (0, -1)]);
}

#[test]
fn delta_overflow_is_reported() {
    let m = solved(vec![vec![5]], 1, 1, vec![(i32::MIN, 0), (i32::MAX, 0)]);
    assert_eq!(schedule(&m).unwrap_err(), PipelineError::ArithmeticOverflow);
}

#[test]
fn initial_state_ignores_the_path() {
    let maze = vec![vec![7, 1], vec![1, 1]];
    let a = solved(maze.clone(), 2, 2, vec![(0, 0), (0, 1)]);
    let b = solved(maze, 2, 2, vec![(1, 1), (1, 0), (0, 0)]);
    let sa = schedule(&a).unwrap();
    let sb = schedule(&b).unwrap();
    assert_eq!(sa.z0_primary, sb.z0_primary);
    assert_eq!(sa.z0_primary.cost, 7);
}

#[test]
fn row_count_mismatch_is_rejected() {
    let m = solved(vec![vec![1, 1]], 2, 2, vec![(0, 0), (0, 1)]);
    assert_eq!(m.validate().unwrap_err(), PipelineError::DimensionMismatch);
}

#[test]
fn row_length_mismatch_is_rejected() {
    let m = solved(vec![vec![1, 1], vec![1]], 2, 2, vec![(0, 0), (0, 1)]);
    assert_eq!(m.validate().unwrap_err(), PipelineError::DimensionMismatch);
}

#[test]
fn empty_grid_is_rejected() {
    let m = solved(vec![], 0, 0, vec![(0, 0), (0, 1)]);
    assert_eq!(m.validate().unwrap_err(), PipelineError::DimensionMismatch);
}

#[test]
fn single_cell_path_is_rejected() {
    let m = solved(vec![vec![1, 1], vec![1, 1]], 2, 2, vec![(0, 0)]);
    assert_eq!(m.validate().unwrap_err(), PipelineError::PathTooShort);
}

#[test]
fn in_grid_check_accepts_interior_path() {
    let m = solved(vec![vec![1, 1], vec![1, 1]], 2, 2, vec![(0, 0), (1, 0), (1, 1)]);
    assert!(m.solution_in_grid());
}

#[test]
fn error_classification_splits_input_from_crypto() {
    assert!(PipelineError::MalformedInput.is_input_error());
    assert!(PipelineError::DimensionMismatch.is_input_error());
    assert!(PipelineError::PathTooShort.is_input_error());
    assert!(PipelineError::ArithmeticOverflow.is_input_error());
    assert!(PipelineError::InvalidConstraintArtifact.is_input_error());
    assert!(!PipelineError::StepWitnessFailure(0).is_input_error());
    assert!(!PipelineError::FoldingFailure(2).is_input_error());
    assert!(!PipelineError::ProvingFailure.is_input_error());
    assert!(!PipelineError::VerificationFailure.is_input_error());
    assert!(!PipelineError::CorruptProof.is_input_error());
}
