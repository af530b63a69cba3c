use maze_snark::errors::PipelineError;
use maze_snark::prover::start_proving;
use maze_snark::solution::SolvedMaze;
use maze_snark::witness::witness_well_formed;

fn solved(maze: Vec<Vec<u32>>, height: u32, width: u32, solution: Vec<(i32, i32)>) -> SolvedMaze {
    SolvedMaze { maze, height, width, solution }
}

#[test]
fn session_opens_at_step_zero_with_decimal_state() {
    let m = solved(vec![vec![1, 1], vec![1, 1]], 2, 2, vec![(0, 0), (0, 1)]);
    let s = match start_proving(&m) {
        Ok(s) => s,
        Err(_) => panic!("expected a session"),
    };
    assert_eq!(s.current_step(), 0);
    assert_eq!(s.step_count(), 1);
    assert!(!s.is_done());
    assert_eq!(s.current_state(), &vec![
        String::from("123"),
        String::from("0"),
        String::from("0"),
        String::from("1"),
    ]);
    assert_eq!(s.current_bundle().mv, (0, 1));
    assert_eq!(s.initial_state().cost, 1);
}

#[test]
fn session_state_takes_the_start_cell_cost() {
    let m = solved(vec![vec![7, 1], vec![1, 1]], 2, 2, vec![(1, 1), (1, 0), (0, 0)]);
    let s = match start_proving(&m) {
        Ok(s) => s,
        Err(_) => panic!("expected a session"),
    };
    assert_eq!(s.step_count(), 2);
    assert_eq!(s.current_state()[3], String::from("7"));
}

#[test]
fn session_rejects_short_path() {
    let m = solved(vec![vec![1, 1], vec![1, 1]], 2, 2, vec![(0, 0)]);
    match start_proving(&m) {
        Err(e) => assert_eq!(e, PipelineError::PathTooShort),
        Ok(_) => panic!("expected a rejection"),
    }
}

#[test]
fn session_rejects_bad_dimensions() {
    let m = solved(vec![vec![1, 1]], 2, 2, vec![(0, 0), (0, 1)]);
    match start_proving(&m) {
        Err(e) => assert_eq!(e, PipelineError::DimensionMismatch),
        Ok(_) => panic!("expected a rejection"),
    }
}

#[test]
fn session_rejects_delta_overflow() {
    let m = solved(vec![vec![5]], 1, 1, vec![(i32::MIN, 0), (i32::MAX, 0)]);
    match start_proving(&m) {
        Err(e) => assert_eq!(e, PipelineError::ArithmeticOverflow),
        Ok(_) => panic!("expected a rejection"),
    }
}

/// A witness file for `n` variables, all zero.
fn witness_file(n: u32) -> Vec<u8> {
    let mut out = Vec::new();
    out.extend_from_slice(b"wtns");
    out.extend_from_slice(&2u32.to_le_bytes()); // version
    out.extend_from_slice(&2u32.to_le_bytes()); // sections
    out.extend_from_slice(&1u32.to_le_bytes()); // header section
    out.extend_from_slice(&40u64.to_le_bytes());
    out.extend_from_slice(&32u32.to_le_bytes()); // field size
    out.extend_from_slice(&[0u8; 32]); // prime
    out.extend_from_slice(&n.to_le_bytes()); // witness length
    out.extend_from_slice(&2u32.to_le_bytes()); // data section
    out.extend_from_slice(&((n as u64) * 32).to_le_bytes());
    for _ in 0..n {
        out.extend_from_slice(&[0u8; 32]);
    }
    out
}

#[test]
fn witness_check_accepts_a_zero_witness() {
    let bytes = witness_file(9);
    assert!(witness_well_formed(&bytes, 9));
}

#[test]
fn witness_check_rejects_bad_magic() {
    let mut bytes = witness_file(9);
    bytes[0] = b'x';
    assert!(!witness_well_formed(&bytes, 9));
}

#[test]
fn witness_check_rejects_wrong_length() {
    let bytes = witness_file(9);
    assert!(!witness_well_formed(&bytes, 10));
}

#[test]
fn witness_check_rejects_truncation() {
    let mut bytes = witness_file(9);
    bytes.pop();
    assert!(!witness_well_formed(&bytes, 9));
}

#[test]
fn witness_check_rejects_non_canonical_element() {
    let mut bytes = witness_file(9);
    let last = bytes.len() - 1;
    for k in 0..32 {
        bytes[last - k] = 0xff;
    }
    assert!(!witness_well_formed(&bytes, 9));
}
