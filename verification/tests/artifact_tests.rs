use maze_snark::errors::PipelineError;
use maze_snark::prover::load_constraint_system;

fn push_u32(out: &mut Vec<u8>, v: u32) {
    out.extend_from_slice(&v.to_le_bytes());
}

fn push_u64(out: &mut Vec<u8>, v: u64) {
    out.extend_from_slice(&v.to_le_bytes());
}

/// A minimal binary constraint-system artifact: a header section, a
/// constraints section holding `constraints`, and a label map.
fn artifact_with(
    n_wires: u32,
    n_pub_out: u32,
    n_pub_in: u32,
    n_constraints: u32,
    constraints: &[u8],
) -> Vec<u8> {
    let mut out = Vec::new();
    out.extend_from_slice(b"r1cs");
    push_u32(&mut out, 1); // version
    push_u32(&mut out, 3); // sections
    // header section
    push_u32(&mut out, 1);
    push_u64(&mut out, 64);
    push_u32(&mut out, 32); // field size
    out.extend_from_slice(&[0u8; 32]); // prime
    push_u32(&mut out, n_wires);
    push_u32(&mut out, n_pub_out);
    push_u32(&mut out, n_pub_in);
    push_u32(&mut out, 0); // private inputs
    push_u64(&mut out, n_wires as u64); // labels
    push_u32(&mut out, n_constraints);
    // constraints section
    push_u32(&mut out, 2);
    push_u64(&mut out, constraints.len() as u64);
    out.extend_from_slice(constraints);
    // wire-to-label map
    push_u32(&mut out, 3);
    push_u64(&mut out, n_wires as u64 * 8);
    for _ in 0..n_wires {
        push_u64(&mut out, 0);
    }
    out
}

fn artifact(n_wires: u32, n_pub_out: u32, n_pub_in: u32) -> Vec<u8> {
    artifact_with(n_wires, n_pub_out, n_pub_in, 0, &[])
}

/// One constraint whose three linear combinations each hold one entry
/// with the given wire index and a given low coefficient byte.
fn one_constraint(idx: u32, coeff_low: u8) -> Vec<u8> {
    let mut out = Vec::new();
    for _ in 0..3 {
        push_u32(&mut out, 1);
        push_u32(&mut out, idx);
        let mut coeff = [0u8; 32];
        coeff[0] = coeff_low;
        out.extend_from_slice(&coeff);
    }
    out
}

#[test]
fn minimal_artifact_loads() {
    let bytes = artifact(9, 4, 4);
    let cs = match load_constraint_system(&bytes) {
        Ok(cs) => cs,
        Err(_) => panic!("expected a valid artifact"),
    };
    assert_eq!(cs.num_inputs, 9);
    assert_eq!(cs.num_variables, 9);
}

#[test]
fn wrong_public_arity_is_invalid() {
    // The public state has four slots on each side; zero is not it.
    let bytes = artifact(9, 0, 0);
    match load_constraint_system(&bytes) {
        Err(e) => assert_eq!(e, PipelineError::InvalidConstraintArtifact),
        Ok(_) => panic!("expected an invalid artifact"),
    }
}

#[test]
fn bad_magic_is_invalid() {
    let mut bytes = artifact(9, 4, 4);
    bytes[0] = b'x';
    match load_constraint_system(&bytes) {
        Err(e) => assert_eq!(e, PipelineError::InvalidConstraintArtifact),
        Ok(_) => panic!("expected an invalid artifact"),
    }
}

#[test]
fn inconsistent_counts_are_invalid() {
    // One constant wire plus eight public values cannot fit in one wire.
    let bytes = artifact(1, 4, 4);
    match load_constraint_system(&bytes) {
        Err(e) => assert_eq!(e, PipelineError::InvalidConstraintArtifact),
        Ok(_) => panic!("expected an invalid artifact"),
    }
}

#[test]
fn truncated_artifact_is_invalid() {
    let mut bytes = artifact(9, 4, 4);
    bytes.truncate(10);
    match load_constraint_system(&bytes) {
        Err(e) => assert_eq!(e, PipelineError::InvalidConstraintArtifact),
        Ok(_) => panic!("expected an invalid artifact"),
    }
}


#[test]
fn constraint_with_declared_wires_loads() {
    let body = one_constraint(8, 1);
    let bytes = artifact_with(9, 4, 4, 1, &body);
    assert!(load_constraint_system(&bytes).is_ok());
}

#[test]
fn out_of_range_wire_index_is_invalid() {
    // Wire indices must lie below the declared wire count.
    let body = one_constraint(9, 1);
    let bytes = artifact_with(9, 4, 4, 1, &body);
    match load_constraint_system(&bytes) {
        Err(e) => assert_eq!(e, PipelineError::InvalidConstraintArtifact),
        Ok(_) => panic!("expected an invalid artifact"),
    }
}

#[test]
fn non_canonical_coefficient_is_invalid() {
    let body = one_constraint(8, 1);
    let bytes = artifact_with(9, 4, 4, 1, &{
        let mut b = body.clone();
        // blow the first coefficient past the modulus
        for k in 0..32 {
            b[8 + k] = 0xff;
        }
        b
    });
    match load_constraint_system(&bytes) {
        Err(e) => assert_eq!(e, PipelineError::InvalidConstraintArtifact),
        Ok(_) => panic!("expected an invalid artifact"),
    }
}

#[test]
fn missing_map_section_is_invalid() {
    let mut out = Vec::new();
    out.extend_from_slice(b"r1cs");
    push_u32(&mut out, 1);
    push_u32(&mut out, 2); // header and constraints only
    push_u32(&mut out, 1);
    push_u64(&mut out, 64);
    push_u32(&mut out, 32);
    out.extend_from_slice(&[0u8; 32]);
    push_u32(&mut out, 9);
    push_u32(&mut out, 4);
    push_u32(&mut out, 4);
    push_u32(&mut out, 0);
    push_u64(&mut out, 9);
    push_u32(&mut out, 0);
    push_u32(&mut out, 2);
    push_u64(&mut out, 0);
    match load_constraint_system(&out) {
        Err(e) => assert_eq!(e, PipelineError::InvalidConstraintArtifact),
        Ok(_) => panic!("expected an invalid artifact"),
    }
}
