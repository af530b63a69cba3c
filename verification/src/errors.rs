//! The error taxonomy of the proving pipeline.
//!
//! Every stage surfaces its failure to the top-level driver; nothing is
//! retried. Errors fall in two groups: the inputs were invalid before any
//! proving began, or a cryptographic stage failed.

use vstd::prelude::*;

verus! {

/// Errors surfaced by the proving pipeline, in the order the stages run.
#[derive(Clone, Copy, PartialEq, Eq, Structural, Debug)]
pub enum PipelineError {
    /// The solution record could not be parsed at all.
    MalformedInput,
    /// The grid's shape disagrees with the declared height and width.
    DimensionMismatch,
    /// The solution holds fewer than two cells.
    PathTooShort,
    /// A step delta does not fit the signed range used for moves.
    ArithmeticOverflow,
    /// The constraint-system artifact could not be used.
    InvalidConstraintArtifact,
    /// Witness generation failed at the given step.
    StepWitnessFailure(usize),
    /// Folding failed at the given step.
    FoldingFailure(usize),
    /// The compressing prover failed.
    ProvingFailure,
    /// The final proof did not verify.
    VerificationFailure,
    /// A serialized proof could not be read back.
    CorruptProof,
}

/// The errors that mean the inputs were rejected before any proving began.
pub open spec fn spec_is_input_error(e: PipelineError) -> bool {
    match e {
        PipelineError::MalformedInput => true,
        PipelineError::DimensionMismatch => true,
        PipelineError::PathTooShort => true,
        PipelineError::ArithmeticOverflow => true,
        PipelineError::InvalidConstraintArtifact => true,
        PipelineError::StepWitnessFailure(_) => false,
        PipelineError::FoldingFailure(_) => false,
        PipelineError::ProvingFailure => false,
        PipelineError::VerificationFailure => false,
        PipelineError::CorruptProof => false,
    }
}

impl PipelineError {
    /// Distinguishes "inputs invalid" from "cryptographic failure", as the
    /// driver's user-visible output must.
    pub fn is_input_error(&self) -> (r: bool)
        ensures
            r == spec_is_input_error(*self),
    {
        match self {
            PipelineError::MalformedInput => true,
            PipelineError::DimensionMismatch => true,
            PipelineError::PathTooShort => true,
            PipelineError::ArithmeticOverflow => true,
            PipelineError::InvalidConstraintArtifact => true,
            _ => false,
        }
    }
}

} // verus!
