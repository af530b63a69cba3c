//! A recursive proof orchestrator for maze traversal.
//!
//! The library turns a solved maze — a grid of traversal costs and a path
//! through it — into a schedule of per-step witness assignments, folds the
//! steps with an incrementally-verifiable-computation scheme, compresses
//! the folded instance into one succinct proof, and persists that proof in
//! a stable textual envelope. The maze search itself, the step circuit,
//! and the underlying cryptography are external collaborators.

pub mod artifact;
pub mod codec;
pub mod errors;
pub mod prover;
pub mod schedule;
pub mod solution;
pub mod witness;

pub use codec::{deserialize_proof, serialize_proof, ProofRecord};
pub use errors::PipelineError;
pub use schedule::{schedule, PublicState, Schedule, WitnessBundle, DOMAIN_TAG};
pub use solution::SolvedMaze;
