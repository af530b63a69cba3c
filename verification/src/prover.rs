//! The proving pipeline around the external folding scheme.
//!
//! The cryptography lives in outside libraries: a folding scheme over a
//! cycle of two curves, and a polynomial-commitment SNARK that compresses
//! the folded instance. This module wraps those calls behind trusted
//! items whose values stay opaque, and verifies the orchestration around
//! them: the step-by-step folding loop with its per-step failure
//! reporting, the pre-validation that keeps malformed artifacts and
//! witness files away from the loaders, the mapping of stage failures to
//! the pipeline's error taxonomy, and the rendering of the final proof
//! as a record. Running the external witness program is the caller's
//! part: the folding session hands out each step's public state and
//! witness bundle as plain values and takes the produced witness file
//! back as bytes.

use vstd::prelude::*;

use nova_scotia::circom::circuit::R1CS;
use nova_scotia::circom::file::R1CSFile;
use nova_scotia::{create_public_params, C1, C2, S};
use nova_snark::{CompressedSNARK, ProverKey, PublicParams, RecursiveSNARK, VerifierKey};
use pasta_curves::{pallas, vesta};

use crate::artifact::{artifact_container_wf, container_wf};
use crate::codec::ProofRecord;
use crate::errors::PipelineError;
use crate::schedule::{
    deltas_fit, is_schedule_of, schedule, spec_z0, PublicState, Schedule, WitnessBundle,
    DOMAIN_TAG,
};
use crate::solution::SolvedMaze;
use crate::witness::{witness_well_formed, wtns_wf};

verus! {

/// Whether the external reader parses these bytes as a constraint-system
/// artifact. The outcome depends on the bytes alone.
pub uninterp spec fn artifact_parse_ok(bytes: Seq<u8>) -> bool;

/// The artifact's declared counts of public inputs, public outputs and
/// wires, as its parsed header carries them.
pub uninterp spec fn artifact_counts_of(bytes: Seq<u8>) -> (u32, u32, u32);

/// The per-step constraint counts of the primary and secondary circuits
/// of the parameters derived from this artifact.
pub uninterp spec fn step_counts_of(bytes: Seq<u8>) -> (usize, usize);

/// Whether the step-folding call accepts one more step, on the
/// accumulator built from these artifact bytes, this witness history and
/// this initial state, fed this witness file. The folding layer draws no
/// randomness, so the outcome is a function of these alone.
pub uninterp spec fn fold_accepts(
    src: Seq<u8>,
    hist: Seq<Seq<u8>>,
    wtns: Seq<u8>,
    z0: (u64, u64, u64, u64),
) -> bool;

/// The folding verifier's outcome on the accumulator built from these
/// artifact bytes, witness history and initial state, checked against
/// this step count and this claimed initial state.
pub uninterp spec fn fold_verify_ok(
    src: Seq<u8>,
    hist: Seq<Seq<u8>>,
    z0_built: (u64, u64, u64, u64),
    steps: int,
    z0_claim: (u64, u64, u64, u64),
) -> bool;

/// Whether compressor key derivation succeeds on the parameters derived
/// from these artifact bytes.
pub uninterp spec fn compressor_setup_ok(src: Seq<u8>) -> bool;

/// Whether the compressing prover succeeds on the accumulator with this
/// identity.
pub uninterp spec fn compress_accepts(
    src: Seq<u8>,
    hist: Seq<Seq<u8>>,
    z0_built: (u64, u64, u64, u64),
) -> bool;

/// The compressed verifier's outcome on the proof with this identity,
/// checked against this step count and this claimed initial state.
pub uninterp spec fn compressed_verify_ok(
    src: Seq<u8>,
    hist: Seq<Seq<u8>>,
    z0_built: (u64, u64, u64, u64),
    steps: int,
    z0_claim: (u64, u64, u64, u64),
) -> bool;

/// Whether the proof with this identity renders to a record.
pub uninterp spec fn render_ok(
    src: Seq<u8>,
    hist: Seq<Seq<u8>>,
    z0_built: (u64, u64, u64, u64),
) -> bool;

/// The step circuit's designated public outputs for this witness file,
/// rendered as decimal numerals: a function of the artifact bytes and
/// the witness file alone.
pub uninterp spec fn step_outputs_of(src: Seq<u8>, wtns: Seq<u8>) -> Seq<Seq<char>>;

/// A public state as the plain quadruple the names above take.
pub open spec fn z0_key(z: PublicState) -> (u64, u64, u64, u64) {
    (z.tag, z.row, z.col, z.cost)
}

/// A nonempty string of decimal digits with no leading zero: the
/// canonical decimal numeral of a non-negative integer.
pub open spec fn is_decimal(s: Seq<char>) -> bool {
    &&& s.len() > 0
    &&& forall|i: int| 0 <= i < s.len() ==> '0' <= #[trigger] s[i] <= '9'
    &&& (s.len() > 1 ==> s[0] != '0')
}

/// The decimal digit of a value below ten.
pub open spec fn dec_digit(d: int) -> char {
    ((48 + d) as u8) as char
}

/// The canonical decimal rendering of a natural number.
pub open spec fn dec_of(n: nat) -> Seq<char>
    decreases n,
{
    if n < 10 {
        seq![dec_digit(n as int)]
    } else {
        dec_of(n / 10) + seq![dec_digit((n % 10) as int)]
    }
}

#[verifier::external_body]
struct ArtifactRaw {
    inner: R1CSFile<pallas::Scalar>,
}

/// A parsed constraint-system artifact, carrying the bytes it came from
/// as its mathematical identity. Built only by `load_constraint_system`,
/// which pairs the parsed value with exactly the bytes it parsed.
struct ParsedArtifact {
    raw: ArtifactRaw,
    src: Ghost<Seq<u8>>,
}

#[verifier::external_body]
pub struct SystemRaw {
    inner: R1CS<pallas::Scalar>,
}

/// The rank-1 constraint system of the step circuit, as the folding
/// layer consumes it, together with the variable counts that the
/// orchestration checks and the source bytes as its identity.
pub struct ConstraintSystem {
    /// The assembled system, opaque to verification.
    pub raw: SystemRaw,
    /// One constant wire plus the declared public inputs and outputs.
    pub num_inputs: usize,
    /// The declared wire count.
    pub num_variables: usize,
    /// The artifact bytes this system was assembled from.
    pub src: Ghost<Seq<u8>>,
}

impl ConstraintSystem {
    /// The shape every loaded system has: the fixed public-state arity
    /// of four (a tag, a row, a column and a cost, each appearing as an
    /// input and as an output, plus the constant wire), enough wires to
    /// carry the inputs, and a wire count small enough for the external
    /// loaders' own arithmetic.
    pub open spec fn wf(self) -> bool {
        &&& self.num_inputs == 9
        &&& self.num_inputs <= self.num_variables
        &&& self.num_variables < 0x4000000
    }
}

#[verifier::external_body]
pub struct ParamsRaw {
    inner: PublicParams<pallas::Point, vesta::Point, C1<pallas::Point>, C2<vesta::Point>>,
}

/// The public parameters of the folding scheme, derived once from the
/// constraint system and shared by both provers.
pub struct FoldingParams {
    /// The derived parameters, opaque to verification.
    pub raw: ParamsRaw,
    /// The artifact bytes the parameters derive from.
    pub src: Ghost<Seq<u8>>,
}

#[verifier::external_body]
struct WitnessRaw {
    inner: Vec<pallas::Scalar>,
}

/// One step's full variable assignment, as the external witness program
/// produced it, carrying the file bytes it was parsed from.
struct StepWitness {
    raw: WitnessRaw,
    /// Number of variables in the assignment.
    len: usize,
    /// The witness file's bytes.
    src: Ghost<Seq<u8>>,
}

#[verifier::external_body]
pub struct FoldedRaw {
    inner: RecursiveSNARK<pallas::Point, vesta::Point, C1<pallas::Point>, C2<vesta::Point>>,
}

/// The accumulated folded instance with its mathematical identity: the
/// artifact bytes it was built over, the witness files folded so far in
/// order, the initial state it was opened with, and the folding layer's
/// own step counter. Built and advanced only by the folding session,
/// which keeps the identity equal to what was really fed.
pub struct FoldedInstance {
    /// The accumulated instance, opaque to verification.
    pub raw: FoldedRaw,
    /// The artifact bytes.
    pub src: Ghost<Seq<u8>>,
    /// The witness files folded, in step order.
    pub hist: Ghost<Seq<Seq<u8>>>,
    /// The initial public state.
    pub z0: Ghost<(u64, u64, u64, u64)>,
    /// The folding layer's internal step counter.
    pub folds: Ghost<int>,
}

#[verifier::external_body]
pub struct KeysRaw {
    pk: ProverKey<
        pallas::Point,
        vesta::Point,
        C1<pallas::Point>,
        C2<vesta::Point>,
        S<pallas::Point>,
        S<vesta::Point>,
    >,
    vk: VerifierKey<
        pallas::Point,
        vesta::Point,
        C1<pallas::Point>,
        C2<vesta::Point>,
        S<pallas::Point>,
        S<vesta::Point>,
    >,
}

/// Prover and verifier key material of the compressing SNARK, tied to
/// the artifact bytes its parameters derive from.
pub struct CompressorKeys {
    /// The key pair, opaque to verification.
    pub raw: KeysRaw,
    /// The artifact bytes.
    pub src: Ghost<Seq<u8>>,
}

#[verifier::external_body]
pub struct ProofRaw {
    inner: CompressedSNARK<
        pallas::Point,
        vesta::Point,
        C1<pallas::Point>,
        C2<vesta::Point>,
        S<pallas::Point>,
        S<vesta::Point>,
    >,
}

/// The final succinct proof, carrying the identity of the folded
/// instance it compresses.
pub struct CompressedProof {
    /// The proof, opaque to verification.
    pub raw: ProofRaw,
    /// The artifact bytes.
    pub src: Ghost<Seq<u8>>,
    /// The witness files the folded instance accumulated.
    pub hist: Ghost<Seq<Seq<u8>>>,
    /// The initial public state of the run.
    pub z0: Ghost<(u64, u64, u64, u64)>,
}

/// The final public states that verification returns, one vector of
/// field elements per curve in the cycle. The fields are visible to
/// callers outside the library, for reporting.
#[verifier::external_body]
pub struct FinalStates {
    /// Final public state of the primary circuit.
    pub zn_primary: Vec<pallas::Scalar>,
    /// Final public state of the secondary circuit.
    pub zn_secondary: Vec<vesta::Scalar>,
}

/// Relies on `nova_scotia::circom::file::from_reader`: parses a binary
/// rank-1 constraint-system artifact from bytes, succeeding exactly when
/// the reader accepts them. The container check is demanded first: it
/// covers everything the reader takes for granted (the three sections
/// present and in bounds, the fixed field width, a positive bounded
/// wire count, canonical coefficients), so within it the reader returns
/// rather than faults.
#[verifier::external_body]
fn parse_artifact(bytes: &Vec<u8>) -> (r: Result<ArtifactRaw, ()>)
    requires
        container_wf(bytes@),
    ensures
        r is Ok <==> artifact_parse_ok(bytes@),
{
    let cur = std::io::Cursor::new(bytes.as_slice());
    match nova_scotia::circom::file::from_reader::<_, pallas::Point, vesta::Point>(cur) {
        Ok(f) => Ok(ArtifactRaw { inner: f }),
        Err(_) => Err(()),
    }
}

/// Relies on the public header fields of
/// `nova_scotia::circom::file::R1CSFile`: hands out the declared counts
/// of public inputs, public outputs, and wires.
#[verifier::external_body]
fn artifact_counts(a: &ParsedArtifact) -> (r: (u32, u32, u32))
    ensures
        r == artifact_counts_of(a.src@),
{
    (a.raw.inner.header.n_pub_in, a.raw.inner.header.n_pub_out, a.raw.inner.header.n_wires)
}

/// Relies on `nova_scotia::circom::circuit::R1CS`: assembles the
/// constraint system from the parsed artifact's constraints and the
/// variable counts the caller computed from the same header.
#[verifier::external_body]
fn assemble_system(
    a: ParsedArtifact,
    num_inputs: usize,
    num_aux: usize,
    num_variables: usize,
) -> (r: SystemRaw) {
    SystemRaw {
        inner: R1CS { num_inputs, num_aux, num_variables, constraints: a.raw.inner.constraints },
    }
}

/// Relies on `nova_scotia::create_public_params`: derives the folding
/// scheme's public parameters from the step circuit's constraint system,
/// with the trivial circuit closing the curve cycle.
#[verifier::external_body]
fn create_params(cs: &ConstraintSystem) -> (r: ParamsRaw) {
    ParamsRaw {
        inner: create_public_params::<pallas::Point, vesta::Point>(cs.raw.inner.clone()),
    }
}

/// Relies on `nova_snark::PublicParams::num_constraints`: the constraint
/// counts of the primary and secondary step circuits, fixed by the
/// artifact the parameters derive from.
#[verifier::external_body]
fn params_counts(pp: &FoldingParams) -> (r: (usize, usize))
    ensures
        r == step_counts_of(pp.src@),
{
    pp.raw.inner.num_constraints()
}

/// Relies on `nova_scotia::circom::reader::load_witness_from_array`: a
/// witness file whose layout and field encodings the byte-level check
/// accepted loads without fault into one field element per declared
/// variable. The length bound keeps the loader's own 32-bit size
/// arithmetic in range.
#[verifier::external_body]
fn parse_witness(bytes: &Vec<u8>, expected: usize) -> (w: WitnessRaw)
    requires
        wtns_wf(bytes@, expected as int),
        expected < 0x4000000,
{
    let fields = nova_scotia::circom::reader::load_witness_from_array::<pallas::Scalar>(
        bytes.clone(),
    ).unwrap();
    WitnessRaw { inner: fields }
}

/// Relies on `nova_snark::RecursiveSNARK::new`: folds the base step of
/// the recursion from the first step's witness, leaving the layer's
/// internal step counter at zero. The initial primary state is embedded
/// with `From<u64>`; the secondary state is the fixed single zero. The
/// parameters must derive from the same artifact as the system, or the
/// instance extraction inside faults on a shape mismatch; satisfaction
/// of the step circuit is not checked here and surfaces at verification.
#[verifier::external_body]
fn fold_start(
    cs: &ConstraintSystem,
    pp: &FoldingParams,
    w: &StepWitness,
    z0: &PublicState,
) -> (r: FoldedRaw)
    requires
        w.len == cs.num_variables,
        cs.wf(),
        pp.src@ == cs.src@,
{
    let circuit = C1::<pallas::Point> {
        r1cs: cs.raw.inner.clone(),
        witness: Some(w.raw.inner.clone()),
    };
    let secondary = C2::<vesta::Point>::default();
    let z0_primary: Vec<pallas::Scalar> =
        [z0.tag, z0.row, z0.col, z0.cost].iter().map(|v| pallas::Scalar::from(*v)).collect();
    let z0_secondary: Vec<vesta::Scalar> = vec![vesta::Scalar::from(0u64)];
    FoldedRaw {
        inner: RecursiveSNARK::new(&pp.raw.inner, &circuit, &secondary, z0_primary, z0_secondary),
    }
}

/// Relies on `nova_snark::RecursiveSNARK::prove_step`: with the layer's
/// counter at zero this call is its documented no-op — it discards the
/// circuit, bumps the counter to one (the base fold already happened in
/// the constructor) and succeeds; with the counter past zero it folds
/// one more step, deterministically of the accumulator's identity and
/// this witness file, returning the layer's error on failure. The
/// parameters must derive from the same artifact as the system and the
/// accumulator, or the folding inside faults on a shape mismatch.
#[verifier::external_body]
fn fold_step(
    folded: FoldedInstance,
    cs: &ConstraintSystem,
    pp: &FoldingParams,
    w: &StepWitness,
    z0: &PublicState,
) -> (r: Result<FoldedRaw, ()>)
    requires
        w.len == cs.num_variables,
        cs.wf(),
        pp.src@ == cs.src@,
        folded.src@ == cs.src@,
        folded.z0@ == z0_key(*z0),
    ensures
        folded.folds@ == 0 ==> r is Ok,
        folded.folds@ >= 1 ==> (r is Ok <==> fold_accepts(
            cs.src@,
            folded.hist@,
            w.src@,
            folded.z0@,
        )),
{
    let circuit = C1::<pallas::Point> {
        r1cs: cs.raw.inner.clone(),
        witness: Some(w.raw.inner.clone()),
    };
    let secondary = C2::<vesta::Point>::default();
    let z0_primary: Vec<pallas::Scalar> =
        [z0.tag, z0.row, z0.col, z0.cost].iter().map(|v| pallas::Scalar::from(*v)).collect();
    let z0_secondary: Vec<vesta::Scalar> = vec![vesta::Scalar::from(0u64)];
    let mut inner = folded.raw.inner;
    match inner.prove_step(&pp.raw.inner, &circuit, &secondary, z0_primary, z0_secondary) {
        Ok(()) => Ok(FoldedRaw { inner }),
        Err(_) => Err(()),
    }
}

/// Relies on `CircomCircuit::get_public_outputs`, the hexadecimal
/// rendering of a field element, and `num_bigint`'s radix conversion:
/// the four public outputs of this step's assignment, as decimal
/// strings, ready to stand as the next step's public input.
#[verifier::external_body]
fn step_outputs_decimal(cs: &ConstraintSystem, w: &StepWitness) -> (r: Vec<String>)
    requires
        cs.wf(),
        w.len >= cs.num_inputs,
    ensures
        r@.len() == 4,
        forall|i: int| 0 <= i < r@.len() ==> is_decimal((#[trigger] r@[i])@),
        r@.map_values(|x: String| x@) == step_outputs_of(cs.src@, w.src@),
{
    let circuit = C1::<pallas::Point> {
        r1cs: cs.raw.inner.clone(),
        witness: Some(w.raw.inner.clone()),
    };
    circuit.get_public_outputs().iter().map(|x| {
        let hex = format!("{:?}", x);
        let stripped = hex.strip_prefix("0x").unwrap();
        num_bigint::BigInt::parse_bytes(stripped.as_bytes(), 16).unwrap().to_str_radix(10)
    }).collect()
}

/// Relies on `u64`'s decimal formatting: canonical digits, no sign, no
/// leading zeros.
#[verifier::external_body]
fn u64_to_decimal(n: u64) -> (r: String)
    ensures
        r@ == dec_of(n as nat),
{
    format!("{}", n)
}

/// Relies on `nova_snark::RecursiveSNARK::verify`: checks the folded
/// instance against the step count and both initial public states, and
/// returns the final public states on success. The verifier demands its
/// internal counter equal the claimed step count, then checks the
/// transcript — both deterministic of the accumulator's identity and
/// the claims. Every system this library loads has public arity four,
/// so the transcript's absorb count is fixed and mismatches come back
/// as its error.
#[verifier::external_body]
fn fold_check(
    pp: &FoldingParams,
    folded: &FoldedInstance,
    num_steps: usize,
    z0: &PublicState,
) -> (r: Result<FinalStates, ()>)
    ensures
        r is Ok ==> (pp.src@ == folded.src@ ==> folded.folds@ == num_steps as int
            && fold_verify_ok(
            folded.src@,
            folded.hist@,
            folded.z0@,
            num_steps as int,
            z0_key(*z0),
        )),
        r is Err ==> (pp.src@ == folded.src@ ==> !(folded.folds@ == num_steps as int
            && fold_verify_ok(
            folded.src@,
            folded.hist@,
            folded.z0@,
            num_steps as int,
            z0_key(*z0),
        ))),
{
    let z0_primary: Vec<pallas::Scalar> =
        [z0.tag, z0.row, z0.col, z0.cost].iter().map(|v| pallas::Scalar::from(*v)).collect();
    let z0_secondary: Vec<vesta::Scalar> = vec![vesta::Scalar::from(0u64)];
    match folded.raw.inner.verify(&pp.raw.inner, num_steps, &z0_primary, &z0_secondary) {
        Ok((zp, zs)) => Ok(FinalStates { zn_primary: zp, zn_secondary: zs }),
        Err(_) => Err(()),
    }
}

/// Relies on `nova_snark::CompressedSNARK::setup`: derives the prover
/// and verifier keys of the compressing SNARK from the public
/// parameters.
#[verifier::external_body]
fn compressor_keys(pp: &FoldingParams) -> (r: Result<KeysRaw, ()>)
    ensures
        r is Ok <==> compressor_setup_ok(pp.src@),
{
    match CompressedSNARK::<_, _, _, _, S<pallas::Point>, S<vesta::Point>>::setup(&pp.raw.inner) {
        Ok((pk, vk)) => Ok(KeysRaw { pk, vk }),
        Err(_) => Err(()),
    }
}

/// Relies on `nova_snark::CompressedSNARK::prove`: compresses the folded
/// instance into one succinct proof.
#[verifier::external_body]
fn compress_run(
    pp: &FoldingParams,
    keys: &CompressorKeys,
    folded: &FoldedInstance,
) -> (r: Result<ProofRaw, ()>)
    requires
        keys.src@ == pp.src@,
        folded.src@ == pp.src@,
    ensures
        r is Ok <==> compress_accepts(pp.src@, folded.hist@, folded.z0@),
{
    match CompressedSNARK::prove(&pp.raw.inner, &keys.raw.pk, &folded.raw.inner) {
        Ok(p) => Ok(ProofRaw { inner: p }),
        Err(_) => Err(()),
    }
}

/// Relies on `nova_snark::CompressedSNARK::verify`: checks the succinct
/// proof against the step count and both initial public states, and
/// returns the final public states. As with the folded verifier, the
/// fixed arity of four keeps the transcript's absorb count consistent.
#[verifier::external_body]
fn compress_check(
    keys: &CompressorKeys,
    proof: &CompressedProof,
    num_steps: usize,
    z0: &PublicState,
) -> (r: Result<FinalStates, ()>)
    ensures
        r is Ok ==> (keys.src@ == proof.src@ ==> compressed_verify_ok(
            proof.src@,
            proof.hist@,
            proof.z0@,
            num_steps as int,
            z0_key(*z0),
        )),
        r is Err ==> (keys.src@ == proof.src@ ==> !compressed_verify_ok(
            proof.src@,
            proof.hist@,
            proof.z0@,
            num_steps as int,
            z0_key(*z0),
        )),
{
    let z0_primary: Vec<pallas::Scalar> =
        [z0.tag, z0.row, z0.col, z0.cost].iter().map(|v| pallas::Scalar::from(*v)).collect();
    let z0_secondary: Vec<vesta::Scalar> = vec![vesta::Scalar::from(0u64)];
    match proof.raw.inner.verify(&keys.raw.vk, num_steps, z0_primary, z0_secondary) {
        Ok((zp, zs)) => Ok(FinalStates { zn_primary: zp, zn_secondary: zs }),
        Err(_) => Err(()),
    }
}

/// Relies on `serde_json::to_value` and the textual rendering of
/// `serde_json::Value`: writes the six opaque components of the proof.
/// The folding artifacts are the accumulated primary instance and the
/// secondary folding proof; the two witness-SNARK artifacts and the two
/// final public states carry their own names in the proof's encoding.
#[verifier::external_body]
fn render_record(proof: &CompressedProof) -> (r: Result<ProofRecord, ()>)
    ensures
        r is Ok <==> render_ok(proof.src@, proof.hist@, proof.z0@),
{
    let v = match serde_json::to_value(&proof.raw.inner) {
        Ok(v) => v,
        Err(_) => return Err(()),
    };
    Ok(ProofRecord {
        nifs_primary: v["r_U_primary"].to_string().into_bytes(),
        f_w_snark_primary: v["r_W_snark_primary"].to_string().into_bytes(),
        nifs_secondary: v["nifs_secondary"].to_string().into_bytes(),
        f_w_snark_secondary: v["f_W_snark_secondary"].to_string().into_bytes(),
        zn_primary: v["zn_primary"].to_string().into_bytes(),
        zn_secondary: v["zn_secondary"].to_string().into_bytes(),
    })
}

/// The counts a loaded artifact must declare: the fixed public-state
/// arity of four on each side of the constant wire, enough wires to
/// carry the inputs, and a wire count within the external loaders'
/// arithmetic range.
pub open spec fn counts_feasible(c: (u32, u32, u32)) -> bool {
    &&& 1 + c.0 + c.1 == 9
    &&& c.2 >= 9
    &&& c.2 < 0x4000000
}

/// Checks a constraint-system artifact before anything cryptographic
/// touches it — the container's shape, coefficients and wire indices
/// byte by byte, then the parsed header's counts: the fixed public
/// arity of four and a feasible wire count. Every failure is the
/// artifact's fault.
pub fn load_constraint_system(bytes: &Vec<u8>) -> (r: Result<ConstraintSystem, PipelineError>)
    ensures
        r is Ok <==> container_wf(bytes@) && artifact_parse_ok(bytes@) && counts_feasible(
            artifact_counts_of(bytes@),
        ),
        r matches Err(e) ==> e == PipelineError::InvalidConstraintArtifact,
        r matches Ok(cs) ==> cs.wf() && cs.src@ == bytes@ && cs.num_variables
            == artifact_counts_of(bytes@).2 as int,
{
    if !artifact_container_wf(bytes) {
        return Err(PipelineError::InvalidConstraintArtifact);
    }
    let raw = match parse_artifact(bytes) {
        Ok(raw) => raw,
        Err(_) => {
            return Err(PipelineError::InvalidConstraintArtifact);
        },
    };
    let a = ParsedArtifact { raw, src: Ghost(bytes@) };
    let (n_pub_in, n_pub_out, n_wires) = artifact_counts(&a);
    let arity_sum: u64 = 1u64 + n_pub_in as u64 + n_pub_out as u64;
    if arity_sum != 9 {
        return Err(PipelineError::InvalidConstraintArtifact);
    }
    if n_wires < 9 || n_wires >= 0x4000000 {
        return Err(PipelineError::InvalidConstraintArtifact);
    }
    let num_inputs: usize = 9;
    let num_variables: usize = n_wires as usize;
    let num_aux: usize = num_variables - num_inputs;
    let ghost src = bytes@;
    let raw = assemble_system(a, num_inputs, num_aux, num_variables);
    Ok(ConstraintSystem { raw, num_inputs, num_variables, src: Ghost(src) })
}

/// The public parameters together with the two inspectable constraint
/// counts that parameter generation reports.
pub struct ParamSetup {
    /// The derived public parameters.
    pub params: FoldingParams,
    /// Constraints per step of the primary circuit.
    pub constraints_primary: usize,
    /// Constraints per step of the secondary circuit.
    pub constraints_secondary: usize,
}

/// Derives the folding scheme's public parameters from the constraint
/// system, once per run, and reports the constraint counts of both step
/// circuits — both determined by the artifact the system came from.
pub fn setup_params(cs: &ConstraintSystem) -> (r: ParamSetup)
    ensures
        r.params.src@ == cs.src@,
        r.constraints_primary == step_counts_of(cs.src@).0,
        r.constraints_secondary == step_counts_of(cs.src@).1,
{
    let params = FoldingParams { raw: create_params(cs), src: Ghost(cs.src@) };
    let (constraints_primary, constraints_secondary) = params_counts(&params);
    ParamSetup { params, constraints_primary, constraints_secondary }
}

/// A folding run in progress. The session owns the schedule and walks
/// it step by step: it hands out the public state and witness bundle of
/// the step it awaits, takes the witness file the external program
/// produced, folds it, and advances. A failure names the step it
/// happened at, and the run is over — the caller must not feed further
/// steps. The fields are read-only to callers.
pub struct FoldingSession {
    /// The schedule being folded.
    pub sched: Schedule,
    /// The index of the step whose witness is awaited.
    pub step: usize,
    /// The public input of the awaited step, as decimal strings.
    pub state: Vec<String>,
    /// The accumulated instance, present once the first step folded.
    pub folded: Option<FoldedInstance>,
}

impl FoldingSession {
    /// A session in working order: a non-empty schedule, the cursor
    /// within it, a four-slot public state, and an accumulated instance
    /// from the moment the first step folded.
    pub open spec fn wf(self) -> bool {
        &&& self.sched.steps@.len() >= 1
        &&& self.step <= self.sched.steps@.len()
        &&& self.state@.len() == 4
        &&& (self.step > 0 ==> self.folded is Some)
    }

    /// Every step has folded.
    pub open spec fn done(self) -> bool {
        self.step == self.sched.steps@.len()
    }

    /// The index of the step whose witness is awaited.
    pub fn current_step(&self) -> (r: usize)
        ensures
            r == self.step,
    {
        self.step
    }

    /// Whether every step has folded.
    pub fn is_done(&self) -> (r: bool)
        ensures
            r == self.done(),
    {
        self.step == self.sched.steps.len()
    }

    /// The awaited step's public input, as decimal strings.
    pub fn current_state(&self) -> (r: &Vec<String>)
        ensures
            r@ == self.state@,
    {
        &self.state
    }

    /// The awaited step's witness bundle.
    pub fn current_bundle(&self) -> (r: &WitnessBundle)
        requires
            self.step < self.sched.steps@.len(),
        ensures
            *r == self.sched.steps@[self.step as int],
    {
        &self.sched.steps[self.step]
    }

    /// The initial public state of the run.
    pub fn initial_state(&self) -> (r: PublicState)
        ensures
            r == self.sched.z0_primary,
    {
        self.sched.z0_primary
    }

    /// The number of steps the run proves.
    pub fn step_count(&self) -> (r: usize)
        ensures
            r == self.sched.steps@.len(),
    {
        self.sched.steps.len()
    }

    /// Folds the awaited step from the witness file the external
    /// program produced. A witness file that is not well formed for
    /// this system is a witness failure at exactly this step; a folding
    /// error is a folding failure at exactly this step. On success the
    /// cursor advances, the public state becomes the step's outputs,
    /// and the accumulated instance's identity grows by exactly this
    /// witness file, with the folding layer's counter kept equal to the
    /// number of steps folded (the layer counts its base fold only at
    /// the first step call, which this method makes with the same
    /// witness). After a failure the session is spent. The same system
    /// and matching parameters must be handed to every call.
    pub fn advance(
        &mut self,
        cs: &ConstraintSystem,
        pp: &FoldingParams,
        witness_bytes: &Vec<u8>,
    ) -> (r: Result<(), PipelineError>)
        requires
            old(self).wf(),
            !old(self).done(),
            cs.wf(),
            pp.src@ == cs.src@,
            old(self).folded matches Some(f) ==> {
                &&& f.src@ == cs.src@
                &&& f.folds@ == old(self).step as int
                &&& f.hist@.len() == old(self).step as int
                &&& f.z0@ == z0_key(old(self).sched.z0_primary)
            },
        ensures
            final(self).sched == old(self).sched,
            r is Ok ==> final(self).wf() && final(self).step == old(self).step + 1,
            r is Ok ==> final(self).state@.map_values(|x: String| x@) == step_outputs_of(
                cs.src@,
                witness_bytes@,
            ),
            r is Ok ==> (final(self).folded matches Some(f) && {
                &&& f.src@ == cs.src@
                &&& f.folds@ == final(self).step as int
                &&& f.z0@ == z0_key(final(self).sched.z0_primary)
                &&& f.hist@ == (if old(self).step == 0 {
                    Seq::<Seq<u8>>::empty()
                } else {
                    old(self).folded.unwrap().hist@
                }) + seq![witness_bytes@]
            }),
            r matches Err(e) ==> final(self).step == old(self).step && (e
                == PipelineError::StepWitnessFailure(old(self).step) || e
                == PipelineError::FoldingFailure(old(self).step)),
            !wtns_wf(witness_bytes@, cs.num_variables as int) ==> r == Err::<(), PipelineError>(
                PipelineError::StepWitnessFailure(old(self).step),
            ),
            wtns_wf(witness_bytes@, cs.num_variables as int) && old(self).step == 0 ==> r is Ok,
            wtns_wf(witness_bytes@, cs.num_variables as int) && old(self).step >= 1 ==> (r is Ok
                <==> fold_accepts(
                cs.src@,
                old(self).folded.unwrap().hist@,
                witness_bytes@,
                z0_key(old(self).sched.z0_primary),
            )),
    {
        let i = self.step;
        let n: usize = self.sched.steps.len();
        assert(i < n);
        if !witness_well_formed(witness_bytes, cs.num_variables) {
            return Err(PipelineError::StepWitnessFailure(i));
        }
        let wraw = parse_witness(witness_bytes, cs.num_variables);
        let ghost wsrc = witness_bytes@;
        let w = StepWitness { raw: wraw, len: cs.num_variables, src: Ghost(wsrc) };
        let z0 = self.sched.z0_primary;
        let ghost sysb = cs.src@;
        let ghost z0g = z0_key(z0);
        if i == 0 {
            let raw0 = fold_start(cs, pp, &w, &z0);
            let ghost h0: Seq<Seq<u8>> = seq![witness_bytes@];
            let ghost zero: int = 0;
            let base = FoldedInstance {
                raw: raw0,
                src: Ghost(sysb),
                hist: Ghost(h0),
                z0: Ghost(z0g),
                folds: Ghost(zero),
            };
            // The layer's first step call is its counter bump for the
            // base fold; it takes the same witness and always succeeds.
            match fold_step(base, cs, pp, &w, &z0) {
                Ok(raw1) => {
                    let ghost one: int = 1;
                    self.folded = Some(
                        FoldedInstance {
                            raw: raw1,
                            src: Ghost(sysb),
                            hist: Ghost(h0),
                            z0: Ghost(z0g),
                            folds: Ghost(one),
                        },
                    );
                },
                Err(_) => {
                    assert(false);
                    return Err(PipelineError::FoldingFailure(i));
                },
            }
        } else {
            let mut cur: Option<FoldedInstance> = None;
            std::mem::swap(&mut cur, &mut self.folded);
            match cur {
                Some(f) => {
                    let ghost grown = f.hist@ + seq![witness_bytes@];
                    match fold_step(f, cs, pp, &w, &z0) {
                        Ok(nraw) => {
                            let ghost fcount: int = i as int + 1;
                            self.folded = Some(
                                FoldedInstance {
                                    raw: nraw,
                                    src: Ghost(sysb),
                                    hist: Ghost(grown),
                                    z0: Ghost(z0g),
                                    folds: Ghost(fcount),
                                },
                            );
                        },
                        Err(_) => {
                            return Err(PipelineError::FoldingFailure(i));
                        },
                    }
                },
                None => {
                    assert(false);
                    return Err(PipelineError::FoldingFailure(i));
                },
            }
        }
        self.state = step_outputs_decimal(cs, &w);
        self.step = i + 1;
        Ok(())
    }

    /// Hands over the accumulated instance, and only once every step
    /// has folded: an unfinished session is a folding failure at the
    /// step it stopped at.
    pub fn finish(self) -> (r: Result<FoldedInstance, PipelineError>)
        ensures
            self.wf() && self.done() ==> r is Ok,
            r matches Ok(f) ==> self.done() && self.folded == Some(f),
            r matches Err(e) ==> e == PipelineError::FoldingFailure(self.step),
    {
        let step = self.step;
        if step != self.sched.steps.len() {
            return Err(PipelineError::FoldingFailure(step));
        }
        match self.folded {
            Some(f) => Ok(f),
            None => Err(PipelineError::FoldingFailure(step)),
        }
    }
}

/// Validates a solved maze, schedules its steps, and opens a folding
/// session at step zero with the initial public state rendered in
/// decimal. Every error here means the inputs were rejected before any
/// proving began, exactly as validation and scheduling dictate.
pub fn start_proving(m: &SolvedMaze) -> (r: Result<FoldingSession, PipelineError>)
    ensures
        !m.dims_ok() ==> r == Err::<FoldingSession, PipelineError>(
            PipelineError::DimensionMismatch,
        ),
        m.dims_ok() && !m.path_long_enough() ==> r == Err::<FoldingSession, PipelineError>(
            PipelineError::PathTooShort,
        ),
        m.wf() && !deltas_fit(*m) ==> r == Err::<FoldingSession, PipelineError>(
            PipelineError::ArithmeticOverflow,
        ),
        r is Ok <==> m.wf() && deltas_fit(*m),
        r matches Err(e) ==> crate::errors::spec_is_input_error(e),
        r matches Ok(s) ==> {
            &&& is_schedule_of(s.sched, *m)
            &&& s.wf()
            &&& s.step == 0
            &&& s.folded is None
            &&& s.state@[0]@ == dec_of(DOMAIN_TAG as nat)
            &&& s.state@[1]@ == dec_of(0)
            &&& s.state@[2]@ == dec_of(0)
            &&& s.state@[3]@ == dec_of(spec_z0(*m).cost as nat)
        },
{
    match m.validate() {
        Ok(()) => (),
        Err(e) => {
            return Err(e);
        },
    }
    assert(m.maze@[0]@.len() == m.width as int);
    let sched = match schedule(m) {
        Ok(s) => s,
        Err(e) => {
            return Err(e);
        },
    };
    let z0 = sched.z0_primary;
    let mut state: Vec<String> = Vec::new();
    state.push(u64_to_decimal(z0.tag));
    state.push(u64_to_decimal(z0.row));
    state.push(u64_to_decimal(z0.col));
    state.push(u64_to_decimal(z0.cost));
    Ok(FoldingSession { sched, step: 0, state, folded: None })
}

/// What a full proving run produces: the proof record to persist, the
/// step count it attests to, and the final public states reported by the
/// succinct proof's verifier.
pub struct ProveOutcome {
    /// The six-field proof record.
    pub record: ProofRecord,
    /// The number of steps proved: one fewer than the path's cells.
    pub num_steps: usize,
    /// The final public states.
    pub zn: FinalStates,
}

/// Verifies the folded instance against the step count and the initial
/// public states, returning the final public states. Verifying here does
/// not make the proof succinct; that is the compressor's job.
pub fn verify_folded(
    pp: &FoldingParams,
    folded: &FoldedInstance,
    num_steps: usize,
    z0: &PublicState,
) -> (r: Result<FinalStates, PipelineError>)
    ensures
        r matches Err(e) ==> e == PipelineError::VerificationFailure,
        pp.src@ == folded.src@ ==> (r is Ok <==> folded.folds@ == num_steps as int
            && fold_verify_ok(
            folded.src@,
            folded.hist@,
            folded.z0@,
            num_steps as int,
            z0_key(*z0),
        )),
{
    match fold_check(pp, folded, num_steps, z0) {
        Ok(f) => Ok(f),
        Err(_) => Err(PipelineError::VerificationFailure),
    }
}

/// Derives the compressing SNARK's prover and verifier keys.
pub fn make_compressor_keys(pp: &FoldingParams) -> (r: Result<CompressorKeys, PipelineError>)
    ensures
        r matches Err(e) ==> e == PipelineError::ProvingFailure,
        r is Ok <==> compressor_setup_ok(pp.src@),
        r matches Ok(k) ==> k.src@ == pp.src@,
{
    match compressor_keys(pp) {
        Ok(raw) => Ok(CompressorKeys { raw, src: Ghost(pp.src@) }),
        Err(_) => Err(PipelineError::ProvingFailure),
    }
}

/// Compresses the folded instance into one succinct proof.
pub fn compress(
    pp: &FoldingParams,
    keys: &CompressorKeys,
    folded: &FoldedInstance,
) -> (r: Result<CompressedProof, PipelineError>)
    requires
        keys.src@ == pp.src@,
        folded.src@ == pp.src@,
    ensures
        r matches Err(e) ==> e == PipelineError::ProvingFailure,
        r is Ok <==> compress_accepts(pp.src@, folded.hist@, folded.z0@),
        r matches Ok(p) ==> p.src@ == pp.src@ && p.hist@ == folded.hist@ && p.z0@ == folded.z0@,
{
    match compress_run(pp, keys, folded) {
        Ok(raw) => Ok(
            CompressedProof {
                raw,
                src: Ghost(pp.src@),
                hist: Ghost(folded.hist@),
                z0: Ghost(folded.z0@),
            },
        ),
        Err(_) => Err(PipelineError::ProvingFailure),
    }
}

/// Verifies the succinct proof against the step count and the initial
/// public states, returning the final public states.
pub fn verify_compressed(
    keys: &CompressorKeys,
    proof: &CompressedProof,
    num_steps: usize,
    z0: &PublicState,
) -> (r: Result<FinalStates, PipelineError>)
    ensures
        r matches Err(e) ==> e == PipelineError::VerificationFailure,
        keys.src@ == proof.src@ ==> (r is Ok <==> compressed_verify_ok(
            proof.src@,
            proof.hist@,
            proof.z0@,
            num_steps as int,
            z0_key(*z0),
        )),
{
    match compress_check(keys, proof, num_steps, z0) {
        Ok(f) => Ok(f),
        Err(_) => Err(PipelineError::VerificationFailure),
    }
}

/// Renders the succinct proof as the six-field proof record that the
/// serializer persists.
pub fn proof_to_record(proof: &CompressedProof) -> (r: Result<ProofRecord, PipelineError>)
    ensures
        r matches Err(e) ==> e == PipelineError::ProvingFailure,
        r is Ok <==> render_ok(proof.src@, proof.hist@, proof.z0@),
{
    match render_record(proof) {
        Ok(rec) => Ok(rec),
        Err(_) => Err(PipelineError::ProvingFailure),
    }
}

/// Finishes a run whose folding completed: verifies the folded
/// instance, compresses it, verifies the succinct proof, and renders the
/// proof record. Every failure is a cryptographic stage's, in stage
/// order, and the run succeeds exactly when every stage's outcome on
/// the folded instance's identity — artifact bytes, witness history,
/// initial state — says so, the folding counter matching the claimed
/// step count first of all.
pub fn finish_proving(
    pp: &FoldingParams,
    folded: &FoldedInstance,
    num_steps: usize,
    z0: &PublicState,
) -> (r: Result<ProveOutcome, PipelineError>)
    requires
        pp.src@ == folded.src@,
    ensures
        r matches Ok(o) ==> o.num_steps == num_steps,
        r matches Err(e) ==> (e == PipelineError::VerificationFailure || e
            == PipelineError::ProvingFailure),
        r is Ok <==> {
            &&& folded.folds@ == num_steps as int
            &&& fold_verify_ok(
                folded.src@,
                folded.hist@,
                folded.z0@,
                num_steps as int,
                z0_key(*z0),
            )
            &&& compressor_setup_ok(pp.src@)
            &&& compress_accepts(pp.src@, folded.hist@, folded.z0@)
            &&& compressed_verify_ok(
                pp.src@,
                folded.hist@,
                folded.z0@,
                num_steps as int,
                z0_key(*z0),
            )
            &&& render_ok(pp.src@, folded.hist@, folded.z0@)
        },
{
    match verify_folded(pp, folded, num_steps, z0) {
        Ok(_) => (),
        Err(e) => {
            return Err(e);
        },
    }
    let keys = match make_compressor_keys(pp) {
        Ok(k) => k,
        Err(e) => {
            return Err(e);
        },
    };
    let proof = match compress(pp, &keys, folded) {
        Ok(p) => p,
        Err(e) => {
            return Err(e);
        },
    };
    let zn = match verify_compressed(&keys, &proof, num_steps, z0) {
        Ok(z) => z,
        Err(e) => {
            return Err(e);
        },
    };
    let record = match proof_to_record(&proof) {
        Ok(rec) => rec,
        Err(e) => {
            return Err(e);
        },
    };
    Ok(ProveOutcome { record, num_steps, zn })
}

} // verus!
