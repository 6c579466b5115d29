use plonky2_circom_verifier::artifact::{
    generate_artifact, GeneratedArtifact, GenerationError, GenerationStage,
};
use plonky2_circom_verifier::circom_proof::LayoutError;
use plonky2_circom_verifier::circuit::{
    CommonData, FieldParameters, GateInfo, SelectorsInfo, VerifierOnlyData,
};
use plonky2_circom_verifier::codec::serialize_proof;
use plonky2_circom_verifier::composer::{step, Action, Event, Stage};
use plonky2_circom_verifier::data::{
    FriInitialTreeProof, FriProof, FriQueryRound, FriQueryStep, MerkleProof, OpeningSet, Proof,
    ProofWithPublicInputs,
};
use plonky2_circom_verifier::generator::GeneratorError;
use plonky2_circom_verifier::layout::proof_size;
use plonky2_circom_verifier::shape::{generate_verifier_config, ShapeError};

fn run_round(seed: u64) -> FriQueryRound {
    let path = |d: usize| MerkleProof { siblings: vec![[seed, 1, 2, 3]; d] };
    FriQueryRound {
        initial_trees_proof: FriInitialTreeProof {
            evals_proofs: vec![
                (vec![seed; 5], path(3)),
                (vec![seed + 1; 6], path(3)),
                (vec![seed + 2; 2], path(3)),
                (vec![seed + 3; 3], path(3)),
            ],
        },
        steps: vec![
            FriQueryStep { evals: vec![[seed, seed]; 8], merkle_proof: path(2) },
            FriQueryStep { evals: vec![[seed, seed]; 4], merkle_proof: path(1) },
        ],
    }
}

fn run_proof(seed: u64, public_inputs: usize) -> ProofWithPublicInputs {
    shaped_proof(seed, public_inputs, 3, 1)
}

fn shaped_proof(
    seed: u64,
    public_inputs: usize,
    query_rounds: u64,
    cap_height: usize,
) -> ProofWithPublicInputs {
    ProofWithPublicInputs {
        proof: Proof {
            wires_cap: vec![[seed, 2, 3, 4]; 1 << cap_height],
            plonk_zs_partial_products_cap: vec![[seed, 2, 3, 4]; 1 << cap_height],
            quotient_polys_cap: vec![[seed, 2, 3, 4]; 1 << cap_height],
            openings: OpeningSet {
                constants: vec![[seed, 1]; 3],
                plonk_sigmas: vec![[seed, 1]; 5],
                wires: vec![[seed, 1]; 7],
                plonk_zs: vec![[seed, 1]; 2],
                plonk_zs_next: vec![[seed, 1]; 2],
                partial_products: vec![[seed, 1]; 4],
                quotient_polys: vec![[seed, 1]; 4],
            },
            opening_proof: FriProof {
                commit_phase_merkle_caps: vec![vec![[seed, 2, 3, 4]; 1 << cap_height]; 2],
                query_round_proofs: (0..query_rounds).map(|i| run_round(seed + i)).collect(),
                final_poly: vec![[seed, 9]; 4],
                pow_witness: seed + 5,
            },
        },
        public_inputs: (0..public_inputs as u64).collect(),
    }
}

fn run_gate(id: &str, template: &str) -> GateInfo {
    GateInfo {
        id: id.to_string(),
        circom_code: format!("template {}() {{\n  $SET_FILTER;\n}}", template),
    }
}

fn run_common(noops: usize) -> CommonData {
    shaped_common(noops, 3, 1, 16)
}

fn shaped_common(
    noops: usize,
    rate_bits: usize,
    cap_height: usize,
    proof_of_work_bits: u32,
) -> CommonData {
    let mut gates: Vec<GateInfo> = vec![run_gate("NoopGate", "Noop"); noops];
    gates.push(run_gate("PublicInputGate", "PublicInputGateLib"));
    gates.push(run_gate("PoseidonGate(PhantomData<F>)<WIDTH=12>", "Poseidon12"));
    let rows = gates.len();
    CommonData {
        num_challenges: 2,
        zero_knowledge: false,
        rate_bits,
        cap_height,
        proof_of_work_bits,
        reduction_arity_bits: vec![4, 4],
        degree_bits: 12,
        lde_size: 1 << (12 + rate_bits),
        gates,
        selectors_info: SelectorsInfo { selector_indices: vec![0; rows], groups: vec![(0, rows)] },
        quotient_degree_factor: 8,
        num_gate_constraints: 123,
        k_is: vec![1, 7, 49],
    }
}

fn run_verifier_only() -> VerifierOnlyData {
    shaped_verifier_only(1)
}

fn shaped_verifier_only(cap_height: usize) -> VerifierOnlyData {
    VerifierOnlyData {
        constants_sigmas_cap: (0..1u64 << cap_height)
            .map(|i| [10 * i + 11, 10 * i + 12, 10 * i + 13, 10 * i + 14])
            .collect(),
        circuit_digest: [5, 6, 7, 8],
    }
}

fn run_field() -> FieldParameters {
    FieldParameters {
        multiplicative_group_generator: 7,
        extension_w: 7,
        roots_of_unity: [3; 33],
        extension_roots_of_unity: [[4, 5]; 34],
    }
}

const RUN_CONSTANTS: &str = "pi $NUM_PUBLIC_INPUTS;\nrounds $NUM_FRI_QUERY_ROUND;\n  $SET_K_IS;\n  $SET_SIGMA_CAP;\nrate $FRI_RATE_BITS;\npow $MIN_FRI_POW_RESPONSE;\ncap $SIGMA_CAP_COUNT;\nlde $LOG_SIZE_OF_LDE_DOMAIN;\n";
const RUN_GATES: &str = "gates {\n  $EVALUATE_GATE_CONSTRAINTS;\n}\n";

fn run(
    p: &ProofWithPublicInputs,
    common: &CommonData,
    serialized_len: usize,
) -> Result<GeneratedArtifact, GenerationError> {
    generate_artifact(
        p,
        common,
        &run_verifier_only(),
        &run_field(),
        RUN_CONSTANTS,
        RUN_GATES,
        serialized_len,
    )
}

fn serialized_len(p: &ProofWithPublicInputs) -> usize {
    let c = generate_verifier_config(p).unwrap();
    serialize_proof(p, &c).unwrap().len()
}

#[test]
fn test_verifier_without_public_inputs() {
    let p = shaped_proof(1, 0, 10, 0);
    let common = shaped_common(4_000, 8, 0, 20);
    let len = serialized_len(&p);
    let a = generate_artifact(
        &p,
        &common,
        &shaped_verifier_only(0),
        &run_field(),
        RUN_CONSTANTS,
        RUN_GATES,
        len,
    )
    .unwrap();
    assert_eq!(a.config.num_public_inputs, 0);
    assert_eq!(a.config.num_fri_query_round, 10);
    assert_eq!(a.config.num_wires_cap, 1);
    assert_eq!(Some(len), proof_size(&a.config));
    assert!(a.constants.starts_with("pi 0;\nrounds 10;\n  k_is[0] = 1;\n"));
    assert!(a.constants.ends_with(
        "  sc[0][3] = 14;\nrate 8;\npow 20;\ncap 1;\nlde 20;\n"
    ));
    assert!(!a.constants.contains('$'));
    assert!(!a.gates.contains('$'));
    assert_eq!(a.gates.matches("template ").count(), 2);
    assert_eq!(a.proof.public_inputs.len(), 0);
    assert_eq!(a.proof.fri_query_step0_v.len(), 10);
}

#[test]
fn test_verifier_with_public_inputs() {
    let p = shaped_proof(1, 4, 28, 4);
    let common = shaped_common(4_000, 3, 4, 16);
    let len = serialized_len(&p);
    let a = generate_artifact(
        &p,
        &common,
        &shaped_verifier_only(4),
        &run_field(),
        RUN_CONSTANTS,
        RUN_GATES,
        len,
    )
    .unwrap();
    assert_eq!(a.config.num_public_inputs, 4);
    assert_eq!(a.config.num_fri_query_round, 28);
    assert_eq!(a.config.num_wires_cap, 16);
    assert_eq!(a.config.fri_commit_merkle_cap_height, 16);
    assert_eq!(Some(len), proof_size(&a.config));
    assert!(a.constants.starts_with("pi 4;\nrounds 28;\n"));
    assert!(a.constants.ends_with(
        "  sc[15][3] = 164;\nrate 3;\npow 16;\ncap 16;\nlde 15;\n"
    ));
    assert!(!a.constants.contains('$'));
    assert!(!a.gates.contains('$'));
    assert_eq!(a.proof.public_inputs, vec!["0", "1", "2", "3"]);
}

#[test]
fn test_recursive_verifier() {
    let mut proof = shaped_proof(1, 4, 28, 4);
    for layer in 0..2u64 {
        let (stage, action) =
            step(Stage::Assembling, None, Event::VerifierAdded { num_gates: 4_000 });
        assert_eq!(action, Action::PadAndBuild { noops: 0 });
        let (stage, action) = step(stage, None, Event::Built);
        assert_eq!(action, Action::Prove);
        let (stage, action) = step(stage, None, Event::Proved);
        assert_eq!(action, Action::Verify);
        let outer = shaped_proof(100 + layer, 68, 28, 4);
        assert_eq!(step(stage, None, Event::Accepted), (Stage::Done, Action::Return));
        assert_eq!(step(stage, None, Event::Rejected), (Stage::Failed, Action::Abort));
        proof = outer;
    }
    let common = shaped_common(4_000, 3, 4, 16);
    let len = serialized_len(&proof);
    let a = generate_artifact(
        &proof,
        &common,
        &shaped_verifier_only(4),
        &run_field(),
        RUN_CONSTANTS,
        RUN_GATES,
        len,
    )
    .unwrap();
    assert_eq!(a.config.num_public_inputs, 68);
    assert_eq!(Some(len), proof_size(&a.config));
    assert!(!a.constants.contains('$'));
    assert!(!a.gates.contains('$'));
}

#[test]
fn a_run_without_public_inputs_generates_all() {
    let p = run_proof(3, 0);
    let a = run(&p, &run_common(40), serialized_len(&p)).unwrap();
    assert_eq!(a.config, generate_verifier_config(&p).unwrap());
    assert_eq!(a.config.num_public_inputs, 0);
    assert!(a.constants.starts_with("pi 0;\nrounds 3;\n  k_is[0] = 1;\n"));
    assert!(!a.constants.contains('$'));
    assert!(!a.gates.contains('$'));
    assert_eq!(a.proof.public_inputs, Vec::<String>::new());
    assert_eq!(a.proof.fri_pow_witness, "8");
    assert_eq!(a.proof.wires_cap.len(), 2);
}

#[test]
fn a_run_with_public_inputs_generates_all() {
    let p = run_proof(3, 4);
    let a = run(&p, &run_common(40), serialized_len(&p)).unwrap();
    assert_eq!(a.config.num_public_inputs, 4);
    assert!(a.constants.starts_with("pi 4;\n"));
    assert_eq!(a.proof.public_inputs, vec!["0", "1", "2", "3"]);
    assert!(a.gates.contains("  out <== c_Poseidon12.out;\n}\n"));
    assert!(a.gates.contains(
        "  c_Poseidon12.constraints <== c_PublicInputGateLib.out;\n"
    ));
    assert!(!a.constants.contains('$'));
    assert!(!a.gates.contains('$'));
}

#[test]
fn public_inputs_add_eight_bytes_each() {
    assert_eq!(serialized_len(&run_proof(3, 4)), serialized_len(&run_proof(3, 0)) + 32);
}

#[test]
fn a_run_fails_on_a_proof_without_shape() {
    let mut p = run_proof(3, 4);
    p.proof.opening_proof.query_round_proofs[0].steps.pop();
    let e = run(&p, &run_common(4), 0).unwrap_err();
    assert_eq!(e, GenerationError::Shape(ShapeError::FriStepCount));
    assert_eq!(e.stage(), GenerationStage::Init);
}

#[test]
fn a_run_fails_on_a_gate_that_is_not_implemented() {
    let p = run_proof(3, 4);
    let mut common = run_common(4);
    common.gates[4] = run_gate("U32AddManyGate { num_addends: 3 }", "U32");
    let e = run(&p, &common, serialized_len(&p)).unwrap_err();
    assert_eq!(e, GenerationError::Generator(GeneratorError::GateNotImplemented { row: 4 }));
    assert_eq!(e.stage(), GenerationStage::ConstantsSubstituted);
}

#[test]
fn a_run_fails_on_a_wrong_size() {
    let p = run_proof(3, 4);
    let e = run(&p, &run_common(4), serialized_len(&p) + 8).unwrap_err();
    assert_eq!(e, GenerationError::Layout(LayoutError::SizeMismatch));
    assert_eq!(e.stage(), GenerationStage::GatesEmitted);
}

#[test]
fn a_run_fails_on_rounds_of_unequal_length() {
    let mut p = run_proof(3, 4);
    p.proof.opening_proof.query_round_proofs[2].steps[1].evals.pop();
    let e = run(&p, &run_common(4), 0).unwrap_err();
    assert_eq!(e, GenerationError::Layout(LayoutError::ShapeMismatch));
}

#[test]
fn stages_of_failure() {
    let stage = |g: GeneratorError| GenerationError::Generator(g).stage();
    assert_eq!(stage(GeneratorError::ExtensionRootMissing), GenerationStage::Init);
    assert_eq!(stage(GeneratorError::NotPowerOfTwo), GenerationStage::Init);
    assert_eq!(stage(GeneratorError::RootMissing), GenerationStage::Init);
    assert_eq!(
        stage(GeneratorError::SelectorMissing { row: 0 }),
        GenerationStage::ConstantsSubstituted
    );
    assert_eq!(
        stage(GeneratorError::MalformedGateCode { row: 0 }),
        GenerationStage::ConstantsSubstituted
    );
    assert_eq!(stage(GeneratorError::SigmaCapCount), GenerationStage::GatesEmitted);
    assert_eq!(stage(GeneratorError::SigmaCapTooShort), GenerationStage::GatesEmitted);
    assert_eq!(
        GenerationError::Layout(LayoutError::PathTooLong).stage(),
        GenerationStage::GatesEmitted
    );
}
