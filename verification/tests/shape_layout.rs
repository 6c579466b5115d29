use plonky2_circom_verifier::canonical::check_canonical;
use plonky2_circom_verifier::circom_proof::{
    generate_proof_base64, try_generate_proof_base64, LayoutError,
};
use plonky2_circom_verifier::data::{
    FriInitialTreeProof, FriProof, FriQueryRound, FriQueryStep, MerkleProof, OpeningSet, Proof,
    ProofWithPublicInputs,
};
use plonky2_circom_verifier::layout::{check_fits, proof_size};
use plonky2_circom_verifier::shape::{
    generate_verifier_config, shape_defect, try_generate_verifier_config, ShapeError,
    VerifierConfig,
};

fn digest(seed: u64) -> [u64; 4] {
    [seed, seed + 1, seed + 2, seed + 3]
}

fn path(depth: usize, seed: u64) -> MerkleProof {
    MerkleProof { siblings: (0..depth).map(|i| digest(seed + 10 * i as u64)).collect() }
}

fn exts(n: usize, seed: u64) -> Vec<[u64; 2]> {
    (0..n).map(|i| [seed + i as u64, seed + 100 + i as u64]).collect()
}

fn round(seed: u64) -> FriQueryRound {
    FriQueryRound {
        initial_trees_proof: FriInitialTreeProof {
            evals_proofs: vec![
                ((0..3).map(|i| seed + i).collect(), path(2, seed + 1000)),
                ((0..4).map(|i| seed + 10 + i).collect(), path(2, seed + 2000)),
                ((0..2).map(|i| seed + 20 + i).collect(), path(2, seed + 3000)),
                ((0..2).map(|i| seed + 30 + i).collect(), path(2, seed + 4000)),
            ],
        },
        steps: vec![
            FriQueryStep { evals: exts(4, seed + 40), merkle_proof: path(1, seed + 5000) },
            FriQueryStep { evals: exts(2, seed + 50), merkle_proof: path(0, seed + 6000) },
        ],
    }
}

fn sample_proof(seed: u64) -> ProofWithPublicInputs {
    ProofWithPublicInputs {
        proof: Proof {
            wires_cap: vec![digest(seed + 1)],
            plonk_zs_partial_products_cap: vec![digest(seed + 2)],
            quotient_polys_cap: vec![digest(seed + 3)],
            openings: OpeningSet {
                constants: exts(2, seed + 4),
                plonk_sigmas: exts(3, seed + 5),
                wires: exts(4, seed + 6),
                plonk_zs: exts(1, seed + 7),
                plonk_zs_next: exts(1, seed + 8),
                partial_products: exts(2, seed + 9),
                quotient_polys: exts(2, seed + 10),
            },
            opening_proof: FriProof {
                commit_phase_merkle_caps: vec![vec![digest(seed + 11)], vec![digest(seed + 12)]],
                query_round_proofs: vec![round(seed + 100), round(seed + 200)],
                final_poly: exts(3, seed + 13),
                pow_witness: seed + 14,
            },
        },
        public_inputs: vec![seed + 15, seed + 16],
    }
}

fn sample_config() -> VerifierConfig {
    VerifierConfig {
        hash_size: 32,
        field_size: 8,
        ext_field_size: 16,
        merkle_height_size: 1,
        num_wires_cap: 1,
        num_plonk_zs_partial_products_cap: 1,
        num_quotient_polys_cap: 1,
        num_openings_constants: 2,
        num_openings_plonk_sigmas: 3,
        num_openings_wires: 4,
        num_openings_plonk_zs: 1,
        num_openings_plonk_zs_next: 1,
        num_openings_partial_products: 2,
        num_openings_quotient_polys: 2,
        num_fri_commit_round: 2,
        fri_commit_merkle_cap_height: 1,
        num_fri_query_round: 2,
        num_fri_query_init_constants_sigmas_v: 3,
        num_fri_query_init_constants_sigmas_p: 2,
        num_fri_query_init_wires_v: 4,
        num_fri_query_init_wires_p: 2,
        num_fri_query_init_zs_partial_v: 2,
        num_fri_query_init_zs_partial_p: 2,
        num_fri_query_init_quotient_v: 2,
        num_fri_query_init_quotient_p: 2,
        num_fri_query_step0_v: 4,
        num_fri_query_step0_p: 1,
        num_fri_query_step1_v: 2,
        num_fri_query_step1_p: 0,
        num_fri_final_poly_ext_v: 3,
        num_public_inputs: 2,
    }
}

const SAMPLE_SIZE: usize = 1428;

#[test]
fn shape_is_read_from_the_lengths() {
    let conf = generate_verifier_config(&sample_proof(0)).unwrap();
    assert_eq!(conf, sample_config());
}

#[test]
fn shape_does_not_depend_on_the_values() {
    let a = generate_verifier_config(&sample_proof(0)).unwrap();
    let b = generate_verifier_config(&sample_proof(777_000)).unwrap();
    assert_ne!(sample_proof(0), sample_proof(777_000));
    assert_eq!(a, b);
}

#[test]
fn shape_needs_a_query_round() {
    let mut p = sample_proof(0);
    p.proof.opening_proof.query_round_proofs.clear();
    assert_eq!(try_generate_verifier_config(&p), Err(ShapeError::NoQueryRounds));
}

#[test]
fn shape_needs_two_steps_in_the_first_round() {
    let mut p = sample_proof(0);
    p.proof.opening_proof.query_round_proofs[0].steps.pop();
    assert_eq!(try_generate_verifier_config(&p), Err(ShapeError::FriStepCount));
    let mut q = sample_proof(0);
    let extra = q.proof.opening_proof.query_round_proofs[0].steps[0].clone();
    q.proof.opening_proof.query_round_proofs[0].steps.push(extra);
    assert_eq!(try_generate_verifier_config(&q), Err(ShapeError::FriStepCount));
}

#[test]
fn shape_needs_a_commit_phase_cap() {
    let mut p = sample_proof(0);
    p.proof.opening_proof.commit_phase_merkle_caps.clear();
    assert_eq!(try_generate_verifier_config(&p), Err(ShapeError::NoCommitPhaseCaps));
}

#[test]
fn shape_needs_four_initial_trees() {
    let mut p = sample_proof(0);
    p.proof.opening_proof.query_round_proofs[0].initial_trees_proof.evals_proofs.pop();
    assert_eq!(try_generate_verifier_config(&p), Err(ShapeError::InitialTreeCount));
}

#[test]
fn shape_errors_come_in_a_fixed_order() {
    let mut p = sample_proof(0);
    p.proof.opening_proof.commit_phase_merkle_caps.clear();
    p.proof.opening_proof.query_round_proofs[0].steps.clear();
    p.proof.opening_proof.query_round_proofs[0].initial_trees_proof.evals_proofs.clear();
    assert_eq!(try_generate_verifier_config(&p), Err(ShapeError::FriStepCount));
    p.proof.opening_proof.query_round_proofs[0].steps = round(0).steps;
    assert_eq!(try_generate_verifier_config(&p), Err(ShapeError::NoCommitPhaseCaps));
}

#[test]
fn size_is_the_closed_form() {
    assert_eq!(proof_size(&sample_config()), Some(SAMPLE_SIZE));
}

#[test]
fn size_counts_each_section() {
    let base = sample_config();
    let mut c = base;
    c.num_wires_cap += 1;
    assert_eq!(proof_size(&c), Some(SAMPLE_SIZE + 32));
    let mut c = base;
    c.num_openings_wires += 2;
    assert_eq!(proof_size(&c), Some(SAMPLE_SIZE + 32));
    let mut c = base;
    c.num_fri_commit_round += 1;
    assert_eq!(proof_size(&c), Some(SAMPLE_SIZE + 32));
    let mut c = base;
    c.num_fri_query_round += 1;
    assert_eq!(proof_size(&c), Some(SAMPLE_SIZE + 348 + 130));
    let mut c = base;
    c.num_fri_query_init_wires_v += 1;
    assert_eq!(proof_size(&c), Some(SAMPLE_SIZE + 2 * 8));
    let mut c = base;
    c.num_fri_query_step1_p += 1;
    assert_eq!(proof_size(&c), Some(SAMPLE_SIZE + 2 * 32));
    let mut c = base;
    c.num_fri_final_poly_ext_v += 1;
    assert_eq!(proof_size(&c), Some(SAMPLE_SIZE + 16));
    let mut c = base;
    c.num_public_inputs = 0;
    assert_eq!(proof_size(&c), Some(SAMPLE_SIZE - 16));
}

#[test]
fn size_of_the_empty_shape_is_the_proof_of_work_witness() {
    let mut c = sample_config();
    c.num_wires_cap = 0;
    c.num_plonk_zs_partial_products_cap = 0;
    c.num_quotient_polys_cap = 0;
    c.num_openings_constants = 0;
    c.num_openings_plonk_sigmas = 0;
    c.num_openings_wires = 0;
    c.num_openings_plonk_zs = 0;
    c.num_openings_plonk_zs_next = 0;
    c.num_openings_partial_products = 0;
    c.num_openings_quotient_polys = 0;
    c.num_fri_commit_round = 0;
    c.num_fri_query_round = 0;
    c.num_fri_final_poly_ext_v = 0;
    c.num_public_inputs = 0;
    assert_eq!(proof_size(&c), Some(8));
}

#[test]
fn size_that_does_not_fit_is_none() {
    let mut c = sample_config();
    c.num_public_inputs = usize::MAX;
    assert_eq!(proof_size(&c), None);
    let mut c = sample_config();
    c.num_fri_query_round = 0;
    c.num_fri_query_init_wires_v = usize::MAX;
    assert_eq!(proof_size(&c), Some(SAMPLE_SIZE - 2 * (348 + 130)));
}

#[test]
fn proof_for_circom_holds_decimal_numerals() {
    let p = sample_proof(0);
    let out = generate_proof_base64(&p, &sample_config(), SAMPLE_SIZE).unwrap();
    assert_eq!(out.wires_cap, vec![vec!["1", "2", "3", "4"]]);
    assert_eq!(out.plonk_zs_partial_products_cap, vec![vec!["2", "3", "4", "5"]]);
    assert_eq!(out.quotient_polys_cap, vec![vec!["3", "4", "5", "6"]]);
    assert_eq!(out.openings_constants, vec![vec!["4", "104"], vec!["5", "105"]]);
    assert_eq!(out.openings_plonk_zs, vec![vec!["7", "107"]]);
    assert_eq!(out.openings_wires.len(), 4);
    assert_eq!(
        out.fri_commit_phase_merkle_caps,
        vec![vec![vec!["11", "12", "13", "14"]], vec![vec!["12", "13", "14", "15"]]]
    );
    assert_eq!(
        out.fri_query_init_constants_sigmas_v,
        vec![vec!["100", "101", "102"], vec!["200", "201", "202"]]
    );
    assert_eq!(
        out.fri_query_init_wires_v,
        vec![vec!["110", "111", "112", "113"], vec!["210", "211", "212", "213"]]
    );
    assert_eq!(
        out.fri_query_init_constants_sigmas_p[1],
        vec![vec!["1200", "1201", "1202", "1203"], vec!["1210", "1211", "1212", "1213"]]
    );
    assert_eq!(out.fri_query_init_quotient_p[0][1], vec!["4110", "4111", "4112", "4113"]);
    assert_eq!(
        out.fri_query_step0_v[0],
        vec![vec!["140", "240"], vec!["141", "241"], vec!["142", "242"], vec!["143", "243"]]
    );
    assert_eq!(out.fri_query_step0_p[1], vec![vec!["5200", "5201", "5202", "5203"]]);
    assert_eq!(out.fri_query_step1_v[1], vec![vec!["250", "350"], vec!["251", "351"]]);
    assert_eq!(out.fri_query_step1_p, vec![Vec::<Vec<String>>::new(), Vec::new()]);
    assert_eq!(
        out.fri_final_poly_ext_v,
        vec![vec!["13", "113"], vec!["14", "114"], vec!["15", "115"]]
    );
    assert_eq!(out.fri_pow_witness, "14");
    assert_eq!(out.public_inputs, vec!["15", "16"]);
}

#[test]
fn proof_for_circom_writes_large_words_in_full() {
    let mut p = sample_proof(0);
    p.proof.opening_proof.pow_witness = 18446744069414584320;
    p.public_inputs[1] = 16736853722845225729;
    let out = generate_proof_base64(&p, &sample_config(), SAMPLE_SIZE).unwrap();
    assert_eq!(out.fri_pow_witness, "18446744069414584320");
    assert_eq!(out.public_inputs[1], "16736853722845225729");
}

#[test]
fn proof_for_circom_rejects_a_wrong_size() {
    let p = sample_proof(0);
    assert_eq!(
        try_generate_proof_base64(&p, &sample_config(), SAMPLE_SIZE + 1),
        Err(LayoutError::SizeMismatch)
    );
    assert_eq!(
        try_generate_proof_base64(&p, &sample_config(), SAMPLE_SIZE - 1),
        Err(LayoutError::SizeMismatch)
    );
    let mut c = sample_config();
    c.hash_size = 25;
    assert_eq!(try_generate_proof_base64(&p, &c, SAMPLE_SIZE), Err(LayoutError::SizeMismatch));
}

#[test]
fn proof_for_circom_rejects_a_proof_that_is_too_short() {
    let p = sample_proof(0);
    let mut c = sample_config();
    c.num_openings_wires = 5;
    assert!(!check_fits(&p, &c));
    assert_eq!(
        try_generate_proof_base64(&p, &c, SAMPLE_SIZE + 16),
        Err(LayoutError::ShapeMismatch)
    );
    let mut c = sample_config();
    c.num_fri_query_step1_p = 1;
    assert_eq!(try_generate_proof_base64(&p, &c, SAMPLE_SIZE), Err(LayoutError::ShapeMismatch));
    let mut c = sample_config();
    c.fri_commit_merkle_cap_height = 2;
    assert_eq!(try_generate_proof_base64(&p, &c, SAMPLE_SIZE), Err(LayoutError::ShapeMismatch));
    let mut q = sample_proof(0);
    q.proof.opening_proof.query_round_proofs[1].steps.pop();
    assert_eq!(
        try_generate_proof_base64(&q, &sample_config(), SAMPLE_SIZE),
        Err(LayoutError::ShapeMismatch)
    );
}

#[test]
fn shape_mismatch_comes_before_size_mismatch() {
    let p = sample_proof(0);
    let mut c = sample_config();
    c.num_public_inputs = 3;
    assert_eq!(try_generate_proof_base64(&p, &c, 0), Err(LayoutError::ShapeMismatch));
}

#[test]
fn a_proof_fits_its_own_shape() {
    let p = sample_proof(5);
    let c = generate_verifier_config(&p).unwrap();
    assert!(check_fits(&p, &c));
    let size = proof_size(&c).unwrap();
    assert!(generate_proof_base64(&p, &c, size).is_ok());
}

#[test]
fn a_proof_with_a_shape_has_no_defect() {
    assert_eq!(shape_defect(&sample_proof(0)), None);
    assert_eq!(try_generate_verifier_config(&sample_proof(0)), Ok(sample_config()));
    let mut p = sample_proof(0);
    p.proof.opening_proof.query_round_proofs[0].steps.pop();
    assert_eq!(shape_defect(&p), Some(ShapeError::FriStepCount));
}

#[test]
fn proof_for_circom_is_the_same_with_and_without_asking_first() {
    let p = sample_proof(3);
    let c = sample_config();
    assert_eq!(
        try_generate_proof_base64(&p, &c, SAMPLE_SIZE),
        generate_proof_base64(&p, &c, SAMPLE_SIZE)
    );
}

#[test]
fn proof_for_circom_rejects_a_word_that_is_not_canonical() {
    let order: u64 = 18446744069414584321;
    let mut p = sample_proof(0);
    p.proof.opening_proof.pow_witness = order - 1;
    assert!(check_canonical(&p));
    assert!(try_generate_proof_base64(&p, &sample_config(), SAMPLE_SIZE).is_ok());
    p.proof.opening_proof.pow_witness = order;
    assert!(!check_canonical(&p));
    assert_eq!(
        try_generate_proof_base64(&p, &sample_config(), SAMPLE_SIZE),
        Err(LayoutError::NonCanonical)
    );
    let mut p = sample_proof(0);
    p.proof.opening_proof.query_round_proofs[1].steps[1].evals[0][1] = u64::MAX;
    assert_eq!(
        try_generate_proof_base64(&p, &sample_config(), 0),
        Err(LayoutError::NonCanonical)
    );
    let mut p = sample_proof(0);
    p.proof.opening_proof.query_round_proofs[0].initial_trees_proof.evals_proofs[2].1.siblings[1]
        [3] = order + 5;
    assert!(!check_canonical(&p));
    let mut p = sample_proof(0);
    p.proof.opening_proof.commit_phase_merkle_caps[1][0][0] = order;
    assert!(!check_canonical(&p));
    let mut p = sample_proof(0);
    p.public_inputs[0] = order;
    assert!(!check_canonical(&p));
}
