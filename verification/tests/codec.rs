use plonky2_circom_verifier::circom_proof::LayoutError;
use plonky2_circom_verifier::codec::serialize_proof;
use plonky2_circom_verifier::decoder::deserialize_proof;
use plonky2_circom_verifier::data::{
    FriInitialTreeProof, FriProof, FriQueryRound, FriQueryStep, MerkleProof, OpeningSet, Proof,
    ProofWithPublicInputs,
};
use plonky2_circom_verifier::layout::{check_conforms, proof_size};
use plonky2_circom_verifier::sections::{
    index_of_section, nth_section, section_offset, section_offsets, size_of_section, Section,
    NUM_SECTIONS,
};
use plonky2_circom_verifier::shape::generate_verifier_config;

fn codec_digest(seed: u64) -> [u64; 4] {
    [seed, seed + 1, seed + 2, seed + 3]
}

fn codec_path(depth: usize, seed: u64) -> MerkleProof {
    MerkleProof { siblings: (0..depth).map(|i| codec_digest(seed + 10 * i as u64)).collect() }
}

fn codec_exts(n: usize, seed: u64) -> Vec<[u64; 2]> {
    (0..n).map(|i| [seed + i as u64, seed + 100 + i as u64]).collect()
}

fn codec_round(seed: u64, depth: usize) -> FriQueryRound {
    FriQueryRound {
        initial_trees_proof: FriInitialTreeProof {
            evals_proofs: vec![
                ((0..3).map(|i| seed + i).collect(), codec_path(depth, seed + 1000)),
                ((0..4).map(|i| seed + 10 + i).collect(), codec_path(2, seed + 2000)),
                ((0..2).map(|i| seed + 20 + i).collect(), codec_path(2, seed + 3000)),
                ((0..2).map(|i| seed + 30 + i).collect(), codec_path(2, seed + 4000)),
            ],
        },
        steps: vec![
            FriQueryStep { evals: codec_exts(4, seed + 40), merkle_proof: codec_path(1, seed + 5000) },
            FriQueryStep { evals: codec_exts(2, seed + 50), merkle_proof: codec_path(0, seed + 6000) },
        ],
    }
}

fn codec_proof(seed: u64, depth: usize) -> ProofWithPublicInputs {
    ProofWithPublicInputs {
        proof: Proof {
            wires_cap: vec![codec_digest(seed + 1)],
            plonk_zs_partial_products_cap: vec![codec_digest(seed + 2)],
            quotient_polys_cap: vec![codec_digest(seed + 3)],
            openings: OpeningSet {
                constants: codec_exts(2, seed + 4),
                plonk_sigmas: codec_exts(3, seed + 5),
                wires: codec_exts(4, seed + 6),
                plonk_zs: codec_exts(1, seed + 7),
                plonk_zs_next: codec_exts(1, seed + 8),
                partial_products: codec_exts(2, seed + 9),
                quotient_polys: codec_exts(2, seed + 10),
            },
            opening_proof: FriProof {
                commit_phase_merkle_caps: vec![
                    vec![codec_digest(seed + 11)],
                    vec![codec_digest(seed + 12)],
                ],
                query_round_proofs: vec![
                    codec_round(seed + 100, depth),
                    codec_round(seed + 200, depth),
                ],
                final_poly: codec_exts(3, seed + 13),
                pow_witness: seed + 14,
            },
        },
        public_inputs: vec![seed + 15, seed + 16],
    }
}

fn word_at(bytes: &[u8], offset: usize) -> u64 {
    let mut b = [0u8; 8];
    b.copy_from_slice(&bytes[offset..offset + 8]);
    u64::from_le_bytes(b)
}

#[test]
fn serialized_length_is_the_closed_form() {
    let p = codec_proof(0, 2);
    let c = generate_verifier_config(&p).unwrap();
    let bytes = serialize_proof(&p, &c).unwrap();
    assert_eq!(bytes.len(), 1428);
    assert_eq!(Some(bytes.len()), proof_size(&c));
}

#[test]
fn serialized_length_follows_the_shape() {
    for depth in [0usize, 1, 5, 17] {
        let p = codec_proof(9, depth);
        let c = generate_verifier_config(&p).unwrap();
        let bytes = serialize_proof(&p, &c).unwrap();
        assert_eq!(Some(bytes.len()), proof_size(&c));
        assert_eq!(bytes.len(), 1428 - 2 * 2 * 32 + 2 * depth * 32);
    }
}

#[test]
fn words_are_written_least_significant_byte_first() {
    let mut p = codec_proof(0, 2);
    p.proof.wires_cap[0] = [0x0102030405060708, 1, 2, 0xffffffff00000000];
    let c = generate_verifier_config(&p).unwrap();
    let bytes = serialize_proof(&p, &c).unwrap();
    assert_eq!(&bytes[0..8], &[8, 7, 6, 5, 4, 3, 2, 1]);
    assert_eq!(&bytes[8..16], &[1, 0, 0, 0, 0, 0, 0, 0]);
    assert_eq!(&bytes[24..32], &[0, 0, 0, 0, 0xff, 0xff, 0xff, 0xff]);
}

#[test]
fn sections_lie_where_the_offsets_say() {
    let p = codec_proof(0, 2);
    let c = generate_verifier_config(&p).unwrap();
    let bytes = serialize_proof(&p, &c).unwrap();
    let at = |s: Section| section_offset(&c, s).unwrap();
    assert_eq!(word_at(&bytes, at(Section::WiresCap)), 1);
    assert_eq!(word_at(&bytes, at(Section::PlonkZsPartialProductsCap)), 2);
    assert_eq!(word_at(&bytes, at(Section::QuotientPolysCap)), 3);
    assert_eq!(word_at(&bytes, at(Section::OpeningsConstants)), 4);
    assert_eq!(word_at(&bytes, at(Section::OpeningsConstants) + 8), 104);
    assert_eq!(word_at(&bytes, at(Section::OpeningsPlonkSigmas)), 5);
    assert_eq!(word_at(&bytes, at(Section::OpeningsWires)), 6);
    assert_eq!(word_at(&bytes, at(Section::OpeningsPlonkZs)), 7);
    assert_eq!(word_at(&bytes, at(Section::OpeningsPlonkZsNext)), 8);
    assert_eq!(word_at(&bytes, at(Section::OpeningsPartialProducts)), 9);
    assert_eq!(word_at(&bytes, at(Section::OpeningsQuotientPolys)), 10);
    assert_eq!(word_at(&bytes, at(Section::FriCommitPhaseMerkleCaps)), 11);
    assert_eq!(word_at(&bytes, at(Section::FriCommitPhaseMerkleCaps) + 32), 12);
    assert_eq!(word_at(&bytes, at(Section::FriQueryRounds)), 100);
    assert_eq!(word_at(&bytes, at(Section::FriFinalPoly)), 13);
    assert_eq!(word_at(&bytes, at(Section::FriPowWitness)), 14);
    assert_eq!(word_at(&bytes, at(Section::PublicInputs)), 15);
    assert_eq!(word_at(&bytes, at(Section::PublicInputs) + 8), 16);
    assert_eq!(at(Section::PublicInputs) + 16, bytes.len());
}

#[test]
fn a_query_round_holds_values_depth_and_path_of_each_tree() {
    let p = codec_proof(0, 2);
    let c = generate_verifier_config(&p).unwrap();
    let bytes = serialize_proof(&p, &c).unwrap();
    let start = section_offset(&c, Section::FriQueryRounds).unwrap();
    assert_eq!(word_at(&bytes, start), 100);
    assert_eq!(word_at(&bytes, start + 16), 102);
    assert_eq!(bytes[start + 24], 2);
    assert_eq!(word_at(&bytes, start + 25), 1100);
    assert_eq!(word_at(&bytes, start + 25 + 32), 1110);
    assert_eq!(word_at(&bytes, start + 25 + 64), 110);
    let steps = start + 348;
    assert_eq!(word_at(&bytes, steps), 140);
    assert_eq!(word_at(&bytes, steps + 8), 240);
    assert_eq!(bytes[steps + 64], 1);
    assert_eq!(word_at(&bytes, steps + 65), 5100);
    assert_eq!(word_at(&bytes, steps + 97), 150);
    assert_eq!(bytes[steps + 129], 0);
    assert_eq!(word_at(&bytes, start + 478), 200);
}

#[test]
fn serialize_rejects_another_shape() {
    let p = codec_proof(0, 2);
    let c = generate_verifier_config(&p).unwrap();
    let mut d = c;
    d.num_public_inputs = 1;
    assert!(!check_conforms(&p, &d));
    assert_eq!(serialize_proof(&p, &d), Err(LayoutError::ShapeMismatch));
    let mut d = c;
    d.hash_size = 25;
    assert_eq!(serialize_proof(&p, &d), Err(LayoutError::ShapeMismatch));
    let mut q = codec_proof(0, 2);
    q.proof.opening_proof.query_round_proofs[1].steps[0].evals.pop();
    assert_eq!(serialize_proof(&q, &c), Err(LayoutError::ShapeMismatch));
    let mut q = codec_proof(0, 2);
    q.proof.opening_proof.commit_phase_merkle_caps[1].push(codec_digest(1));
    assert_eq!(serialize_proof(&q, &c), Err(LayoutError::ShapeMismatch));
}

#[test]
fn serialize_rejects_a_path_deeper_than_a_byte_counts() {
    let p = codec_proof(0, 256);
    let c = generate_verifier_config(&p).unwrap();
    assert!(check_conforms(&p, &c));
    assert_eq!(serialize_proof(&p, &c), Err(LayoutError::PathTooLong));
    let p = codec_proof(0, 255);
    let c = generate_verifier_config(&p).unwrap();
    let bytes = serialize_proof(&p, &c).unwrap();
    assert_eq!(Some(bytes.len()), proof_size(&c));
    let start = section_offset(&c, Section::FriQueryRounds).unwrap();
    assert_eq!(bytes[start + 24], 255);
}

#[test]
fn sections_tile_the_proof() {
    let p = codec_proof(0, 2);
    let c = generate_verifier_config(&p).unwrap();
    let map = section_offsets(&c).unwrap();
    assert_eq!(map.len(), NUM_SECTIONS);
    assert_eq!(map[0], (Section::WiresCap, 0));
    let mut end = 0;
    for (k, (section, start)) in map.iter().enumerate() {
        assert_eq!(*section, nth_section(k));
        assert_eq!(index_of_section(*section), k);
        assert_eq!(*start, end);
        assert_eq!(section_offset(&c, *section), Some(*start));
        end = start + size_of_section(&c, *section).unwrap();
    }
    assert_eq!(Some(end), proof_size(&c));
    let sizes: Vec<usize> = map.iter().map(|(s, _)| size_of_section(&c, *s).unwrap()).collect();
    assert_eq!(sizes, vec![32, 32, 32, 32, 48, 64, 16, 16, 32, 32, 64, 956, 48, 8, 16]);
}

#[test]
fn offsets_that_do_not_fit_are_none() {
    let p = codec_proof(0, 2);
    let mut c = generate_verifier_config(&p).unwrap();
    c.num_fri_final_poly_ext_v = usize::MAX;
    assert_eq!(section_offsets(&c), None);
    assert_eq!(size_of_section(&c, Section::FriFinalPoly), None);
    assert_eq!(section_offset(&c, Section::FriFinalPoly), Some(1428 - 48 - 8 - 16));
    assert_eq!(section_offset(&c, Section::FriPowWitness), None);
    assert_eq!(section_offset(&c, Section::PublicInputs), None);
}

#[test]
fn a_serialized_proof_is_read_back() {
    for (seed, depth) in [(0u64, 2usize), (7, 0), (1 << 40, 9), (18446744069414584321 - 20000, 255)] {
        let p = codec_proof(seed, depth);
        let c = generate_verifier_config(&p).unwrap();
        let bytes = serialize_proof(&p, &c).unwrap();
        let q = deserialize_proof(&bytes, &c).unwrap();
        assert_eq!(q, p);
        assert_eq!(serialize_proof(&q, &c).unwrap(), bytes);
    }
}

#[test]
fn reading_back_needs_the_right_number_of_bytes() {
    let p = codec_proof(0, 2);
    let c = generate_verifier_config(&p).unwrap();
    let mut bytes = serialize_proof(&p, &c).unwrap();
    bytes.push(0);
    assert_eq!(deserialize_proof(&bytes, &c), Err(LayoutError::SizeMismatch));
    bytes.pop();
    bytes.pop();
    assert_eq!(deserialize_proof(&bytes, &c), Err(LayoutError::SizeMismatch));
    assert_eq!(deserialize_proof(&[], &c), Err(LayoutError::SizeMismatch));
}

#[test]
fn reading_back_needs_the_sizes_of_the_layout() {
    let p = codec_proof(0, 2);
    let c = generate_verifier_config(&p).unwrap();
    let bytes = serialize_proof(&p, &c).unwrap();
    let mut d = c;
    d.hash_size = 25;
    assert_eq!(deserialize_proof(&bytes, &d), Err(LayoutError::SizeMismatch));
    let mut d = c;
    d.num_fri_query_step0_p = 256;
    assert_eq!(deserialize_proof(&bytes, &d), Err(LayoutError::PathTooLong));
}

#[test]
fn reading_back_checks_the_depth_of_each_path() {
    let p = codec_proof(0, 2);
    let c = generate_verifier_config(&p).unwrap();
    let bytes = serialize_proof(&p, &c).unwrap();
    let start = section_offset(&c, Section::FriQueryRounds).unwrap();
    let depth_bytes = [24usize, 24 + 97, 24 + 97 + 81, 24 + 97 + 81 + 81, 348 + 64, 348 + 129];
    for round in 0..2 {
        for at in depth_bytes.iter() {
            let mut tampered = bytes.clone();
            tampered[start + round * 478 + at] += 1;
            assert_eq!(deserialize_proof(&tampered, &c), Err(LayoutError::ShapeMismatch));
        }
    }
    let mut changed = bytes.clone();
    changed[start + 3] ^= 0x55;
    let q = deserialize_proof(&changed, &c).unwrap();
    assert_ne!(q, p);
    assert_eq!(serialize_proof(&q, &c).unwrap(), changed);
}

#[test]
fn the_empty_shape_holds_the_witness_alone() {
    let mut c = generate_verifier_config(&codec_proof(0, 2)).unwrap();
    c.num_wires_cap = 0;
    c.num_plonk_zs_partial_products_cap = 0;
    c.num_quotient_polys_cap = 0;
    c.num_openings_constants = 0;
    c.num_openings_plonk_sigmas = 0;
    c.num_openings_wires = 0;
    c.num_openings_plonk_zs = 0;
    c.num_openings_plonk_zs_next = 0;
    c.num_openings_partial_products = 0;
    c.num_openings_quotient_polys = 0;
    c.num_fri_commit_round = 0;
    c.num_fri_query_round = 0;
    c.num_fri_final_poly_ext_v = 0;
    c.num_public_inputs = 0;
    let p = deserialize_proof(&[1, 2, 3, 4, 5, 6, 7, 8], &c).unwrap();
    assert_eq!(p.proof.opening_proof.pow_witness, 0x0807060504030201);
    assert!(p.public_inputs.is_empty());
    assert!(p.proof.opening_proof.query_round_proofs.is_empty());
    assert_eq!(serialize_proof(&p, &c).unwrap(), vec![1, 2, 3, 4, 5, 6, 7, 8]);
}

#[test]
fn serialize_rejects_a_word_that_is_not_canonical() {
    let mut p = codec_proof(0, 2);
    let c = generate_verifier_config(&p).unwrap();
    p.proof.openings.wires[2][1] = 18446744069414584321;
    assert_eq!(serialize_proof(&p, &c), Err(LayoutError::NonCanonical));
    p.proof.openings.wires[2][1] = 18446744069414584320;
    assert!(serialize_proof(&p, &c).is_ok());
    p.proof.opening_proof.pow_witness = u64::MAX;
    assert_eq!(serialize_proof(&p, &c), Err(LayoutError::NonCanonical));
}

#[test]
fn reading_back_rejects_a_word_that_is_not_canonical() {
    let p = codec_proof(0, 2);
    let c = generate_verifier_config(&p).unwrap();
    let bytes = serialize_proof(&p, &c).unwrap();
    let at = section_offset(&c, Section::FriPowWitness).unwrap();
    let mut high = bytes.clone();
    high[at..at + 8].copy_from_slice(&18446744069414584321u64.to_le_bytes());
    assert_eq!(deserialize_proof(&high, &c), Err(LayoutError::NonCanonical));
    let mut top = bytes.clone();
    top[at..at + 8].copy_from_slice(&18446744069414584320u64.to_le_bytes());
    let q = deserialize_proof(&top, &c).unwrap();
    assert_eq!(q.proof.opening_proof.pow_witness, 18446744069414584320);
    let mut word = bytes.clone();
    for b in word[0..8].iter_mut() {
        *b = 0xff;
    }
    assert_eq!(deserialize_proof(&word, &c), Err(LayoutError::NonCanonical));
}
