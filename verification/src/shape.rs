//! The shape of a proof: the length of each of its sections.

use vstd::prelude::*;
use crate::data::ProofWithPublicInputs;

verus! {

/// Bytes of one digest of the field-friendly hash.
pub const HASH_SIZE: usize = 32;

/// Bytes of one field element.
pub const FIELD_SIZE: usize = 8;

/// Bytes of one element of the extension field.
pub const EXT_FIELD_SIZE: usize = 16;

/// Bytes that record the depth of one Merkle path.
pub const MERKLE_HEIGHT_SIZE: usize = 1;

/// Reduction steps in every query round.
pub const NUM_FRI_STEPS: usize = 2;

/// Initial trees opened in every query round.
pub const NUM_INITIAL_TREES: usize = 4;

/// The length of every section of a proof, and the size of its elements.
/// It depends on the circuit alone, not on the values that a proof holds.
#[derive(Clone, Copy, Debug, PartialEq, Eq, Structural)]
pub struct VerifierConfig {
    pub hash_size: usize,
    pub field_size: usize,
    pub ext_field_size: usize,
    pub merkle_height_size: usize,
    pub num_wires_cap: usize,
    pub num_plonk_zs_partial_products_cap: usize,
    pub num_quotient_polys_cap: usize,
    pub num_openings_constants: usize,
    pub num_openings_plonk_sigmas: usize,
    pub num_openings_wires: usize,
    pub num_openings_plonk_zs: usize,
    pub num_openings_plonk_zs_next: usize,
    pub num_openings_partial_products: usize,
    pub num_openings_quotient_polys: usize,
    pub num_fri_commit_round: usize,
    pub fri_commit_merkle_cap_height: usize,
    pub num_fri_query_round: usize,
    pub num_fri_query_init_constants_sigmas_v: usize,
    pub num_fri_query_init_constants_sigmas_p: usize,
    pub num_fri_query_init_wires_v: usize,
    pub num_fri_query_init_wires_p: usize,
    pub num_fri_query_init_zs_partial_v: usize,
    pub num_fri_query_init_zs_partial_p: usize,
    pub num_fri_query_init_quotient_v: usize,
    pub num_fri_query_init_quotient_p: usize,
    pub num_fri_query_step0_v: usize,
    pub num_fri_query_step0_p: usize,
    pub num_fri_query_step1_v: usize,
    pub num_fri_query_step1_p: usize,
    pub num_fri_final_poly_ext_v: usize,
    pub num_public_inputs: usize,
}

/// Why a proof has no shape.
#[derive(Clone, Copy, Debug, PartialEq, Eq, Structural)]
pub enum ShapeError {
    /// The proof holds no query round to read the shape from.
    NoQueryRounds,
    /// The first query round does not hold exactly two reduction steps.
    FriStepCount,
    /// The proof holds no commit-phase cap.
    NoCommitPhaseCaps,
    /// The first query round opens fewer than four initial trees.
    InitialTreeCount,
}

/// The shape read from a proof: the lengths of its caps and openings, of
/// its first commit-phase cap, and of the values and paths of its first
/// query round.
pub open spec fn shape_of(p: ProofWithPublicInputs) -> Result<VerifierConfig, ShapeError> {
    let fri = p.proof.opening_proof;
    let rounds = fri.query_round_proofs@;
    if rounds.len() == 0 {
        Err(ShapeError::NoQueryRounds)
    } else if rounds[0].steps@.len() != NUM_FRI_STEPS {
        Err(ShapeError::FriStepCount)
    } else if fri.commit_phase_merkle_caps@.len() == 0 {
        Err(ShapeError::NoCommitPhaseCaps)
    } else if rounds[0].initial_trees_proof.evals_proofs@.len() < NUM_INITIAL_TREES {
        Err(ShapeError::InitialTreeCount)
    } else {
        let trees = rounds[0].initial_trees_proof.evals_proofs@;
        let steps = rounds[0].steps@;
        Ok(
            VerifierConfig {
                hash_size: HASH_SIZE,
                field_size: FIELD_SIZE,
                ext_field_size: EXT_FIELD_SIZE,
                merkle_height_size: MERKLE_HEIGHT_SIZE,
                num_wires_cap: p.proof.wires_cap@.len() as usize,
                num_plonk_zs_partial_products_cap: p.proof.plonk_zs_partial_products_cap@.len() as usize,
                num_quotient_polys_cap: p.proof.quotient_polys_cap@.len() as usize,
                num_openings_constants: p.proof.openings.constants@.len() as usize,
                num_openings_plonk_sigmas: p.proof.openings.plonk_sigmas@.len() as usize,
                num_openings_wires: p.proof.openings.wires@.len() as usize,
                num_openings_plonk_zs: p.proof.openings.plonk_zs@.len() as usize,
                num_openings_plonk_zs_next: p.proof.openings.plonk_zs_next@.len() as usize,
                num_openings_partial_products: p.proof.openings.partial_products@.len() as usize,
                num_openings_quotient_polys: p.proof.openings.quotient_polys@.len() as usize,
                num_fri_commit_round: fri.commit_phase_merkle_caps@.len() as usize,
                fri_commit_merkle_cap_height: fri.commit_phase_merkle_caps@[0]@.len() as usize,
                num_fri_query_round: rounds.len() as usize,
                num_fri_query_init_constants_sigmas_v: trees[0].0@.len() as usize,
                num_fri_query_init_constants_sigmas_p: trees[0].1.siblings@.len() as usize,
                num_fri_query_init_wires_v: trees[1].0@.len() as usize,
                num_fri_query_init_wires_p: trees[1].1.siblings@.len() as usize,
                num_fri_query_init_zs_partial_v: trees[2].0@.len() as usize,
                num_fri_query_init_zs_partial_p: trees[2].1.siblings@.len() as usize,
                num_fri_query_init_quotient_v: trees[3].0@.len() as usize,
                num_fri_query_init_quotient_p: trees[3].1.siblings@.len() as usize,
                num_fri_query_step0_v: steps[0].evals@.len() as usize,
                num_fri_query_step0_p: steps[0].merkle_proof.siblings@.len() as usize,
                num_fri_query_step1_v: steps[1].evals@.len() as usize,
                num_fri_query_step1_p: steps[1].merkle_proof.siblings@.len() as usize,
                num_fri_final_poly_ext_v: fri.final_poly@.len() as usize,
                num_public_inputs: p.public_inputs@.len() as usize,
            },
        )
    }
}

/// Why no shape can be read from a proof, or `None` where one can.
pub fn shape_defect(pwpi: &ProofWithPublicInputs) -> (defect: Option<ShapeError>)
    ensures
        match shape_of(*pwpi) {
            Ok(_) => defect is None,
            Err(e) => defect == Some(e),
        },
{
    let fri = &pwpi.proof.opening_proof;
    if fri.query_round_proofs.len() == 0 {
        return Some(ShapeError::NoQueryRounds);
    }
    let round = &fri.query_round_proofs[0];
    if round.steps.len() != NUM_FRI_STEPS {
        return Some(ShapeError::FriStepCount);
    }
    if fri.commit_phase_merkle_caps.len() == 0 {
        return Some(ShapeError::NoCommitPhaseCaps);
    }
    if round.initial_trees_proof.evals_proofs.len() < NUM_INITIAL_TREES {
        return Some(ShapeError::InitialTreeCount);
    }
    None
}

/// Reads the shape of a proof. The shape is taken from the lengths of the
/// proof's sections and from its first query round; no value of the proof
/// is looked at.
///
/// The proof has to have a shape: a first query round with exactly two
/// reduction steps and at least four initial trees, and a commit-phase
/// cap. `shape_defect` tells whether it has; `try_generate_verifier_config`
/// asks first.
pub fn generate_verifier_config(pwpi: &ProofWithPublicInputs) -> (res: Result<
    VerifierConfig,
    ShapeError,
>)
    requires
        shape_of(*pwpi) is Ok,
    ensures
        res is Ok,
        res == shape_of(*pwpi),
{
    let proof = &pwpi.proof;
    let fri = &proof.opening_proof;
    let round = &fri.query_round_proofs[0];
    let trees = &round.initial_trees_proof.evals_proofs;
    let steps = &round.steps;
    Ok(
        VerifierConfig {
            hash_size: HASH_SIZE,
            field_size: FIELD_SIZE,
            ext_field_size: EXT_FIELD_SIZE,
            merkle_height_size: MERKLE_HEIGHT_SIZE,
            num_wires_cap: proof.wires_cap.len(),
            num_plonk_zs_partial_products_cap: proof.plonk_zs_partial_products_cap.len(),
            num_quotient_polys_cap: proof.quotient_polys_cap.len(),
            num_openings_constants: proof.openings.constants.len(),
            num_openings_plonk_sigmas: proof.openings.plonk_sigmas.len(),
            num_openings_wires: proof.openings.wires.len(),
            num_openings_plonk_zs: proof.openings.plonk_zs.len(),
            num_openings_plonk_zs_next: proof.openings.plonk_zs_next.len(),
            num_openings_partial_products: proof.openings.partial_products.len(),
            num_openings_quotient_polys: proof.openings.quotient_polys.len(),
            num_fri_commit_round: fri.commit_phase_merkle_caps.len(),
            fri_commit_merkle_cap_height: fri.commit_phase_merkle_caps[0].len(),
            num_fri_query_round: fri.query_round_proofs.len(),
            num_fri_query_init_constants_sigmas_v: trees[0].0.len(),
            num_fri_query_init_constants_sigmas_p: trees[0].1.siblings.len(),
            num_fri_query_init_wires_v: trees[1].0.len(),
            num_fri_query_init_wires_p: trees[1].1.siblings.len(),
            num_fri_query_init_zs_partial_v: trees[2].0.len(),
            num_fri_query_init_zs_partial_p: trees[2].1.siblings.len(),
            num_fri_query_init_quotient_v: trees[3].0.len(),
            num_fri_query_init_quotient_p: trees[3].1.siblings.len(),
            num_fri_query_step0_v: steps[0].evals.len(),
            num_fri_query_step0_p: steps[0].merkle_proof.siblings.len(),
            num_fri_query_step1_v: steps[1].evals.len(),
            num_fri_query_step1_p: steps[1].merkle_proof.siblings.len(),
            num_fri_final_poly_ext_v: fri.final_poly.len(),
            num_public_inputs: pwpi.public_inputs.len(),
        },
    )
}

/// Reads the shape of a proof, or says why it has none.
pub fn try_generate_verifier_config(pwpi: &ProofWithPublicInputs) -> (res: Result<
    VerifierConfig,
    ShapeError,
>)
    ensures
        res == shape_of(*pwpi),
{
    match shape_defect(pwpi) {
        Some(e) => Err(e),
        None => generate_verifier_config(pwpi),
    }
}

} // verus!
