//! The flat byte layout of a proof: the closed form of its size, the place
//! of each section in it, and the bytes themselves.

use vstd::prelude::*;
use vstd::arithmetic::overflow::CheckedUsize;
use crate::data::{ExtElement, FriQueryRound, HashOut, ProofWithPublicInputs};
use crate::shape::{
    shape_of, ShapeError, VerifierConfig, EXT_FIELD_SIZE, FIELD_SIZE, HASH_SIZE,
    MERKLE_HEIGHT_SIZE, NUM_FRI_STEPS, NUM_INITIAL_TREES,
};

verus! {

/// Bytes of the three caps at the head of a proof.
pub open spec fn caps_size(c: VerifierConfig) -> int {
    (c.num_wires_cap + c.num_plonk_zs_partial_products_cap + c.num_quotient_polys_cap)
        * c.hash_size
}

/// Number of opened values, all seven groups together.
pub open spec fn num_openings(c: VerifierConfig) -> int {
    c.num_openings_constants + c.num_openings_plonk_sigmas + c.num_openings_wires
        + c.num_openings_plonk_zs + c.num_openings_plonk_zs_next
        + c.num_openings_partial_products + c.num_openings_quotient_polys
}

/// Bytes of the opened values.
pub open spec fn openings_size(c: VerifierConfig) -> int {
    num_openings(c) * c.ext_field_size
}

/// Bytes of the caps of the commit phase.
pub open spec fn commit_phase_size(c: VerifierConfig) -> int {
    (c.num_fri_commit_round * c.fri_commit_merkle_cap_height) * c.hash_size
}

/// Bytes that one query round spends on its four initial trees: the leaf
/// values, the Merkle paths, and one byte for the depth of each path.
pub open spec fn query_init_size(c: VerifierConfig) -> int {
    (c.num_fri_query_init_constants_sigmas_v + c.num_fri_query_init_wires_v
        + c.num_fri_query_init_zs_partial_v + c.num_fri_query_init_quotient_v) * c.field_size
        + (c.num_fri_query_init_constants_sigmas_p + c.num_fri_query_init_wires_p
        + c.num_fri_query_init_zs_partial_p + c.num_fri_query_init_quotient_p) * c.hash_size
        + c.merkle_height_size * 4
}

/// Bytes that one query round spends on its two reduction steps.
pub open spec fn query_steps_size(c: VerifierConfig) -> int {
    c.num_fri_query_step0_v * c.ext_field_size + c.num_fri_query_step0_p * c.hash_size
        + c.merkle_height_size + c.num_fri_query_step1_v * c.ext_field_size
        + c.num_fri_query_step1_p * c.hash_size + c.merkle_height_size
}

/// Bytes of all query rounds.
pub open spec fn query_rounds_size(c: VerifierConfig) -> int {
    c.num_fri_query_round * query_init_size(c) + c.num_fri_query_round * query_steps_size(c)
}

/// Bytes of the coefficients of the final polynomial.
pub open spec fn final_poly_size(c: VerifierConfig) -> int {
    c.num_fri_final_poly_ext_v * c.ext_field_size
}

/// Bytes of the public inputs.
pub open spec fn public_inputs_size(c: VerifierConfig) -> int {
    c.num_public_inputs * c.field_size
}

/// The size in bytes of a proof of the given shape: the sum of its
/// sections, in the order in which they are laid out. The proof-of-work
/// witness is the one field element between the final polynomial and the
/// public inputs.
pub open spec fn closed_form_size(c: VerifierConfig) -> int {
    caps_size(c) + openings_size(c) + commit_phase_size(c) + query_rounds_size(c)
        + final_poly_size(c) + c.field_size + public_inputs_size(c)
}

/// Whether the shape counts its elements in the sizes this library lays
/// them out in.
pub open spec fn standard_sizes(c: VerifierConfig) -> bool {
    &&& c.hash_size == HASH_SIZE
    &&& c.field_size == FIELD_SIZE
    &&& c.ext_field_size == EXT_FIELD_SIZE
    &&& c.merkle_height_size == MERKLE_HEIGHT_SIZE
}

fn sum3(a: usize, b: usize, c: usize) -> (r: CheckedUsize)
    ensures
        r@ == a + b + c,
{
    CheckedUsize::new(a).add_value(b).add_value(c)
}

fn sum4(a: usize, b: usize, c: usize, d: usize) -> (r: CheckedUsize)
    ensures
        r@ == a + b + c + d,
{
    CheckedUsize::new(a).add_value(b).add_value(c).add_value(d)
}

/// The size in bytes of a proof of the given shape, or `None` where that
/// size does not fit the machine word.
pub fn proof_size(conf: &VerifierConfig) -> (size: Option<usize>)
    ensures
        match size {
            Some(n) => n == closed_form_size(*conf),
            None => closed_form_size(*conf) > usize::MAX,
        },
{
    let caps = sum3(
        conf.num_wires_cap,
        conf.num_plonk_zs_partial_products_cap,
        conf.num_quotient_polys_cap,
    ).mul_value(conf.hash_size);
    let openings = sum4(
        conf.num_openings_constants,
        conf.num_openings_plonk_sigmas,
        conf.num_openings_wires,
        conf.num_openings_plonk_zs,
    ).add_value(conf.num_openings_plonk_zs_next).add_value(
        conf.num_openings_partial_products,
    ).add_value(conf.num_openings_quotient_polys).mul_value(conf.ext_field_size);
    let commit = CheckedUsize::new(conf.num_fri_commit_round).mul_value(
        conf.fri_commit_merkle_cap_height,
    ).mul_value(conf.hash_size);
    let init_values = sum4(
        conf.num_fri_query_init_constants_sigmas_v,
        conf.num_fri_query_init_wires_v,
        conf.num_fri_query_init_zs_partial_v,
        conf.num_fri_query_init_quotient_v,
    ).mul_value(conf.field_size);
    let init_paths = sum4(
        conf.num_fri_query_init_constants_sigmas_p,
        conf.num_fri_query_init_wires_p,
        conf.num_fri_query_init_zs_partial_p,
        conf.num_fri_query_init_quotient_p,
    ).mul_value(conf.hash_size);
    let init_heights = CheckedUsize::new(conf.merkle_height_size).mul_value(4);
    let init = init_values.add_checked(&init_paths).add_checked(&init_heights);
    let rounds = CheckedUsize::new(conf.num_fri_query_round);
    let all_init = rounds.mul_checked(&init);
    let step0_values = CheckedUsize::new(conf.num_fri_query_step0_v).mul_value(
        conf.ext_field_size,
    );
    let step0_path = CheckedUsize::new(conf.num_fri_query_step0_p).mul_value(conf.hash_size);
    let step1_values = CheckedUsize::new(conf.num_fri_query_step1_v).mul_value(
        conf.ext_field_size,
    );
    let step1_path = CheckedUsize::new(conf.num_fri_query_step1_p).mul_value(conf.hash_size);
    let steps = step0_values.add_checked(&step0_path).add_value(
        conf.merkle_height_size,
    ).add_checked(&step1_values).add_checked(&step1_path).add_value(conf.merkle_height_size);
    let all_steps = rounds.mul_checked(&steps);
    let final_poly = CheckedUsize::new(conf.num_fri_final_poly_ext_v).mul_value(
        conf.ext_field_size,
    );
    let public_inputs = CheckedUsize::new(conf.num_public_inputs).mul_value(conf.field_size);
    let total = caps.add_checked(&openings).add_checked(&commit).add_checked(
        &all_init,
    ).add_checked(&all_steps).add_checked(&final_poly).add_value(conf.field_size).add_checked(
        &public_inputs,
    );
    total.to_option()
}

/// The leaf values opened in the `k`-th initial tree of a query round.
pub open spec fn tree_values(r: FriQueryRound, k: int) -> Seq<u64> {
    r.initial_trees_proof.evals_proofs@[k].0@
}

/// The Merkle path of the `k`-th initial tree of a query round.
pub open spec fn tree_path(r: FriQueryRound, k: int) -> Seq<HashOut> {
    r.initial_trees_proof.evals_proofs@[k].1.siblings@
}

/// The evaluations of the `k`-th reduction step of a query round.
pub open spec fn step_values(r: FriQueryRound, k: int) -> Seq<ExtElement> {
    r.steps@[k].evals@
}

/// The Merkle path of the `k`-th reduction step of a query round.
pub open spec fn step_path(r: FriQueryRound, k: int) -> Seq<HashOut> {
    r.steps@[k].merkle_proof.siblings@
}

/// Whether a query round holds four initial trees and two reduction
/// steps, each with at least as many values and siblings as the shape
/// counts.
pub open spec fn round_fits(r: FriQueryRound, c: VerifierConfig) -> bool {
    &&& r.initial_trees_proof.evals_proofs@.len() == NUM_INITIAL_TREES
    &&& r.steps@.len() == NUM_FRI_STEPS
    &&& c.num_fri_query_init_constants_sigmas_v <= tree_values(r, 0).len()
    &&& c.num_fri_query_init_constants_sigmas_p <= tree_path(r, 0).len()
    &&& c.num_fri_query_init_wires_v <= tree_values(r, 1).len()
    &&& c.num_fri_query_init_wires_p <= tree_path(r, 1).len()
    &&& c.num_fri_query_init_zs_partial_v <= tree_values(r, 2).len()
    &&& c.num_fri_query_init_zs_partial_p <= tree_path(r, 2).len()
    &&& c.num_fri_query_init_quotient_v <= tree_values(r, 3).len()
    &&& c.num_fri_query_init_quotient_p <= tree_path(r, 3).len()
    &&& c.num_fri_query_step0_v <= step_values(r, 0).len()
    &&& c.num_fri_query_step0_p <= step_path(r, 0).len()
    &&& c.num_fri_query_step1_v <= step_values(r, 1).len()
    &&& c.num_fri_query_step1_p <= step_path(r, 1).len()
}

/// Whether a query round holds exactly what the shape counts.
pub open spec fn round_conforms(r: FriQueryRound, c: VerifierConfig) -> bool {
    &&& r.initial_trees_proof.evals_proofs@.len() == NUM_INITIAL_TREES
    &&& r.steps@.len() == NUM_FRI_STEPS
    &&& c.num_fri_query_init_constants_sigmas_v == tree_values(r, 0).len()
    &&& c.num_fri_query_init_constants_sigmas_p == tree_path(r, 0).len()
    &&& c.num_fri_query_init_wires_v == tree_values(r, 1).len()
    &&& c.num_fri_query_init_wires_p == tree_path(r, 1).len()
    &&& c.num_fri_query_init_zs_partial_v == tree_values(r, 2).len()
    &&& c.num_fri_query_init_zs_partial_p == tree_path(r, 2).len()
    &&& c.num_fri_query_init_quotient_v == tree_values(r, 3).len()
    &&& c.num_fri_query_init_quotient_p == tree_path(r, 3).len()
    &&& c.num_fri_query_step0_v == step_values(r, 0).len()
    &&& c.num_fri_query_step0_p == step_path(r, 0).len()
    &&& c.num_fri_query_step1_v == step_values(r, 1).len()
    &&& c.num_fri_query_step1_p == step_path(r, 1).len()
}

/// Whether every section that the shape counts can be read from the
/// proof: no section of the proof is shorter than the shape says, each
/// of the first `num_fri_commit_round` commit-phase caps has the height
/// the shape says, and each of the first `num_fri_query_round` query
/// rounds fits.
pub open spec fn fits(p: ProofWithPublicInputs, c: VerifierConfig) -> bool {
    let fri = p.proof.opening_proof;
    &&& c.num_wires_cap <= p.proof.wires_cap@.len()
    &&& c.num_plonk_zs_partial_products_cap <= p.proof.plonk_zs_partial_products_cap@.len()
    &&& c.num_quotient_polys_cap <= p.proof.quotient_polys_cap@.len()
    &&& c.num_openings_constants <= p.proof.openings.constants@.len()
    &&& c.num_openings_plonk_sigmas <= p.proof.openings.plonk_sigmas@.len()
    &&& c.num_openings_wires <= p.proof.openings.wires@.len()
    &&& c.num_openings_plonk_zs <= p.proof.openings.plonk_zs@.len()
    &&& c.num_openings_plonk_zs_next <= p.proof.openings.plonk_zs_next@.len()
    &&& c.num_openings_partial_products <= p.proof.openings.partial_products@.len()
    &&& c.num_openings_quotient_polys <= p.proof.openings.quotient_polys@.len()
    &&& c.num_fri_commit_round <= fri.commit_phase_merkle_caps@.len()
    &&& forall|i: int|
        0 <= i < c.num_fri_commit_round ==> (#[trigger] fri.commit_phase_merkle_caps@[i])@.len()
            == c.fri_commit_merkle_cap_height
    &&& c.num_fri_query_round <= fri.query_round_proofs@.len()
    &&& forall|i: int|
        0 <= i < c.num_fri_query_round ==> round_fits(#[trigger] fri.query_round_proofs@[i], c)
    &&& c.num_fri_final_poly_ext_v <= fri.final_poly@.len()
    &&& c.num_public_inputs <= p.public_inputs@.len()
}

/// Whether the proof has exactly the shape `c`: every section as long as
/// the shape says, in every commit-phase cap and in every query round,
/// with elements of the sizes this library lays them out in.
pub open spec fn conforms(p: ProofWithPublicInputs, c: VerifierConfig) -> bool {
    let fri = p.proof.opening_proof;
    &&& standard_sizes(c)
    &&& c.num_wires_cap == p.proof.wires_cap@.len()
    &&& c.num_plonk_zs_partial_products_cap == p.proof.plonk_zs_partial_products_cap@.len()
    &&& c.num_quotient_polys_cap == p.proof.quotient_polys_cap@.len()
    &&& c.num_openings_constants == p.proof.openings.constants@.len()
    &&& c.num_openings_plonk_sigmas == p.proof.openings.plonk_sigmas@.len()
    &&& c.num_openings_wires == p.proof.openings.wires@.len()
    &&& c.num_openings_plonk_zs == p.proof.openings.plonk_zs@.len()
    &&& c.num_openings_plonk_zs_next == p.proof.openings.plonk_zs_next@.len()
    &&& c.num_openings_partial_products == p.proof.openings.partial_products@.len()
    &&& c.num_openings_quotient_polys == p.proof.openings.quotient_polys@.len()
    &&& c.num_fri_commit_round == fri.commit_phase_merkle_caps@.len()
    &&& forall|i: int|
        0 <= i < fri.commit_phase_merkle_caps@.len() ==> (
        #[trigger] fri.commit_phase_merkle_caps@[i])@.len() == c.fri_commit_merkle_cap_height
    &&& c.num_fri_query_round == fri.query_round_proofs@.len()
    &&& forall|i: int|
        0 <= i < fri.query_round_proofs@.len() ==> round_conforms(
            #[trigger] fri.query_round_proofs@[i],
            c,
        )
    &&& c.num_fri_final_poly_ext_v == fri.final_poly@.len()
    &&& c.num_public_inputs == p.public_inputs@.len()
}

/// Whether a query round fits the shape.
pub fn check_round_fits(r: &FriQueryRound, c: &VerifierConfig) -> (b: bool)
    ensures
        b == round_fits(*r, *c),
{
    let trees = &r.initial_trees_proof.evals_proofs;
    if trees.len() != NUM_INITIAL_TREES || r.steps.len() != NUM_FRI_STEPS {
        return false;
    }
    c.num_fri_query_init_constants_sigmas_v <= trees[0].0.len()
        && c.num_fri_query_init_constants_sigmas_p <= trees[0].1.siblings.len()
        && c.num_fri_query_init_wires_v <= trees[1].0.len() && c.num_fri_query_init_wires_p
        <= trees[1].1.siblings.len() && c.num_fri_query_init_zs_partial_v <= trees[2].0.len()
        && c.num_fri_query_init_zs_partial_p <= trees[2].1.siblings.len()
        && c.num_fri_query_init_quotient_v <= trees[3].0.len()
        && c.num_fri_query_init_quotient_p <= trees[3].1.siblings.len()
        && c.num_fri_query_step0_v <= r.steps[0].evals.len() && c.num_fri_query_step0_p
        <= r.steps[0].merkle_proof.siblings.len() && c.num_fri_query_step1_v
        <= r.steps[1].evals.len() && c.num_fri_query_step1_p
        <= r.steps[1].merkle_proof.siblings.len()
}

/// Whether every section that the shape counts can be read from the proof.
pub fn check_fits(p: &ProofWithPublicInputs, c: &VerifierConfig) -> (b: bool)
    ensures
        b == fits(*p, *c),
{
    let fri = &p.proof.opening_proof;
    if !(c.num_wires_cap <= p.proof.wires_cap.len() && c.num_plonk_zs_partial_products_cap
        <= p.proof.plonk_zs_partial_products_cap.len() && c.num_quotient_polys_cap
        <= p.proof.quotient_polys_cap.len() && c.num_openings_constants
        <= p.proof.openings.constants.len() && c.num_openings_plonk_sigmas
        <= p.proof.openings.plonk_sigmas.len() && c.num_openings_wires
        <= p.proof.openings.wires.len() && c.num_openings_plonk_zs
        <= p.proof.openings.plonk_zs.len() && c.num_openings_plonk_zs_next
        <= p.proof.openings.plonk_zs_next.len() && c.num_openings_partial_products
        <= p.proof.openings.partial_products.len() && c.num_openings_quotient_polys
        <= p.proof.openings.quotient_polys.len() && c.num_fri_commit_round
        <= fri.commit_phase_merkle_caps.len() && c.num_fri_query_round
        <= fri.query_round_proofs.len() && c.num_fri_final_poly_ext_v <= fri.final_poly.len()
        && c.num_public_inputs <= p.public_inputs.len()) {
        return false;
    }
    let mut i: usize = 0;
    while i < c.num_fri_commit_round
        invariant
            *fri == p.proof.opening_proof,
            i <= c.num_fri_commit_round <= fri.commit_phase_merkle_caps@.len(),
            forall|j: int|
                0 <= j < i ==> (#[trigger] fri.commit_phase_merkle_caps@[j])@.len()
                    == c.fri_commit_merkle_cap_height,
        decreases c.num_fri_commit_round - i,
    {
        if fri.commit_phase_merkle_caps[i].len() != c.fri_commit_merkle_cap_height {
            assert(fri.commit_phase_merkle_caps@[i as int]@.len()
                != c.fri_commit_merkle_cap_height);
            return false;
        }
        i += 1;
    }
    let mut k: usize = 0;
    while k < c.num_fri_query_round
        invariant
            *fri == p.proof.opening_proof,
            k <= c.num_fri_query_round <= fri.query_round_proofs@.len(),
            forall|j: int| 0 <= j < k ==> round_fits(#[trigger] fri.query_round_proofs@[j], *c),
        decreases c.num_fri_query_round - k,
    {
        if !check_round_fits(&fri.query_round_proofs[k], c) {
            assert(!round_fits(fri.query_round_proofs@[k as int], *c));
            return false;
        }
        k += 1;
    }
    true
}

/// Whether a query round holds exactly what the shape counts.
pub fn check_round_conforms(r: &FriQueryRound, c: &VerifierConfig) -> (b: bool)
    ensures
        b == round_conforms(*r, *c),
{
    let trees = &r.initial_trees_proof.evals_proofs;
    if trees.len() != NUM_INITIAL_TREES || r.steps.len() != NUM_FRI_STEPS {
        return false;
    }
    c.num_fri_query_init_constants_sigmas_v == trees[0].0.len()
        && c.num_fri_query_init_constants_sigmas_p == trees[0].1.siblings.len()
        && c.num_fri_query_init_wires_v == trees[1].0.len() && c.num_fri_query_init_wires_p
        == trees[1].1.siblings.len() && c.num_fri_query_init_zs_partial_v == trees[2].0.len()
        && c.num_fri_query_init_zs_partial_p == trees[2].1.siblings.len()
        && c.num_fri_query_init_quotient_v == trees[3].0.len()
        && c.num_fri_query_init_quotient_p == trees[3].1.siblings.len()
        && c.num_fri_query_step0_v == r.steps[0].evals.len() && c.num_fri_query_step0_p
        == r.steps[0].merkle_proof.siblings.len() && c.num_fri_query_step1_v
        == r.steps[1].evals.len() && c.num_fri_query_step1_p
        == r.steps[1].merkle_proof.siblings.len()
}

/// Whether the proof has exactly the shape `c`.
pub fn check_conforms(p: &ProofWithPublicInputs, c: &VerifierConfig) -> (b: bool)
    ensures
        b == conforms(*p, *c),
{
    let fri = &p.proof.opening_proof;
    if !(c.hash_size == HASH_SIZE && c.field_size == FIELD_SIZE && c.ext_field_size
        == EXT_FIELD_SIZE && c.merkle_height_size == MERKLE_HEIGHT_SIZE) {
        return false;
    }
    if !(c.num_wires_cap == p.proof.wires_cap.len() && c.num_plonk_zs_partial_products_cap
        == p.proof.plonk_zs_partial_products_cap.len() && c.num_quotient_polys_cap
        == p.proof.quotient_polys_cap.len() && c.num_openings_constants
        == p.proof.openings.constants.len() && c.num_openings_plonk_sigmas
        == p.proof.openings.plonk_sigmas.len() && c.num_openings_wires
        == p.proof.openings.wires.len() && c.num_openings_plonk_zs
        == p.proof.openings.plonk_zs.len() && c.num_openings_plonk_zs_next
        == p.proof.openings.plonk_zs_next.len() && c.num_openings_partial_products
        == p.proof.openings.partial_products.len() && c.num_openings_quotient_polys
        == p.proof.openings.quotient_polys.len() && c.num_fri_commit_round
        == fri.commit_phase_merkle_caps.len() && c.num_fri_query_round
        == fri.query_round_proofs.len() && c.num_fri_final_poly_ext_v == fri.final_poly.len()
        && c.num_public_inputs == p.public_inputs.len()) {
        return false;
    }
    let mut i: usize = 0;
    while i < fri.commit_phase_merkle_caps.len()
        invariant
            *fri == p.proof.opening_proof,
            i <= fri.commit_phase_merkle_caps@.len(),
            forall|j: int|
                0 <= j < i ==> (#[trigger] fri.commit_phase_merkle_caps@[j])@.len()
                    == c.fri_commit_merkle_cap_height,
        decreases fri.commit_phase_merkle_caps@.len() - i,
    {
        if fri.commit_phase_merkle_caps[i].len() != c.fri_commit_merkle_cap_height {
            assert(fri.commit_phase_merkle_caps@[i as int]@.len()
                != c.fri_commit_merkle_cap_height);
            return false;
        }
        i += 1;
    }
    let mut k: usize = 0;
    while k < fri.query_round_proofs.len()
        invariant
            *fri == p.proof.opening_proof,
            k <= fri.query_round_proofs@.len(),
            forall|j: int|
                0 <= j < k ==> round_conforms(#[trigger] fri.query_round_proofs@[j], *c),
        decreases fri.query_round_proofs@.len() - k,
    {
        if !check_round_conforms(&fri.query_round_proofs[k], c) {
            assert(!round_conforms(fri.query_round_proofs@[k as int], *c));
            return false;
        }
        k += 1;
    }
    true
}

/// The shape does not depend on the values of a proof: two proofs of one
/// shape are read as the same shape, and where the shape counts a query
/// round and a commit-phase cap, that shape is the one read.
pub proof fn lemma_shape_is_witness_independent(
    first: ProofWithPublicInputs,
    second: ProofWithPublicInputs,
    c: VerifierConfig,
)
    requires
        conforms(first, c),
        conforms(second, c),
    ensures
        shape_of(first) == shape_of(second),
        c.num_fri_query_round > 0 && c.num_fri_commit_round > 0 ==> shape_of(first) == Ok::<
            VerifierConfig,
            ShapeError,
        >(c),
{
    if c.num_fri_query_round > 0 {
        let r1 = first.proof.opening_proof.query_round_proofs@[0];
        let r2 = second.proof.opening_proof.query_round_proofs@[0];
        assert(round_conforms(r1, c));
        assert(round_conforms(r2, c));
        if c.num_fri_commit_round > 0 {
            assert(first.proof.opening_proof.commit_phase_merkle_caps@[0]@.len()
                == c.fri_commit_merkle_cap_height);
            assert(second.proof.opening_proof.commit_phase_merkle_caps@[0]@.len()
                == c.fri_commit_merkle_cap_height);
        }
    }
}

} // verus!
