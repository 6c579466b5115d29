//! The data of a proof, held as plain integers: every field element is its
//! canonical 64-bit representative.

use vstd::prelude::*;

verus! {

/// A digest of the field-friendly hash: four field elements.
pub type HashOut = [u64; 4];

/// An element of the quadratic extension field: two base-field limbs.
pub type ExtElement = [u64; 2];

/// A Merkle cap: the digests of one layer near the top of a Merkle tree.
pub type MerkleCap = Vec<HashOut>;

/// The sibling digests along one path of a Merkle tree, leaf side first.
#[derive(Clone, Debug, PartialEq, Eq)]
pub struct MerkleProof {
    pub siblings: Vec<HashOut>,
}

/// The values of every committed polynomial at the challenge point.
#[derive(Clone, Debug, PartialEq, Eq)]
pub struct OpeningSet {
    pub constants: Vec<ExtElement>,
    pub plonk_sigmas: Vec<ExtElement>,
    pub wires: Vec<ExtElement>,
    pub plonk_zs: Vec<ExtElement>,
    pub plonk_zs_next: Vec<ExtElement>,
    pub partial_products: Vec<ExtElement>,
    pub quotient_polys: Vec<ExtElement>,
}

/// The leaves opened in the initial trees of one query round, each with
/// its Merkle path.
#[derive(Clone, Debug, PartialEq, Eq)]
pub struct FriInitialTreeProof {
    pub evals_proofs: Vec<(Vec<u64>, MerkleProof)>,
}

/// One reduction step of a query round.
#[derive(Clone, Debug, PartialEq, Eq)]
pub struct FriQueryStep {
    pub evals: Vec<ExtElement>,
    pub merkle_proof: MerkleProof,
}

/// One query round of the low-degree test.
#[derive(Clone, Debug, PartialEq, Eq)]
pub struct FriQueryRound {
    pub initial_trees_proof: FriInitialTreeProof,
    pub steps: Vec<FriQueryStep>,
}

/// The opening proof of the low-degree test.
#[derive(Clone, Debug, PartialEq, Eq)]
pub struct FriProof {
    pub commit_phase_merkle_caps: Vec<MerkleCap>,
    pub query_round_proofs: Vec<FriQueryRound>,
    pub final_poly: Vec<ExtElement>,
    pub pow_witness: u64,
}

/// A proof without its public inputs.
#[derive(Clone, Debug, PartialEq, Eq)]
pub struct Proof {
    pub wires_cap: MerkleCap,
    pub plonk_zs_partial_products_cap: MerkleCap,
    pub quotient_polys_cap: MerkleCap,
    pub openings: OpeningSet,
    pub opening_proof: FriProof,
}

/// A proof together with the public inputs it speaks of.
#[derive(Clone, Debug, PartialEq, Eq)]
pub struct ProofWithPublicInputs {
    pub proof: Proof,
    pub public_inputs: Vec<u64>,
}

/// What one query round holds: of each initial tree the leaf values and
/// the siblings of its path, of each reduction step the evaluations and
/// the siblings of its path.
pub struct RoundValues {
    pub trees: Seq<(Seq<u64>, Seq<HashOut>)>,
    pub steps: Seq<(Seq<ExtElement>, Seq<HashOut>)>,
}

/// What a proof with its public inputs holds.
pub struct ProofValues {
    pub wires_cap: Seq<HashOut>,
    pub plonk_zs_partial_products_cap: Seq<HashOut>,
    pub quotient_polys_cap: Seq<HashOut>,
    pub constants: Seq<ExtElement>,
    pub plonk_sigmas: Seq<ExtElement>,
    pub wires: Seq<ExtElement>,
    pub plonk_zs: Seq<ExtElement>,
    pub plonk_zs_next: Seq<ExtElement>,
    pub partial_products: Seq<ExtElement>,
    pub quotient_polys: Seq<ExtElement>,
    pub commit_phase_merkle_caps: Seq<Seq<HashOut>>,
    pub query_round_proofs: Seq<RoundValues>,
    pub final_poly: Seq<ExtElement>,
    pub pow_witness: u64,
    pub public_inputs: Seq<u64>,
}

impl View for FriQueryRound {
    type V = RoundValues;

    open spec fn view(&self) -> RoundValues {
        RoundValues {
            trees: Seq::new(
                self.initial_trees_proof.evals_proofs@.len(),
                |i: int|
                    (
                        self.initial_trees_proof.evals_proofs@[i].0@,
                        self.initial_trees_proof.evals_proofs@[i].1.siblings@,
                    ),
            ),
            steps: Seq::new(
                self.steps@.len(),
                |i: int| (self.steps@[i].evals@, self.steps@[i].merkle_proof.siblings@),
            ),
        }
    }
}

impl View for ProofWithPublicInputs {
    type V = ProofValues;

    open spec fn view(&self) -> ProofValues {
        let fri = self.proof.opening_proof;
        ProofValues {
            wires_cap: self.proof.wires_cap@,
            plonk_zs_partial_products_cap: self.proof.plonk_zs_partial_products_cap@,
            quotient_polys_cap: self.proof.quotient_polys_cap@,
            constants: self.proof.openings.constants@,
            plonk_sigmas: self.proof.openings.plonk_sigmas@,
            wires: self.proof.openings.wires@,
            plonk_zs: self.proof.openings.plonk_zs@,
            plonk_zs_next: self.proof.openings.plonk_zs_next@,
            partial_products: self.proof.openings.partial_products@,
            quotient_polys: self.proof.openings.quotient_polys@,
            commit_phase_merkle_caps: Seq::new(
                fri.commit_phase_merkle_caps@.len(),
                |i: int| fri.commit_phase_merkle_caps@[i]@,
            ),
            query_round_proofs: Seq::new(
                fri.query_round_proofs@.len(),
                |i: int| fri.query_round_proofs@[i]@,
            ),
            final_poly: fri.final_poly@,
            pow_witness: fri.pow_witness,
            public_inputs: self.public_inputs@,
        }
    }
}

} // verus!
