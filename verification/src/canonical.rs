//! Canonical proofs: every word of a proof stands for a field element in
//! its canonical form.

use vstd::prelude::*;
use crate::data::{
    ExtElement, FriQueryRound, HashOut, MerkleCap, ProofValues, ProofWithPublicInputs,
    RoundValues,
};
use crate::field::{is_canonical, GOLDILOCKS_ORDER};

verus! {

/// Whether every word is canonical.
pub open spec fn words_canonical(ws: Seq<u64>) -> bool {
    forall|i: int| 0 <= i < ws.len() ==> is_canonical(#[trigger] ws[i])
}

/// Whether every word of every digest is canonical.
pub open spec fn digests_canonical(ds: Seq<HashOut>) -> bool {
    forall|i: int| 0 <= i < ds.len() ==> words_canonical((#[trigger] ds[i])@)
}

/// Whether both words of every element of the extension field are
/// canonical.
pub open spec fn exts_canonical(es: Seq<ExtElement>) -> bool {
    forall|i: int| 0 <= i < es.len() ==> words_canonical((#[trigger] es[i])@)
}

/// Whether the leaf values and the path of an initial tree are canonical.
pub open spec fn tree_canonical(t: (Seq<u64>, Seq<HashOut>)) -> bool {
    words_canonical(t.0) && digests_canonical(t.1)
}

/// Whether the evaluations and the path of a reduction step are
/// canonical.
pub open spec fn step_canonical(s: (Seq<ExtElement>, Seq<HashOut>)) -> bool {
    exts_canonical(s.0) && digests_canonical(s.1)
}

/// Whether every word of a query round is canonical.
pub open spec fn round_canonical(r: RoundValues) -> bool {
    &&& forall|i: int| 0 <= i < r.trees.len() ==> tree_canonical(#[trigger] r.trees[i])
    &&& forall|i: int| 0 <= i < r.steps.len() ==> step_canonical(#[trigger] r.steps[i])
}

/// Whether every word of what a proof holds is canonical.
pub open spec fn canonical_values(v: ProofValues) -> bool {
    &&& digests_canonical(v.wires_cap)
    &&& digests_canonical(v.plonk_zs_partial_products_cap)
    &&& digests_canonical(v.quotient_polys_cap)
    &&& exts_canonical(v.constants)
    &&& exts_canonical(v.plonk_sigmas)
    &&& exts_canonical(v.wires)
    &&& exts_canonical(v.plonk_zs)
    &&& exts_canonical(v.plonk_zs_next)
    &&& exts_canonical(v.partial_products)
    &&& exts_canonical(v.quotient_polys)
    &&& forall|i: int|
        0 <= i < v.commit_phase_merkle_caps.len() ==> digests_canonical(
            #[trigger] v.commit_phase_merkle_caps[i],
        )
    &&& forall|i: int|
        0 <= i < v.query_round_proofs.len() ==> round_canonical(#[trigger] v.query_round_proofs[i])
    &&& exts_canonical(v.final_poly)
    &&& is_canonical(v.pow_witness)
    &&& words_canonical(v.public_inputs)
}

/// Whether a proof is canonical: every word of it is below the order of
/// the field.
pub open spec fn canonical(p: ProofWithPublicInputs) -> bool {
    canonical_values(p@)
}

/// Whether every word is canonical.
pub fn check_words(ws: &[u64]) -> (b: bool)
    ensures
        b == words_canonical(ws@),
{
    let mut i: usize = 0;
    while i < ws.len()
        invariant
            i <= ws@.len(),
            forall|j: int| 0 <= j < i ==> is_canonical(#[trigger] ws@[j]),
        decreases ws@.len() - i,
    {
        if ws[i] >= GOLDILOCKS_ORDER {
            assert(!is_canonical(ws@[i as int]));
            return false;
        }
        i += 1;
    }
    true
}

/// Whether every word of every digest is canonical.
pub fn check_digests(ds: &Vec<HashOut>) -> (b: bool)
    ensures
        b == digests_canonical(ds@),
{
    let mut i: usize = 0;
    while i < ds.len()
        invariant
            i <= ds@.len(),
            forall|j: int| 0 <= j < i ==> words_canonical((#[trigger] ds@[j])@),
        decreases ds@.len() - i,
    {
        if !check_words(ds[i].as_slice()) {
            assert(!words_canonical(ds@[i as int]@));
            return false;
        }
        i += 1;
    }
    true
}

/// Whether both words of every element of the extension field are
/// canonical.
pub fn check_exts(es: &Vec<ExtElement>) -> (b: bool)
    ensures
        b == exts_canonical(es@),
{
    let mut i: usize = 0;
    while i < es.len()
        invariant
            i <= es@.len(),
            forall|j: int| 0 <= j < i ==> words_canonical((#[trigger] es@[j])@),
        decreases es@.len() - i,
    {
        if !check_words(es[i].as_slice()) {
            assert(!words_canonical(es@[i as int]@));
            return false;
        }
        i += 1;
    }
    true
}

/// Whether every word of every cap is canonical.
fn check_caps(caps: &Vec<MerkleCap>) -> (b: bool)
    ensures
        b == (forall|i: int| 0 <= i < caps@.len() ==> digests_canonical((#[trigger] caps@[i])@)),
{
    let mut i: usize = 0;
    while i < caps.len()
        invariant
            i <= caps@.len(),
            forall|j: int| 0 <= j < i ==> digests_canonical((#[trigger] caps@[j])@),
        decreases caps@.len() - i,
    {
        if !check_digests(&caps[i]) {
            assert(!digests_canonical(caps@[i as int]@));
            return false;
        }
        i += 1;
    }
    true
}

/// Whether every word of a query round is canonical.
pub fn check_round(r: &FriQueryRound) -> (b: bool)
    ensures
        b == round_canonical(r@),
{
    let trees = &r.initial_trees_proof.evals_proofs;
    let mut i: usize = 0;
    while i < trees.len()
        invariant
            i <= trees@.len(),
            *trees == r.initial_trees_proof.evals_proofs,
            forall|j: int| 0 <= j < i ==> tree_canonical(#[trigger] r@.trees[j]),
        decreases trees@.len() - i,
    {
        let tree = &trees[i];
        if !(check_words(tree.0.as_slice()) && check_digests(&tree.1.siblings)) {
            assert(!tree_canonical(r@.trees[i as int]));
            return false;
        }
        i += 1;
    }
    let steps = &r.steps;
    let mut k: usize = 0;
    while k < steps.len()
        invariant
            k <= steps@.len(),
            *steps == r.steps,
            forall|j: int| 0 <= j < r@.trees.len() ==> tree_canonical(#[trigger] r@.trees[j]),
            forall|j: int| 0 <= j < k ==> step_canonical(#[trigger] r@.steps[j]),
        decreases steps@.len() - k,
    {
        let step = &steps[k];
        if !(check_exts(&step.evals) && check_digests(&step.merkle_proof.siblings)) {
            assert(!step_canonical(r@.steps[k as int]));
            return false;
        }
        k += 1;
    }
    true
}

/// Whether every word of every query round is canonical.
fn check_rounds(rs: &Vec<FriQueryRound>) -> (b: bool)
    ensures
        b == (forall|i: int| 0 <= i < rs@.len() ==> round_canonical((#[trigger] rs@[i])@)),
{
    let mut i: usize = 0;
    while i < rs.len()
        invariant
            i <= rs@.len(),
            forall|j: int| 0 <= j < i ==> round_canonical((#[trigger] rs@[j])@),
        decreases rs@.len() - i,
    {
        if !check_round(&rs[i]) {
            assert(!round_canonical(rs@[i as int]@));
            return false;
        }
        i += 1;
    }
    true
}

/// Whether a proof is canonical.
pub fn check_canonical(p: &ProofWithPublicInputs) -> (b: bool)
    ensures
        b == canonical(*p),
{
    let inner = &p.proof;
    let fri = &inner.opening_proof;
    let caps = check_caps(&fri.commit_phase_merkle_caps);
    let rounds = check_rounds(&fri.query_round_proofs);
    proof {
        assert(caps == (forall|i: int|
            0 <= i < p@.commit_phase_merkle_caps.len() ==> digests_canonical(
                #[trigger] p@.commit_phase_merkle_caps[i],
            ))) by {
            if caps {
                assert forall|i: int|
                    0 <= i < p@.commit_phase_merkle_caps.len() implies digests_canonical(
                    #[trigger] p@.commit_phase_merkle_caps[i],
                ) by {
                    assert(digests_canonical(fri.commit_phase_merkle_caps@[i]@));
                }
            } else {
                let i = choose|i: int|
                    0 <= i < fri.commit_phase_merkle_caps@.len() && !digests_canonical(
                        (#[trigger] fri.commit_phase_merkle_caps@[i])@,
                    );
                assert(!digests_canonical(p@.commit_phase_merkle_caps[i]));
            }
        }
        assert(rounds == (forall|i: int|
            0 <= i < p@.query_round_proofs.len() ==> round_canonical(
                #[trigger] p@.query_round_proofs[i],
            ))) by {
            if rounds {
                assert forall|i: int|
                    0 <= i < p@.query_round_proofs.len() implies round_canonical(
                    #[trigger] p@.query_round_proofs[i],
                ) by {
                    assert(round_canonical(fri.query_round_proofs@[i]@));
                }
            } else {
                let i = choose|i: int|
                    0 <= i < fri.query_round_proofs@.len() && !round_canonical(
                        (#[trigger] fri.query_round_proofs@[i])@,
                    );
                assert(!round_canonical(p@.query_round_proofs[i]));
            }
        }
    }
    caps && rounds && check_digests(&inner.wires_cap) && check_digests(
        &inner.plonk_zs_partial_products_cap,
    ) && check_digests(&inner.quotient_polys_cap) && check_exts(&inner.openings.constants)
        && check_exts(&inner.openings.plonk_sigmas) && check_exts(&inner.openings.wires)
        && check_exts(&inner.openings.plonk_zs) && check_exts(&inner.openings.plonk_zs_next)
        && check_exts(&inner.openings.partial_products) && check_exts(
        &inner.openings.quotient_polys,
    ) && check_exts(&fri.final_poly) && fri.pow_witness < GOLDILOCKS_ORDER && check_words(
        p.public_inputs.as_slice(),
    )
}

} // verus!
