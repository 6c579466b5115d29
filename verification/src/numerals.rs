//! The numerals of a proof lose nothing: proofs of one shape that are
//! written out as the same text hold the same values.

use vstd::prelude::*;
use crate::circom_proof::{circom_text, digests_text, exts_text, words_text};
use crate::data::{ExtElement, FriQueryRound, HashOut, ProofWithPublicInputs};
use crate::layout::{
    conforms, round_conforms, step_path, step_values, tree_path, tree_values,
};
use crate::shape::VerifierConfig;
use crate::text::{decimal, decimal_digit};

verus! {

/// The number that a decimal numeral stands for.
pub open spec fn decimal_value(s: Seq<char>) -> nat
    decreases s.len(),
{
    if s.len() == 0 {
        0
    } else {
        (decimal_value(s.drop_last()) * 10 + (s.last() as nat - 48)) as nat
    }
}

/// A numeral stands for the number it was written for.
pub proof fn lemma_decimal_value(n: nat)
    ensures
        decimal_value(decimal(n)) == n,
    decreases n,
{
    if n < 10 {
        let s = seq![decimal_digit(n)];
        assert(decimal(n) == s);
        assert(s.drop_last().len() == 0);
        assert(decimal_value(s.drop_last()) == 0);
        assert(s.last() == decimal_digit(n));
        assert(decimal_digit(n) as nat == 48 + n);
    } else {
        lemma_decimal_value(n / 10);
        let s = decimal(n);
        assert(s.drop_last() =~= decimal(n / 10));
        assert(s.last() == decimal_digit(n % 10));
        assert(decimal_digit(n % 10) as nat == 48 + n % 10);
    }
}

/// Numbers with the same numeral are the same.
pub proof fn lemma_decimal_injective(a: nat, b: nat)
    requires
        decimal(a) == decimal(b),
    ensures
        a == b,
{
    lemma_decimal_value(a);
    lemma_decimal_value(b);
}

/// Words with the same numerals are the same.
pub proof fn lemma_words_text_injective(a: Seq<u64>, b: Seq<u64>)
    requires
        words_text(a) == words_text(b),
    ensures
        a == b,
{
    assert(a.len() == words_text(a).len());
    assert(b.len() == words_text(b).len());
    assert forall|i: int| 0 <= i < a.len() implies a[i] == b[i] by {
        assert(words_text(a)[i] == decimal(a[i] as nat));
        assert(words_text(b)[i] == decimal(b[i] as nat));
        lemma_decimal_injective(a[i] as nat, b[i] as nat);
    }
    assert(a =~= b);
}

/// Digests with the same numerals are the same.
pub proof fn lemma_digests_text_injective(a: Seq<HashOut>, b: Seq<HashOut>)
    requires
        digests_text(a) == digests_text(b),
    ensures
        a == b,
{
    assert(a.len() == digests_text(a).len());
    assert(b.len() == digests_text(b).len());
    assert forall|i: int| 0 <= i < a.len() implies a[i] == b[i] by {
        assert(digests_text(a)[i] == words_text(a[i]@));
        assert(digests_text(b)[i] == words_text(b[i]@));
        lemma_words_text_injective(a[i]@, b[i]@);
        assert(a[i]@ =~= b[i]@);
    }
    assert(a =~= b);
}

/// Elements of the extension field with the same numerals are the same.
pub proof fn lemma_exts_text_injective(a: Seq<ExtElement>, b: Seq<ExtElement>)
    requires
        exts_text(a) == exts_text(b),
    ensures
        a == b,
{
    assert(a.len() == exts_text(a).len());
    assert(b.len() == exts_text(b).len());
    assert forall|i: int| 0 <= i < a.len() implies a[i] == b[i] by {
        assert(exts_text(a)[i] == words_text(a[i]@));
        assert(exts_text(b)[i] == words_text(b[i]@));
        lemma_words_text_injective(a[i]@, b[i]@);
        assert(a[i]@ =~= b[i]@);
    }
    assert(a =~= b);
}

/// Whether two query rounds are written out as the same numerals.
pub open spec fn same_round_text(r: FriQueryRound, s: FriQueryRound) -> bool {
    &&& forall|k: int|
        0 <= k < 4 ==> words_text(#[trigger] tree_values(r, k)) == words_text(tree_values(s, k))
    &&& forall|k: int|
        0 <= k < 4 ==> digests_text(#[trigger] tree_path(r, k)) == digests_text(tree_path(s, k))
    &&& forall|k: int|
        0 <= k < 2 ==> exts_text(#[trigger] step_values(r, k)) == exts_text(step_values(s, k))
    &&& forall|k: int|
        0 <= k < 2 ==> digests_text(#[trigger] step_path(r, k)) == digests_text(step_path(s, k))
}

/// Query rounds of one shape with the same numerals hold the same values.
pub proof fn lemma_round_text_injective(r: FriQueryRound, s: FriQueryRound, c: VerifierConfig)
    requires
        round_conforms(r, c),
        round_conforms(s, c),
        same_round_text(r, s),
    ensures
        r@ == s@,
{
    assert forall|k: int| 0 <= k < 4 implies r@.trees[k] == s@.trees[k] by {
        assert(words_text(tree_values(r, k)) == words_text(tree_values(s, k)));
        assert(digests_text(tree_path(r, k)) == digests_text(tree_path(s, k)));
        lemma_words_text_injective(tree_values(r, k), tree_values(s, k));
        lemma_digests_text_injective(tree_path(r, k), tree_path(s, k));
    }
    assert forall|k: int| 0 <= k < 2 implies r@.steps[k] == s@.steps[k] by {
        assert(exts_text(step_values(r, k)) == exts_text(step_values(s, k)));
        assert(digests_text(step_path(r, k)) == digests_text(step_path(s, k)));
        lemma_exts_text_injective(step_values(r, k), step_values(s, k));
        lemma_digests_text_injective(step_path(r, k), step_path(s, k));
    }
    assert(r@.trees =~= s@.trees);
    assert(r@.steps =~= s@.steps);
}

/// The numerals of round `i` of two proofs of one shape are the same
/// where the two proofs are written out as the same text.
proof fn lemma_same_round_text(
    p: ProofWithPublicInputs,
    q: ProofWithPublicInputs,
    c: VerifierConfig,
    i: int,
)
    requires
        conforms(p, c),
        conforms(q, c),
        circom_text(p, c) == circom_text(q, c),
        0 <= i < c.num_fri_query_round,
    ensures
        same_round_text(
            p.proof.opening_proof.query_round_proofs@[i],
            q.proof.opening_proof.query_round_proofs@[i],
        ),
{
    let r = p.proof.opening_proof.query_round_proofs@[i];
    let s = q.proof.opening_proof.query_round_proofs@[i];
    let a = circom_text(p, c);
    let b = circom_text(q, c);
    assert(round_conforms(r, c));
    assert(round_conforms(s, c));
    assert(a.fri_query_init_constants_sigmas_v[i] == b.fri_query_init_constants_sigmas_v[i]);
    assert(a.fri_query_init_constants_sigmas_p[i] == b.fri_query_init_constants_sigmas_p[i]);
    assert(a.fri_query_init_wires_v[i] == b.fri_query_init_wires_v[i]);
    assert(a.fri_query_init_wires_p[i] == b.fri_query_init_wires_p[i]);
    assert(a.fri_query_init_zs_partial_v[i] == b.fri_query_init_zs_partial_v[i]);
    assert(a.fri_query_init_zs_partial_p[i] == b.fri_query_init_zs_partial_p[i]);
    assert(a.fri_query_init_quotient_v[i] == b.fri_query_init_quotient_v[i]);
    assert(a.fri_query_init_quotient_p[i] == b.fri_query_init_quotient_p[i]);
    assert(a.fri_query_step0_v[i] == b.fri_query_step0_v[i]);
    assert(a.fri_query_step0_p[i] == b.fri_query_step0_p[i]);
    assert(a.fri_query_step1_v[i] == b.fri_query_step1_v[i]);
    assert(a.fri_query_step1_p[i] == b.fri_query_step1_p[i]);
    assert forall|k: int| 0 <= k < 4 implies words_text(#[trigger] tree_values(r, k))
        == words_text(tree_values(s, k)) by {
        assert(tree_values(r, k).take(tree_values(r, k).len() as int) =~= tree_values(r, k));
        assert(tree_values(s, k).take(tree_values(s, k).len() as int) =~= tree_values(s, k));
    }
    assert forall|k: int| 0 <= k < 4 implies digests_text(#[trigger] tree_path(r, k))
        == digests_text(tree_path(s, k)) by {
        assert(tree_path(r, k).take(tree_path(r, k).len() as int) =~= tree_path(r, k));
        assert(tree_path(s, k).take(tree_path(s, k).len() as int) =~= tree_path(s, k));
    }
    assert forall|k: int| 0 <= k < 2 implies exts_text(#[trigger] step_values(r, k)) == exts_text(
        step_values(s, k),
    ) by {
        assert(step_values(r, k).take(step_values(r, k).len() as int) =~= step_values(r, k));
        assert(step_values(s, k).take(step_values(s, k).len() as int) =~= step_values(s, k));
    }
    assert forall|k: int| 0 <= k < 2 implies digests_text(#[trigger] step_path(r, k))
        == digests_text(step_path(s, k)) by {
        assert(step_path(r, k).take(step_path(r, k).len() as int) =~= step_path(r, k));
        assert(step_path(s, k).take(step_path(s, k).len() as int) =~= step_path(s, k));
    }
}

/// The numerals lose nothing: two proofs of one shape that are written
/// out as the same text hold the same values.
pub proof fn lemma_text_is_injective(
    p: ProofWithPublicInputs,
    q: ProofWithPublicInputs,
    c: VerifierConfig,
)
    requires
        conforms(p, c),
        conforms(q, c),
        circom_text(p, c) == circom_text(q, c),
    ensures
        p@ == q@,
{
    let a = circom_text(p, c);
    let b = circom_text(q, c);
    let pf = p.proof.opening_proof;
    let qf = q.proof.opening_proof;
    let po = p.proof.openings;
    let qo = q.proof.openings;
    assert(p.proof.wires_cap@.take(c.num_wires_cap as int) =~= p.proof.wires_cap@);
    assert(q.proof.wires_cap@.take(c.num_wires_cap as int) =~= q.proof.wires_cap@);
    assert(p.proof.plonk_zs_partial_products_cap@.take(
        c.num_plonk_zs_partial_products_cap as int,
    ) =~= p.proof.plonk_zs_partial_products_cap@);
    assert(q.proof.plonk_zs_partial_products_cap@.take(
        c.num_plonk_zs_partial_products_cap as int,
    ) =~= q.proof.plonk_zs_partial_products_cap@);
    assert(p.proof.quotient_polys_cap@.take(c.num_quotient_polys_cap as int)
        =~= p.proof.quotient_polys_cap@);
    assert(q.proof.quotient_polys_cap@.take(c.num_quotient_polys_cap as int)
        =~= q.proof.quotient_polys_cap@);
    assert(po.constants@.take(c.num_openings_constants as int) =~= po.constants@);
    assert(qo.constants@.take(c.num_openings_constants as int) =~= qo.constants@);
    assert(po.plonk_sigmas@.take(c.num_openings_plonk_sigmas as int) =~= po.plonk_sigmas@);
    assert(qo.plonk_sigmas@.take(c.num_openings_plonk_sigmas as int) =~= qo.plonk_sigmas@);
    assert(po.wires@.take(c.num_openings_wires as int) =~= po.wires@);
    assert(qo.wires@.take(c.num_openings_wires as int) =~= qo.wires@);
    assert(po.plonk_zs@.take(c.num_openings_plonk_zs as int) =~= po.plonk_zs@);
    assert(qo.plonk_zs@.take(c.num_openings_plonk_zs as int) =~= qo.plonk_zs@);
    assert(po.plonk_zs_next@.take(c.num_openings_plonk_zs_next as int) =~= po.plonk_zs_next@);
    assert(qo.plonk_zs_next@.take(c.num_openings_plonk_zs_next as int) =~= qo.plonk_zs_next@);
    assert(po.partial_products@.take(c.num_openings_partial_products as int)
        =~= po.partial_products@);
    assert(qo.partial_products@.take(c.num_openings_partial_products as int)
        =~= qo.partial_products@);
    assert(po.quotient_polys@.take(c.num_openings_quotient_polys as int) =~= po.quotient_polys@);
    assert(qo.quotient_polys@.take(c.num_openings_quotient_polys as int) =~= qo.quotient_polys@);
    assert(pf.final_poly@.take(c.num_fri_final_poly_ext_v as int) =~= pf.final_poly@);
    assert(qf.final_poly@.take(c.num_fri_final_poly_ext_v as int) =~= qf.final_poly@);
    assert(p.public_inputs@.take(c.num_public_inputs as int) =~= p.public_inputs@);
    assert(q.public_inputs@.take(c.num_public_inputs as int) =~= q.public_inputs@);
    assert(a.wires_cap == b.wires_cap);
    lemma_digests_text_injective(p.proof.wires_cap@, q.proof.wires_cap@);
    assert(a.plonk_zs_partial_products_cap == b.plonk_zs_partial_products_cap);
    lemma_digests_text_injective(
        p.proof.plonk_zs_partial_products_cap@,
        q.proof.plonk_zs_partial_products_cap@,
    );
    assert(a.quotient_polys_cap == b.quotient_polys_cap);
    lemma_digests_text_injective(p.proof.quotient_polys_cap@, q.proof.quotient_polys_cap@);
    assert(a.openings_constants == b.openings_constants);
    lemma_exts_text_injective(po.constants@, qo.constants@);
    assert(a.openings_plonk_sigmas == b.openings_plonk_sigmas);
    lemma_exts_text_injective(po.plonk_sigmas@, qo.plonk_sigmas@);
    assert(a.openings_wires == b.openings_wires);
    lemma_exts_text_injective(po.wires@, qo.wires@);
    assert(a.openings_plonk_zs == b.openings_plonk_zs);
    lemma_exts_text_injective(po.plonk_zs@, qo.plonk_zs@);
    assert(a.openings_plonk_zs_next == b.openings_plonk_zs_next);
    lemma_exts_text_injective(po.plonk_zs_next@, qo.plonk_zs_next@);
    assert(a.openings_partial_products == b.openings_partial_products);
    lemma_exts_text_injective(po.partial_products@, qo.partial_products@);
    assert(a.openings_quotient_polys == b.openings_quotient_polys);
    lemma_exts_text_injective(po.quotient_polys@, qo.quotient_polys@);
    assert(a.fri_final_poly_ext_v == b.fri_final_poly_ext_v);
    lemma_exts_text_injective(pf.final_poly@, qf.final_poly@);
    assert(a.public_inputs == b.public_inputs);
    lemma_words_text_injective(p.public_inputs@, q.public_inputs@);
    assert(a.fri_pow_witness == b.fri_pow_witness);
    lemma_decimal_injective(pf.pow_witness as nat, qf.pow_witness as nat);
    assert forall|i: int| 0 <= i < pf.commit_phase_merkle_caps@.len() implies (
    #[trigger] pf.commit_phase_merkle_caps@[i])@ == qf.commit_phase_merkle_caps@[i]@ by {
        assert(a.fri_commit_phase_merkle_caps[i] == b.fri_commit_phase_merkle_caps[i]);
        lemma_digests_text_injective(
            pf.commit_phase_merkle_caps@[i]@,
            qf.commit_phase_merkle_caps@[i]@,
        );
    }
    assert forall|i: int| 0 <= i < pf.query_round_proofs@.len() implies (
    #[trigger] pf.query_round_proofs@[i])@ == qf.query_round_proofs@[i]@ by {
        lemma_same_round_text(p, q, c, i);
        lemma_round_text_injective(pf.query_round_proofs@[i], qf.query_round_proofs@[i], c);
    }
    assert(p@.commit_phase_merkle_caps =~= q@.commit_phase_merkle_caps);
    assert(p@.query_round_proofs =~= q@.query_round_proofs);
}

} // verus!
