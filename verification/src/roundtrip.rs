//! The flat layout loses nothing: proofs of one shape that have the same
//! bytes hold the same values.

use vstd::prelude::*;
use crate::canonical::canonical;
use crate::codec::{
    caps_bytes, digests_bytes, exts_bytes, fri_bytes, head_bytes, le_bytes, lemma_caps_len,
    lemma_digests_len, lemma_exts_len, lemma_le_bytes_len, lemma_path_len, lemma_round_len,
    lemma_rounds_len, lemma_words_len, openings_bytes, path_bytes, proof_bytes, round_bytes,
    rounds_bytes, word_bytes, words_bytes,
};
use crate::data::{
    ExtElement, FriQueryRound, HashOut, MerkleCap, MerkleProof, ProofWithPublicInputs,
};
use crate::decoder::{
    lemma_closed_form_standard, lemma_four_trees, lemma_round_sizes, lemma_round_within_rounds,
    lemma_two_steps, pow256, round_size,
};
use crate::layout::{conforms, round_conforms, standard_sizes};
use crate::shape::VerifierConfig;

verus! {

/// The number that bytes stand for, least significant first.
pub open spec fn le_value(bytes: Seq<u8>) -> nat
    decreases bytes.len(),
{
    if bytes.len() == 0 {
        0
    } else {
        bytes[0] as nat + 256 * le_value(bytes.skip(1))
    }
}

/// The bytes of a number stand for the number, as far as they reach.
pub proof fn lemma_le_value_of_bytes(x: nat, n: nat)
    ensures
        le_value(le_bytes(x, n)) == x % pow256(n),
    decreases n,
{
    if n > 0 {
        let rest = le_bytes(x / 256, (n - 1) as nat);
        lemma_le_value_of_bytes(x / 256, (n - 1) as nat);
        assert(le_bytes(x, n).skip(1) =~= rest);
        assert(le_bytes(x, n)[0] == (x % 256) as u8);
        let m = pow256((n - 1) as nat);
        lemma_pow256_positive((n - 1) as nat);
        assert(x % (256 * m) == x % 256 + 256 * ((x / 256) % m)) by {
            vstd::arithmetic::div_mod::lemma_breakdown(x as int, 256, m as int);
        }
    }
}

/// Powers of 256 are positive.
pub proof fn lemma_pow256_positive(k: nat)
    ensures
        pow256(k) > 0,
    decreases k,
{
    if k > 0 {
        lemma_pow256_positive((k - 1) as nat);
    }
}

/// Words with the same bytes are the same.
pub proof fn lemma_word_bytes_injective(x: u64, y: u64)
    requires
        word_bytes(x) == word_bytes(y),
    ensures
        x == y,
{
    lemma_le_value_of_bytes(x as nat, 8);
    lemma_le_value_of_bytes(y as nat, 8);
    assert(pow256(8) == 0x1_0000_0000_0000_0000) by {
        reveal_with_fuel(pow256, 9);
    }
}

/// The bytes of the word at `i` stand at eight times `i`.
pub proof fn lemma_word_within_words(ws: Seq<u64>, i: int)
    requires
        0 <= i < ws.len(),
    ensures
        words_bytes(ws).len() == 8 * ws.len(),
        words_bytes(ws).subrange(8 * i, 8 * i + 8) == word_bytes(ws[i]),
    decreases ws.len(),
{
    let rest = ws.drop_last();
    lemma_words_len(ws);
    lemma_words_len(rest);
    lemma_le_bytes_len(ws.last() as nat, 8);
    if i == ws.len() - 1 {
        assert(words_bytes(ws).subrange(8 * i, 8 * i + 8) =~= word_bytes(ws.last()));
    } else {
        lemma_word_within_words(rest, i);
        assert(rest[i] == ws[i]);
        assert(words_bytes(ws).subrange(8 * i, 8 * i + 8) =~= words_bytes(rest).subrange(
            8 * i,
            8 * i + 8,
        ));
    }
}

/// Sequences of words with the same bytes are the same.
pub proof fn lemma_words_bytes_injective(a: Seq<u64>, b: Seq<u64>)
    requires
        words_bytes(a) == words_bytes(b),
    ensures
        a == b,
{
    lemma_words_len(a);
    lemma_words_len(b);
    assert(a.len() == b.len());
    assert forall|i: int| 0 <= i < a.len() implies a[i] == b[i] by {
        lemma_word_within_words(a, i);
        lemma_word_within_words(b, i);
        lemma_word_bytes_injective(a[i], b[i]);
    }
    assert(a =~= b);
}

/// The bytes of the digest at `i` stand at thirty-two times `i`.
pub proof fn lemma_digest_within_digests(ds: Seq<HashOut>, i: int)
    requires
        0 <= i < ds.len(),
    ensures
        digests_bytes(ds).len() == 32 * ds.len(),
        digests_bytes(ds).subrange(32 * i, 32 * i + 32) == words_bytes(ds[i]@),
    decreases ds.len(),
{
    let rest = ds.drop_last();
    lemma_digests_len(ds);
    lemma_digests_len(rest);
    lemma_words_len(ds.last()@);
    if i == ds.len() - 1 {
        assert(digests_bytes(ds).subrange(32 * i, 32 * i + 32) =~= words_bytes(ds.last()@));
    } else {
        lemma_digest_within_digests(rest, i);
        assert(rest[i] == ds[i]);
        assert(digests_bytes(ds).subrange(32 * i, 32 * i + 32) =~= digests_bytes(rest).subrange(
            32 * i,
            32 * i + 32,
        ));
    }
}

/// Sequences of digests with the same bytes are the same.
pub proof fn lemma_digests_bytes_injective(a: Seq<HashOut>, b: Seq<HashOut>)
    requires
        digests_bytes(a) == digests_bytes(b),
    ensures
        a == b,
{
    lemma_digests_len(a);
    lemma_digests_len(b);
    assert(a.len() == b.len());
    assert forall|i: int| 0 <= i < a.len() implies a[i] == b[i] by {
        lemma_digest_within_digests(a, i);
        lemma_digest_within_digests(b, i);
        lemma_words_bytes_injective(a[i]@, b[i]@);
        assert(a[i]@ =~= b[i]@);
    }
    assert(a =~= b);
}

/// The bytes of the element at `i` stand at sixteen times `i`.
pub proof fn lemma_ext_within_exts(es: Seq<ExtElement>, i: int)
    requires
        0 <= i < es.len(),
    ensures
        exts_bytes(es).len() == 16 * es.len(),
        exts_bytes(es).subrange(16 * i, 16 * i + 16) == words_bytes(es[i]@),
    decreases es.len(),
{
    let rest = es.drop_last();
    lemma_exts_len(es);
    lemma_exts_len(rest);
    lemma_words_len(es.last()@);
    if i == es.len() - 1 {
        assert(exts_bytes(es).subrange(16 * i, 16 * i + 16) =~= words_bytes(es.last()@));
    } else {
        lemma_ext_within_exts(rest, i);
        assert(rest[i] == es[i]);
        assert(exts_bytes(es).subrange(16 * i, 16 * i + 16) =~= exts_bytes(rest).subrange(
            16 * i,
            16 * i + 16,
        ));
    }
}

/// Sequences of elements of the extension field with the same bytes are
/// the same.
pub proof fn lemma_exts_bytes_injective(a: Seq<ExtElement>, b: Seq<ExtElement>)
    requires
        exts_bytes(a) == exts_bytes(b),
    ensures
        a == b,
{
    lemma_exts_len(a);
    lemma_exts_len(b);
    assert(a.len() == b.len());
    assert forall|i: int| 0 <= i < a.len() implies a[i] == b[i] by {
        lemma_ext_within_exts(a, i);
        lemma_ext_within_exts(b, i);
        lemma_words_bytes_injective(a[i]@, b[i]@);
        assert(a[i]@ =~= b[i]@);
    }
    assert(a =~= b);
}

/// Where two sequences are made of two parts each and the first parts
/// are as long as each other, equal wholes have equal parts.
pub proof fn lemma_split(a1: Seq<u8>, b1: Seq<u8>, a2: Seq<u8>, b2: Seq<u8>)
    requires
        a1 + b1 == a2 + b2,
        a1.len() == a2.len(),
    ensures
        a1 == a2,
        b1 == b2,
{
    assert(a1 =~= (a1 + b1).subrange(0, a1.len() as int));
    assert(a2 =~= (a2 + b2).subrange(0, a2.len() as int));
    assert(b1 =~= (a1 + b1).subrange(a1.len() as int, (a1 + b1).len() as int));
    assert(b2 =~= (a2 + b2).subrange(a2.len() as int, (a2 + b2).len() as int));
}

/// Merkle paths with the same bytes have the same siblings.
pub proof fn lemma_path_bytes_injective(p: MerkleProof, q: MerkleProof)
    requires
        path_bytes(p) == path_bytes(q),
    ensures
        p.siblings@ == q.siblings@,
{
    assert(digests_bytes(p.siblings@) =~= path_bytes(p).skip(1));
    assert(digests_bytes(q.siblings@) =~= path_bytes(q).skip(1));
    lemma_digests_bytes_injective(p.siblings@, q.siblings@);
}

/// Leaf values and path with the same bytes are the same, where the
/// values are as many.
pub proof fn lemma_tree_injective(a: (Vec<u64>, MerkleProof), b: (Vec<u64>, MerkleProof))
    requires
        a.0@.len() == b.0@.len(),
        words_bytes(a.0@) + path_bytes(a.1) == words_bytes(b.0@) + path_bytes(b.1),
    ensures
        a.0@ == b.0@,
        a.1.siblings@ == b.1.siblings@,
{
    lemma_words_len(a.0@);
    lemma_words_len(b.0@);
    lemma_split(words_bytes(a.0@), path_bytes(a.1), words_bytes(b.0@), path_bytes(b.1));
    lemma_words_bytes_injective(a.0@, b.0@);
    lemma_path_bytes_injective(a.1, b.1);
}

/// Query rounds of one shape with the same bytes hold the same values.
pub proof fn lemma_round_bytes_injective(r: FriQueryRound, s: FriQueryRound, c: VerifierConfig)
    requires
        standard_sizes(c),
        round_conforms(r, c),
        round_conforms(s, c),
        round_bytes(r) == round_bytes(s),
    ensures
        r@ == s@,
{
    let rt = r.initial_trees_proof.evals_proofs@;
    let st = s.initial_trees_proof.evals_proofs@;
    let rs = r.steps@;
    let ss = s.steps@;
    lemma_four_trees(rt);
    lemma_four_trees(st);
    lemma_two_steps(rs);
    lemma_two_steps(ss);
    lemma_tree_len(rt[0]);
    lemma_tree_len(rt[1]);
    lemma_tree_len(rt[2]);
    lemma_tree_len(rt[3]);
    lemma_tree_len(st[0]);
    lemma_tree_len(st[1]);
    lemma_tree_len(st[2]);
    lemma_tree_len(st[3]);
    lemma_exts_len(rs[0].evals@);
    lemma_exts_len(rs[1].evals@);
    lemma_exts_len(ss[0].evals@);
    lemma_exts_len(ss[1].evals@);
    lemma_path_len(rs[0].merkle_proof);
    lemma_path_len(ss[0].merkle_proof);
    let a0 = words_bytes(rt[0].0@) + path_bytes(rt[0].1);
    let a1 = words_bytes(rt[1].0@) + path_bytes(rt[1].1);
    let a2 = words_bytes(rt[2].0@) + path_bytes(rt[2].1);
    let a3 = words_bytes(rt[3].0@) + path_bytes(rt[3].1);
    let b0 = words_bytes(st[0].0@) + path_bytes(st[0].1);
    let b1 = words_bytes(st[1].0@) + path_bytes(st[1].1);
    let b2 = words_bytes(st[2].0@) + path_bytes(st[2].1);
    let b3 = words_bytes(st[3].0@) + path_bytes(st[3].1);
    let x0 = exts_bytes(rs[0].evals@) + path_bytes(rs[0].merkle_proof);
    let x1 = exts_bytes(rs[1].evals@) + path_bytes(rs[1].merkle_proof);
    let y0 = exts_bytes(ss[0].evals@) + path_bytes(ss[0].merkle_proof);
    let y1 = exts_bytes(ss[1].evals@) + path_bytes(ss[1].merkle_proof);
    lemma_split(a0 + a1 + a2 + a3, x0 + x1, b0 + b1 + b2 + b3, y0 + y1);
    lemma_split(a0 + a1 + a2, a3, b0 + b1 + b2, b3);
    lemma_split(a0 + a1, a2, b0 + b1, b2);
    lemma_split(a0, a1, b0, b1);
    lemma_split(x0, x1, y0, y1);
    lemma_tree_injective(rt[0], st[0]);
    lemma_tree_injective(rt[1], st[1]);
    lemma_tree_injective(rt[2], st[2]);
    lemma_tree_injective(rt[3], st[3]);
    lemma_split(
        exts_bytes(rs[0].evals@),
        path_bytes(rs[0].merkle_proof),
        exts_bytes(ss[0].evals@),
        path_bytes(ss[0].merkle_proof),
    );
    lemma_split(
        exts_bytes(rs[1].evals@),
        path_bytes(rs[1].merkle_proof),
        exts_bytes(ss[1].evals@),
        path_bytes(ss[1].merkle_proof),
    );
    lemma_exts_bytes_injective(rs[0].evals@, ss[0].evals@);
    lemma_exts_bytes_injective(rs[1].evals@, ss[1].evals@);
    lemma_path_bytes_injective(rs[0].merkle_proof, ss[0].merkle_proof);
    lemma_path_bytes_injective(rs[1].merkle_proof, ss[1].merkle_proof);
    assert(r@.trees =~= s@.trees);
    assert(r@.steps =~= s@.steps);
}

/// Bytes of one initial tree.
pub proof fn lemma_tree_len(t: (Vec<u64>, MerkleProof))
    ensures
        (words_bytes(t.0@) + path_bytes(t.1)).len() == 8 * t.0@.len() + 1 + 32
            * t.1.siblings@.len(),
{
    lemma_words_len(t.0@);
    lemma_path_len(t.1);
}

/// Lists of query rounds of one shape with the same bytes hold the same
/// values, round by round.
pub proof fn lemma_rounds_bytes_injective(
    rs: Seq<FriQueryRound>,
    ss: Seq<FriQueryRound>,
    c: VerifierConfig,
)
    requires
        standard_sizes(c),
        rs.len() == ss.len(),
        forall|k: int| 0 <= k < rs.len() ==> round_conforms(#[trigger] rs[k], c),
        forall|k: int| 0 <= k < ss.len() ==> round_conforms(#[trigger] ss[k], c),
        rounds_bytes(rs) == rounds_bytes(ss),
    ensures
        forall|i: int| 0 <= i < rs.len() ==> (#[trigger] rs[i])@ == ss[i]@,
{
    lemma_round_sizes(c);
    assert forall|i: int| 0 <= i < rs.len() implies (#[trigger] rs[i])@ == ss[i]@ by {
        lemma_round_len(rs[i], c);
        lemma_round_len(ss[i], c);
        assert forall|j: int| 0 <= j < round_size(c) implies round_bytes(rs[i])[j] == round_bytes(
            ss[i],
        )[j] by {
            lemma_round_within_rounds(rs, c, i, j);
            lemma_round_within_rounds(ss, c, i, j);
        }
        assert(round_bytes(rs[i]) =~= round_bytes(ss[i]));
        lemma_round_bytes_injective(rs[i], ss[i], c);
    }
}

/// The bytes of the cap at `i` stand at `i` times the bytes of a cap.
pub proof fn lemma_cap_within_caps(caps: Seq<MerkleCap>, height: nat, i: int)
    requires
        forall|k: int| 0 <= k < caps.len() ==> (#[trigger] caps[k])@.len() == height,
        0 <= i < caps.len(),
    ensures
        0 <= (i * height) * 32,
        (i * height) * 32 + 32 * height <= caps_bytes(caps).len(),
        caps_bytes(caps).subrange((i * height) * 32, (i * height) * 32 + 32 * height)
            == digests_bytes(caps[i]@),
    decreases caps.len(),
{
    let rest = caps.drop_last();
    assert forall|k: int| 0 <= k < rest.len() implies (#[trigger] rest[k])@.len() == height by {
        assert(rest[k] == caps[k]);
    }
    lemma_caps_len(caps, height);
    lemma_caps_len(rest, height);
    lemma_digests_len(caps.last()@);
    assert((caps.len() * height) * 32 == (rest.len() * height) * 32 + 32 * height)
        by (nonlinear_arith)
        requires
            caps.len() == rest.len() + 1,
    ;
    assert(0 <= (i * height) * 32) by (nonlinear_arith)
        requires
            i >= 0,
    ;
    if i == caps.len() - 1 {
        assert(caps_bytes(caps).subrange((i * height) * 32, (i * height) * 32 + 32 * height)
            =~= digests_bytes(caps.last()@));
    } else {
        lemma_cap_within_caps(rest, height, i);
        assert(rest[i] == caps[i]);
        assert(caps_bytes(caps).subrange((i * height) * 32, (i * height) * 32 + 32 * height)
            =~= caps_bytes(rest).subrange((i * height) * 32, (i * height) * 32 + 32 * height));
    }
}

/// Lists of caps of one height with the same bytes hold the same digests,
/// cap by cap.
pub proof fn lemma_caps_bytes_injective(a: Seq<MerkleCap>, b: Seq<MerkleCap>, height: nat)
    requires
        a.len() == b.len(),
        forall|k: int| 0 <= k < a.len() ==> (#[trigger] a[k])@.len() == height,
        forall|k: int| 0 <= k < b.len() ==> (#[trigger] b[k])@.len() == height,
        caps_bytes(a) == caps_bytes(b),
    ensures
        forall|i: int| 0 <= i < a.len() ==> (#[trigger] a[i])@ == b[i]@,
{
    assert forall|i: int| 0 <= i < a.len() implies (#[trigger] a[i])@ == b[i]@ by {
        lemma_cap_within_caps(a, height, i);
        lemma_cap_within_caps(b, height, i);
        lemma_digests_bytes_injective(a[i]@, b[i]@);
    }
}

/// The flat layout loses nothing: two proofs of one shape that have the
/// same bytes hold the same values.
pub proof fn lemma_layout_is_injective(
    p: ProofWithPublicInputs,
    q: ProofWithPublicInputs,
    c: VerifierConfig,
)
    requires
        conforms(p, c),
        conforms(q, c),
        proof_bytes(p) == proof_bytes(q),
    ensures
        p@ == q@,
{
    let pf = p.proof.opening_proof;
    let qf = q.proof.opening_proof;
    let po = p.proof.openings;
    let qo = q.proof.openings;
    lemma_closed_form_standard(c);
    lemma_digests_len(p.proof.wires_cap@);
    lemma_digests_len(p.proof.plonk_zs_partial_products_cap@);
    lemma_digests_len(p.proof.quotient_polys_cap@);
    lemma_digests_len(q.proof.wires_cap@);
    lemma_digests_len(q.proof.plonk_zs_partial_products_cap@);
    lemma_digests_len(q.proof.quotient_polys_cap@);
    lemma_exts_len(po.constants@);
    lemma_exts_len(po.plonk_sigmas@);
    lemma_exts_len(po.wires@);
    lemma_exts_len(po.plonk_zs@);
    lemma_exts_len(po.plonk_zs_next@);
    lemma_exts_len(po.partial_products@);
    lemma_exts_len(po.quotient_polys@);
    lemma_exts_len(qo.constants@);
    lemma_exts_len(qo.plonk_sigmas@);
    lemma_exts_len(qo.wires@);
    lemma_exts_len(qo.plonk_zs@);
    lemma_exts_len(qo.plonk_zs_next@);
    lemma_exts_len(qo.partial_products@);
    lemma_exts_len(qo.quotient_polys@);
    lemma_caps_len(pf.commit_phase_merkle_caps@, c.fri_commit_merkle_cap_height as nat);
    lemma_caps_len(qf.commit_phase_merkle_caps@, c.fri_commit_merkle_cap_height as nat);
    lemma_rounds_len(pf.query_round_proofs@, c);
    lemma_rounds_len(qf.query_round_proofs@, c);
    lemma_exts_len(pf.final_poly@);
    lemma_exts_len(qf.final_poly@);
    lemma_le_bytes_len(pf.pow_witness as nat, 8);
    lemma_le_bytes_len(qf.pow_witness as nat, 8);
    lemma_split(
        head_bytes(p) + openings_bytes(p) + fri_bytes(p),
        words_bytes(p.public_inputs@),
        head_bytes(q) + openings_bytes(q) + fri_bytes(q),
        words_bytes(q.public_inputs@),
    );
    lemma_split(
        head_bytes(p) + openings_bytes(p),
        fri_bytes(p),
        head_bytes(q) + openings_bytes(q),
        fri_bytes(q),
    );
    lemma_split(head_bytes(p), openings_bytes(p), head_bytes(q), openings_bytes(q));
    lemma_words_bytes_injective(p.public_inputs@, q.public_inputs@);
    lemma_head_injective(p, q, c);
    lemma_openings_injective(p, q, c);
    lemma_fri_injective(p, q, c);
    assert(p@.commit_phase_merkle_caps =~= q@.commit_phase_merkle_caps);
    assert(p@.query_round_proofs =~= q@.query_round_proofs);
}

/// The caps at the head of two proofs of one shape are the same where
/// their bytes are.
proof fn lemma_head_injective(p: ProofWithPublicInputs, q: ProofWithPublicInputs, c: VerifierConfig)
    requires
        conforms(p, c),
        conforms(q, c),
        head_bytes(p) == head_bytes(q),
    ensures
        p.proof.wires_cap@ == q.proof.wires_cap@,
        p.proof.plonk_zs_partial_products_cap@ == q.proof.plonk_zs_partial_products_cap@,
        p.proof.quotient_polys_cap@ == q.proof.quotient_polys_cap@,
{
    lemma_digests_len(p.proof.wires_cap@);
    lemma_digests_len(p.proof.plonk_zs_partial_products_cap@);
    lemma_digests_len(q.proof.wires_cap@);
    lemma_digests_len(q.proof.plonk_zs_partial_products_cap@);
    lemma_split(
        digests_bytes(p.proof.wires_cap@) + digests_bytes(p.proof.plonk_zs_partial_products_cap@),
        digests_bytes(p.proof.quotient_polys_cap@),
        digests_bytes(q.proof.wires_cap@) + digests_bytes(q.proof.plonk_zs_partial_products_cap@),
        digests_bytes(q.proof.quotient_polys_cap@),
    );
    lemma_split(
        digests_bytes(p.proof.wires_cap@),
        digests_bytes(p.proof.plonk_zs_partial_products_cap@),
        digests_bytes(q.proof.wires_cap@),
        digests_bytes(q.proof.plonk_zs_partial_products_cap@),
    );
    lemma_digests_bytes_injective(p.proof.wires_cap@, q.proof.wires_cap@);
    lemma_digests_bytes_injective(
        p.proof.plonk_zs_partial_products_cap@,
        q.proof.plonk_zs_partial_products_cap@,
    );
    lemma_digests_bytes_injective(p.proof.quotient_polys_cap@, q.proof.quotient_polys_cap@);
}

/// The opened values of two proofs of one shape are the same where their
/// bytes are.
proof fn lemma_openings_injective(
    p: ProofWithPublicInputs,
    q: ProofWithPublicInputs,
    c: VerifierConfig,
)
    requires
        conforms(p, c),
        conforms(q, c),
        openings_bytes(p) == openings_bytes(q),
    ensures
        p.proof.openings.constants@ == q.proof.openings.constants@,
        p.proof.openings.plonk_sigmas@ == q.proof.openings.plonk_sigmas@,
        p.proof.openings.wires@ == q.proof.openings.wires@,
        p.proof.openings.plonk_zs@ == q.proof.openings.plonk_zs@,
        p.proof.openings.plonk_zs_next@ == q.proof.openings.plonk_zs_next@,
        p.proof.openings.partial_products@ == q.proof.openings.partial_products@,
        p.proof.openings.quotient_polys@ == q.proof.openings.quotient_polys@,
{
    let a = p.proof.openings;
    let b = q.proof.openings;
    lemma_exts_len(a.constants@);
    lemma_exts_len(a.plonk_sigmas@);
    lemma_exts_len(a.wires@);
    lemma_exts_len(a.plonk_zs@);
    lemma_exts_len(a.plonk_zs_next@);
    lemma_exts_len(a.partial_products@);
    lemma_exts_len(b.constants@);
    lemma_exts_len(b.plonk_sigmas@);
    lemma_exts_len(b.wires@);
    lemma_exts_len(b.plonk_zs@);
    lemma_exts_len(b.plonk_zs_next@);
    lemma_exts_len(b.partial_products@);
    let a1 = exts_bytes(a.constants@);
    let a2 = a1 + exts_bytes(a.plonk_sigmas@);
    let a3 = a2 + exts_bytes(a.wires@);
    let a4 = a3 + exts_bytes(a.plonk_zs@);
    let a5 = a4 + exts_bytes(a.plonk_zs_next@);
    let a6 = a5 + exts_bytes(a.partial_products@);
    let b1 = exts_bytes(b.constants@);
    let b2 = b1 + exts_bytes(b.plonk_sigmas@);
    let b3 = b2 + exts_bytes(b.wires@);
    let b4 = b3 + exts_bytes(b.plonk_zs@);
    let b5 = b4 + exts_bytes(b.plonk_zs_next@);
    let b6 = b5 + exts_bytes(b.partial_products@);
    lemma_split(a6, exts_bytes(a.quotient_polys@), b6, exts_bytes(b.quotient_polys@));
    lemma_split(a5, exts_bytes(a.partial_products@), b5, exts_bytes(b.partial_products@));
    lemma_split(a4, exts_bytes(a.plonk_zs_next@), b4, exts_bytes(b.plonk_zs_next@));
    lemma_split(a3, exts_bytes(a.plonk_zs@), b3, exts_bytes(b.plonk_zs@));
    lemma_split(a2, exts_bytes(a.wires@), b2, exts_bytes(b.wires@));
    lemma_split(a1, exts_bytes(a.plonk_sigmas@), b1, exts_bytes(b.plonk_sigmas@));
    lemma_exts_bytes_injective(a.constants@, b.constants@);
    lemma_exts_bytes_injective(a.plonk_sigmas@, b.plonk_sigmas@);
    lemma_exts_bytes_injective(a.wires@, b.wires@);
    lemma_exts_bytes_injective(a.plonk_zs@, b.plonk_zs@);
    lemma_exts_bytes_injective(a.plonk_zs_next@, b.plonk_zs_next@);
    lemma_exts_bytes_injective(a.partial_products@, b.partial_products@);
    lemma_exts_bytes_injective(a.quotient_polys@, b.quotient_polys@);
}

/// The opening proofs of two proofs of one shape hold the same values
/// where their bytes are the same.
proof fn lemma_fri_injective(p: ProofWithPublicInputs, q: ProofWithPublicInputs, c: VerifierConfig)
    requires
        conforms(p, c),
        conforms(q, c),
        fri_bytes(p) == fri_bytes(q),
    ensures
        forall|i: int|
            0 <= i < p.proof.opening_proof.commit_phase_merkle_caps@.len() ==> (
            #[trigger] p.proof.opening_proof.commit_phase_merkle_caps@[i])@
                == q.proof.opening_proof.commit_phase_merkle_caps@[i]@,
        forall|i: int|
            0 <= i < p.proof.opening_proof.query_round_proofs@.len() ==> (
            #[trigger] p.proof.opening_proof.query_round_proofs@[i])@
                == q.proof.opening_proof.query_round_proofs@[i]@,
        p.proof.opening_proof.final_poly@ == q.proof.opening_proof.final_poly@,
        p.proof.opening_proof.pow_witness == q.proof.opening_proof.pow_witness,
{
    let a = p.proof.opening_proof;
    let b = q.proof.opening_proof;
    let h = c.fri_commit_merkle_cap_height as nat;
    lemma_caps_len(a.commit_phase_merkle_caps@, h);
    lemma_caps_len(b.commit_phase_merkle_caps@, h);
    lemma_rounds_len(a.query_round_proofs@, c);
    lemma_rounds_len(b.query_round_proofs@, c);
    lemma_exts_len(a.final_poly@);
    lemma_exts_len(b.final_poly@);
    let a1 = caps_bytes(a.commit_phase_merkle_caps@);
    let a2 = a1 + rounds_bytes(a.query_round_proofs@);
    let a3 = a2 + exts_bytes(a.final_poly@);
    let b1 = caps_bytes(b.commit_phase_merkle_caps@);
    let b2 = b1 + rounds_bytes(b.query_round_proofs@);
    let b3 = b2 + exts_bytes(b.final_poly@);
    lemma_split(a3, word_bytes(a.pow_witness), b3, word_bytes(b.pow_witness));
    lemma_split(a2, exts_bytes(a.final_poly@), b2, exts_bytes(b.final_poly@));
    lemma_split(a1, rounds_bytes(a.query_round_proofs@), b1, rounds_bytes(b.query_round_proofs@));
    lemma_word_bytes_injective(a.pow_witness, b.pow_witness);
    lemma_exts_bytes_injective(a.final_poly@, b.final_poly@);
    lemma_caps_bytes_injective(a.commit_phase_merkle_caps@, b.commit_phase_merkle_caps@, h);
    lemma_rounds_bytes_injective(a.query_round_proofs@, b.query_round_proofs@, c);
}

/// Whether the bytes hold canonical words only: every proof of the shape
/// `c` with these bytes is canonical.
pub open spec fn holds_canonical_words(bytes: Seq<u8>, c: VerifierConfig) -> bool {
    forall|p: ProofWithPublicInputs|
        conforms(p, c) && #[trigger] proof_bytes(p) == bytes ==> canonical(p)
}

/// The bytes of a canonical proof hold canonical words only.
pub proof fn lemma_canonical_by_bytes(p: ProofWithPublicInputs, c: VerifierConfig)
    requires
        conforms(p, c),
        canonical(p),
    ensures
        holds_canonical_words(proof_bytes(p), c),
{
    assert forall|q: ProofWithPublicInputs|
        conforms(q, c) && #[trigger] proof_bytes(q) == proof_bytes(p) implies canonical(q) by {
        lemma_layout_is_injective(q, p, c);
    }
}

} // verus!
