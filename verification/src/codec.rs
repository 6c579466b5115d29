//! The bytes of a proof in its flat layout: the sections one after the
//! other, every word as eight bytes, least significant first, and before
//! each Merkle path one byte that holds its depth.

use vstd::prelude::*;
use crate::data::{
    ExtElement, FriQueryRound, FriQueryStep, HashOut, MerkleCap, MerkleProof,
    ProofWithPublicInputs,
};
use crate::canonical::{canonical, check_canonical};
use crate::circom_proof::LayoutError;
use crate::layout::{
    check_conforms, caps_size, closed_form_size, commit_phase_size, conforms, final_poly_size, openings_size,
    public_inputs_size, query_init_size, query_rounds_size, query_steps_size, round_conforms,
    standard_sizes, step_path, step_values, tree_path, tree_values,
};
use crate::shape::VerifierConfig;

verus! {

/// The `n` least significant bytes of `x`, least significant first.
pub open spec fn le_bytes(x: nat, n: nat) -> Seq<u8>
    decreases n,
{
    if n == 0 {
        Seq::empty()
    } else {
        seq![(x % 256) as u8] + le_bytes(x / 256, (n - 1) as nat)
    }
}

/// The eight bytes of a word.
pub open spec fn word_bytes(x: u64) -> Seq<u8> {
    le_bytes(x as nat, 8)
}

/// The bytes of words, one word after the other.
pub open spec fn words_bytes(ws: Seq<u64>) -> Seq<u8>
    decreases ws.len(),
{
    if ws.len() == 0 {
        Seq::empty()
    } else {
        words_bytes(ws.drop_last()) + word_bytes(ws.last())
    }
}

/// The bytes of digests: the four words of each.
pub open spec fn digests_bytes(ds: Seq<HashOut>) -> Seq<u8>
    decreases ds.len(),
{
    if ds.len() == 0 {
        Seq::empty()
    } else {
        digests_bytes(ds.drop_last()) + words_bytes(ds.last()@)
    }
}

/// The bytes of elements of the extension field: the two words of each.
pub open spec fn exts_bytes(es: Seq<ExtElement>) -> Seq<u8>
    decreases es.len(),
{
    if es.len() == 0 {
        Seq::empty()
    } else {
        exts_bytes(es.drop_last()) + words_bytes(es.last()@)
    }
}

/// The bytes of caps: the digests of each.
pub open spec fn caps_bytes(caps: Seq<MerkleCap>) -> Seq<u8>
    decreases caps.len(),
{
    if caps.len() == 0 {
        Seq::empty()
    } else {
        caps_bytes(caps.drop_last()) + digests_bytes(caps.last()@)
    }
}

/// The bytes of a Merkle path: one byte for its depth, then its
/// siblings.
pub open spec fn path_bytes(p: MerkleProof) -> Seq<u8> {
    seq![p.siblings@.len() as u8] + digests_bytes(p.siblings@)
}

/// The bytes of initial trees: of each the leaf values, then the path.
pub open spec fn trees_bytes(ts: Seq<(Vec<u64>, MerkleProof)>) -> Seq<u8>
    decreases ts.len(),
{
    if ts.len() == 0 {
        Seq::empty()
    } else {
        trees_bytes(ts.drop_last()) + (words_bytes(ts.last().0@) + path_bytes(ts.last().1))
    }
}

/// The bytes of reduction steps: of each the evaluations, then the path.
pub open spec fn steps_bytes(ss: Seq<FriQueryStep>) -> Seq<u8>
    decreases ss.len(),
{
    if ss.len() == 0 {
        Seq::empty()
    } else {
        steps_bytes(ss.drop_last()) + (exts_bytes(ss.last().evals@) + path_bytes(
            ss.last().merkle_proof,
        ))
    }
}

/// The bytes of one query round: its initial trees, then its steps.
pub open spec fn round_bytes(r: FriQueryRound) -> Seq<u8> {
    trees_bytes(r.initial_trees_proof.evals_proofs@) + steps_bytes(r.steps@)
}

/// The bytes of query rounds, one round after the other.
pub open spec fn rounds_bytes(rs: Seq<FriQueryRound>) -> Seq<u8>
    decreases rs.len(),
{
    if rs.len() == 0 {
        Seq::empty()
    } else {
        rounds_bytes(rs.drop_last()) + round_bytes(rs.last())
    }
}

/// The bytes of the three caps at the head of a proof.
pub open spec fn head_bytes(p: ProofWithPublicInputs) -> Seq<u8> {
    digests_bytes(p.proof.wires_cap@) + digests_bytes(p.proof.plonk_zs_partial_products_cap@)
        + digests_bytes(p.proof.quotient_polys_cap@)
}

/// The bytes of the opened values, group by group.
pub open spec fn openings_bytes(p: ProofWithPublicInputs) -> Seq<u8> {
    let o = p.proof.openings;
    exts_bytes(o.constants@) + exts_bytes(o.plonk_sigmas@) + exts_bytes(o.wires@) + exts_bytes(
        o.plonk_zs@,
    ) + exts_bytes(o.plonk_zs_next@) + exts_bytes(o.partial_products@) + exts_bytes(
        o.quotient_polys@,
    )
}

/// The bytes of the opening proof: the caps of the commit phase, the
/// query rounds, the final polynomial and the proof-of-work witness.
pub open spec fn fri_bytes(p: ProofWithPublicInputs) -> Seq<u8> {
    let fri = p.proof.opening_proof;
    caps_bytes(fri.commit_phase_merkle_caps@) + rounds_bytes(fri.query_round_proofs@)
        + exts_bytes(fri.final_poly@) + word_bytes(fri.pow_witness)
}

/// The bytes of a proof with its public inputs.
pub open spec fn proof_bytes(p: ProofWithPublicInputs) -> Seq<u8> {
    head_bytes(p) + openings_bytes(p) + fri_bytes(p) + words_bytes(p.public_inputs@)
}

/// `n` bytes are written for `n` bytes asked.
pub proof fn lemma_le_bytes_len(x: nat, n: nat)
    ensures
        le_bytes(x, n).len() == n,
    decreases n,
{
    if n > 0 {
        lemma_le_bytes_len(x / 256, (n - 1) as nat);
    }
}

/// Words take eight bytes each.
pub proof fn lemma_words_len(ws: Seq<u64>)
    ensures
        words_bytes(ws).len() == 8 * ws.len(),
    decreases ws.len(),
{
    if ws.len() > 0 {
        lemma_words_len(ws.drop_last());
        lemma_le_bytes_len(ws.last() as nat, 8);
    }
}

/// Digests take thirty-two bytes each.
pub proof fn lemma_digests_len(ds: Seq<HashOut>)
    ensures
        digests_bytes(ds).len() == 32 * ds.len(),
    decreases ds.len(),
{
    if ds.len() > 0 {
        lemma_digests_len(ds.drop_last());
        lemma_words_len(ds.last()@);
    }
}

/// Elements of the extension field take sixteen bytes each.
pub proof fn lemma_exts_len(es: Seq<ExtElement>)
    ensures
        exts_bytes(es).len() == 16 * es.len(),
    decreases es.len(),
{
    if es.len() > 0 {
        lemma_exts_len(es.drop_last());
        lemma_words_len(es.last()@);
    }
}

/// Caps of one height take thirty-two bytes for each digest.
pub proof fn lemma_caps_len(caps: Seq<MerkleCap>, height: nat)
    requires
        forall|i: int| 0 <= i < caps.len() ==> (#[trigger] caps[i])@.len() == height,
    ensures
        caps_bytes(caps).len() == (caps.len() * height) * 32,
    decreases caps.len(),
{
    if caps.len() > 0 {
        let rest = caps.drop_last();
        assert forall|i: int| 0 <= i < rest.len() implies (#[trigger] rest[i])@.len() == height by {
            assert(rest[i] == caps[i]);
        }
        lemma_caps_len(rest, height);
        lemma_digests_len(caps.last()@);
        assert(caps.last()@.len() == height);
        assert((caps.len() * height) * 32 == (rest.len() * height) * 32 + 32 * height)
            by (nonlinear_arith)
            requires
                caps.len() == rest.len() + 1,
        ;
    }
}

/// A Merkle path takes one byte and thirty-two for each sibling.
pub proof fn lemma_path_len(p: MerkleProof)
    ensures
        path_bytes(p).len() == 1 + 32 * p.siblings@.len(),
{
    lemma_digests_len(p.siblings@);
}

/// Number of bytes of initial trees.
pub open spec fn trees_size(ts: Seq<(Vec<u64>, MerkleProof)>) -> int
    decreases ts.len(),
{
    if ts.len() == 0 {
        0
    } else {
        trees_size(ts.drop_last()) + 8 * ts.last().0@.len() + 1 + 32 * ts.last().1.siblings@.len()
    }
}

/// Number of bytes of reduction steps.
pub open spec fn steps_size(ss: Seq<FriQueryStep>) -> int
    decreases ss.len(),
{
    if ss.len() == 0 {
        0
    } else {
        steps_size(ss.drop_last()) + 16 * ss.last().evals@.len() + 1 + 32
            * ss.last().merkle_proof.siblings@.len()
    }
}

/// Initial trees take eight bytes for each leaf value, one byte for each
/// path and thirty-two for each sibling.
pub proof fn lemma_trees_len(ts: Seq<(Vec<u64>, MerkleProof)>)
    ensures
        trees_bytes(ts).len() == trees_size(ts),
    decreases ts.len(),
{
    if ts.len() > 0 {
        lemma_trees_len(ts.drop_last());
        lemma_words_len(ts.last().0@);
        lemma_path_len(ts.last().1);
    }
}

/// Reduction steps take sixteen bytes for each evaluation, one byte for
/// each path and thirty-two for each sibling.
pub proof fn lemma_steps_len(ss: Seq<FriQueryStep>)
    ensures
        steps_bytes(ss).len() == steps_size(ss),
    decreases ss.len(),
{
    if ss.len() > 0 {
        lemma_steps_len(ss.drop_last());
        lemma_exts_len(ss.last().evals@);
        lemma_path_len(ss.last().merkle_proof);
    }
}

/// A query round of the shape `c` takes as many bytes as the closed form
/// counts for one round.
pub proof fn lemma_round_len(r: FriQueryRound, c: VerifierConfig)
    requires
        standard_sizes(c),
        round_conforms(r, c),
    ensures
        round_bytes(r).len() == query_init_size(c) + query_steps_size(c),
{
    let ts = r.initial_trees_proof.evals_proofs@;
    let ss = r.steps@;
    lemma_trees_len(ts);
    lemma_steps_len(ss);
    let t3 = ts.drop_last();
    let t2 = t3.drop_last();
    let t1 = t2.drop_last();
    let t0 = t1.drop_last();
    assert(t0.len() == 0);
    assert(trees_size(t0) == 0);
    assert(t1.last() == ts[0]);
    assert(t2.last() == ts[1]);
    assert(t3.last() == ts[2]);
    assert(ts.last() == ts[3]);
    assert(trees_size(t1) == 8 * tree_values(r, 0).len() + 1 + 32 * tree_path(r, 0).len());
    assert(trees_size(t2) == trees_size(t1) + 8 * tree_values(r, 1).len() + 1 + 32 * tree_path(
        r,
        1,
    ).len());
    assert(trees_size(t3) == trees_size(t2) + 8 * tree_values(r, 2).len() + 1 + 32 * tree_path(
        r,
        2,
    ).len());
    assert(trees_size(ts) == trees_size(t3) + 8 * tree_values(r, 3).len() + 1 + 32 * tree_path(
        r,
        3,
    ).len());
    let s1 = ss.drop_last();
    let s0 = s1.drop_last();
    assert(s0.len() == 0);
    assert(steps_size(s0) == 0);
    assert(s1.last() == ss[0]);
    assert(ss.last() == ss[1]);
    assert(steps_size(s1) == 16 * step_values(r, 0).len() + 1 + 32 * step_path(r, 0).len());
    assert(steps_size(ss) == steps_size(s1) + 16 * step_values(r, 1).len() + 1 + 32 * step_path(
        r,
        1,
    ).len());
}

/// Query rounds of the shape `c` take as many bytes as the closed form
/// counts for so many rounds.
pub proof fn lemma_rounds_len(rs: Seq<FriQueryRound>, c: VerifierConfig)
    requires
        standard_sizes(c),
        forall|i: int| 0 <= i < rs.len() ==> round_conforms(#[trigger] rs[i], c),
    ensures
        rounds_bytes(rs).len() == rs.len() * query_init_size(c) + rs.len() * query_steps_size(c),
    decreases rs.len(),
{
    if rs.len() > 0 {
        let rest = rs.drop_last();
        assert forall|i: int| 0 <= i < rest.len() implies round_conforms(#[trigger] rest[i], c) by {
            assert(rest[i] == rs[i]);
        }
        lemma_rounds_len(rest, c);
        lemma_round_len(rs.last(), c);
        let a = query_init_size(c);
        let b = query_steps_size(c);
        assert(rs.len() * a + rs.len() * b == rest.len() * a + rest.len() * b + (a + b))
            by (nonlinear_arith)
            requires
                rs.len() == rest.len() + 1,
        ;
    } else {
        assert(rs.len() * query_init_size(c) + rs.len() * query_steps_size(c) == 0)
            by (nonlinear_arith)
            requires
                rs.len() == 0,
        ;
    }
}

/// The size invariant: the bytes of a proof of the shape `c` are as many
/// as the closed form of `c` says.
pub proof fn lemma_size_is_closed_form(p: ProofWithPublicInputs, c: VerifierConfig)
    requires
        conforms(p, c),
    ensures
        proof_bytes(p).len() == closed_form_size(c),
{
    let o = p.proof.openings;
    let fri = p.proof.opening_proof;
    lemma_digests_len(p.proof.wires_cap@);
    lemma_digests_len(p.proof.plonk_zs_partial_products_cap@);
    lemma_digests_len(p.proof.quotient_polys_cap@);
    assert(c.hash_size == 32 && c.field_size == 8 && c.ext_field_size == 16
        && c.merkle_height_size == 1);
    assert(head_bytes(p).len() == caps_size(c)) by {
        assert((c.num_wires_cap + c.num_plonk_zs_partial_products_cap + c.num_quotient_polys_cap)
            * 32 == 32 * c.num_wires_cap + 32 * c.num_plonk_zs_partial_products_cap + 32
            * c.num_quotient_polys_cap);
    }
    lemma_exts_len(o.constants@);
    lemma_exts_len(o.plonk_sigmas@);
    lemma_exts_len(o.wires@);
    lemma_exts_len(o.plonk_zs@);
    lemma_exts_len(o.plonk_zs_next@);
    lemma_exts_len(o.partial_products@);
    lemma_exts_len(o.quotient_polys@);
    assert(openings_bytes(p).len() == openings_size(c));
    lemma_caps_len(fri.commit_phase_merkle_caps@, c.fri_commit_merkle_cap_height as nat);
    assert(caps_bytes(fri.commit_phase_merkle_caps@).len() == commit_phase_size(c));
    lemma_rounds_len(fri.query_round_proofs@, c);
    assert(rounds_bytes(fri.query_round_proofs@).len() == query_rounds_size(c));
    lemma_exts_len(fri.final_poly@);
    assert(exts_bytes(fri.final_poly@).len() == final_poly_size(c));
    lemma_le_bytes_len(fri.pow_witness as nat, 8);
    lemma_words_len(p.public_inputs@);
    assert(words_bytes(p.public_inputs@).len() == public_inputs_size(c));
}

/// Deepest Merkle path that the byte for its depth can count.
pub const MAX_PATH_DEPTH: usize = 255;

/// Whether the byte for the depth of a path can count every path of the
/// shape.
pub open spec fn depths_fit(c: VerifierConfig) -> bool {
    c.num_fri_query_round == 0 || (c.num_fri_query_init_constants_sigmas_p <= MAX_PATH_DEPTH
        && c.num_fri_query_init_wires_p <= MAX_PATH_DEPTH && c.num_fri_query_init_zs_partial_p
        <= MAX_PATH_DEPTH && c.num_fri_query_init_quotient_p <= MAX_PATH_DEPTH
        && c.num_fri_query_step0_p <= MAX_PATH_DEPTH && c.num_fri_query_step1_p
        <= MAX_PATH_DEPTH)
}

/// Whether no path of the round is deeper than a byte can count.
pub open spec fn round_paths_short(r: FriQueryRound) -> bool {
    &&& forall|k: int|
        0 <= k < r.initial_trees_proof.evals_proofs@.len() ==> (
        #[trigger] r.initial_trees_proof.evals_proofs@[k]).1.siblings@.len() <= MAX_PATH_DEPTH
    &&& forall|k: int|
        0 <= k < r.steps@.len() ==> (#[trigger] r.steps@[k]).merkle_proof.siblings@.len()
            <= MAX_PATH_DEPTH
}

fn write_word(out: &mut Vec<u8>, x: u64)
    ensures
        final(out)@ == old(out)@ + word_bytes(x),
{
    let mut v: u64 = x;
    let mut i: usize = 0;
    proof {
        assert(out@ + le_bytes(v as nat, 8) =~= old(out)@ + word_bytes(x));
    }
    while i < 8
        invariant
            i <= 8,
            out@ + le_bytes(v as nat, (8 - i) as nat) == old(out)@ + word_bytes(x),
        decreases 8 - i,
    {
        let ghost before = out@;
        out.push((v % 256) as u8);
        proof {
            assert(before + (seq![(v % 256) as u8] + le_bytes((v / 256) as nat, (7 - i) as nat))
                =~= out@ + le_bytes((v / 256) as nat, (7 - i) as nat));
        }
        v = v / 256;
        i += 1;
    }
    proof {
        assert(out@ + le_bytes(v as nat, 0) =~= out@);
    }
}

fn write_words(out: &mut Vec<u8>, ws: &[u64])
    ensures
        final(out)@ == old(out)@ + words_bytes(ws@),
{
    let mut i: usize = 0;
    proof {
        assert(ws@.take(0) =~= Seq::<u64>::empty());
        assert(out@ =~= old(out)@ + words_bytes(ws@.take(0)));
    }
    while i < ws.len()
        invariant
            i <= ws@.len(),
            out@ == old(out)@ + words_bytes(ws@.take(i as int)),
        decreases ws@.len() - i,
    {
        write_word(out, ws[i]);
        proof {
            let next = ws@.take(i + 1);
            assert(next.drop_last() =~= ws@.take(i as int));
            assert(next.last() == ws@[i as int]);
            assert(out@ =~= old(out)@ + words_bytes(next));
        }
        i += 1;
    }
    proof {
        assert(ws@.take(i as int) =~= ws@);
    }
}

fn write_digests(out: &mut Vec<u8>, ds: &Vec<HashOut>)
    ensures
        final(out)@ == old(out)@ + digests_bytes(ds@),
{
    let mut i: usize = 0;
    proof {
        assert(ds@.take(0) =~= Seq::<HashOut>::empty());
        assert(out@ =~= old(out)@ + digests_bytes(ds@.take(0)));
    }
    while i < ds.len()
        invariant
            i <= ds@.len(),
            out@ == old(out)@ + digests_bytes(ds@.take(i as int)),
        decreases ds@.len() - i,
    {
        write_words(out, ds[i].as_slice());
        proof {
            let next = ds@.take(i + 1);
            assert(next.drop_last() =~= ds@.take(i as int));
            assert(next.last() == ds@[i as int]);
            assert(out@ =~= old(out)@ + digests_bytes(next));
        }
        i += 1;
    }
    proof {
        assert(ds@.take(i as int) =~= ds@);
    }
}

fn write_exts(out: &mut Vec<u8>, es: &Vec<ExtElement>)
    ensures
        final(out)@ == old(out)@ + exts_bytes(es@),
{
    let mut i: usize = 0;
    proof {
        assert(es@.take(0) =~= Seq::<ExtElement>::empty());
        assert(out@ =~= old(out)@ + exts_bytes(es@.take(0)));
    }
    while i < es.len()
        invariant
            i <= es@.len(),
            out@ == old(out)@ + exts_bytes(es@.take(i as int)),
        decreases es@.len() - i,
    {
        write_words(out, es[i].as_slice());
        proof {
            let next = es@.take(i + 1);
            assert(next.drop_last() =~= es@.take(i as int));
            assert(next.last() == es@[i as int]);
            assert(out@ =~= old(out)@ + exts_bytes(next));
        }
        i += 1;
    }
    proof {
        assert(es@.take(i as int) =~= es@);
    }
}

fn write_caps(out: &mut Vec<u8>, caps: &Vec<MerkleCap>)
    ensures
        final(out)@ == old(out)@ + caps_bytes(caps@),
{
    let mut i: usize = 0;
    proof {
        assert(caps@.take(0) =~= Seq::<MerkleCap>::empty());
        assert(out@ =~= old(out)@ + caps_bytes(caps@.take(0)));
    }
    while i < caps.len()
        invariant
            i <= caps@.len(),
            out@ == old(out)@ + caps_bytes(caps@.take(i as int)),
        decreases caps@.len() - i,
    {
        write_digests(out, &caps[i]);
        proof {
            let next = caps@.take(i + 1);
            assert(next.drop_last() =~= caps@.take(i as int));
            assert(next.last() == caps@[i as int]);
            assert(out@ =~= old(out)@ + caps_bytes(next));
        }
        i += 1;
    }
    proof {
        assert(caps@.take(i as int) =~= caps@);
    }
}

fn write_path(out: &mut Vec<u8>, path: &MerkleProof)
    requires
        path.siblings@.len() <= MAX_PATH_DEPTH,
    ensures
        final(out)@ == old(out)@ + path_bytes(*path),
{
    out.push(path.siblings.len() as u8);
    write_digests(out, &path.siblings);
    proof {
        assert(out@ =~= old(out)@ + path_bytes(*path));
    }
}

fn write_round(out: &mut Vec<u8>, r: &FriQueryRound)
    requires
        round_paths_short(*r),
    ensures
        final(out)@ == old(out)@ + round_bytes(*r),
{
    let trees = &r.initial_trees_proof.evals_proofs;
    let mut i: usize = 0;
    proof {
        assert(trees@.take(0) =~= Seq::<(Vec<u64>, MerkleProof)>::empty());
        assert(out@ =~= old(out)@ + trees_bytes(trees@.take(0)));
    }
    while i < trees.len()
        invariant
            i <= trees@.len(),
            *trees == r.initial_trees_proof.evals_proofs,
            round_paths_short(*r),
            out@ == old(out)@ + trees_bytes(trees@.take(i as int)),
        decreases trees@.len() - i,
    {
        let ghost before = out@;
        let tree = &trees[i];
        write_words(out, tree.0.as_slice());
        write_path(out, &tree.1);
        proof {
            let next = trees@.take(i + 1);
            assert(next.drop_last() =~= trees@.take(i as int));
            assert(next.last() == trees@[i as int]);
            assert(out@ =~= before + (words_bytes(tree.0@) + path_bytes(tree.1)));
            assert(out@ =~= old(out)@ + trees_bytes(next));
        }
        i += 1;
    }
    proof {
        assert(trees@.take(i as int) =~= trees@);
    }
    let ghost middle = out@;
    let steps = &r.steps;
    let mut k: usize = 0;
    proof {
        assert(steps@.take(0) =~= Seq::<FriQueryStep>::empty());
        assert(out@ =~= middle + steps_bytes(steps@.take(0)));
    }
    while k < steps.len()
        invariant
            k <= steps@.len(),
            *steps == r.steps,
            round_paths_short(*r),
            out@ == middle + steps_bytes(steps@.take(k as int)),
        decreases steps@.len() - k,
    {
        let ghost before = out@;
        let step = &steps[k];
        write_exts(out, &step.evals);
        write_path(out, &step.merkle_proof);
        proof {
            let next = steps@.take(k + 1);
            assert(next.drop_last() =~= steps@.take(k as int));
            assert(next.last() == steps@[k as int]);
            assert(out@ =~= before + (exts_bytes(step.evals@) + path_bytes(step.merkle_proof)));
            assert(out@ =~= middle + steps_bytes(next));
        }
        k += 1;
    }
    proof {
        assert(steps@.take(k as int) =~= steps@);
        assert(out@ =~= old(out)@ + round_bytes(*r));
    }
}

fn write_rounds(out: &mut Vec<u8>, rs: &Vec<FriQueryRound>)
    requires
        forall|i: int| 0 <= i < rs@.len() ==> round_paths_short(#[trigger] rs@[i]),
    ensures
        final(out)@ == old(out)@ + rounds_bytes(rs@),
{
    let mut i: usize = 0;
    proof {
        assert(rs@.take(0) =~= Seq::<FriQueryRound>::empty());
        assert(out@ =~= old(out)@ + rounds_bytes(rs@.take(0)));
    }
    while i < rs.len()
        invariant
            i <= rs@.len(),
            forall|i: int| 0 <= i < rs@.len() ==> round_paths_short(#[trigger] rs@[i]),
            out@ == old(out)@ + rounds_bytes(rs@.take(i as int)),
        decreases rs@.len() - i,
    {
        write_round(out, &rs[i]);
        proof {
            let next = rs@.take(i + 1);
            assert(next.drop_last() =~= rs@.take(i as int));
            assert(next.last() == rs@[i as int]);
            assert(out@ =~= old(out)@ + rounds_bytes(next));
        }
        i += 1;
    }
    proof {
        assert(rs@.take(i as int) =~= rs@);
    }
}

/// Writes a proof in its flat layout.
///
/// Fails with `ShapeMismatch` where the proof has not exactly the shape
/// `conf`, else with `PathTooLong` where the shape counts a Merkle path
/// deeper than a byte can say, else with `NonCanonical` where a word of
/// the proof is not below the order of the field. On success the bytes
/// are as many as the closed form of the shape says.
pub fn serialize_proof(pwpi: &ProofWithPublicInputs, conf: &VerifierConfig) -> (res: Result<
    Vec<u8>,
    LayoutError,
>)
    ensures
        !conforms(*pwpi, *conf) ==> res == Err::<Vec<u8>, LayoutError>(
            LayoutError::ShapeMismatch,
        ),
        conforms(*pwpi, *conf) && !depths_fit(*conf) ==> res == Err::<Vec<u8>, LayoutError>(
            LayoutError::PathTooLong,
        ),
        conforms(*pwpi, *conf) && depths_fit(*conf) && !canonical(*pwpi) ==> res == Err::<
            Vec<u8>,
            LayoutError,
        >(LayoutError::NonCanonical),
        conforms(*pwpi, *conf) && depths_fit(*conf) && canonical(*pwpi) ==> res is Ok
            && res->Ok_0@ == proof_bytes(*pwpi) && res->Ok_0@.len() == closed_form_size(*conf),
{
    if !check_conforms(pwpi, conf) {
        return Err(LayoutError::ShapeMismatch);
    }
    if conf.num_fri_query_round != 0 && !(conf.num_fri_query_init_constants_sigmas_p
        <= MAX_PATH_DEPTH && conf.num_fri_query_init_wires_p <= MAX_PATH_DEPTH
        && conf.num_fri_query_init_zs_partial_p <= MAX_PATH_DEPTH
        && conf.num_fri_query_init_quotient_p <= MAX_PATH_DEPTH && conf.num_fri_query_step0_p
        <= MAX_PATH_DEPTH && conf.num_fri_query_step1_p <= MAX_PATH_DEPTH) {
        return Err(LayoutError::PathTooLong);
    }
    if !check_canonical(pwpi) {
        return Err(LayoutError::NonCanonical);
    }
    let inner = &pwpi.proof;
    let fri = &inner.opening_proof;
    proof {
        assert forall|i: int| 0 <= i < fri.query_round_proofs@.len() implies round_paths_short(
            #[trigger] fri.query_round_proofs@[i],
        ) by {
            let r = fri.query_round_proofs@[i];
            assert(round_conforms(r, *conf));
            assert forall|k: int|
                0 <= k < r.initial_trees_proof.evals_proofs@.len() implies (
            #[trigger] r.initial_trees_proof.evals_proofs@[k]).1.siblings@.len()
                <= MAX_PATH_DEPTH by {
                assert(k == 0 || k == 1 || k == 2 || k == 3);
                assert(tree_path(r, k) == r.initial_trees_proof.evals_proofs@[k].1.siblings@);
            }
            assert forall|k: int| 0 <= k < r.steps@.len() implies (
            #[trigger] r.steps@[k]).merkle_proof.siblings@.len() <= MAX_PATH_DEPTH by {
                assert(k == 0 || k == 1);
                assert(step_path(r, k) == r.steps@[k].merkle_proof.siblings@);
            }
        }
        lemma_size_is_closed_form(*pwpi, *conf);
    }
    let mut out: Vec<u8> = Vec::new();
    write_digests(&mut out, &inner.wires_cap);
    write_digests(&mut out, &inner.plonk_zs_partial_products_cap);
    write_digests(&mut out, &inner.quotient_polys_cap);
    proof {
        assert(out@ =~= head_bytes(*pwpi));
    }
    let ghost head = out@;
    write_exts(&mut out, &inner.openings.constants);
    write_exts(&mut out, &inner.openings.plonk_sigmas);
    write_exts(&mut out, &inner.openings.wires);
    write_exts(&mut out, &inner.openings.plonk_zs);
    write_exts(&mut out, &inner.openings.plonk_zs_next);
    write_exts(&mut out, &inner.openings.partial_products);
    write_exts(&mut out, &inner.openings.quotient_polys);
    proof {
        assert(out@ =~= head + openings_bytes(*pwpi));
    }
    let ghost opened = out@;
    write_caps(&mut out, &fri.commit_phase_merkle_caps);
    write_rounds(&mut out, &fri.query_round_proofs);
    write_exts(&mut out, &fri.final_poly);
    write_word(&mut out, fri.pow_witness);
    proof {
        assert(out@ =~= opened + fri_bytes(*pwpi));
    }
    write_words(&mut out, pwpi.public_inputs.as_slice());
    proof {
        assert(out@ =~= proof_bytes(*pwpi));
    }
    Ok(out)
}

} // verus!
