//! Reading a proof back from its flat layout.

use vstd::prelude::*;
use crate::canonical::{canonical, check_canonical};
use crate::circom_proof::LayoutError;
use crate::codec::{
    caps_bytes, depths_fit, digests_bytes, exts_bytes, fri_bytes, head_bytes, le_bytes,
    lemma_caps_len, lemma_digests_len, lemma_exts_len, lemma_path_len, lemma_round_len,
    lemma_rounds_len, lemma_size_is_closed_form, lemma_words_len, openings_bytes, path_bytes,
    proof_bytes, round_bytes, rounds_bytes, steps_bytes, trees_bytes, word_bytes, words_bytes,
    MAX_PATH_DEPTH,
};
use crate::data::{
    ExtElement, FriInitialTreeProof, FriProof, FriQueryRound, FriQueryStep, HashOut, MerkleCap,
    MerkleProof, OpeningSet, Proof, ProofWithPublicInputs,
};
use crate::layout::{
    caps_size, closed_form_size, commit_phase_size, conforms, openings_size, proof_size,
    query_init_size, query_steps_size, round_conforms, standard_sizes,
};
use crate::roundtrip::{holds_canonical_words, lemma_canonical_by_bytes};
use crate::shape::{
    VerifierConfig, EXT_FIELD_SIZE, FIELD_SIZE, HASH_SIZE, MERKLE_HEIGHT_SIZE,
};

verus! {

/// A word is read back from its bytes: the bytes of the number made of a
/// byte and, above it, of a number of `n` bytes, are that byte and then
/// the bytes of that number.
pub proof fn lemma_le_bytes_step(low: u8, high: nat, n: nat)
    ensures
        le_bytes((high * 256 + low) as nat, n + 1) == seq![low] + le_bytes(high, n),
{
    assert((high * 256 + low) % 256 == low as nat);
    assert((high * 256 + low) / 256 == high);
}

/// `256^k`.
pub open spec fn pow256(k: nat) -> nat
    decreases k,
{
    if k == 0 {
        1
    } else {
        256 * pow256((k - 1) as nat)
    }
}

/// Each byte more multiplies by 256.
pub proof fn lemma_pow256_step(k: nat)
    ensures
        pow256(k + 1) == 256 * pow256(k),
{
}

/// Up to eight bytes make a number that fits a word.
pub proof fn lemma_pow256_word(k: nat)
    requires
        k <= 8,
    ensures
        pow256(k) <= 0x1_0000_0000_0000_0000,
{
    reveal_with_fuel(pow256, 9);
}

/// Reads the word that stands at `pos`.
pub fn read_word(bytes: &[u8], pos: usize) -> (w: u64)
    requires
        pos + 8 <= bytes@.len(),
    ensures
        word_bytes(w) == bytes@.subrange(pos as int, pos + 8),
{
    let mut w: u64 = 0;
    let mut k: usize = 0;
    let _ = bytes.len();
    proof {
        assert(le_bytes(0, 0) =~= bytes@.subrange(pos + 8, pos + 8));
    }
    while k < 8
        invariant
            k <= 8,
            pos + 8 <= bytes@.len() <= usize::MAX,
            w < pow256(k as nat),
            le_bytes(w as nat, k as nat) == bytes@.subrange(pos + 8 - k, pos + 8),
        decreases 8 - k,
    {
        let b: u8 = bytes[pos + 7 - k];
        proof {
            lemma_le_bytes_step(b, w as nat, k as nat);
            lemma_pow256_step(k as nat);
            assert(w * 256 + b < pow256((k + 1) as nat)) by (nonlinear_arith)
                requires
                    w < pow256(k as nat),
                    b < 256,
                    pow256((k + 1) as nat) == 256 * pow256(k as nat),
            ;
            lemma_pow256_word((k + 1) as nat);
            assert(seq![b] + bytes@.subrange(pos + 8 - k, pos + 8) =~= bytes@.subrange(
                pos + 7 - k,
                pos + 8,
            ));
        }
        w = w * 256 + b as u64;
        k += 1;
    }
    w
}

/// Reads the `n` words that stand at `pos`.
pub fn read_words(bytes: &[u8], pos: usize, n: usize) -> (ws: Vec<u64>)
    requires
        pos + 8 * n <= bytes@.len(),
    ensures
        ws@.len() == n,
        words_bytes(ws@) == bytes@.subrange(pos as int, pos + 8 * n),
{
    let mut ws: Vec<u64> = Vec::new();
    let mut i: usize = 0;
    let _ = bytes.len();
    proof {
        assert(words_bytes(ws@) =~= bytes@.subrange(pos as int, pos as int));
    }
    while i < n
        invariant
            i <= n,
            pos + 8 * n <= bytes@.len() <= usize::MAX,
            ws@.len() == i,
            words_bytes(ws@) == bytes@.subrange(pos as int, pos + 8 * i),
        decreases n - i,
    {
        let ghost before = ws@;
        let w = read_word(bytes, pos + 8 * i);
        ws.push(w);
        proof {
            assert(ws@.drop_last() =~= before);
            assert(bytes@.subrange(pos as int, pos + 8 * i) + bytes@.subrange(
                pos + 8 * i,
                pos + 8 * i + 8,
            ) =~= bytes@.subrange(pos as int, pos + 8 * (i + 1)));
        }
        i += 1;
    }
    ws
}

/// Reads the `n` digests that stand at `pos`.
pub fn read_digests(bytes: &[u8], pos: usize, n: usize) -> (ds: Vec<HashOut>)
    requires
        pos + 32 * n <= bytes@.len(),
    ensures
        ds@.len() == n,
        digests_bytes(ds@) == bytes@.subrange(pos as int, pos + 32 * n),
{
    let mut ds: Vec<HashOut> = Vec::new();
    let mut i: usize = 0;
    let _ = bytes.len();
    proof {
        assert(digests_bytes(ds@) =~= bytes@.subrange(pos as int, pos as int));
    }
    while i < n
        invariant
            i <= n,
            pos + 32 * n <= bytes@.len() <= usize::MAX,
            ds@.len() == i,
            digests_bytes(ds@) == bytes@.subrange(pos as int, pos + 32 * i),
        decreases n - i,
    {
        let ghost before = ds@;
        let ws = read_words(bytes, pos + 32 * i, 4);
        let d: HashOut = [ws[0], ws[1], ws[2], ws[3]];
        ds.push(d);
        proof {
            assert(d@ =~= ws@);
            assert(ds@.drop_last() =~= before);
            assert(bytes@.subrange(pos as int, pos + 32 * i) + bytes@.subrange(
                pos + 32 * i,
                pos + 32 * i + 8 * 4,
            ) =~= bytes@.subrange(pos as int, pos + 32 * (i + 1)));
        }
        i += 1;
    }
    ds
}

/// Reads the `n` elements of the extension field that stand at `pos`.
pub fn read_exts(bytes: &[u8], pos: usize, n: usize) -> (es: Vec<ExtElement>)
    requires
        pos + 16 * n <= bytes@.len(),
    ensures
        es@.len() == n,
        exts_bytes(es@) == bytes@.subrange(pos as int, pos + 16 * n),
{
    let mut es: Vec<ExtElement> = Vec::new();
    let mut i: usize = 0;
    let _ = bytes.len();
    proof {
        assert(exts_bytes(es@) =~= bytes@.subrange(pos as int, pos as int));
    }
    while i < n
        invariant
            i <= n,
            pos + 16 * n <= bytes@.len() <= usize::MAX,
            es@.len() == i,
            exts_bytes(es@) == bytes@.subrange(pos as int, pos + 16 * i),
        decreases n - i,
    {
        let ghost before = es@;
        let ws = read_words(bytes, pos + 16 * i, 2);
        let e: ExtElement = [ws[0], ws[1]];
        es.push(e);
        proof {
            assert(e@ =~= ws@);
            assert(es@.drop_last() =~= before);
            assert(bytes@.subrange(pos as int, pos + 16 * i) + bytes@.subrange(
                pos + 16 * i,
                pos + 16 * i + 8 * 2,
            ) =~= bytes@.subrange(pos as int, pos + 16 * (i + 1)));
        }
        i += 1;
    }
    es
}

/// Reads the Merkle path of `depth` siblings that stands at `pos`, or
/// `None` where the byte for its depth says another depth.
pub fn read_path(bytes: &[u8], pos: usize, depth: usize) -> (path: Option<MerkleProof>)
    requires
        depth <= MAX_PATH_DEPTH,
        pos + 1 + 32 * depth <= bytes@.len(),
    ensures
        path is Some <==> bytes@[pos as int] == depth,
        path matches Some(p) ==> p.siblings@.len() == depth && path_bytes(p) == bytes@.subrange(
            pos as int,
            pos + 1 + 32 * depth,
        ),
{
    if bytes[pos] as usize != depth {
        return None;
    }
    let siblings = read_digests(bytes, pos + 1, depth);
    let p = MerkleProof { siblings };
    proof {
        assert(seq![bytes@[pos as int]] + bytes@.subrange(pos + 1, pos + 1 + 32 * depth)
            =~= bytes@.subrange(pos as int, pos + 1 + 32 * depth));
    }
    Some(p)
}

/// Reads the `n` caps of `height` digests each that stand at `pos`.
pub fn read_caps(bytes: &[u8], pos: usize, n: usize, height: usize) -> (caps: Vec<MerkleCap>)
    requires
        pos + (n * height) * 32 <= bytes@.len(),
    ensures
        caps@.len() == n,
        forall|i: int| 0 <= i < n ==> (#[trigger] caps@[i])@.len() == height,
        caps_bytes(caps@) == bytes@.subrange(pos as int, pos + (n * height) * 32),
{
    let mut caps: Vec<MerkleCap> = Vec::new();
    let mut i: usize = 0;
    let mut cur: usize = pos;
    let _ = bytes.len();
    proof {
        assert(caps_bytes(caps@) =~= bytes@.subrange(pos as int, pos as int));
        assert((0 * height) * 32 == 0);
    }
    while i < n
        invariant
            i <= n,
            pos + (n * height) * 32 <= bytes@.len() <= usize::MAX,
            cur == pos + (i * height) * 32,
            caps@.len() == i,
            forall|j: int| 0 <= j < i ==> (#[trigger] caps@[j])@.len() == height,
            caps_bytes(caps@) == bytes@.subrange(pos as int, cur as int),
        decreases n - i,
    {
        let ghost before = caps@;
        proof {
            assert(((i + 1) * height) * 32 == (i * height) * 32 + 32 * height)
                by (nonlinear_arith);
            assert(((i + 1) * height) * 32 <= (n * height) * 32) by (nonlinear_arith)
                requires
                    i + 1 <= n,
            ;
        }
        let cap = read_digests(bytes, cur, height);
        caps.push(cap);
        proof {
            assert(caps@.drop_last() =~= before);
            assert(bytes@.subrange(pos as int, cur as int) + bytes@.subrange(
                cur as int,
                cur + 32 * height,
            ) =~= bytes@.subrange(pos as int, cur + 32 * height));
        }
        cur = cur + 32 * height;
        i += 1;
    }
    caps
}

/// Bytes of one query round of the shape `c`.
pub open spec fn round_size(c: VerifierConfig) -> int {
    query_init_size(c) + query_steps_size(c)
}

/// Whether the four bytes that hold the depths of the paths of the
/// initial trees at `pos` say the depths that the shape counts.
pub open spec fn trees_depths_agree(bytes: Seq<u8>, pos: int, c: VerifierConfig) -> bool {
    let t1 = pos + 8 * c.num_fri_query_init_constants_sigmas_v + 1 + 32
        * c.num_fri_query_init_constants_sigmas_p;
    let t2 = t1 + 8 * c.num_fri_query_init_wires_v + 1 + 32 * c.num_fri_query_init_wires_p;
    let t3 = t2 + 8 * c.num_fri_query_init_zs_partial_v + 1 + 32
        * c.num_fri_query_init_zs_partial_p;
    &&& bytes[pos + 8 * c.num_fri_query_init_constants_sigmas_v]
        == c.num_fri_query_init_constants_sigmas_p
    &&& bytes[t1 + 8 * c.num_fri_query_init_wires_v] == c.num_fri_query_init_wires_p
    &&& bytes[t2 + 8 * c.num_fri_query_init_zs_partial_v] == c.num_fri_query_init_zs_partial_p
    &&& bytes[t3 + 8 * c.num_fri_query_init_quotient_v] == c.num_fri_query_init_quotient_p
}

/// Whether the two bytes that hold the depths of the paths of the
/// reduction steps at `pos` say the depths that the shape counts.
pub open spec fn steps_depths_agree(bytes: Seq<u8>, pos: int, c: VerifierConfig) -> bool {
    let s1 = pos + 16 * c.num_fri_query_step0_v + 1 + 32 * c.num_fri_query_step0_p;
    &&& bytes[pos + 16 * c.num_fri_query_step0_v] == c.num_fri_query_step0_p
    &&& bytes[s1 + 16 * c.num_fri_query_step1_v] == c.num_fri_query_step1_p
}

/// Whether the six bytes that hold the depths of the paths of the query
/// round at `pos` say the depths that the shape counts.
pub open spec fn round_depths_agree(bytes: Seq<u8>, pos: int, c: VerifierConfig) -> bool {
    trees_depths_agree(bytes, pos, c) && steps_depths_agree(bytes, pos + query_init_size(c), c)
}

/// Reads one initial tree: `v` leaf values and a path of `d` siblings.
fn read_tree(bytes: &[u8], pos: usize, v: usize, d: usize) -> (tree: Option<
    (Vec<u64>, MerkleProof),
>)
    requires
        d <= MAX_PATH_DEPTH,
        pos + 8 * v + 1 + 32 * d <= bytes@.len(),
    ensures
        tree is Some <==> bytes@[pos + 8 * v] == d,
        tree matches Some(t) ==> t.0@.len() == v && t.1.siblings@.len() == d && words_bytes(t.0@)
            + path_bytes(t.1) == bytes@.subrange(pos as int, pos + 8 * v + 1 + 32 * d),
{
    let _ = bytes.len();
    let values = read_words(bytes, pos, v);
    match read_path(bytes, pos + 8 * v, d) {
        None => None,
        Some(path) => {
            proof {
                assert(bytes@.subrange(pos as int, pos + 8 * v) + bytes@.subrange(
                    pos + 8 * v,
                    pos + 8 * v + 1 + 32 * d,
                ) =~= bytes@.subrange(pos as int, pos + 8 * v + 1 + 32 * d));
            }
            Some((values, path))
        },
    }
}

/// Reads one reduction step: `v` evaluations and a path of `d` siblings.
fn read_step(bytes: &[u8], pos: usize, v: usize, d: usize) -> (step: Option<FriQueryStep>)
    requires
        d <= MAX_PATH_DEPTH,
        pos + 16 * v + 1 + 32 * d <= bytes@.len(),
    ensures
        step is Some <==> bytes@[pos + 16 * v] == d,
        step matches Some(s) ==> s.evals@.len() == v && s.merkle_proof.siblings@.len() == d
            && exts_bytes(s.evals@) + path_bytes(s.merkle_proof) == bytes@.subrange(
            pos as int,
            pos + 16 * v + 1 + 32 * d,
        ),
{
    let _ = bytes.len();
    let evals = read_exts(bytes, pos, v);
    match read_path(bytes, pos + 16 * v, d) {
        None => None,
        Some(merkle_proof) => {
            proof {
                assert(bytes@.subrange(pos as int, pos + 16 * v) + bytes@.subrange(
                    pos + 16 * v,
                    pos + 16 * v + 1 + 32 * d,
                ) =~= bytes@.subrange(pos as int, pos + 16 * v + 1 + 32 * d));
            }
            Some(FriQueryStep { evals, merkle_proof })
        },
    }
}

/// The size of a query round, written out for elements of the sizes of
/// this layout.
pub proof fn lemma_round_sizes(c: VerifierConfig)
    requires
        standard_sizes(c),
    ensures
        query_init_size(c) == 8 * c.num_fri_query_init_constants_sigmas_v + 1 + 32
            * c.num_fri_query_init_constants_sigmas_p + 8 * c.num_fri_query_init_wires_v + 1 + 32
            * c.num_fri_query_init_wires_p + 8 * c.num_fri_query_init_zs_partial_v + 1 + 32
            * c.num_fri_query_init_zs_partial_p + 8 * c.num_fri_query_init_quotient_v + 1 + 32
            * c.num_fri_query_init_quotient_p,
        query_steps_size(c) == 16 * c.num_fri_query_step0_v + 1 + 32 * c.num_fri_query_step0_p
            + 16 * c.num_fri_query_step1_v + 1 + 32 * c.num_fri_query_step1_p,
{
    assert(c.hash_size == 32 && c.field_size == 8 && c.ext_field_size == 16
        && c.merkle_height_size == 1);
    assert((c.num_fri_query_init_constants_sigmas_v + c.num_fri_query_init_wires_v
        + c.num_fri_query_init_zs_partial_v + c.num_fri_query_init_quotient_v) * 8 == 8
        * c.num_fri_query_init_constants_sigmas_v + 8 * c.num_fri_query_init_wires_v + 8
        * c.num_fri_query_init_zs_partial_v + 8 * c.num_fri_query_init_quotient_v);
    assert((c.num_fri_query_init_constants_sigmas_p + c.num_fri_query_init_wires_p
        + c.num_fri_query_init_zs_partial_p + c.num_fri_query_init_quotient_p) * 32 == 32
        * c.num_fri_query_init_constants_sigmas_p + 32 * c.num_fri_query_init_wires_p + 32
        * c.num_fri_query_init_zs_partial_p + 32 * c.num_fri_query_init_quotient_p);
}

/// Whether initial trees hold what the shape counts.
pub open spec fn trees_conform(ts: Seq<(Vec<u64>, MerkleProof)>, c: VerifierConfig) -> bool {
    &&& ts.len() == 4
    &&& ts[0].0@.len() == c.num_fri_query_init_constants_sigmas_v
    &&& ts[0].1.siblings@.len() == c.num_fri_query_init_constants_sigmas_p
    &&& ts[1].0@.len() == c.num_fri_query_init_wires_v
    &&& ts[1].1.siblings@.len() == c.num_fri_query_init_wires_p
    &&& ts[2].0@.len() == c.num_fri_query_init_zs_partial_v
    &&& ts[2].1.siblings@.len() == c.num_fri_query_init_zs_partial_p
    &&& ts[3].0@.len() == c.num_fri_query_init_quotient_v
    &&& ts[3].1.siblings@.len() == c.num_fri_query_init_quotient_p
}

/// Whether reduction steps hold what the shape counts.
pub open spec fn steps_conform(ss: Seq<FriQueryStep>, c: VerifierConfig) -> bool {
    &&& ss.len() == 2
    &&& ss[0].evals@.len() == c.num_fri_query_step0_v
    &&& ss[0].merkle_proof.siblings@.len() == c.num_fri_query_step0_p
    &&& ss[1].evals@.len() == c.num_fri_query_step1_v
    &&& ss[1].merkle_proof.siblings@.len() == c.num_fri_query_step1_p
}

/// The bytes of four trees are the bytes of each, one after the other.
pub proof fn lemma_four_trees(ts: Seq<(Vec<u64>, MerkleProof)>)
    requires
        ts.len() == 4,
    ensures
        trees_bytes(ts) == (words_bytes(ts[0].0@) + path_bytes(ts[0].1)) + (words_bytes(ts[1].0@)
            + path_bytes(ts[1].1)) + (words_bytes(ts[2].0@) + path_bytes(ts[2].1)) + (
        words_bytes(ts[3].0@) + path_bytes(ts[3].1)),
{
    let ts3 = ts.drop_last();
    let ts2 = ts3.drop_last();
    let ts1 = ts2.drop_last();
    let ts0 = ts1.drop_last();
    let b0 = words_bytes(ts[0].0@) + path_bytes(ts[0].1);
    let b1 = words_bytes(ts[1].0@) + path_bytes(ts[1].1);
    let b2 = words_bytes(ts[2].0@) + path_bytes(ts[2].1);
    assert(ts0.len() == 0);
    assert(trees_bytes(ts0) =~= Seq::<u8>::empty());
    assert(ts1.last() == ts[0]);
    assert(trees_bytes(ts1) =~= b0);
    assert(ts2.last() == ts[1]);
    assert(trees_bytes(ts2) =~= b0 + b1);
    assert(ts3.last() == ts[2]);
    assert(trees_bytes(ts3) =~= b0 + b1 + b2);
    assert(ts.last() == ts[3]);
}

/// The bytes of two steps are the bytes of each, one after the other.
pub proof fn lemma_two_steps(ss: Seq<FriQueryStep>)
    requires
        ss.len() == 2,
    ensures
        steps_bytes(ss) == (exts_bytes(ss[0].evals@) + path_bytes(ss[0].merkle_proof)) + (
        exts_bytes(ss[1].evals@) + path_bytes(ss[1].merkle_proof)),
{
    let ss1 = ss.drop_last();
    let ss0 = ss1.drop_last();
    assert(ss0.len() == 0);
    assert(steps_bytes(ss0) =~= Seq::<u8>::empty());
    assert(ss1.last() == ss[0]);
    assert(steps_bytes(ss1) =~= exts_bytes(ss[0].evals@) + path_bytes(ss[0].merkle_proof));
    assert(ss.last() == ss[1]);
}

/// Reads the four initial trees of the shape `c` that stand at `pos`.
fn read_trees(bytes: &[u8], pos: usize, c: &VerifierConfig) -> (trees: Option<
    Vec<(Vec<u64>, MerkleProof)>,
>)
    requires
        standard_sizes(*c),
        c.num_fri_query_round > 0,
        depths_fit(*c),
        pos + query_init_size(*c) <= bytes@.len(),
    ensures
        trees is Some <==> trees_depths_agree(bytes@, pos as int, *c),
        trees matches Some(ts) ==> trees_conform(ts@, *c) && trees_bytes(ts@) == bytes@.subrange(
            pos as int,
            pos + query_init_size(*c),
        ),
{
    let _ = bytes.len();
    proof {
        lemma_round_sizes(*c);
    }
    let t0 = match read_tree(
        bytes,
        pos,
        c.num_fri_query_init_constants_sigmas_v,
        c.num_fri_query_init_constants_sigmas_p,
    ) {
        None => {
            return None;
        },
        Some(t) => t,
    };
    let p1 = pos + 8 * c.num_fri_query_init_constants_sigmas_v + 1 + 32
        * c.num_fri_query_init_constants_sigmas_p;
    let t1 = match read_tree(
        bytes,
        p1,
        c.num_fri_query_init_wires_v,
        c.num_fri_query_init_wires_p,
    ) {
        None => {
            return None;
        },
        Some(t) => t,
    };
    let p2 = p1 + 8 * c.num_fri_query_init_wires_v + 1 + 32 * c.num_fri_query_init_wires_p;
    let t2 = match read_tree(
        bytes,
        p2,
        c.num_fri_query_init_zs_partial_v,
        c.num_fri_query_init_zs_partial_p,
    ) {
        None => {
            return None;
        },
        Some(t) => t,
    };
    let p3 = p2 + 8 * c.num_fri_query_init_zs_partial_v + 1 + 32
        * c.num_fri_query_init_zs_partial_p;
    let t3 = match read_tree(
        bytes,
        p3,
        c.num_fri_query_init_quotient_v,
        c.num_fri_query_init_quotient_p,
    ) {
        None => {
            return None;
        },
        Some(t) => t,
    };
    let ghost end = p3 + 8 * c.num_fri_query_init_quotient_v + 1 + 32
        * c.num_fri_query_init_quotient_p;
    let ghost b0 = words_bytes(t0.0@) + path_bytes(t0.1);
    let ghost b1 = words_bytes(t1.0@) + path_bytes(t1.1);
    let ghost b2 = words_bytes(t2.0@) + path_bytes(t2.1);
    let ghost b3 = words_bytes(t3.0@) + path_bytes(t3.1);
    let mut trees: Vec<(Vec<u64>, MerkleProof)> = Vec::new();
    trees.push(t0);
    trees.push(t1);
    trees.push(t2);
    trees.push(t3);
    proof {
        lemma_four_trees(trees@);
        assert(end == pos + query_init_size(*c));
        assert(b0 + b1 + b2 + b3 =~= bytes@.subrange(pos as int, end as int));
    }
    Some(trees)
}

/// Reads the two reduction steps of the shape `c` that stand at `pos`.
fn read_steps(bytes: &[u8], pos: usize, c: &VerifierConfig) -> (steps: Option<Vec<FriQueryStep>>)
    requires
        standard_sizes(*c),
        c.num_fri_query_round > 0,
        depths_fit(*c),
        pos + query_steps_size(*c) <= bytes@.len(),
    ensures
        steps is Some <==> steps_depths_agree(bytes@, pos as int, *c),
        steps matches Some(ss) ==> steps_conform(ss@, *c) && steps_bytes(ss@) == bytes@.subrange(
            pos as int,
            pos + query_steps_size(*c),
        ),
{
    let _ = bytes.len();
    proof {
        lemma_round_sizes(*c);
    }
    let s0 = match read_step(bytes, pos, c.num_fri_query_step0_v, c.num_fri_query_step0_p) {
        None => {
            return None;
        },
        Some(s) => s,
    };
    let q1 = pos + 16 * c.num_fri_query_step0_v + 1 + 32 * c.num_fri_query_step0_p;
    let s1 = match read_step(bytes, q1, c.num_fri_query_step1_v, c.num_fri_query_step1_p) {
        None => {
            return None;
        },
        Some(s) => s,
    };
    let ghost end = q1 + 16 * c.num_fri_query_step1_v + 1 + 32 * c.num_fri_query_step1_p;
    let ghost c0 = exts_bytes(s0.evals@) + path_bytes(s0.merkle_proof);
    let ghost c1 = exts_bytes(s1.evals@) + path_bytes(s1.merkle_proof);
    let mut steps: Vec<FriQueryStep> = Vec::new();
    steps.push(s0);
    steps.push(s1);
    proof {
        lemma_two_steps(steps@);
        assert(end == pos + query_steps_size(*c));
        assert(c0 + c1 =~= bytes@.subrange(pos as int, end as int));
    }
    Some(steps)
}

/// Reads the query round of the shape `c` that stands at `pos`, or `None`
/// where a byte for the depth of a path says another depth than the
/// shape.
pub fn read_round(bytes: &[u8], pos: usize, c: &VerifierConfig) -> (round: Option<FriQueryRound>)
    requires
        standard_sizes(*c),
        c.num_fri_query_round > 0,
        depths_fit(*c),
        pos + round_size(*c) <= bytes@.len(),
    ensures
        round is Some <==> round_depths_agree(bytes@, pos as int, *c),
        round matches Some(r) ==> round_conforms(r, *c) && round_bytes(r) == bytes@.subrange(
            pos as int,
            pos + round_size(*c),
        ),
{
    let _ = bytes.len();
    proof {
        lemma_round_sizes(*c);
    }
    let trees = match read_trees(bytes, pos, c) {
        None => {
            return None;
        },
        Some(t) => t,
    };
    let mid = pos + (4 + 8 * (c.num_fri_query_init_constants_sigmas_v
        + c.num_fri_query_init_wires_v + c.num_fri_query_init_zs_partial_v
        + c.num_fri_query_init_quotient_v) + 32 * (c.num_fri_query_init_constants_sigmas_p
        + c.num_fri_query_init_wires_p + c.num_fri_query_init_zs_partial_p
        + c.num_fri_query_init_quotient_p));
    proof {
        assert(mid == pos + query_init_size(*c));
    }
    let steps = match read_steps(bytes, mid, c) {
        None => {
            return None;
        },
        Some(s) => s,
    };
    proof {
        assert(bytes@.subrange(pos as int, mid as int) + bytes@.subrange(
            mid as int,
            mid + query_steps_size(*c),
        ) =~= bytes@.subrange(pos as int, pos + round_size(*c)));
    }
    Some(FriQueryRound { initial_trees_proof: FriInitialTreeProof { evals_proofs: trees }, steps })
}

/// The place of the first byte of query round `i` among the rounds that
/// start at `pos`.
pub open spec fn round_start(pos: int, c: VerifierConfig, i: int) -> int {
    pos + i * round_size(c)
}

/// Reads the query rounds of the shape `c` that stand at `pos`, or `None`
/// where a byte for the depth of a path says another depth than the
/// shape.
pub fn read_rounds(bytes: &[u8], pos: usize, c: &VerifierConfig) -> (rounds: Option<
    Vec<FriQueryRound>,
>)
    requires
        standard_sizes(*c),
        depths_fit(*c),
        pos + c.num_fri_query_round * round_size(*c) <= bytes@.len(),
    ensures
        rounds is Some <==> forall|i: int|
            0 <= i < c.num_fri_query_round ==> round_depths_agree(
                bytes@,
                #[trigger] round_start(pos as int, *c, i),
                *c,
            ),
        rounds matches Some(rs) ==> rs@.len() == c.num_fri_query_round && (forall|i: int|
            0 <= i < rs@.len() ==> round_conforms(#[trigger] rs@[i], *c)) && rounds_bytes(rs@)
            == bytes@.subrange(pos as int, pos + c.num_fri_query_round * round_size(*c)),
{
    let n = c.num_fri_query_round;
    let _ = bytes.len();
    let mut rounds: Vec<FriQueryRound> = Vec::new();
    if n == 0 {
        proof {
            assert(rounds_bytes(rounds@) =~= bytes@.subrange(pos as int, pos as int));
            assert(c.num_fri_query_round * round_size(*c) == 0) by (nonlinear_arith)
                requires
                    c.num_fri_query_round == 0,
            ;
        }
        return Some(rounds);
    }
    let ghost size = round_size(*c);
    proof {
        lemma_round_sizes(*c);
        assert(rounds_bytes(rounds@) =~= bytes@.subrange(pos as int, pos as int));
        assert(0 * size == 0);
    }
    let mut i: usize = 0;
    let mut cur: usize = pos;
    while i < n
        invariant
            i <= n,
            n == c.num_fri_query_round,
            n > 0,
            size == round_size(*c),
            size >= 0,
            standard_sizes(*c),
            depths_fit(*c),
            pos + n * size <= bytes@.len() <= usize::MAX,
            cur == pos + i * size,
            rounds@.len() == i,
            forall|j: int| 0 <= j < i ==> round_conforms(#[trigger] rounds@[j], *c),
            forall|j: int|
                0 <= j < i ==> round_depths_agree(
                    bytes@,
                    #[trigger] round_start(pos as int, *c, j),
                    *c,
                ),
            rounds_bytes(rounds@) == bytes@.subrange(pos as int, cur as int),
        decreases n - i,
    {
        let ghost before = rounds@;
        proof {
            lemma_round_sizes(*c);
            assert((i + 1) * size == i * size + size) by (nonlinear_arith);
            assert((i + 1) * size <= n * size) by (nonlinear_arith)
                requires
                    i + 1 <= n,
                    size >= 0,
            ;
            assert(round_start(pos as int, *c, i as int) == cur);
        }
        match read_round(bytes, cur, c) {
            None => {
                return None;
            },
            Some(round) => {
                rounds.push(round);
            },
        }
        proof {
            assert(rounds@.drop_last() =~= before);
            assert(bytes@.subrange(pos as int, cur as int) + bytes@.subrange(
                cur as int,
                cur + size,
            ) =~= bytes@.subrange(pos as int, cur + size));
        }
        cur = cur + (4 + 8 * (c.num_fri_query_init_constants_sigmas_v
            + c.num_fri_query_init_wires_v + c.num_fri_query_init_zs_partial_v
            + c.num_fri_query_init_quotient_v) + 32 * (c.num_fri_query_init_constants_sigmas_p
            + c.num_fri_query_init_wires_p + c.num_fri_query_init_zs_partial_p
            + c.num_fri_query_init_quotient_p) + 2 + 16 * (c.num_fri_query_step0_v
            + c.num_fri_query_step1_v) + 32 * (c.num_fri_query_step0_p
            + c.num_fri_query_step1_p));
        i += 1;
    }
    Some(rounds)
}

/// The place of the first byte of the query rounds in a proof of the
/// shape `c`.
pub open spec fn rounds_offset(c: VerifierConfig) -> int {
    caps_size(c) + openings_size(c) + commit_phase_size(c)
}

/// Whether bytes are a proof of the shape `c` in the flat layout: the
/// shape counts elements of the sizes of the layout and no path deeper
/// than a byte can say, the bytes are as many as the closed form says,
/// and every byte for the depth of a path says the depth that the shape
/// counts.
pub open spec fn decodable(bytes: Seq<u8>, c: VerifierConfig) -> bool {
    &&& standard_sizes(c)
    &&& depths_fit(c)
    &&& bytes.len() == closed_form_size(c)
    &&& forall|i: int|
        0 <= i < c.num_fri_query_round ==> round_depths_agree(
            bytes,
            #[trigger] round_start(rounds_offset(c), c, i),
            c,
        )
}

/// The closed form of the size, written out for elements of the sizes of
/// this layout.
pub proof fn lemma_closed_form_standard(c: VerifierConfig)
    requires
        standard_sizes(c),
    ensures
        caps_size(c) == 32 * c.num_wires_cap + 32 * c.num_plonk_zs_partial_products_cap + 32
            * c.num_quotient_polys_cap,
        openings_size(c) == 16 * c.num_openings_constants + 16 * c.num_openings_plonk_sigmas + 16
            * c.num_openings_wires + 16 * c.num_openings_plonk_zs + 16
            * c.num_openings_plonk_zs_next + 16 * c.num_openings_partial_products + 16
            * c.num_openings_quotient_polys,
        commit_phase_size(c) == (c.num_fri_commit_round * c.fri_commit_merkle_cap_height) * 32,
        commit_phase_size(c) >= 0,
        c.num_fri_query_round * round_size(c) >= 0,
        closed_form_size(c) == caps_size(c) + openings_size(c) + commit_phase_size(c)
            + c.num_fri_query_round * round_size(c) + 16 * c.num_fri_final_poly_ext_v + 8 + 8
            * c.num_public_inputs,
{
    lemma_round_sizes(c);
    let h = c.hash_size as int;
    let e = c.ext_field_size as int;
    assert(h == 32 && e == 16 && c.field_size == 8);
    assert((c.num_wires_cap + c.num_plonk_zs_partial_products_cap + c.num_quotient_polys_cap) * 32
        == 32 * c.num_wires_cap + 32 * c.num_plonk_zs_partial_products_cap + 32
        * c.num_quotient_polys_cap);
    assert((c.num_openings_constants + c.num_openings_plonk_sigmas + c.num_openings_wires
        + c.num_openings_plonk_zs + c.num_openings_plonk_zs_next
        + c.num_openings_partial_products + c.num_openings_quotient_polys) * 16 == 16
        * c.num_openings_constants + 16 * c.num_openings_plonk_sigmas + 16
        * c.num_openings_wires + 16 * c.num_openings_plonk_zs + 16
        * c.num_openings_plonk_zs_next + 16 * c.num_openings_partial_products + 16
        * c.num_openings_quotient_polys);
    assert(c.num_fri_query_round * query_init_size(c) + c.num_fri_query_round
        * query_steps_size(c) == c.num_fri_query_round * round_size(c)) by (nonlinear_arith)
        requires
            round_size(c) == query_init_size(c) + query_steps_size(c),
    ;
    assert((c.num_fri_commit_round * c.fri_commit_merkle_cap_height) * 32 >= 0)
        by (nonlinear_arith);
    assert(c.num_fri_query_round * round_size(c) >= 0) by (nonlinear_arith)
        requires
            round_size(c) >= 0,
    ;
    assert(c.num_fri_final_poly_ext_v * 16 == 16 * c.num_fri_final_poly_ext_v);
    assert(c.num_public_inputs * 8 == 8 * c.num_public_inputs);
}

/// The bytes of opened values, group by group.
pub open spec fn opening_set_bytes(o: OpeningSet) -> Seq<u8> {
    exts_bytes(o.constants@) + exts_bytes(o.plonk_sigmas@) + exts_bytes(o.wires@) + exts_bytes(
        o.plonk_zs@,
    ) + exts_bytes(o.plonk_zs_next@) + exts_bytes(o.partial_products@) + exts_bytes(
        o.quotient_polys@,
    )
}

/// The bytes of an opening proof.
pub open spec fn fri_proof_bytes(fri: FriProof) -> Seq<u8> {
    caps_bytes(fri.commit_phase_merkle_caps@) + rounds_bytes(fri.query_round_proofs@)
        + exts_bytes(fri.final_poly@) + word_bytes(fri.pow_witness)
}

/// Whether opened values are as many as the shape counts.
pub open spec fn openings_conform(o: OpeningSet, c: VerifierConfig) -> bool {
    &&& o.constants@.len() == c.num_openings_constants
    &&& o.plonk_sigmas@.len() == c.num_openings_plonk_sigmas
    &&& o.wires@.len() == c.num_openings_wires
    &&& o.plonk_zs@.len() == c.num_openings_plonk_zs
    &&& o.plonk_zs_next@.len() == c.num_openings_plonk_zs_next
    &&& o.partial_products@.len() == c.num_openings_partial_products
    &&& o.quotient_polys@.len() == c.num_openings_quotient_polys
}

/// Whether an opening proof holds what the shape counts.
pub open spec fn fri_conforms(fri: FriProof, c: VerifierConfig) -> bool {
    &&& fri.commit_phase_merkle_caps@.len() == c.num_fri_commit_round
    &&& forall|i: int|
        0 <= i < fri.commit_phase_merkle_caps@.len() ==> (
        #[trigger] fri.commit_phase_merkle_caps@[i])@.len() == c.fri_commit_merkle_cap_height
    &&& fri.query_round_proofs@.len() == c.num_fri_query_round
    &&& forall|i: int|
        0 <= i < fri.query_round_proofs@.len() ==> round_conforms(
            #[trigger] fri.query_round_proofs@[i],
            c,
        )
    &&& fri.final_poly@.len() == c.num_fri_final_poly_ext_v
}

/// Bytes of the opened values of the shape `c` in the flat layout.
pub open spec fn openings_len(c: VerifierConfig) -> int {
    16 * c.num_openings_constants + 16 * c.num_openings_plonk_sigmas + 16 * c.num_openings_wires
        + 16 * c.num_openings_plonk_zs + 16 * c.num_openings_plonk_zs_next + 16
        * c.num_openings_partial_products + 16 * c.num_openings_quotient_polys
}

/// Bytes of the opening proof of the shape `c` in the flat layout.
pub open spec fn fri_len(c: VerifierConfig) -> int {
    (c.num_fri_commit_round * c.fri_commit_merkle_cap_height) * 32 + c.num_fri_query_round
        * round_size(c) + 16 * c.num_fri_final_poly_ext_v + 8
}

/// Reads the opened values of the shape `c` that stand at `pos`.
fn read_openings(bytes: &[u8], pos: usize, c: &VerifierConfig) -> (o: OpeningSet)
    requires
        pos + openings_len(*c) <= bytes@.len(),
    ensures
        openings_conform(o, *c),
        opening_set_bytes(o) == bytes@.subrange(pos as int, pos + openings_len(*c)),
{
    let _ = bytes.len();
    let p0 = pos;
    let constants = read_exts(bytes, p0, c.num_openings_constants);
    let p1 = p0 + 16 * c.num_openings_constants;
    let plonk_sigmas = read_exts(bytes, p1, c.num_openings_plonk_sigmas);
    let p2 = p1 + 16 * c.num_openings_plonk_sigmas;
    let wires = read_exts(bytes, p2, c.num_openings_wires);
    let p3 = p2 + 16 * c.num_openings_wires;
    let plonk_zs = read_exts(bytes, p3, c.num_openings_plonk_zs);
    let p4 = p3 + 16 * c.num_openings_plonk_zs;
    let plonk_zs_next = read_exts(bytes, p4, c.num_openings_plonk_zs_next);
    let p5 = p4 + 16 * c.num_openings_plonk_zs_next;
    let partial_products = read_exts(bytes, p5, c.num_openings_partial_products);
    let p6 = p5 + 16 * c.num_openings_partial_products;
    let quotient_polys = read_exts(bytes, p6, c.num_openings_quotient_polys);
    let ghost p7 = p6 + 16 * c.num_openings_quotient_polys;
    let o = OpeningSet {
        constants,
        plonk_sigmas,
        wires,
        plonk_zs,
        plonk_zs_next,
        partial_products,
        quotient_polys,
    };
    proof {
        let b = bytes@;
        assert(b.subrange(p0 as int, p1 as int) + b.subrange(p1 as int, p2 as int) =~= b.subrange(
            p0 as int,
            p2 as int,
        ));
        assert(b.subrange(p0 as int, p2 as int) + b.subrange(p2 as int, p3 as int) =~= b.subrange(
            p0 as int,
            p3 as int,
        ));
        assert(b.subrange(p0 as int, p3 as int) + b.subrange(p3 as int, p4 as int) =~= b.subrange(
            p0 as int,
            p4 as int,
        ));
        assert(b.subrange(p0 as int, p4 as int) + b.subrange(p4 as int, p5 as int) =~= b.subrange(
            p0 as int,
            p5 as int,
        ));
        assert(b.subrange(p0 as int, p5 as int) + b.subrange(p5 as int, p6 as int) =~= b.subrange(
            p0 as int,
            p6 as int,
        ));
        assert(b.subrange(p0 as int, p6 as int) + b.subrange(p6 as int, p7 as int) =~= b.subrange(
            p0 as int,
            p7 as int,
        ));
    }
    o
}

/// Reads the opening proof of the shape `c` that stands at `pos`, or
/// `None` where a byte for the depth of a path says another depth than
/// the shape.
fn read_fri(bytes: &[u8], pos: usize, c: &VerifierConfig) -> (fri: Option<FriProof>)
    requires
        standard_sizes(*c),
        depths_fit(*c),
        pos + fri_len(*c) <= bytes@.len(),
    ensures
        fri is Some <==> forall|i: int|
            0 <= i < c.num_fri_query_round ==> round_depths_agree(
                bytes@,
                #[trigger] round_start(
                    pos + (c.num_fri_commit_round * c.fri_commit_merkle_cap_height) * 32,
                    *c,
                    i,
                ),
                *c,
            ),
        fri matches Some(f) ==> fri_conforms(f, *c) && fri_proof_bytes(f) == bytes@.subrange(
            pos as int,
            pos + fri_len(*c),
        ),
{
    let _ = bytes.len();
    proof {
        lemma_closed_form_standard(*c);
        assert(c.num_fri_commit_round * c.fri_commit_merkle_cap_height <= (c.num_fri_commit_round
            * c.fri_commit_merkle_cap_height) * 32) by (nonlinear_arith);
    }
    let commit_phase_merkle_caps = read_caps(
        bytes,
        pos,
        c.num_fri_commit_round,
        c.fri_commit_merkle_cap_height,
    );
    let start: usize = pos + c.num_fri_commit_round * c.fri_commit_merkle_cap_height * 32;
    let query_round_proofs = match read_rounds(bytes, start, c) {
        None => {
            return None;
        },
        Some(rounds) => rounds,
    };
    let final_pos: usize = rounds_end_of(bytes, pos, start, c);
    let final_poly = read_exts(bytes, final_pos, c.num_fri_final_poly_ext_v);
    let pow_pos: usize = final_pos + 16 * c.num_fri_final_poly_ext_v;
    let pow_witness = read_word(bytes, pow_pos);
    let f = FriProof { commit_phase_merkle_caps, query_round_proofs, final_poly, pow_witness };
    proof {
        let b = bytes@;
        assert(b.subrange(pos as int, start as int) + b.subrange(start as int, final_pos as int)
            =~= b.subrange(pos as int, final_pos as int));
        assert(b.subrange(pos as int, final_pos as int) + b.subrange(
            final_pos as int,
            pow_pos as int,
        ) =~= b.subrange(pos as int, pow_pos as int));
        assert(b.subrange(pos as int, pow_pos as int) + b.subrange(pow_pos as int, pow_pos + 8)
            =~= b.subrange(pos as int, pow_pos + 8));
    }
    Some(f)
}

/// The place behind the query rounds that start at `start`.
fn rounds_end_of(bytes: &[u8], pos: usize, start: usize, c: &VerifierConfig) -> (end: usize)
    requires
        standard_sizes(*c),
        start == pos + (c.num_fri_commit_round * c.fri_commit_merkle_cap_height) * 32,
        pos + fri_len(*c) <= bytes@.len(),
    ensures
        end == start + c.num_fri_query_round * round_size(*c),
{
    let _ = bytes.len();
    proof {
        lemma_round_sizes(*c);
        lemma_closed_form_standard(*c);
    }
    if c.num_fri_query_round == 0 {
        proof {
            assert(c.num_fri_query_round * round_size(*c) == 0) by (nonlinear_arith)
                requires
                    c.num_fri_query_round == 0,
            ;
        }
        return start;
    }
    proof {
        assert(round_size(*c) <= c.num_fri_query_round * round_size(*c)) by (nonlinear_arith)
            requires
                c.num_fri_query_round >= 1,
                round_size(*c) >= 0,
        ;
    }
    let size: usize = 4 + 8 * (c.num_fri_query_init_constants_sigmas_v
        + c.num_fri_query_init_wires_v + c.num_fri_query_init_zs_partial_v
        + c.num_fri_query_init_quotient_v) + 32 * (c.num_fri_query_init_constants_sigmas_p
        + c.num_fri_query_init_wires_p + c.num_fri_query_init_zs_partial_p
        + c.num_fri_query_init_quotient_p) + 2 + 16 * (c.num_fri_query_step0_v
        + c.num_fri_query_step1_v) + 32 * (c.num_fri_query_step0_p + c.num_fri_query_step1_p);
    assert(size == round_size(*c));
    start + c.num_fri_query_round * size
}

/// The rounds at the place where the rounds start are the rounds of the
/// layout.
proof fn lemma_same_rounds(bytes: Seq<u8>, c: VerifierConfig, rounds_at: int)
    requires
        rounds_at == rounds_offset(c),
    ensures
        (forall|i: int|
            0 <= i < c.num_fri_query_round ==> round_depths_agree(
                bytes,
                #[trigger] round_start(rounds_at, c, i),
                c,
            )) == (forall|i: int|
            0 <= i < c.num_fri_query_round ==> round_depths_agree(
                bytes,
                #[trigger] round_start(rounds_offset(c), c, i),
                c,
            )),
{
}

/// The parts of a proof, read one behind the other, make the bytes.
proof fn lemma_parts_make_the_proof(
    p: ProofWithPublicInputs,
    b: Seq<u8>,
    p3: int,
    p5: int,
    p4: int,
)
    requires
        0 <= p3 <= p5 <= p4 <= b.len(),
        digests_bytes(p.proof.wires_cap@) + digests_bytes(
            p.proof.plonk_zs_partial_products_cap@,
        ) + digests_bytes(p.proof.quotient_polys_cap@) == b.subrange(0, p3),
        opening_set_bytes(p.proof.openings) == b.subrange(p3, p5),
        fri_proof_bytes(p.proof.opening_proof) == b.subrange(p5, p4),
        words_bytes(p.public_inputs@) == b.subrange(p4, b.len() as int),
    ensures
        proof_bytes(p) == b,
{
    assert(head_bytes(p) == b.subrange(0, p3));
    assert(openings_bytes(p) == opening_set_bytes(p.proof.openings));
    assert(fri_bytes(p) == fri_proof_bytes(p.proof.opening_proof));
    assert(b.subrange(0, p3) + b.subrange(p3, p5) =~= b.subrange(0, p5));
    assert(b.subrange(0, p5) + b.subrange(p5, p4) =~= b.subrange(0, p4));
    assert(b.subrange(0, p4) + b.subrange(p4, b.len() as int) =~= b);
}

/// Reads the three caps at the head of a proof of the shape `c`.
fn read_head(bytes: &[u8], c: &VerifierConfig) -> (head: (
    Vec<HashOut>,
    Vec<HashOut>,
    Vec<HashOut>,
))
    requires
        32 * c.num_wires_cap + 32 * c.num_plonk_zs_partial_products_cap + 32
            * c.num_quotient_polys_cap <= bytes@.len(),
    ensures
        head.0@.len() == c.num_wires_cap,
        head.1@.len() == c.num_plonk_zs_partial_products_cap,
        head.2@.len() == c.num_quotient_polys_cap,
        digests_bytes(head.0@) + digests_bytes(head.1@) + digests_bytes(head.2@)
            == bytes@.subrange(
            0,
            32 * c.num_wires_cap + 32 * c.num_plonk_zs_partial_products_cap + 32
                * c.num_quotient_polys_cap,
        ),
{
    let _ = bytes.len();
    let wires_cap = read_digests(bytes, 0, c.num_wires_cap);
    let p1: usize = 32 * c.num_wires_cap;
    let zs_cap = read_digests(bytes, p1, c.num_plonk_zs_partial_products_cap);
    let p2: usize = p1 + 32 * c.num_plonk_zs_partial_products_cap;
    let quotient_cap = read_digests(bytes, p2, c.num_quotient_polys_cap);
    let ghost p3 = p2 + 32 * c.num_quotient_polys_cap;
    proof {
        let b = bytes@;
        assert(b.subrange(0, p1 as int) + b.subrange(p1 as int, p2 as int) =~= b.subrange(
            0,
            p2 as int,
        ));
        assert(b.subrange(0, p2 as int) + b.subrange(p2 as int, p3 as int) =~= b.subrange(
            0,
            p3 as int,
        ));
    }
    (wires_cap, zs_cap, quotient_cap)
}

/// The place behind the opened values that start at `pos`.
fn fri_start_of(bytes: &[u8], pos: usize, c: &VerifierConfig) -> (start: usize)
    requires
        pos + openings_len(*c) <= bytes@.len(),
    ensures
        start == pos + openings_len(*c),
{
    let _ = bytes.len();
    pos + 16 * c.num_openings_constants + 16 * c.num_openings_plonk_sigmas + 16
        * c.num_openings_wires + 16 * c.num_openings_plonk_zs + 16 * c.num_openings_plonk_zs_next
        + 16 * c.num_openings_partial_products + 16 * c.num_openings_quotient_polys
}

/// Reads a proof of the shape `conf` back from its flat layout, whatever
/// its words are.
fn decode(bytes: &[u8], conf: &VerifierConfig) -> (res: Result<ProofWithPublicInputs, LayoutError>)
    ensures
        res is Ok <==> decodable(bytes@, *conf),
        res matches Ok(p) ==> conforms(p, *conf) && proof_bytes(p) == bytes@,
        !standard_sizes(*conf) ==> res matches Err(LayoutError::SizeMismatch),
        standard_sizes(*conf) && !depths_fit(*conf) ==> res matches Err(LayoutError::PathTooLong),
        standard_sizes(*conf) && depths_fit(*conf) && bytes@.len() != closed_form_size(*conf)
            ==> res matches Err(LayoutError::SizeMismatch),
        standard_sizes(*conf) && depths_fit(*conf) && bytes@.len() == closed_form_size(*conf)
            && !decodable(bytes@, *conf) ==> res matches Err(LayoutError::ShapeMismatch),
{
    let len = bytes.len();
    if !(conf.hash_size == HASH_SIZE && conf.field_size == FIELD_SIZE && conf.ext_field_size
        == EXT_FIELD_SIZE && conf.merkle_height_size == MERKLE_HEIGHT_SIZE) {
        return Err(LayoutError::SizeMismatch);
    }
    if conf.num_fri_query_round != 0 && !(conf.num_fri_query_init_constants_sigmas_p
        <= MAX_PATH_DEPTH && conf.num_fri_query_init_wires_p <= MAX_PATH_DEPTH
        && conf.num_fri_query_init_zs_partial_p <= MAX_PATH_DEPTH
        && conf.num_fri_query_init_quotient_p <= MAX_PATH_DEPTH && conf.num_fri_query_step0_p
        <= MAX_PATH_DEPTH && conf.num_fri_query_step1_p <= MAX_PATH_DEPTH) {
        return Err(LayoutError::PathTooLong);
    }
    match proof_size(conf) {
        None => {
            return Err(LayoutError::SizeMismatch);
        },
        Some(size) => {
            if size != len {
                return Err(LayoutError::SizeMismatch);
            }
        },
    }
    proof {
        lemma_closed_form_standard(*conf);
    }
    let head = read_head(bytes, conf);
    let p3: usize = 32 * conf.num_wires_cap + 32 * conf.num_plonk_zs_partial_products_cap + 32
        * conf.num_quotient_polys_cap;
    let openings = read_openings(bytes, p3, conf);
    let p4: usize = len - (8 * conf.num_public_inputs);
    let p5: usize = fri_start_of(bytes, p3, conf);
    let ghost rounds_at = p5 + (conf.num_fri_commit_round * conf.fri_commit_merkle_cap_height)
        * 32;
    proof {
        assert(rounds_at == rounds_offset(*conf));
    }
    let opening_proof = match read_fri(bytes, p5, conf) {
        None => {
            proof {
                lemma_same_rounds(bytes@, *conf, rounds_at);
            }
            return Err(LayoutError::ShapeMismatch);
        },
        Some(f) => f,
    };
    proof {
        lemma_same_rounds(bytes@, *conf, rounds_at);
    }
    let public_inputs = read_words(bytes, p4, conf.num_public_inputs);
    let p = ProofWithPublicInputs {
        proof: Proof {
            wires_cap: head.0,
            plonk_zs_partial_products_cap: head.1,
            quotient_polys_cap: head.2,
            openings,
            opening_proof,
        },
        public_inputs,
    };
    proof {
        lemma_parts_make_the_proof(p, bytes@, p3 as int, p5 as int, p4 as int);
    }
    Ok(p)
}

/// Reads a proof of the shape `conf` back from its flat layout.
///
/// Fails with `SizeMismatch` where the shape counts elements of other
/// sizes than the layout or the bytes are not as many as the closed form
/// says, with `PathTooLong` where the shape counts a path deeper than a
/// byte can say, with `ShapeMismatch` where a byte for the depth of a
/// path says another depth than the shape, and with `NonCanonical` where
/// a word is not below the order of the field. On success the proof is
/// canonical, has the shape `conf`, and the given bytes are its bytes.
pub fn deserialize_proof(bytes: &[u8], conf: &VerifierConfig) -> (res: Result<
    ProofWithPublicInputs,
    LayoutError,
>)
    ensures
        res is Ok <==> decodable(bytes@, *conf) && holds_canonical_words(bytes@, *conf),
        res matches Ok(p) ==> conforms(p, *conf) && canonical(p) && proof_bytes(p) == bytes@,
        !standard_sizes(*conf) ==> res matches Err(LayoutError::SizeMismatch),
        standard_sizes(*conf) && !depths_fit(*conf) ==> res matches Err(LayoutError::PathTooLong),
        standard_sizes(*conf) && depths_fit(*conf) && bytes@.len() != closed_form_size(*conf)
            ==> res matches Err(LayoutError::SizeMismatch),
        standard_sizes(*conf) && depths_fit(*conf) && bytes@.len() == closed_form_size(*conf)
            && !decodable(bytes@, *conf) ==> res matches Err(LayoutError::ShapeMismatch),
        decodable(bytes@, *conf) && !holds_canonical_words(bytes@, *conf) ==> res matches Err(
            LayoutError::NonCanonical,
        ),
{
    match decode(bytes, conf) {
        Err(e) => Err(e),
        Ok(p) => {
            if check_canonical(&p) {
                proof {
                    lemma_canonical_by_bytes(p, *conf);
                }
                Ok(p)
            } else {
                proof {
                    assert(conforms(p, *conf) && proof_bytes(p) == bytes@ && !canonical(p));
                }
                Err(LayoutError::NonCanonical)
            }
        },
    }
}

/// A query round of the shape `c` says the depths of its paths as the
/// shape counts them.
pub proof fn lemma_round_says_its_depths(r: FriQueryRound, c: VerifierConfig)
    requires
        standard_sizes(c),
        depths_fit(c),
        c.num_fri_query_round > 0,
        round_conforms(r, c),
    ensures
        round_depths_agree(round_bytes(r), 0, c),
{
    let ts = r.initial_trees_proof.evals_proofs@;
    let ss = r.steps@;
    lemma_round_sizes(c);
    lemma_four_trees(ts);
    lemma_two_steps(ss);
    lemma_words_len(ts[0].0@);
    lemma_words_len(ts[1].0@);
    lemma_words_len(ts[2].0@);
    lemma_words_len(ts[3].0@);
    lemma_path_len(ts[0].1);
    lemma_path_len(ts[1].1);
    lemma_path_len(ts[2].1);
    lemma_path_len(ts[3].1);
    lemma_exts_len(ss[0].evals@);
    lemma_exts_len(ss[1].evals@);
    lemma_path_len(ss[0].merkle_proof);
    lemma_path_len(ss[1].merkle_proof);
    let b0 = words_bytes(ts[0].0@) + path_bytes(ts[0].1);
    let b1 = words_bytes(ts[1].0@) + path_bytes(ts[1].1);
    let b2 = words_bytes(ts[2].0@) + path_bytes(ts[2].1);
    let b3 = words_bytes(ts[3].0@) + path_bytes(ts[3].1);
    let c0 = exts_bytes(ss[0].evals@) + path_bytes(ss[0].merkle_proof);
    let c1 = exts_bytes(ss[1].evals@) + path_bytes(ss[1].merkle_proof);
    let all = round_bytes(r);
    assert(all == b0 + b1 + b2 + b3 + (c0 + c1));
    let v0 = c.num_fri_query_init_constants_sigmas_v as int;
    let t1 = b0.len() as int;
    let t2 = t1 + b1.len();
    let t3 = t2 + b2.len();
    let q0 = t3 + b3.len();
    let q1 = q0 + c0.len();
    assert(all[8 * v0] == path_bytes(ts[0].1)[0]);
    assert(all[t1 + 8 * c.num_fri_query_init_wires_v] == b1[8 * c.num_fri_query_init_wires_v]);
    assert(all[t2 + 8 * c.num_fri_query_init_zs_partial_v] == b2[8
        * c.num_fri_query_init_zs_partial_v]);
    assert(all[t3 + 8 * c.num_fri_query_init_quotient_v] == b3[8
        * c.num_fri_query_init_quotient_v]);
    assert(all[q0 + 16 * c.num_fri_query_step0_v] == c0[16 * c.num_fri_query_step0_v]);
    assert(all[q1 + 16 * c.num_fri_query_step1_v] == c1[16 * c.num_fri_query_step1_v]);
    assert(b1[8 * c.num_fri_query_init_wires_v] == path_bytes(ts[1].1)[0]);
    assert(b2[8 * c.num_fri_query_init_zs_partial_v] == path_bytes(ts[2].1)[0]);
    assert(b3[8 * c.num_fri_query_init_quotient_v] == path_bytes(ts[3].1)[0]);
    assert(c0[16 * c.num_fri_query_step0_v] == path_bytes(ss[0].merkle_proof)[0]);
    assert(c1[16 * c.num_fri_query_step1_v] == path_bytes(ss[1].merkle_proof)[0]);
}

/// Whether the depths agree depends on the bytes of the round alone.
pub proof fn lemma_depths_agree_within(
    big: Seq<u8>,
    small: Seq<u8>,
    pos: int,
    c: VerifierConfig,
)
    requires
        standard_sizes(c),
        small.len() == round_size(c),
        forall|j: int| 0 <= j < small.len() ==> big[pos + j] == #[trigger] small[j],
    ensures
        round_depths_agree(big, pos, c) == round_depths_agree(small, 0, c),
{
    lemma_round_sizes(c);
    let t1 = 8 * c.num_fri_query_init_constants_sigmas_v + 1 + 32
        * c.num_fri_query_init_constants_sigmas_p;
    let t2 = t1 + 8 * c.num_fri_query_init_wires_v + 1 + 32 * c.num_fri_query_init_wires_p;
    let t3 = t2 + 8 * c.num_fri_query_init_zs_partial_v + 1 + 32
        * c.num_fri_query_init_zs_partial_p;
    let q0 = t3 + 8 * c.num_fri_query_init_quotient_v + 1 + 32 * c.num_fri_query_init_quotient_p;
    let q1 = q0 + 16 * c.num_fri_query_step0_v + 1 + 32 * c.num_fri_query_step0_p;
    assert(q0 == query_init_size(c));
    assert(big[pos + 8 * c.num_fri_query_init_constants_sigmas_v] == small[8
        * c.num_fri_query_init_constants_sigmas_v]);
    assert(big[pos + (t1 + 8 * c.num_fri_query_init_wires_v)] == small[t1 + 8
        * c.num_fri_query_init_wires_v]);
    assert(big[pos + (t2 + 8 * c.num_fri_query_init_zs_partial_v)] == small[t2 + 8
        * c.num_fri_query_init_zs_partial_v]);
    assert(big[pos + (t3 + 8 * c.num_fri_query_init_quotient_v)] == small[t3 + 8
        * c.num_fri_query_init_quotient_v]);
    assert(big[pos + (q0 + 16 * c.num_fri_query_step0_v)] == small[q0 + 16
        * c.num_fri_query_step0_v]);
    assert(big[pos + (q1 + 16 * c.num_fri_query_step1_v)] == small[q1 + 16
        * c.num_fri_query_step1_v]);
}

/// The bytes of round `i` stand in the bytes of the rounds at `i` times
/// the size of a round.
pub proof fn lemma_round_within_rounds(rs: Seq<FriQueryRound>, c: VerifierConfig, i: int, j: int)
    requires
        standard_sizes(c),
        forall|k: int| 0 <= k < rs.len() ==> round_conforms(#[trigger] rs[k], c),
        0 <= i < rs.len(),
        0 <= j < round_size(c),
    ensures
        0 <= i * round_size(c) + j < rounds_bytes(rs).len(),
        rounds_bytes(rs)[i * round_size(c) + j] == round_bytes(rs[i])[j],
    decreases rs.len(),
{
    let rest = rs.drop_last();
    let size = round_size(c);
    assert forall|k: int| 0 <= k < rest.len() implies round_conforms(#[trigger] rest[k], c) by {
        assert(rest[k] == rs[k]);
    }
    lemma_rounds_len(rest, c);
    lemma_round_len(rs.last(), c);
    assert(rounds_bytes(rest).len() == rest.len() * size) by (nonlinear_arith)
        requires
            rounds_bytes(rest).len() == rest.len() * query_init_size(c) + rest.len()
                * query_steps_size(c),
            size == query_init_size(c) + query_steps_size(c),
    ;
    if i == rs.len() - 1 {
        assert(i * size == rest.len() * size);
    } else {
        lemma_round_within_rounds(rest, c, i, j);
        assert(rest[i] == rs[i]);
    }
}

/// The round trip: the bytes of a proof of the shape `c` can be read back
/// as a proof of the shape `c`, where no path is deeper than a byte can
/// say.
pub proof fn lemma_serialized_proof_is_decodable(p: ProofWithPublicInputs, c: VerifierConfig)
    requires
        conforms(p, c),
        depths_fit(c),
    ensures
        decodable(proof_bytes(p), c),
{
    let bytes = proof_bytes(p);
    let fri = p.proof.opening_proof;
    let rs = fri.query_round_proofs@;
    let o = p.proof.openings;
    let size = round_size(c);
    lemma_size_is_closed_form(p, c);
    lemma_closed_form_standard(c);
    lemma_round_sizes(c);
    lemma_digests_len(p.proof.wires_cap@);
    lemma_digests_len(p.proof.plonk_zs_partial_products_cap@);
    lemma_digests_len(p.proof.quotient_polys_cap@);
    lemma_exts_len(o.constants@);
    lemma_exts_len(o.plonk_sigmas@);
    lemma_exts_len(o.wires@);
    lemma_exts_len(o.plonk_zs@);
    lemma_exts_len(o.plonk_zs_next@);
    lemma_exts_len(o.partial_products@);
    lemma_exts_len(o.quotient_polys@);
    lemma_caps_len(fri.commit_phase_merkle_caps@, c.fri_commit_merkle_cap_height as nat);
    lemma_rounds_len(rs, c);
    let start = rounds_offset(c);
    assert(head_bytes(p).len() + openings_bytes(p).len() + caps_bytes(
        fri.commit_phase_merkle_caps@,
    ).len() == start);
    assert forall|i: int| 0 <= i < c.num_fri_query_round implies round_depths_agree(
        bytes,
        #[trigger] round_start(start, c, i),
        c,
    ) by {
        let small = round_bytes(rs[i]);
        lemma_round_len(rs[i], c);
        lemma_round_says_its_depths(rs[i], c);
        assert forall|j: int| 0 <= j < small.len() implies bytes[round_start(start, c, i) + j]
            == #[trigger] small[j] by {
            lemma_round_within_rounds(rs, c, i, j);
            assert(bytes[start + (i * size + j)] == rounds_bytes(rs)[i * size + j]);
        }
        lemma_depths_agree_within(bytes, small, round_start(start, c, i), c);
    }
}

} // verus!
