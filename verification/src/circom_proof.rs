//! A proof written out for the circuit backend: every field element as a
//! decimal numeral.

use vstd::prelude::*;
use crate::canonical::{canonical, check_canonical};
use crate::data::{ExtElement, FriQueryRound, HashOut, MerkleCap, ProofWithPublicInputs};
use crate::layout::{
    check_fits, closed_form_size, fits, proof_size, round_fits, step_path, step_values,
    tree_path, tree_values,
};
use crate::shape::VerifierConfig;
use crate::text::{decimal, decimal_string};

verus! {

/// A proof for the circuit backend. Digests are rows of four numerals,
/// extension-field elements rows of two. The sections of the query rounds
/// are indexed by round first.
#[derive(Clone, Debug, PartialEq, Eq)]
pub struct ProofForCircom {
    pub wires_cap: Vec<Vec<String>>,
    pub plonk_zs_partial_products_cap: Vec<Vec<String>>,
    pub quotient_polys_cap: Vec<Vec<String>>,
    pub openings_constants: Vec<Vec<String>>,
    pub openings_plonk_sigmas: Vec<Vec<String>>,
    pub openings_wires: Vec<Vec<String>>,
    pub openings_plonk_zs: Vec<Vec<String>>,
    pub openings_plonk_zs_next: Vec<Vec<String>>,
    pub openings_partial_products: Vec<Vec<String>>,
    pub openings_quotient_polys: Vec<Vec<String>>,
    pub fri_commit_phase_merkle_caps: Vec<Vec<Vec<String>>>,
    pub fri_query_init_constants_sigmas_v: Vec<Vec<String>>,
    pub fri_query_init_constants_sigmas_p: Vec<Vec<Vec<String>>>,
    pub fri_query_init_wires_v: Vec<Vec<String>>,
    pub fri_query_init_wires_p: Vec<Vec<Vec<String>>>,
    pub fri_query_init_zs_partial_v: Vec<Vec<String>>,
    pub fri_query_init_zs_partial_p: Vec<Vec<Vec<String>>>,
    pub fri_query_init_quotient_v: Vec<Vec<String>>,
    pub fri_query_init_quotient_p: Vec<Vec<Vec<String>>>,
    pub fri_query_step0_v: Vec<Vec<Vec<String>>>,
    pub fri_query_step0_p: Vec<Vec<Vec<String>>>,
    pub fri_query_step1_v: Vec<Vec<Vec<String>>>,
    pub fri_query_step1_p: Vec<Vec<Vec<String>>>,
    pub fri_final_poly_ext_v: Vec<Vec<String>>,
    pub fri_pow_witness: String,
    pub public_inputs: Vec<String>,
}

/// The text that a `ProofForCircom` holds.
pub struct CircomText {
    pub wires_cap: Seq<Seq<Seq<char>>>,
    pub plonk_zs_partial_products_cap: Seq<Seq<Seq<char>>>,
    pub quotient_polys_cap: Seq<Seq<Seq<char>>>,
    pub openings_constants: Seq<Seq<Seq<char>>>,
    pub openings_plonk_sigmas: Seq<Seq<Seq<char>>>,
    pub openings_wires: Seq<Seq<Seq<char>>>,
    pub openings_plonk_zs: Seq<Seq<Seq<char>>>,
    pub openings_plonk_zs_next: Seq<Seq<Seq<char>>>,
    pub openings_partial_products: Seq<Seq<Seq<char>>>,
    pub openings_quotient_polys: Seq<Seq<Seq<char>>>,
    pub fri_commit_phase_merkle_caps: Seq<Seq<Seq<Seq<char>>>>,
    pub fri_query_init_constants_sigmas_v: Seq<Seq<Seq<char>>>,
    pub fri_query_init_constants_sigmas_p: Seq<Seq<Seq<Seq<char>>>>,
    pub fri_query_init_wires_v: Seq<Seq<Seq<char>>>,
    pub fri_query_init_wires_p: Seq<Seq<Seq<Seq<char>>>>,
    pub fri_query_init_zs_partial_v: Seq<Seq<Seq<char>>>,
    pub fri_query_init_zs_partial_p: Seq<Seq<Seq<Seq<char>>>>,
    pub fri_query_init_quotient_v: Seq<Seq<Seq<char>>>,
    pub fri_query_init_quotient_p: Seq<Seq<Seq<Seq<char>>>>,
    pub fri_query_step0_v: Seq<Seq<Seq<Seq<char>>>>,
    pub fri_query_step0_p: Seq<Seq<Seq<Seq<char>>>>,
    pub fri_query_step1_v: Seq<Seq<Seq<Seq<char>>>>,
    pub fri_query_step1_p: Seq<Seq<Seq<Seq<char>>>>,
    pub fri_final_poly_ext_v: Seq<Seq<Seq<char>>>,
    pub fri_pow_witness: Seq<char>,
    pub public_inputs: Seq<Seq<char>>,
}

impl View for ProofForCircom {
    type V = CircomText;

    open spec fn view(&self) -> CircomText {
        CircomText {
            wires_cap: self.wires_cap.deep_view(),
            plonk_zs_partial_products_cap: self.plonk_zs_partial_products_cap.deep_view(),
            quotient_polys_cap: self.quotient_polys_cap.deep_view(),
            openings_constants: self.openings_constants.deep_view(),
            openings_plonk_sigmas: self.openings_plonk_sigmas.deep_view(),
            openings_wires: self.openings_wires.deep_view(),
            openings_plonk_zs: self.openings_plonk_zs.deep_view(),
            openings_plonk_zs_next: self.openings_plonk_zs_next.deep_view(),
            openings_partial_products: self.openings_partial_products.deep_view(),
            openings_quotient_polys: self.openings_quotient_polys.deep_view(),
            fri_commit_phase_merkle_caps: self.fri_commit_phase_merkle_caps.deep_view(),
            fri_query_init_constants_sigmas_v: self.fri_query_init_constants_sigmas_v.deep_view(),
            fri_query_init_constants_sigmas_p: self.fri_query_init_constants_sigmas_p.deep_view(),
            fri_query_init_wires_v: self.fri_query_init_wires_v.deep_view(),
            fri_query_init_wires_p: self.fri_query_init_wires_p.deep_view(),
            fri_query_init_zs_partial_v: self.fri_query_init_zs_partial_v.deep_view(),
            fri_query_init_zs_partial_p: self.fri_query_init_zs_partial_p.deep_view(),
            fri_query_init_quotient_v: self.fri_query_init_quotient_v.deep_view(),
            fri_query_init_quotient_p: self.fri_query_init_quotient_p.deep_view(),
            fri_query_step0_v: self.fri_query_step0_v.deep_view(),
            fri_query_step0_p: self.fri_query_step0_p.deep_view(),
            fri_query_step1_v: self.fri_query_step1_v.deep_view(),
            fri_query_step1_p: self.fri_query_step1_p.deep_view(),
            fri_final_poly_ext_v: self.fri_final_poly_ext_v.deep_view(),
            fri_pow_witness: self.fri_pow_witness@,
            public_inputs: self.public_inputs.deep_view(),
        }
    }
}

/// Why a proof could not be written out.
#[derive(Clone, Copy, Debug, PartialEq, Eq, Structural)]
pub enum LayoutError {
    /// A section of the proof is shorter than the shape says, a
    /// commit-phase cap has another height, or a query round does not
    /// hold four initial trees and two reduction steps.
    ShapeMismatch,
    /// The size computed from the shape is not the size of the serialized
    /// proof.
    SizeMismatch,
    /// A Merkle path has more siblings than the byte for its depth can
    /// count.
    PathTooLong,
    /// A word of the proof is not below the order of the field.
    NonCanonical,
}

/// The decimal numeral of each word.
pub open spec fn words_text(ws: Seq<u64>) -> Seq<Seq<char>> {
    Seq::new(ws.len(), |i: int| decimal(ws[i] as nat))
}

/// One row of four numerals for each digest.
pub open spec fn digests_text(ds: Seq<HashOut>) -> Seq<Seq<Seq<char>>> {
    Seq::new(ds.len(), |i: int| words_text(ds[i]@))
}

/// One row of two numerals for each element of the extension field.
pub open spec fn exts_text(es: Seq<ExtElement>) -> Seq<Seq<Seq<char>>> {
    Seq::new(es.len(), |i: int| words_text(es[i]@))
}

/// The text of a proof for the circuit backend: each section cut to the
/// length that the shape gives it, each word as its decimal numeral.
pub open spec fn circom_text(p: ProofWithPublicInputs, c: VerifierConfig) -> CircomText {
    let fri = p.proof.opening_proof;
    let rounds = fri.query_round_proofs@;
    let n = c.num_fri_query_round as nat;
    CircomText {
        wires_cap: digests_text(p.proof.wires_cap@.take(c.num_wires_cap as int)),
        plonk_zs_partial_products_cap: digests_text(
            p.proof.plonk_zs_partial_products_cap@.take(
                c.num_plonk_zs_partial_products_cap as int,
            ),
        ),
        quotient_polys_cap: digests_text(
            p.proof.quotient_polys_cap@.take(c.num_quotient_polys_cap as int),
        ),
        openings_constants: exts_text(
            p.proof.openings.constants@.take(c.num_openings_constants as int),
        ),
        openings_plonk_sigmas: exts_text(
            p.proof.openings.plonk_sigmas@.take(c.num_openings_plonk_sigmas as int),
        ),
        openings_wires: exts_text(p.proof.openings.wires@.take(c.num_openings_wires as int)),
        openings_plonk_zs: exts_text(
            p.proof.openings.plonk_zs@.take(c.num_openings_plonk_zs as int),
        ),
        openings_plonk_zs_next: exts_text(
            p.proof.openings.plonk_zs_next@.take(c.num_openings_plonk_zs_next as int),
        ),
        openings_partial_products: exts_text(
            p.proof.openings.partial_products@.take(c.num_openings_partial_products as int),
        ),
        openings_quotient_polys: exts_text(
            p.proof.openings.quotient_polys@.take(c.num_openings_quotient_polys as int),
        ),
        fri_commit_phase_merkle_caps: Seq::new(
            c.num_fri_commit_round as nat,
            |i: int| digests_text(fri.commit_phase_merkle_caps@[i]@),
        ),
        fri_query_init_constants_sigmas_v: Seq::new(
            n,
            |i: int|
                words_text(
                    tree_values(rounds[i], 0).take(c.num_fri_query_init_constants_sigmas_v as int),
                ),
        ),
        fri_query_init_constants_sigmas_p: Seq::new(
            n,
            |i: int|
                digests_text(
                    tree_path(rounds[i], 0).take(c.num_fri_query_init_constants_sigmas_p as int),
                ),
        ),
        fri_query_init_wires_v: Seq::new(
            n,
            |i: int| words_text(tree_values(rounds[i], 1).take(c.num_fri_query_init_wires_v as int)),
        ),
        fri_query_init_wires_p: Seq::new(
            n,
            |i: int| digests_text(tree_path(rounds[i], 1).take(c.num_fri_query_init_wires_p as int)),
        ),
        fri_query_init_zs_partial_v: Seq::new(
            n,
            |i: int|
                words_text(
                    tree_values(rounds[i], 2).take(c.num_fri_query_init_zs_partial_v as int),
                ),
        ),
        fri_query_init_zs_partial_p: Seq::new(
            n,
            |i: int|
                digests_text(
                    tree_path(rounds[i], 2).take(c.num_fri_query_init_zs_partial_p as int),
                ),
        ),
        fri_query_init_quotient_v: Seq::new(
            n,
            |i: int|
                words_text(tree_values(rounds[i], 3).take(c.num_fri_query_init_quotient_v as int)),
        ),
        fri_query_init_quotient_p: Seq::new(
            n,
            |i: int|
                digests_text(tree_path(rounds[i], 3).take(c.num_fri_query_init_quotient_p as int)),
        ),
        fri_query_step0_v: Seq::new(
            n,
            |i: int| exts_text(step_values(rounds[i], 0).take(c.num_fri_query_step0_v as int)),
        ),
        fri_query_step0_p: Seq::new(
            n,
            |i: int| digests_text(step_path(rounds[i], 0).take(c.num_fri_query_step0_p as int)),
        ),
        fri_query_step1_v: Seq::new(
            n,
            |i: int| exts_text(step_values(rounds[i], 1).take(c.num_fri_query_step1_v as int)),
        ),
        fri_query_step1_p: Seq::new(
            n,
            |i: int| digests_text(step_path(rounds[i], 1).take(c.num_fri_query_step1_p as int)),
        ),
        fri_final_poly_ext_v: exts_text(fri.final_poly@.take(c.num_fri_final_poly_ext_v as int)),
        fri_pow_witness: decimal(fri.pow_witness as nat),
        public_inputs: words_text(p.public_inputs@.take(c.num_public_inputs as int)),
    }
}

/// The numerals of the first `n` words.
pub fn words_strings(ws: &[u64], n: usize) -> (out: Vec<String>)
    requires
        n <= ws@.len(),
    ensures
        out.deep_view() == words_text(ws@.take(n as int)),
{
    let mut out: Vec<String> = Vec::new();
    let mut i: usize = 0;
    while i < n
        invariant
            i <= n <= ws@.len(),
            out@.len() == i,
            forall|j: int| 0 <= j < i ==> (#[trigger] out@[j])@ == decimal(ws@[j] as nat),
        decreases n - i,
    {
        let s = decimal_string(ws[i]);
        out.push(s);
        i += 1;
    }
    proof {
        assert(out.deep_view() =~= words_text(ws@.take(n as int)));
    }
    out
}

/// The rows of numerals of the first `n` digests.
pub fn digests_strings(ds: &Vec<HashOut>, n: usize) -> (out: Vec<Vec<String>>)
    requires
        n <= ds@.len(),
    ensures
        out.deep_view() == digests_text(ds@.take(n as int)),
{
    let mut out: Vec<Vec<String>> = Vec::new();
    let mut i: usize = 0;
    while i < n
        invariant
            i <= n <= ds@.len(),
            out@.len() == i,
            forall|j: int| 0 <= j < i ==> (#[trigger] out@[j]).deep_view() == words_text(ds@[j]@),
        decreases n - i,
    {
        let row = words_strings(ds[i].as_slice(), 4);
        proof {
            assert(ds@[i as int]@.take(4) =~= ds@[i as int]@);
        }
        out.push(row);
        i += 1;
    }
    proof {
        assert(out.deep_view() =~= digests_text(ds@.take(n as int)));
    }
    out
}

/// The rows of numerals of the first `n` elements of the extension field.
pub fn exts_strings(es: &Vec<ExtElement>, n: usize) -> (out: Vec<Vec<String>>)
    requires
        n <= es@.len(),
    ensures
        out.deep_view() == exts_text(es@.take(n as int)),
{
    let mut out: Vec<Vec<String>> = Vec::new();
    let mut i: usize = 0;
    while i < n
        invariant
            i <= n <= es@.len(),
            out@.len() == i,
            forall|j: int| 0 <= j < i ==> (#[trigger] out@[j]).deep_view() == words_text(es@[j]@),
        decreases n - i,
    {
        let row = words_strings(es[i].as_slice(), 2);
        proof {
            assert(es@[i as int]@.take(2) =~= es@[i as int]@);
        }
        out.push(row);
        i += 1;
    }
    proof {
        assert(out.deep_view() =~= exts_text(es@.take(n as int)));
    }
    out
}

/// For each of the first `n` caps, the rows of numerals of its digests.
fn caps_strings(caps: &Vec<MerkleCap>, n: usize) -> (out: Vec<Vec<Vec<String>>>)
    requires
        n <= caps@.len(),
    ensures
        out.deep_view() == Seq::new(n as nat, |i: int| digests_text(caps@[i]@)),
{
    let mut out: Vec<Vec<Vec<String>>> = Vec::new();
    let mut i: usize = 0;
    while i < n
        invariant
            i <= n <= caps@.len(),
            out@.len() == i,
            forall|j: int|
                0 <= j < i ==> (#[trigger] out@[j]).deep_view() == digests_text(caps@[j]@),
        decreases n - i,
    {
        let cap = &caps[i];
        let rows = digests_strings(cap, cap.len());
        proof {
            assert(cap@.take(cap@.len() as int) =~= cap@);
        }
        out.push(rows);
        i += 1;
    }
    proof {
        assert(out.deep_view() =~= Seq::new(n as nat, |i: int| digests_text(caps@[i]@)));
    }
    out
}

/// For each of the first `n` query rounds, the numerals of the first `v`
/// leaf values of its `k`-th initial tree.
fn rounds_tree_values(rounds: &Vec<FriQueryRound>, n: usize, k: usize, v: usize) -> (out: Vec<
    Vec<String>,
>)
    requires
        n <= rounds@.len(),
        forall|i: int|
            0 <= i < n ==> k < (#[trigger] rounds@[i]).initial_trees_proof.evals_proofs@.len() && v
                <= tree_values(rounds@[i], k as int).len(),
    ensures
        out.deep_view() == Seq::new(
            n as nat,
            |i: int| words_text(tree_values(rounds@[i], k as int).take(v as int)),
        ),
{
    let mut out: Vec<Vec<String>> = Vec::new();
    let mut i: usize = 0;
    while i < n
        invariant
            i <= n <= rounds@.len(),
            forall|i: int|
                0 <= i < n ==> k < (#[trigger] rounds@[i]).initial_trees_proof.evals_proofs@.len()
                    && v <= tree_values(rounds@[i], k as int).len(),
            out@.len() == i,
            forall|j: int|
                0 <= j < i ==> (#[trigger] out@[j]).deep_view() == words_text(
                    tree_values(rounds@[j], k as int).take(v as int),
                ),
        decreases n - i,
    {
        let round = &rounds[i];
        let row = words_strings(round.initial_trees_proof.evals_proofs[k].0.as_slice(), v);
        out.push(row);
        i += 1;
    }
    proof {
        assert(out.deep_view() =~= Seq::new(
            n as nat,
            |i: int| words_text(tree_values(rounds@[i], k as int).take(v as int)),
        ));
    }
    out
}

/// For each of the first `n` query rounds, the rows of numerals of the
/// first `d` siblings on the path of its `k`-th initial tree.
fn rounds_tree_paths(rounds: &Vec<FriQueryRound>, n: usize, k: usize, d: usize) -> (out: Vec<
    Vec<Vec<String>>,
>)
    requires
        n <= rounds@.len(),
        forall|i: int|
            0 <= i < n ==> k < (#[trigger] rounds@[i]).initial_trees_proof.evals_proofs@.len() && d
                <= tree_path(rounds@[i], k as int).len(),
    ensures
        out.deep_view() == Seq::new(
            n as nat,
            |i: int| digests_text(tree_path(rounds@[i], k as int).take(d as int)),
        ),
{
    let mut out: Vec<Vec<Vec<String>>> = Vec::new();
    let mut i: usize = 0;
    while i < n
        invariant
            i <= n <= rounds@.len(),
            forall|i: int|
                0 <= i < n ==> k < (#[trigger] rounds@[i]).initial_trees_proof.evals_proofs@.len()
                    && d <= tree_path(rounds@[i], k as int).len(),
            out@.len() == i,
            forall|j: int|
                0 <= j < i ==> (#[trigger] out@[j]).deep_view() == digests_text(
                    tree_path(rounds@[j], k as int).take(d as int),
                ),
        decreases n - i,
    {
        let round = &rounds[i];
        let rows = digests_strings(&round.initial_trees_proof.evals_proofs[k].1.siblings, d);
        out.push(rows);
        i += 1;
    }
    proof {
        assert(out.deep_view() =~= Seq::new(
            n as nat,
            |i: int| digests_text(tree_path(rounds@[i], k as int).take(d as int)),
        ));
    }
    out
}

/// For each of the first `n` query rounds, the rows of numerals of the
/// first `v` evaluations of its `k`-th reduction step.
fn rounds_step_values(rounds: &Vec<FriQueryRound>, n: usize, k: usize, v: usize) -> (out: Vec<
    Vec<Vec<String>>,
>)
    requires
        n <= rounds@.len(),
        forall|i: int|
            0 <= i < n ==> k < (#[trigger] rounds@[i]).steps@.len() && v <= step_values(
                rounds@[i],
                k as int,
            ).len(),
    ensures
        out.deep_view() == Seq::new(
            n as nat,
            |i: int| exts_text(step_values(rounds@[i], k as int).take(v as int)),
        ),
{
    let mut out: Vec<Vec<Vec<String>>> = Vec::new();
    let mut i: usize = 0;
    while i < n
        invariant
            i <= n <= rounds@.len(),
            forall|i: int|
                0 <= i < n ==> k < (#[trigger] rounds@[i]).steps@.len() && v <= step_values(
                    rounds@[i],
                    k as int,
                ).len(),
            out@.len() == i,
            forall|j: int|
                0 <= j < i ==> (#[trigger] out@[j]).deep_view() == exts_text(
                    step_values(rounds@[j], k as int).take(v as int),
                ),
        decreases n - i,
    {
        let round = &rounds[i];
        let rows = exts_strings(&round.steps[k].evals, v);
        out.push(rows);
        i += 1;
    }
    proof {
        assert(out.deep_view() =~= Seq::new(
            n as nat,
            |i: int| exts_text(step_values(rounds@[i], k as int).take(v as int)),
        ));
    }
    out
}

/// For each of the first `n` query rounds, the rows of numerals of the
/// first `d` siblings on the path of its `k`-th reduction step.
fn rounds_step_paths(rounds: &Vec<FriQueryRound>, n: usize, k: usize, d: usize) -> (out: Vec<
    Vec<Vec<String>>,
>)
    requires
        n <= rounds@.len(),
        forall|i: int|
            0 <= i < n ==> k < (#[trigger] rounds@[i]).steps@.len() && d <= step_path(
                rounds@[i],
                k as int,
            ).len(),
    ensures
        out.deep_view() == Seq::new(
            n as nat,
            |i: int| digests_text(step_path(rounds@[i], k as int).take(d as int)),
        ),
{
    let mut out: Vec<Vec<Vec<String>>> = Vec::new();
    let mut i: usize = 0;
    while i < n
        invariant
            i <= n <= rounds@.len(),
            forall|i: int|
                0 <= i < n ==> k < (#[trigger] rounds@[i]).steps@.len() && d <= step_path(
                    rounds@[i],
                    k as int,
                ).len(),
            out@.len() == i,
            forall|j: int|
                0 <= j < i ==> (#[trigger] out@[j]).deep_view() == digests_text(
                    step_path(rounds@[j], k as int).take(d as int),
                ),
        decreases n - i,
    {
        let round = &rounds[i];
        let rows = digests_strings(&round.steps[k].merkle_proof.siblings, d);
        out.push(rows);
        i += 1;
    }
    proof {
        assert(out.deep_view() =~= Seq::new(
            n as nat,
            |i: int| digests_text(step_path(rounds@[i], k as int).take(d as int)),
        ));
    }
    out
}

/// Writes a proof out for the circuit backend: each section cut to the
/// length that the shape gives it, each word as its decimal numeral.
///
/// The proof has to be canonical, every section that the shape counts has
/// to be there, and the size that the shape predicts has to be
/// `serialized_len`, the number of bytes of the proof in its serialized
/// form. `check_canonical`, `check_fits` and `proof_size` tell whether
/// this holds; `try_generate_proof_base64` asks first.
pub fn generate_proof_base64(
    pwpi: &ProofWithPublicInputs,
    conf: &VerifierConfig,
    serialized_len: usize,
) -> (res: Result<ProofForCircom, LayoutError>)
    requires
        canonical(*pwpi),
        fits(*pwpi, *conf),
        closed_form_size(*conf) == serialized_len,
    ensures
        res is Ok,
        res->Ok_0@ == circom_text(*pwpi, *conf),
{
    let inner = &pwpi.proof;
    let fri = &inner.opening_proof;
    let rounds = &fri.query_round_proofs;
    let n = conf.num_fri_query_round;
    proof {
        assert forall|i: int| 0 <= i < n implies round_fits(#[trigger] rounds@[i], *conf) by {}
    }
    let out = ProofForCircom {
        wires_cap: digests_strings(&inner.wires_cap, conf.num_wires_cap),
        plonk_zs_partial_products_cap: digests_strings(
            &inner.plonk_zs_partial_products_cap,
            conf.num_plonk_zs_partial_products_cap,
        ),
        quotient_polys_cap: digests_strings(
            &inner.quotient_polys_cap,
            conf.num_quotient_polys_cap,
        ),
        openings_constants: exts_strings(&inner.openings.constants, conf.num_openings_constants),
        openings_plonk_sigmas: exts_strings(
            &inner.openings.plonk_sigmas,
            conf.num_openings_plonk_sigmas,
        ),
        openings_wires: exts_strings(&inner.openings.wires, conf.num_openings_wires),
        openings_plonk_zs: exts_strings(&inner.openings.plonk_zs, conf.num_openings_plonk_zs),
        openings_plonk_zs_next: exts_strings(
            &inner.openings.plonk_zs_next,
            conf.num_openings_plonk_zs_next,
        ),
        openings_partial_products: exts_strings(
            &inner.openings.partial_products,
            conf.num_openings_partial_products,
        ),
        openings_quotient_polys: exts_strings(
            &inner.openings.quotient_polys,
            conf.num_openings_quotient_polys,
        ),
        fri_commit_phase_merkle_caps: caps_strings(
            &fri.commit_phase_merkle_caps,
            conf.num_fri_commit_round,
        ),
        fri_query_init_constants_sigmas_v: rounds_tree_values(
            rounds,
            n,
            0,
            conf.num_fri_query_init_constants_sigmas_v,
        ),
        fri_query_init_constants_sigmas_p: rounds_tree_paths(
            rounds,
            n,
            0,
            conf.num_fri_query_init_constants_sigmas_p,
        ),
        fri_query_init_wires_v: rounds_tree_values(rounds, n, 1, conf.num_fri_query_init_wires_v),
        fri_query_init_wires_p: rounds_tree_paths(rounds, n, 1, conf.num_fri_query_init_wires_p),
        fri_query_init_zs_partial_v: rounds_tree_values(
            rounds,
            n,
            2,
            conf.num_fri_query_init_zs_partial_v,
        ),
        fri_query_init_zs_partial_p: rounds_tree_paths(
            rounds,
            n,
            2,
            conf.num_fri_query_init_zs_partial_p,
        ),
        fri_query_init_quotient_v: rounds_tree_values(
            rounds,
            n,
            3,
            conf.num_fri_query_init_quotient_v,
        ),
        fri_query_init_quotient_p: rounds_tree_paths(
            rounds,
            n,
            3,
            conf.num_fri_query_init_quotient_p,
        ),
        fri_query_step0_v: rounds_step_values(rounds, n, 0, conf.num_fri_query_step0_v),
        fri_query_step0_p: rounds_step_paths(rounds, n, 0, conf.num_fri_query_step0_p),
        fri_query_step1_v: rounds_step_values(rounds, n, 1, conf.num_fri_query_step1_v),
        fri_query_step1_p: rounds_step_paths(rounds, n, 1, conf.num_fri_query_step1_p),
        fri_final_poly_ext_v: exts_strings(&fri.final_poly, conf.num_fri_final_poly_ext_v),
        fri_pow_witness: decimal_string(fri.pow_witness),
        public_inputs: words_strings(pwpi.public_inputs.as_slice(), conf.num_public_inputs),
    };
    proof {
        assert(out@.fri_commit_phase_merkle_caps =~= circom_text(
            *pwpi,
            *conf,
        ).fri_commit_phase_merkle_caps);
    }
    Ok(out)
}


/// Writes a proof out for the circuit backend, or says why it cannot:
/// `NonCanonical` where a word of the proof is not below the order of the
/// field, else `ShapeMismatch` where a section that the shape counts
/// cannot be read from the proof, else `SizeMismatch` where the closed
/// form of the size differs from `serialized_len`.
pub fn try_generate_proof_base64(
    pwpi: &ProofWithPublicInputs,
    conf: &VerifierConfig,
    serialized_len: usize,
) -> (res: Result<ProofForCircom, LayoutError>)
    ensures
        !canonical(*pwpi) ==> res == Err::<ProofForCircom, LayoutError>(
            LayoutError::NonCanonical,
        ),
        canonical(*pwpi) && !fits(*pwpi, *conf) ==> res == Err::<ProofForCircom, LayoutError>(
            LayoutError::ShapeMismatch,
        ),
        canonical(*pwpi) && fits(*pwpi, *conf) && closed_form_size(*conf) != serialized_len
            ==> res == Err::<ProofForCircom, LayoutError>(LayoutError::SizeMismatch),
        canonical(*pwpi) && fits(*pwpi, *conf) && closed_form_size(*conf) == serialized_len
            ==> res is Ok && res->Ok_0@ == circom_text(*pwpi, *conf),
{
    if !check_canonical(pwpi) {
        return Err(LayoutError::NonCanonical);
    }
    if !check_fits(pwpi, conf) {
        return Err(LayoutError::ShapeMismatch);
    }
    match proof_size(conf) {
        Some(size) => {
            if size != serialized_len {
                return Err(LayoutError::SizeMismatch);
            }
        },
        None => {
            return Err(LayoutError::SizeMismatch);
        },
    }
    generate_proof_base64(pwpi, conf, serialized_len)
}

} // verus!
