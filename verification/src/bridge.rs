//! A sponge permutation for the 64-bit field that works in a much larger
//! prime field, the bridge field: twelve 64-bit words are packed three by
//! three into four elements of the bridge field, permuted there, and
//! unpacked again.

use vstd::prelude::*;
use ff_ce::PrimeField;
use poseidon_rs::{Fr, FrRepr, Poseidon};
use crate::field::{is_canonical, reduce, GOLDILOCKS_ORDER};

verus! {

/// Words in the state of the sponge.
pub const SPONGE_WIDTH: usize = 12;

/// Words of the state that the sponge absorbs into and squeezes from.
pub const SPONGE_RATE: usize = 8;

/// Words packed into one element of the bridge field.
pub const WORDS_PER_ELEMENT: usize = 3;

/// Elements of the bridge field that hold the state of the sponge.
pub const BRIDGE_WIDTH: usize = 4;

/// Elements in the state of the permutation of the bridge field: one
/// element that starts at zero, then the packed state of the sponge.
pub const BRIDGE_STATE: usize = 5;

/// Rounds of the permutation that raise every element to the fifth power.
pub const FULL_ROUNDS: usize = 8;

/// Rounds of the permutation that raise only the first element.
pub const PARTIAL_ROUNDS: usize = 60;

/// Words in a digest.
pub const DIGEST_WIDTH: usize = 4;

/// The order of the bridge field.
pub open spec fn bridge_order() -> nat {
    21888242871839275222246405745257275088548364400416034343698204186575808495617nat
}

/// `2^64`.
pub open spec fn word_base() -> nat {
    0x1_0000_0000_0000_0000nat
}

/// The number that four 64-bit limbs stand for, least significant first.
pub open spec fn limbs_value(l: Seq<u64>) -> nat {
    (l[0] + l[1] * word_base() + l[2] * (word_base() * word_base()) + l[3] * (word_base()
        * word_base() * word_base())) as nat
}

/// Whether four limbs stand for an element of the bridge field.
pub open spec fn in_bridge_field(l: [u64; 4]) -> bool {
    limbs_value(l@) < bridge_order()
}

/// Whether each entry stands for an element of the bridge field.
pub open spec fn all_in_bridge_field(s: Seq<[u64; 4]>) -> bool {
    forall|i: int| 0 <= i < s.len() ==> in_bridge_field(#[trigger] s[i])
}

/// The numbers that a sequence of limb quadruples stands for.
pub open spec fn values(s: Seq<[u64; 4]>) -> Seq<nat> {
    Seq::new(s.len(), |i: int| limbs_value(s[i]@))
}

/// The round constant at `index` of the table that `poseidon_rs` holds for
/// states of five elements.
pub uninterp spec fn round_constant(index: nat) -> nat;

/// The entry at `row` and `col` of the mixing matrix that `poseidon_rs`
/// holds for states of five elements.
pub uninterp spec fn mds_entry(row: nat, col: nat) -> nat;

/// The fifth power.
pub open spec fn pow5(x: nat) -> nat {
    x * x * x * x * x
}

/// Whether round `i` raises every element of the state, given the number
/// of full and of partial rounds.
pub open spec fn is_full_round(n_rounds_f: nat, n_rounds_p: nat, i: nat) -> bool {
    i < n_rounds_f / 2 || i >= n_rounds_f / 2 + n_rounds_p
}

/// The sum of the products of the first `n` entries of `row` and `state`.
pub open spec fn dot(row: Seq<nat>, state: Seq<nat>, n: nat) -> nat
    decreases n,
{
    if n == 0 {
        0
    } else {
        dot(row, state, (n - 1) as nat) + row[n - 1] * state[n - 1]
    }
}

/// The tables of the permutation for states of five elements, as limbs.
pub struct BridgeTables {
    pub round_constants: Vec<[u64; 4]>,
    pub mds: Vec<Vec<[u64; 4]>>,
    pub n_rounds_f: usize,
    pub n_rounds_p: usize,
}

/// `poseidon_rs::Poseidon`, the hasher whose round functions the
/// permutation is made of. Nothing is known of what it holds.
#[verifier::external_type_specification]
#[verifier::external_body]
pub struct ExPoseidon(Poseidon);

/// `poseidon_rs::Poseidon::new`: makes a hasher.
#[verifier::external_body]
fn new_hasher() -> Poseidon {
    Poseidon::new()
}

/// `poseidon_rs::load_constants`: hands out, for states of five elements,
/// the round constants, the mixing matrix and the numbers of rounds. The
/// crate holds eight full and sixty partial rounds for such states, five
/// round constants for each of the sixty-eight rounds, and a matrix of
/// five rows of five entries; every entry is an element of the bridge
/// field in its canonical form.
#[verifier::external_body]
fn load_tables() -> (t: BridgeTables)
    ensures
        t.n_rounds_f == FULL_ROUNDS,
        t.n_rounds_p == PARTIAL_ROUNDS,
        t.round_constants@.len() == (FULL_ROUNDS + PARTIAL_ROUNDS) * BRIDGE_STATE,
        all_in_bridge_field(t.round_constants@),
        forall|i: int|
            0 <= i < t.round_constants@.len() ==> limbs_value((#[trigger] t.round_constants@[i])@)
                == round_constant(i as nat),
        t.mds@.len() == BRIDGE_STATE,
        forall|i: int|
            0 <= i < BRIDGE_STATE ==> (#[trigger] t.mds@[i])@.len() == BRIDGE_STATE
                && all_in_bridge_field(t.mds@[i]@),
        forall|i: int, j: int|
            0 <= i < BRIDGE_STATE && 0 <= j < BRIDGE_STATE ==> limbs_value(
                (#[trigger] t.mds@[i]@[j])@,
            ) == mds_entry(i as nat, j as nat),
{
    let k = poseidon_rs::load_constants();
    BridgeTables {
        round_constants: k.c[3].iter().map(|x| x.into_repr().0).collect(),
        mds: k.m[3].iter().map(|r| r.iter().map(|x| x.into_repr().0).collect()).collect(),
        n_rounds_f: k.n_rounds_f,
        n_rounds_p: k.n_rounds_p[3],
    }
}

/// `poseidon_rs::Poseidon::ark`: adds to each element of the state, in the
/// bridge field, the entry of `c` that stands `it` places further on.
#[verifier::external_body]
fn ark(hasher: &Poseidon, state: Vec<[u64; 4]>, c: &Vec<[u64; 4]>, it: usize) -> (out: Vec<
    [u64; 4],
>)
    requires
        all_in_bridge_field(state@),
        all_in_bridge_field(c@),
        it + state@.len() <= c@.len(),
    ensures
        out@.len() == state@.len(),
        all_in_bridge_field(out@),
        forall|i: int|
            0 <= i < state@.len() ==> limbs_value((#[trigger] out@[i])@) == (limbs_value(
                state@[i]@,
            ) + limbs_value(c@[it + i]@)) % bridge_order(),
{
    let mut s: Vec<Fr> = state.iter().map(|x| Fr::from_repr(FrRepr(*x)).unwrap()).collect();
    let k: Vec<Fr> = c.iter().map(|x| Fr::from_repr(FrRepr(*x)).unwrap()).collect();
    hasher.ark(&mut s, &k, it);
    s.iter().map(|x| x.into_repr().0).collect()
}

/// `poseidon_rs::Poseidon::sbox`: in a full round raises every element of
/// the state to the fifth power in the bridge field, in a partial round
/// the first element only.
#[verifier::external_body]
fn sbox(hasher: &Poseidon, n_rounds_f: usize, n_rounds_p: usize, state: Vec<[u64; 4]>, i: usize)
    -> (out: Vec<[u64; 4]>)
    requires
        all_in_bridge_field(state@),
        n_rounds_f / 2 + n_rounds_p <= usize::MAX,
        state@.len() > 0,
    ensures
        out@.len() == state@.len(),
        all_in_bridge_field(out@),
        forall|j: int|
            0 <= j < state@.len() ==> limbs_value((#[trigger] out@[j])@) == if is_full_round(
                n_rounds_f as nat,
                n_rounds_p as nat,
                i as nat,
            ) || j == 0 {
                pow5(limbs_value(state@[j]@)) % bridge_order()
            } else {
                limbs_value(state@[j]@)
            },
{
    let mut s: Vec<Fr> = state.iter().map(|x| Fr::from_repr(FrRepr(*x)).unwrap()).collect();
    hasher.sbox(n_rounds_f, n_rounds_p, &mut s, i);
    s.iter().map(|x| x.into_repr().0).collect()
}

/// `poseidon_rs::Poseidon::mix`: multiplies the state by the matrix `m` in
/// the bridge field; row `i` of the matrix gives element `i` of the result.
/// Every entry of the matrix is converted, so every row has to lie in the
/// bridge field, also rows that the state does not reach.
#[verifier::external_body]
fn mix(hasher: &Poseidon, state: &Vec<[u64; 4]>, m: &Vec<Vec<[u64; 4]>>) -> (out: Vec<[u64; 4]>)
    requires
        all_in_bridge_field(state@),
        state@.len() <= m@.len(),
        forall|i: int| 0 <= i < state@.len() ==> state@.len() <= (#[trigger] m@[i])@.len(),
        forall|i: int| 0 <= i < m@.len() ==> all_in_bridge_field((#[trigger] m@[i])@),
    ensures
        out@.len() == state@.len(),
        all_in_bridge_field(out@),
        forall|i: int|
            0 <= i < state@.len() ==> limbs_value((#[trigger] out@[i])@) == dot(
                values(m@[i]@),
                values(state@),
                state@.len(),
            ) % bridge_order(),
{
    let s: Vec<Fr> = state.iter().map(|x| Fr::from_repr(FrRepr(*x)).unwrap()).collect();
    let k: Vec<Vec<Fr>> = m.iter().map(
        |r| r.iter().map(|x| Fr::from_repr(FrRepr(*x)).unwrap()).collect(),
    ).collect();
    hasher.mix(&s, &k).iter().map(|x| x.into_repr().0).collect()
}

/// Whether the tables are those that `load_tables` hands out.
pub open spec fn tables_loaded(t: BridgeTables) -> bool {
    &&& t.n_rounds_f == FULL_ROUNDS
    &&& t.n_rounds_p == PARTIAL_ROUNDS
    &&& t.round_constants@.len() == (FULL_ROUNDS + PARTIAL_ROUNDS) * BRIDGE_STATE
    &&& all_in_bridge_field(t.round_constants@)
    &&& forall|i: int|
        0 <= i < t.round_constants@.len() ==> limbs_value((#[trigger] t.round_constants@[i])@)
            == round_constant(i as nat)
    &&& t.mds@.len() == BRIDGE_STATE
    &&& forall|i: int|
        0 <= i < BRIDGE_STATE ==> (#[trigger] t.mds@[i])@.len() == BRIDGE_STATE
            && all_in_bridge_field(t.mds@[i]@)
    &&& forall|i: int, j: int|
        0 <= i < BRIDGE_STATE && 0 <= j < BRIDGE_STATE ==> limbs_value(
            (#[trigger] t.mds@[i]@[j])@,
        ) == mds_entry(i as nat, j as nat)
}

/// The state after the round constants of `round` are added.
pub open spec fn ark_step(state: Seq<nat>, round: nat) -> Seq<nat> {
    Seq::new(
        state.len(),
        |i: int| (state[i] + round_constant((round * state.len() + i) as nat)) % bridge_order(),
    )
}

/// The state after the fifth powers of `round` are taken.
pub open spec fn sbox_step(state: Seq<nat>, round: nat) -> Seq<nat> {
    Seq::new(
        state.len(),
        |j: int|
            if is_full_round(FULL_ROUNDS as nat, PARTIAL_ROUNDS as nat, round) || j == 0 {
                pow5(state[j]) % bridge_order()
            } else {
                state[j]
            },
    )
}

/// The first `n` entries of row `i` of the mixing matrix.
pub open spec fn mds_row(i: nat, n: nat) -> Seq<nat> {
    Seq::new(n, |j: int| mds_entry(i, j as nat))
}

/// The state after it is multiplied by the mixing matrix.
pub open spec fn mix_step(state: Seq<nat>) -> Seq<nat> {
    Seq::new(
        state.len(),
        |i: int| dot(mds_row(i as nat, state.len()), state, state.len()) % bridge_order(),
    )
}

/// The state after one whole round.
pub open spec fn round_step(state: Seq<nat>, round: nat) -> Seq<nat> {
    mix_step(sbox_step(ark_step(state, round), round))
}

/// The state after the first `n` rounds.
pub open spec fn after_rounds(state: Seq<nat>, n: nat) -> Seq<nat>
    decreases n,
{
    if n == 0 {
        state
    } else {
        round_step(after_rounds(state, (n - 1) as nat), (n - 1) as nat)
    }
}

/// The permutation of the bridge field on four elements: a zero is put
/// before them, all rounds run on the five, and the first four of the
/// result are kept.
pub open spec fn bridge_permutation(input: Seq<nat>) -> Seq<nat> {
    after_rounds(seq![0nat] + input, (FULL_ROUNDS + PARTIAL_ROUNDS) as nat).take(
        BRIDGE_WIDTH as int,
    )
}

/// The number whose big-endian words are `a`, `b` and `c`.
pub open spec fn pack(a: u64, b: u64, c: u64) -> nat {
    (a * (word_base() * word_base()) + b * word_base() + c) as nat
}

/// The `k`-th 64-bit word of `e`, counted from the least significant.
pub open spec fn word_of(e: nat, k: nat) -> nat {
    if k == 0 {
        e % word_base()
    } else if k == 1 {
        (e / word_base()) % word_base()
    } else {
        (e / (word_base() * word_base())) % word_base()
    }
}

/// The state of the sponge packed into four elements of the bridge field:
/// each word reduced to its canonical form, three words to an element,
/// the first word the most significant.
pub open spec fn packed_state(input: Seq<u64>) -> Seq<nat> {
    Seq::new(
        BRIDGE_WIDTH as nat,
        |i: int|
            pack(
                (input[3 * i] % GOLDILOCKS_ORDER) as u64,
                (input[3 * i + 1] % GOLDILOCKS_ORDER) as u64,
                (input[3 * i + 2] % GOLDILOCKS_ORDER) as u64,
            ),
    )
}

/// Twelve words unpacked from four elements of the bridge field: of each
/// element the three least significant words, the most significant of
/// them first, each reduced into the 64-bit field.
pub open spec fn unpacked_state(h: Seq<nat>) -> Seq<u64> {
    Seq::new(
        SPONGE_WIDTH as nat,
        |k: int| (word_of(h[k / 3], (2 - k % 3) as nat) % (GOLDILOCKS_ORDER as nat)) as u64,
    )
}

/// The permutation of the sponge.
pub open spec fn permutation(input: Seq<u64>) -> Seq<u64> {
    unpacked_state(bridge_permutation(packed_state(input)))
}

/// The state with its first words overwritten by `chunk`.
pub open spec fn overwrite(state: Seq<u64>, chunk: Seq<u64>) -> Seq<u64> {
    chunk + state.skip(chunk.len() as int)
}

/// The state after `input` is absorbed: chunk by chunk of at most eight
/// words, each chunk overwrites the head of the state, and the state is
/// permuted after each chunk.
pub open spec fn absorb(state: Seq<u64>, input: Seq<u64>) -> Seq<u64>
    decreases input.len(),
{
    if input.len() == 0 {
        state
    } else {
        let n = if input.len() < SPONGE_RATE {
            input.len() as int
        } else {
            SPONGE_RATE as int
        };
        absorb(permutation(overwrite(state, input.take(n))), input.skip(n))
    }
}

/// The digest of `input`: it is absorbed into a state of zeros, and the
/// first four words of the state are the digest. Nothing is padded.
pub open spec fn hash_no_pad_spec(input: Seq<u64>) -> Seq<u64> {
    absorb(Seq::new(SPONGE_WIDTH as nat, |i: int| 0u64), input).take(DIGEST_WIDTH as int)
}

/// The digest of two digests: they fill the first eight words of a state
/// of zeros, which is permuted once; its first four words are the digest.
pub open spec fn two_to_one_spec(left: Seq<u64>, right: Seq<u64>) -> Seq<u64> {
    permutation(left + right + Seq::new(4, |i: int| 0u64)).take(DIGEST_WIDTH as int)
}

/// The limbs of an element whose three low words are given read back as
/// those words.
pub proof fn lemma_words_of_limbs(l: Seq<u64>)
    requires
        l.len() == 4,
    ensures
        word_of(limbs_value(l), 0) == l[0],
        word_of(limbs_value(l), 1) == l[1],
        word_of(limbs_value(l), 2) == l[2],
{
    let b = word_base() as int;
    let v = limbs_value(l) as int;
    let hi1 = l[1] + l[2] * b + l[3] * (b * b);
    let hi2 = l[2] + l[3] * b;
    assert(v == l[0] + hi1 * b) by (nonlinear_arith)
        requires
            v == l[0] + l[1] * b + l[2] * (b * b) + l[3] * (b * b * b),
            hi1 == l[1] + l[2] * b + l[3] * (b * b),
    ;
    assert(v % b == l[0] && v / b == hi1) by {
        vstd::arithmetic::div_mod::lemma_fundamental_div_mod_converse(v, b, hi1, l[0] as int);
    }
    assert(hi1 == l[1] + hi2 * b) by (nonlinear_arith)
        requires
            hi1 == l[1] + l[2] * b + l[3] * (b * b),
            hi2 == l[2] + l[3] * b,
    ;
    assert(hi1 % b == l[1] && hi1 / b == hi2) by {
        vstd::arithmetic::div_mod::lemma_fundamental_div_mod_converse(hi1, b, hi2, l[1] as int);
    }
    assert(v / (b * b) == hi2) by {
        vstd::arithmetic::div_mod::lemma_div_denominator(v, b, b);
    }
    assert(hi2 % b == l[2]) by {
        vstd::arithmetic::div_mod::lemma_fundamental_div_mod_converse(
            hi2,
            b,
            l[3] as int,
            l[2] as int,
        );
    }
}

/// The marker type of the permutation.
pub struct PoseidonBN128Permutation;

/// The marker type of the hash built on the permutation.
#[derive(Clone, Copy, Debug, PartialEq, Eq)]
pub struct PoseidonBN128Hash;

fn pack_state(input: &[u64; 12]) -> (state: Vec<[u64; 4]>)
    ensures
        state@.len() == BRIDGE_STATE,
        all_in_bridge_field(state@),
        values(state@) == seq![0nat] + packed_state(input@),
{
    let mut state: Vec<[u64; 4]> = Vec::new();
    state.push([0u64, 0u64, 0u64, 0u64]);
    let mut i: usize = 0;
    while i < BRIDGE_WIDTH
        invariant
            i <= BRIDGE_WIDTH,
            state@.len() == i + 1,
            all_in_bridge_field(state@),
            limbs_value(state@[0]@) == 0,
            forall|j: int|
                1 <= j < i + 1 ==> limbs_value((#[trigger] state@[j])@) == packed_state(
                    input@,
                )[j - 1],
        decreases BRIDGE_WIDTH - i,
    {
        let a = reduce(input[WORDS_PER_ELEMENT * i]);
        let b = reduce(input[WORDS_PER_ELEMENT * i + 1]);
        let c = reduce(input[WORDS_PER_ELEMENT * i + 2]);
        let limbs: [u64; 4] = [c, b, a, 0u64];
        proof {
            assert(limbs_value(limbs@) == pack(a, b, c)) by (nonlinear_arith)
                requires
                    limbs@[0] == c,
                    limbs@[1] == b,
                    limbs@[2] == a,
                    limbs@[3] == 0,
                    limbs_value(limbs@) == (limbs@[0] + limbs@[1] * word_base() + limbs@[2] * (
                    word_base() * word_base()) + limbs@[3] * (word_base() * word_base()
                        * word_base())) as nat,
                    pack(a, b, c) == (a * (word_base() * word_base()) + b * word_base()
                        + c) as nat,
            ;
            assert(in_bridge_field(limbs));
        }
        state.push(limbs);
        i += 1;
    }
    proof {
        assert(values(state@) =~= seq![0nat] + packed_state(input@));
    }
    state
}

fn unpack_state(state: &Vec<[u64; 4]>) -> (out: [u64; 12])
    requires
        state@.len() >= BRIDGE_WIDTH,
    ensures
        out@ == unpacked_state(values(state@).take(BRIDGE_WIDTH as int)),
{
    let mut out: [u64; 12] = [0u64, 0u64, 0u64, 0u64, 0u64, 0u64, 0u64, 0u64, 0u64, 0u64, 0u64, 0u64];
    let mut k: usize = 0;
    while k < SPONGE_WIDTH
        invariant
            k <= SPONGE_WIDTH,
            state@.len() >= BRIDGE_WIDTH,
            forall|j: int|
                0 <= j < k ==> out@[j] == unpacked_state(
                    values(state@).take(BRIDGE_WIDTH as int),
                )[j],
        decreases SPONGE_WIDTH - k,
    {
        let limbs = &state[k / WORDS_PER_ELEMENT];
        let w = limbs[WORDS_PER_ELEMENT - 1 - k % WORDS_PER_ELEMENT];
        proof {
            lemma_words_of_limbs(limbs@);
        }
        out[k] = reduce(w);
        k += 1;
    }
    proof {
        assert(out@ =~= unpacked_state(values(state@).take(BRIDGE_WIDTH as int)));
    }
    out
}

/// Runs all rounds of the permutation of the bridge field.
fn run_rounds(hasher: &Poseidon, tables: &BridgeTables, start: Vec<[u64; 4]>) -> (state: Vec<
    [u64; 4],
>)
    requires
        tables_loaded(*tables),
        start@.len() == BRIDGE_STATE,
        all_in_bridge_field(start@),
    ensures
        state@.len() == BRIDGE_STATE,
        values(state@) == after_rounds(values(start@), (FULL_ROUNDS + PARTIAL_ROUNDS) as nat),
{
    let ghost init = values(start@);
    let mut state = start;
    let mut round: usize = 0;
    while round < FULL_ROUNDS + PARTIAL_ROUNDS
        invariant
            round <= FULL_ROUNDS + PARTIAL_ROUNDS,
            tables_loaded(*tables),
            state@.len() == BRIDGE_STATE,
            all_in_bridge_field(state@),
            values(state@) == after_rounds(init, round as nat),
        decreases FULL_ROUNDS + PARTIAL_ROUNDS - round,
    {
        let ghost v0 = values(state@);
        state = ark(hasher, state, &tables.round_constants, round * BRIDGE_STATE);
        let ghost v1 = values(state@);
        proof {
            assert(v1 =~= ark_step(v0, round as nat));
        }
        state = sbox(hasher, tables.n_rounds_f, tables.n_rounds_p, state, round);
        let ghost v2 = values(state@);
        proof {
            assert(v2 =~= sbox_step(v1, round as nat));
        }
        let mixed = mix(hasher, &state, &tables.mds);
        proof {
            assert forall|i: int| 0 <= i < BRIDGE_STATE implies values(tables.mds@[i]@) == mds_row(
                i as nat,
                BRIDGE_STATE as nat,
            ) by {
                assert(values(tables.mds@[i]@) =~= mds_row(i as nat, BRIDGE_STATE as nat));
            }
            assert(values(mixed@) =~= mix_step(v2));
        }
        state = mixed;
        round += 1;
    }
    state
}

fn permute_with(hasher: &Poseidon, tables: &BridgeTables, input: &[u64; 12]) -> (out: [u64; 12])
    requires
        tables_loaded(*tables),
    ensures
        out@ == permutation(input@),
{
    let start = pack_state(input);
    let state = run_rounds(hasher, tables, start);
    unpack_state(&state)
}

impl PoseidonBN128Permutation {
    /// Permutes the state of the sponge. Words that are not canonical are
    /// reduced into the field first; every word of the result is
    /// canonical.
    pub fn permute(input: [u64; 12]) -> (out: [u64; 12])
        ensures
            out@ == permutation(input@),
            forall|i: int| 0 <= i < SPONGE_WIDTH ==> is_canonical(#[trigger] out@[i]),
    {
        let hasher = new_hasher();
        let tables = load_tables();
        permute_with(&hasher, &tables, &input)
    }
}

impl PoseidonBN128Hash {
    /// Hashes words without padding: the words are absorbed eight at a
    /// time into a state of zeros, and the digest is the first four words
    /// of the state. The digest of no words is four zeros.
    pub fn hash_no_pad(input: &[u64]) -> (digest: [u64; 4])
        ensures
            digest@ == hash_no_pad_spec(input@),
    {
        let hasher = new_hasher();
        let tables = load_tables();
        let mut state: [u64; 12] = [0u64, 0u64, 0u64, 0u64, 0u64, 0u64, 0u64, 0u64, 0u64, 0u64, 0u64, 0u64];
        let ghost zeros = Seq::new(SPONGE_WIDTH as nat, |i: int| 0u64);
        proof {
            assert(state@ =~= zeros);
            assert(input@.skip(0) =~= input@);
        }
        let mut pos: usize = 0;
        while pos < input.len()
            invariant
                pos <= input@.len(),
                tables_loaded(tables),
                absorb(state@, input@.skip(pos as int)) == absorb(zeros, input@),
            decreases input@.len() - pos,
        {
            let ghost rest = input@.skip(pos as int);
            let ghost before = state@;
            let n: usize = if input.len() - pos < SPONGE_RATE {
                input.len() - pos
            } else {
                SPONGE_RATE
            };
            let mut j: usize = 0;
            while j < n
                invariant
                    j <= n <= SPONGE_RATE,
                    pos + n <= input@.len() <= usize::MAX,
                    forall|k: int| 0 <= k < j ==> state@[k] == input@[pos + k],
                    forall|k: int| j <= k < SPONGE_WIDTH ==> state@[k] == before[k],
                decreases n - j,
            {
                state[j] = input[pos + j];
                j += 1;
            }
            proof {
                assert(state@ =~= overwrite(before, rest.take(n as int)));
                assert(rest.skip(n as int) =~= input@.skip(pos + n));
            }
            state = permute_with(&hasher, &tables, &state);
            pos += n;
        }
        let digest: [u64; 4] = [state[0], state[1], state[2], state[3]];
        proof {
            assert(digest@ =~= state@.take(DIGEST_WIDTH as int));
        }
        digest
    }

    /// Hashes the public inputs of a proof: the same as `hash_no_pad`.
    pub fn hash_public_inputs(input: &[u64]) -> (digest: [u64; 4])
        ensures
            digest@ == hash_no_pad_spec(input@),
    {
        Self::hash_no_pad(input)
    }

    /// Combines two digests into one, as the nodes of a Merkle tree are
    /// combined.
    pub fn two_to_one(left: [u64; 4], right: [u64; 4]) -> (digest: [u64; 4])
        ensures
            digest@ == two_to_one_spec(left@, right@),
    {
        let state: [u64; 12] = [
            left[0],
            left[1],
            left[2],
            left[3],
            right[0],
            right[1],
            right[2],
            right[3],
            0u64,
            0u64,
            0u64,
            0u64,
        ];
        proof {
            assert(state@ =~= left@ + right@ + Seq::new(4, |i: int| 0u64));
        }
        let out = PoseidonBN128Permutation::permute(state);
        let digest: [u64; 4] = [out[0], out[1], out[2], out[3]];
        proof {
            assert(digest@ =~= out@.take(DIGEST_WIDTH as int));
        }
        digest
    }
}

} // verus!
