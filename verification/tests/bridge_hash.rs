use ff_ce::PrimeField;
use plonky2_circom_verifier::bridge::{
    PoseidonBN128Hash, PoseidonBN128Permutation, BRIDGE_STATE, FULL_ROUNDS, PARTIAL_ROUNDS,
};
use plonky2_circom_verifier::field::GOLDILOCKS_ORDER;
use poseidon_rs::{Fr, FrRepr, Poseidon};

#[test]
fn test_poseidon_bn128() {
    let mut v = Vec::new();
    v.push(8917524657281059100u64);
    v.push(13029010200779371910u64);
    v.push(16138660518493481604u64);
    v.push(17277322750214136960u64);
    v.push(1441151880423231822u64);
    let h = PoseidonBN128Hash::hash_no_pad(&v);
    assert_eq!(h[0], 16736853722845225729u64);
    assert_eq!(h[1], 1446699130810517790u64);
    assert_eq!(h[2], 15445626857806971868u64);
    assert_eq!(h[3], 6331160477881736675u64);
}

#[test]
fn hash_of_nothing_is_zero() {
    let h = PoseidonBN128Hash::hash_no_pad(&[]);
    assert_eq!(h, [0u64, 0, 0, 0]);
}

#[test]
fn permutation_output_is_canonical_and_changes_the_state() {
    let input = [1u64, 2, 3, 4, 5, 6, 7, 8, 9, 10, 11, 12];
    let out = PoseidonBN128Permutation::permute(input);
    assert_ne!(out, input);
    for w in out.iter() {
        assert!(*w < GOLDILOCKS_ORDER);
    }
}

#[test]
fn two_to_one_permutes_the_two_digests_once() {
    let left = [1u64, 2, 3, 4];
    let right = [5u64, 6, 7, 8];
    let out = PoseidonBN128Permutation::permute([1, 2, 3, 4, 5, 6, 7, 8, 0, 0, 0, 0]);
    assert_eq!(PoseidonBN128Hash::two_to_one(left, right), [out[0], out[1], out[2], out[3]]);
    assert_ne!(
        PoseidonBN128Hash::two_to_one(right, left),
        PoseidonBN128Hash::two_to_one(left, right)
    );
}

#[test]
fn hash_absorbs_eight_words_at_a_time() {
    let input: Vec<u64> = (101..110).collect();
    let mut state = [0u64; 12];
    state[..8].copy_from_slice(&input[..8]);
    state = PoseidonBN128Permutation::permute(state);
    state[0] = input[8];
    state = PoseidonBN128Permutation::permute(state);
    assert_eq!(PoseidonBN128Hash::hash_no_pad(&input), [state[0], state[1], state[2], state[3]]);
}

#[test]
fn hash_of_public_inputs_is_the_hash_without_padding() {
    let input = [7u64, 8, 9];
    assert_eq!(
        PoseidonBN128Hash::hash_public_inputs(&input),
        PoseidonBN128Hash::hash_no_pad(&input)
    );
}

#[test]
fn permutation_reduces_its_input_into_the_field() {
    let mut a = [3u64; 12];
    let mut b = [3u64; 12];
    a[5] = GOLDILOCKS_ORDER + 2;
    b[5] = 2;
    assert_eq!(PoseidonBN128Permutation::permute(a), PoseidonBN128Permutation::permute(b));
}

#[test]
fn permutation_of_zeros_is_known() {
    let out = PoseidonBN128Permutation::permute([0u64; 12]);
    let again = PoseidonBN128Permutation::permute([0u64; 12]);
    assert_eq!(out, again);
    assert_ne!(out, [0u64; 12]);
}

#[test]
fn tables_of_the_bridge_field_have_the_expected_size() {
    let k = poseidon_rs::load_constants();
    assert_eq!(k.n_rounds_f, FULL_ROUNDS);
    assert_eq!(k.n_rounds_p[3], PARTIAL_ROUNDS);
    assert_eq!(k.c[3].len(), (FULL_ROUNDS + PARTIAL_ROUNDS) * BRIDGE_STATE);
    assert_eq!(k.m[3].len(), BRIDGE_STATE);
    for row in k.m[3].iter() {
        assert_eq!(row.len(), BRIDGE_STATE);
    }
    let modulus = Fr::char().0;
    let below = |limbs: [u64; 4]| (0..4).rev().map(|i| limbs[i]).lt((0..4).rev().map(|i| modulus[i]));
    assert!(k.c[3].iter().all(|x| below(x.into_repr().0)));
    assert!(k.m[3].iter().all(|row| row.iter().all(|x| below(x.into_repr().0))));
}

#[test]
fn permutation_runs_the_rounds_of_the_bridge_field() {
    let input: [u64; 12] = [
        0x0123456789abcdef,
        GOLDILOCKS_ORDER - 1,
        3,
        0,
        u64::MAX,
        6,
        7,
        1 << 63,
        9,
        10,
        11,
        12,
    ];
    let k = poseidon_rs::load_constants();
    let hasher = Poseidon::new();
    let word = |i: usize| input[i] % GOLDILOCKS_ORDER;
    let mut state: Vec<Fr> = vec![Fr::from_repr(FrRepr([0, 0, 0, 0])).unwrap()];
    for i in 0..4 {
        let limbs = [word(3 * i + 2), word(3 * i + 1), word(3 * i), 0];
        state.push(Fr::from_repr(FrRepr(limbs)).unwrap());
    }
    for round in 0..68 {
        hasher.ark(&mut state, &k.c[3], round * 5);
        hasher.sbox(8, 60, &mut state, round);
        state = hasher.mix(&state, &k.m[3]);
    }
    let mut expected = [0u64; 12];
    for i in 0..4 {
        let limbs = state[i].into_repr().0;
        for j in 0..3 {
            expected[3 * i + j] = limbs[2 - j] % GOLDILOCKS_ORDER;
        }
    }
    assert_eq!(PoseidonBN128Permutation::permute(input), expected);
}

#[test]
fn first_word_of_the_permutation_is_the_hash_of_the_bridge_field() {
    let input: [u64; 12] = [1, 2, 3, 4, 5, 6, 7, 8, 9, 10, 11, 12];
    let packed: Vec<Fr> = (0..4)
        .map(|i| {
            Fr::from_repr(FrRepr([input[3 * i + 2], input[3 * i + 1], input[3 * i], 0])).unwrap()
        })
        .collect();
    let h = Poseidon::new().hash(packed).unwrap().into_repr().0;
    let out = PoseidonBN128Permutation::permute(input);
    assert_eq!(out[0], h[2] % GOLDILOCKS_ORDER);
    assert_eq!(out[1], h[1] % GOLDILOCKS_ORDER);
    assert_eq!(out[2], h[0] % GOLDILOCKS_ORDER);
}
