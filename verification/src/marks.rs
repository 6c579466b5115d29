//! The placeholders of the two templates, and what is left of them once
//! they are filled: where every `$` of a template belongs to one of its
//! placeholders, the generated file holds no `$`.

use vstd::prelude::*;
use crate::circuit::{CommonData, FieldParameters, VerifierOnlyData};
use crate::data::HashOut;
use crate::gates::{filter_chain_of, filter_term, filter_terms, filter_text, is_noop};
use crate::generator::{
    cap_filled, circuit_filled, component_block, constants_text, emit_rows,
    field_filled, gate_code, gates_text, generated, min_fri_pow_response, shape_filled,
    tables_filled, template_name_of, Emission,
};
use crate::numbers::exact_log2;
use crate::placeholders::{
    all_well_formed, claimed_by, claimed_from, lemma_fill_step, lemma_no_claim_no_mark,
    lemma_occurs_before, lemma_occurs_behind, marks_claimed, well_formed, Placeholder,
};
use crate::shape::VerifierConfig;
use crate::template::{
    as_words, assignment_line, assignment_lines, cap_digest_lines, cap_line, cap_lines,
    flag_text, lemma_decimal_is_mark_free, mark_free,
};
use crate::text::{decimal, replace_all};
use vstd::arithmetic::power2::pow2;

verus! {

/// The placeholders of the tables of a circuit, in the order in which they are filled.
pub open spec fn tables_keys() -> Seq<Placeholder> {
    seq![
        Placeholder { key: "  $SET_K_IS;\n"@, mark: 2 },
        Placeholder { key: "  $SET_REDUCTION_ARITY_BITS;\n"@, mark: 2 },
        Placeholder { key: "$NUM_REDUCTION_ARITY_BITS"@, mark: 0 },
    ]
}

/// The placeholders of the counts of a shape, in the order in which they are filled.
pub open spec fn shape_keys() -> Seq<Placeholder> {
    seq![
        Placeholder { key: "$NUM_PUBLIC_INPUTS"@, mark: 0 },
        Placeholder { key: "$NUM_WIRES_CAP"@, mark: 0 },
        Placeholder { key: "$NUM_PLONK_ZS_PARTIAL_PRODUCTS_CAP"@, mark: 0 },
        Placeholder { key: "$NUM_QUOTIENT_POLYS_CAP"@, mark: 0 },
        Placeholder { key: "$NUM_OPENINGS_CONSTANTS"@, mark: 0 },
        Placeholder { key: "$NUM_OPENINGS_PLONK_SIGMAS"@, mark: 0 },
        Placeholder { key: "$NUM_OPENINGS_WIRES"@, mark: 0 },
        Placeholder { key: "$NUM_OPENINGS_PLONK_ZS0"@, mark: 0 },
        Placeholder { key: "$NUM_OPENINGS_PLONK_ZS_NEXT"@, mark: 0 },
        Placeholder { key: "$NUM_OPENINGS_PARTIAL_PRODUCTS"@, mark: 0 },
        Placeholder { key: "$NUM_OPENINGS_QUOTIENT_POLYS"@, mark: 0 },
        Placeholder { key: "$NUM_FRI_COMMIT_ROUND"@, mark: 0 },
        Placeholder { key: "$FRI_COMMIT_MERKLE_CAP_HEIGHT"@, mark: 0 },
        Placeholder { key: "$NUM_FRI_QUERY_ROUND"@, mark: 0 },
        Placeholder { key: "$NUM_FRI_QUERY_INIT_CONSTANTS_SIGMAS_V"@, mark: 0 },
        Placeholder { key: "$NUM_FRI_QUERY_INIT_CONSTANTS_SIGMAS_P"@, mark: 0 },
        Placeholder { key: "$NUM_FRI_QUERY_INIT_WIRES_V"@, mark: 0 },
        Placeholder { key: "$NUM_FRI_QUERY_INIT_WIRES_P"@, mark: 0 },
        Placeholder { key: "$NUM_FRI_QUERY_INIT_ZS_PARTIAL_V"@, mark: 0 },
        Placeholder { key: "$NUM_FRI_QUERY_INIT_ZS_PARTIAL_P"@, mark: 0 },
        Placeholder { key: "$NUM_FRI_QUERY_INIT_QUOTIENT_V"@, mark: 0 },
        Placeholder { key: "$NUM_FRI_QUERY_INIT_QUOTIENT_P"@, mark: 0 },
        Placeholder { key: "$NUM_FRI_QUERY_STEP0_V"@, mark: 0 },
        Placeholder { key: "$NUM_FRI_QUERY_STEP0_P"@, mark: 0 },
        Placeholder { key: "$NUM_FRI_QUERY_STEP1_V"@, mark: 0 },
        Placeholder { key: "$NUM_FRI_QUERY_STEP1_P"@, mark: 0 },
        Placeholder { key: "$NUM_FRI_FINAL_POLY_EXT_V"@, mark: 0 },
    ]
}

/// The placeholders of the parameters of a circuit, in the order in which they are filled.
pub open spec fn circuit_keys() -> Seq<Placeholder> {
    seq![
        Placeholder { key: "$NUM_CHALLENGES"@, mark: 0 },
        Placeholder { key: "  $SET_CIRCUIT_DIGEST;\n"@, mark: 2 },
        Placeholder { key: "$FRI_RATE_BITS"@, mark: 0 },
        Placeholder { key: "$DEGREE_BITS"@, mark: 0 },
        Placeholder { key: "$NUM_GATE_CONSTRAINTS"@, mark: 0 },
        Placeholder { key: "$QUOTIENT_DEGREE_FACTOR"@, mark: 0 },
        Placeholder { key: "$MIN_FRI_POW_RESPONSE"@, mark: 0 },
    ]
}

/// The placeholders of the constants of the field, in the order in which they are filled.
pub open spec fn field_keys() -> Seq<Placeholder> {
    seq![
        Placeholder { key: "$G_FROM_DEGREE_BITS_0"@, mark: 0 },
        Placeholder { key: "$G_FROM_DEGREE_BITS_1"@, mark: 0 },
        Placeholder { key: "$LOG_SIZE_OF_LDE_DOMAIN"@, mark: 0 },
        Placeholder { key: "$MULTIPLICATIVE_GROUP_GENERATOR"@, mark: 0 },
        Placeholder { key: "$PRIMITIVE_ROOT_OF_UNITY_LDE"@, mark: 0 },
        Placeholder { key: "$ZERO_KNOWLEDGE"@, mark: 0 },
        Placeholder { key: "$G_ARITY_BITS_1"@, mark: 0 },
        Placeholder { key: "$G_ARITY_BITS_2"@, mark: 0 },
        Placeholder { key: "$G_ARITY_BITS_3"@, mark: 0 },
        Placeholder { key: "$G_ARITY_BITS_4"@, mark: 0 },
    ]
}

/// The placeholders of the selectors and of the cap, in the order in which they are filled.
pub open spec fn cap_keys() -> Seq<Placeholder> {
    seq![
        Placeholder { key: "$NUM_SELECTORS"@, mark: 0 },
        Placeholder { key: "$SIGMA_CAP_COUNT"@, mark: 0 },
        Placeholder { key: "  $SET_SIGMA_CAP;\n"@, mark: 2 },
    ]
}

/// The placeholders of the file of gates, in the order in which they are filled.
pub open spec fn gates_keys() -> Seq<Placeholder> {
    seq![
        Placeholder { key: "  $EVALUATE_GATE_CONSTRAINTS;"@, mark: 2 },
        Placeholder { key: "$NUM_GATE_CONSTRAINTS"@, mark: 0 },
        Placeholder { key: "$NUM_SELECTORS"@, mark: 0 },
        Placeholder { key: "$NUM_OPENINGS_CONSTANTS"@, mark: 0 },
        Placeholder { key: "$NUM_OPENINGS_WIRES"@, mark: 0 },
        Placeholder { key: "$F_EXT_W"@, mark: 0 },
    ]
}

/// The placeholders of the file of constants, in the order in which they
/// are filled.
pub open spec fn constants_keys() -> Seq<Placeholder> {
    tables_keys() + shape_keys() + circuit_keys() + field_keys() + cap_keys()
}

proof fn lemma_tables_keys_well_formed()
    ensures
        tables_keys().len() == 3,
        all_well_formed(tables_keys()),
{
    reveal_strlit("  $SET_K_IS;\n");
    reveal_strlit("  $SET_REDUCTION_ARITY_BITS;\n");
    reveal_strlit("$NUM_REDUCTION_ARITY_BITS");
    assert(well_formed(tables_keys()[0]));
    assert(well_formed(tables_keys()[1]));
    assert(well_formed(tables_keys()[2]));
}

proof fn lemma_shape_keys_well_formed()
    ensures
        shape_keys().len() == 27,
        all_well_formed(shape_keys()),
{
    reveal_strlit("$NUM_PUBLIC_INPUTS");
    reveal_strlit("$NUM_WIRES_CAP");
    reveal_strlit("$NUM_PLONK_ZS_PARTIAL_PRODUCTS_CAP");
    reveal_strlit("$NUM_QUOTIENT_POLYS_CAP");
    reveal_strlit("$NUM_OPENINGS_CONSTANTS");
    reveal_strlit("$NUM_OPENINGS_PLONK_SIGMAS");
    reveal_strlit("$NUM_OPENINGS_WIRES");
    reveal_strlit("$NUM_OPENINGS_PLONK_ZS0");
    reveal_strlit("$NUM_OPENINGS_PLONK_ZS_NEXT");
    reveal_strlit("$NUM_OPENINGS_PARTIAL_PRODUCTS");
    reveal_strlit("$NUM_OPENINGS_QUOTIENT_POLYS");
    reveal_strlit("$NUM_FRI_COMMIT_ROUND");
    reveal_strlit("$FRI_COMMIT_MERKLE_CAP_HEIGHT");
    reveal_strlit("$NUM_FRI_QUERY_ROUND");
    reveal_strlit("$NUM_FRI_QUERY_INIT_CONSTANTS_SIGMAS_V");
    reveal_strlit("$NUM_FRI_QUERY_INIT_CONSTANTS_SIGMAS_P");
    reveal_strlit("$NUM_FRI_QUERY_INIT_WIRES_V");
    reveal_strlit("$NUM_FRI_QUERY_INIT_WIRES_P");
    reveal_strlit("$NUM_FRI_QUERY_INIT_ZS_PARTIAL_V");
    reveal_strlit("$NUM_FRI_QUERY_INIT_ZS_PARTIAL_P");
    reveal_strlit("$NUM_FRI_QUERY_INIT_QUOTIENT_V");
    reveal_strlit("$NUM_FRI_QUERY_INIT_QUOTIENT_P");
    reveal_strlit("$NUM_FRI_QUERY_STEP0_V");
    reveal_strlit("$NUM_FRI_QUERY_STEP0_P");
    reveal_strlit("$NUM_FRI_QUERY_STEP1_V");
    reveal_strlit("$NUM_FRI_QUERY_STEP1_P");
    reveal_strlit("$NUM_FRI_FINAL_POLY_EXT_V");
    assert(well_formed(shape_keys()[0]));
    assert(well_formed(shape_keys()[1]));
    assert(well_formed(shape_keys()[2]));
    assert(well_formed(shape_keys()[3]));
    assert(well_formed(shape_keys()[4]));
    assert(well_formed(shape_keys()[5]));
    assert(well_formed(shape_keys()[6]));
    assert(well_formed(shape_keys()[7]));
    assert(well_formed(shape_keys()[8]));
    assert(well_formed(shape_keys()[9]));
    assert(well_formed(shape_keys()[10]));
    assert(well_formed(shape_keys()[11]));
    assert(well_formed(shape_keys()[12]));
    assert(well_formed(shape_keys()[13]));
    assert(well_formed(shape_keys()[14]));
    assert(well_formed(shape_keys()[15]));
    assert(well_formed(shape_keys()[16]));
    assert(well_formed(shape_keys()[17]));
    assert(well_formed(shape_keys()[18]));
    assert(well_formed(shape_keys()[19]));
    assert(well_formed(shape_keys()[20]));
    assert(well_formed(shape_keys()[21]));
    assert(well_formed(shape_keys()[22]));
    assert(well_formed(shape_keys()[23]));
    assert(well_formed(shape_keys()[24]));
    assert(well_formed(shape_keys()[25]));
    assert(well_formed(shape_keys()[26]));
}

proof fn lemma_circuit_keys_well_formed()
    ensures
        circuit_keys().len() == 7,
        all_well_formed(circuit_keys()),
{
    reveal_strlit("$NUM_CHALLENGES");
    reveal_strlit("  $SET_CIRCUIT_DIGEST;\n");
    reveal_strlit("$FRI_RATE_BITS");
    reveal_strlit("$DEGREE_BITS");
    reveal_strlit("$NUM_GATE_CONSTRAINTS");
    reveal_strlit("$QUOTIENT_DEGREE_FACTOR");
    reveal_strlit("$MIN_FRI_POW_RESPONSE");
    assert(well_formed(circuit_keys()[0]));
    assert(well_formed(circuit_keys()[1]));
    assert(well_formed(circuit_keys()[2]));
    assert(well_formed(circuit_keys()[3]));
    assert(well_formed(circuit_keys()[4]));
    assert(well_formed(circuit_keys()[5]));
    assert(well_formed(circuit_keys()[6]));
}

proof fn lemma_field_keys_well_formed()
    ensures
        field_keys().len() == 10,
        all_well_formed(field_keys()),
{
    reveal_strlit("$G_FROM_DEGREE_BITS_0");
    reveal_strlit("$G_FROM_DEGREE_BITS_1");
    reveal_strlit("$LOG_SIZE_OF_LDE_DOMAIN");
    reveal_strlit("$MULTIPLICATIVE_GROUP_GENERATOR");
    reveal_strlit("$PRIMITIVE_ROOT_OF_UNITY_LDE");
    reveal_strlit("$ZERO_KNOWLEDGE");
    reveal_strlit("$G_ARITY_BITS_1");
    reveal_strlit("$G_ARITY_BITS_2");
    reveal_strlit("$G_ARITY_BITS_3");
    reveal_strlit("$G_ARITY_BITS_4");
    assert(well_formed(field_keys()[0]));
    assert(well_formed(field_keys()[1]));
    assert(well_formed(field_keys()[2]));
    assert(well_formed(field_keys()[3]));
    assert(well_formed(field_keys()[4]));
    assert(well_formed(field_keys()[5]));
    assert(well_formed(field_keys()[6]));
    assert(well_formed(field_keys()[7]));
    assert(well_formed(field_keys()[8]));
    assert(well_formed(field_keys()[9]));
}

proof fn lemma_cap_keys_well_formed()
    ensures
        cap_keys().len() == 3,
        all_well_formed(cap_keys()),
{
    reveal_strlit("$NUM_SELECTORS");
    reveal_strlit("$SIGMA_CAP_COUNT");
    reveal_strlit("  $SET_SIGMA_CAP;\n");
    assert(well_formed(cap_keys()[0]));
    assert(well_formed(cap_keys()[1]));
    assert(well_formed(cap_keys()[2]));
}

proof fn lemma_gates_keys_well_formed()
    ensures
        gates_keys().len() == 6,
        all_well_formed(gates_keys()),
{
    reveal_strlit("  $EVALUATE_GATE_CONSTRAINTS;");
    reveal_strlit("$NUM_GATE_CONSTRAINTS");
    reveal_strlit("$NUM_SELECTORS");
    reveal_strlit("$NUM_OPENINGS_CONSTANTS");
    reveal_strlit("$NUM_OPENINGS_WIRES");
    reveal_strlit("$F_EXT_W");
    assert(well_formed(gates_keys()[0]));
    assert(well_formed(gates_keys()[1]));
    assert(well_formed(gates_keys()[2]));
    assert(well_formed(gates_keys()[3]));
    assert(well_formed(gates_keys()[4]));
    assert(well_formed(gates_keys()[5]));
}

/// Every placeholder of the file of constants is well formed.
pub proof fn lemma_constants_keys_well_formed()
    ensures
        constants_keys().len() == 50,
        all_well_formed(constants_keys()),
{
    lemma_tables_keys_well_formed();
    lemma_shape_keys_well_formed();
    lemma_circuit_keys_well_formed();
    lemma_field_keys_well_formed();
    lemma_cap_keys_well_formed();
    let keys = constants_keys();
    assert forall|j: int| 0 <= j < keys.len() implies well_formed(#[trigger] keys[j]) by {
        if j < 3 {
            assert(keys[j] == tables_keys()[j]);
        } else if j < 30 {
            assert(keys[j] == shape_keys()[j - 3]);
        } else if j < 37 {
            assert(keys[j] == circuit_keys()[j - 30]);
        } else if j < 47 {
            assert(keys[j] == field_keys()[j - 37]);
        } else {
            assert(keys[j] == cap_keys()[j - 47]);
        }
    }
}

/// Every placeholder of the file of gates is well formed.
pub proof fn lemma_gates_keys_are_well_formed()
    ensures
        gates_keys().len() == 6,
        all_well_formed(gates_keys()),
{
    lemma_gates_keys_well_formed();
}

/// Texts without marks make a text without marks.
pub proof fn lemma_concat_mark_free(a: Seq<char>, b: Seq<char>)
    requires
        mark_free(a),
        mark_free(b),
    ensures
        mark_free(a + b),
{
}

/// One assignment holds no mark where its head holds none.
pub proof fn lemma_assignment_line_mark_free(head: Seq<char>, index: nat, value: u64)
    requires
        mark_free(head),
    ensures
        mark_free(assignment_line(head, index, value)),
{
    reveal_strlit("] = ");
    reveal_strlit(";\n");
    lemma_decimal_is_mark_free(index);
    lemma_decimal_is_mark_free(value as nat);
}

/// Assignments hold no mark where their head holds none.
pub proof fn lemma_assignment_lines_mark_free(head: Seq<char>, values: Seq<u64>)
    requires
        mark_free(head),
    ensures
        mark_free(assignment_lines(head, values)),
    decreases values.len(),
{
    if values.len() > 0 {
        lemma_assignment_lines_mark_free(head, values.drop_last());
        lemma_assignment_line_mark_free(head, (values.len() - 1) as nat, values.last());
    }
}

/// One assignment to a cell of the cap holds no mark.
pub proof fn lemma_cap_line_mark_free(index: nat, word: nat, value: u64)
    ensures
        mark_free(cap_line(index, word, value)),
{
    reveal_strlit("  sc[");
    reveal_strlit("][");
    reveal_strlit("] = ");
    reveal_strlit(";\n");
    lemma_decimal_is_mark_free(index);
    lemma_decimal_is_mark_free(word);
    lemma_decimal_is_mark_free(value as nat);
}

/// The assignments of a cap hold no mark.
pub proof fn lemma_cap_lines_mark_free(cap: Seq<HashOut>)
    ensures
        mark_free(cap_lines(cap)),
    decreases cap.len(),
{
    if cap.len() > 0 {
        lemma_cap_lines_mark_free(cap.drop_last());
        let i = (cap.len() - 1) as nat;
        let d = cap.last();
        lemma_cap_line_mark_free(i, 0, d@[0]);
        lemma_cap_line_mark_free(i, 1, d@[1]);
        lemma_cap_line_mark_free(i, 2, d@[2]);
        lemma_cap_line_mark_free(i, 3, d@[3]);
        assert(mark_free(cap_digest_lines(i, d)));
    }
}

/// The tables filled in: the marks left belong to the placeholders behind them.
proof fn lemma_tables_claims(t: Seq<char>, common: CommonData)
    requires
        marks_claimed(t, constants_keys(), 0),
    ensures
        marks_claimed(tables_filled(t, common), constants_keys(), 3),
{
    let keys = constants_keys();
    lemma_constants_keys_well_formed();
    let t0 = t;
    reveal_strlit("  k_is["); lemma_assignment_lines_mark_free("  k_is["@, common.k_is@);
    assert(keys[0].key == "  $SET_K_IS;\n"@);
    lemma_fill_step(t0, keys, 0, assignment_lines("  k_is["@, common.k_is@));
    let t1 = replace_all(t0, "  $SET_K_IS;\n"@, assignment_lines("  k_is["@, common.k_is@));
    reveal_strlit("  bits["); lemma_assignment_lines_mark_free("  bits["@, as_words(common.reduction_arity_bits@));
    assert(keys[1].key == "  $SET_REDUCTION_ARITY_BITS;\n"@);
    lemma_fill_step(t1, keys, 1, assignment_lines("  bits["@, as_words(common.reduction_arity_bits@)));
    let t2 = replace_all(t1, "  $SET_REDUCTION_ARITY_BITS;\n"@, assignment_lines("  bits["@, as_words(common.reduction_arity_bits@)));
    lemma_decimal_is_mark_free((common.reduction_arity_bits@.len()) as nat);
    assert(keys[2].key == "$NUM_REDUCTION_ARITY_BITS"@);
    lemma_fill_step(t2, keys, 2, decimal((common.reduction_arity_bits@.len()) as nat));
    let t3 = replace_all(t2, "$NUM_REDUCTION_ARITY_BITS"@, decimal((common.reduction_arity_bits@.len()) as nat));
    assert(t3 == tables_filled(t, common));
}

/// The counts filled in: the marks left belong to the placeholders behind them.
proof fn lemma_shape_claims(t: Seq<char>, c: VerifierConfig)
    requires
        marks_claimed(t, constants_keys(), 3),
    ensures
        marks_claimed(shape_filled(t, c), constants_keys(), 30),
{
    let keys = constants_keys();
    lemma_constants_keys_well_formed();
    let t0 = t;
    lemma_decimal_is_mark_free((c.num_public_inputs) as nat);
    assert(keys[3].key == "$NUM_PUBLIC_INPUTS"@);
    lemma_fill_step(t0, keys, 3, decimal((c.num_public_inputs) as nat));
    let t1 = replace_all(t0, "$NUM_PUBLIC_INPUTS"@, decimal((c.num_public_inputs) as nat));
    lemma_decimal_is_mark_free((c.num_wires_cap) as nat);
    assert(keys[4].key == "$NUM_WIRES_CAP"@);
    lemma_fill_step(t1, keys, 4, decimal((c.num_wires_cap) as nat));
    let t2 = replace_all(t1, "$NUM_WIRES_CAP"@, decimal((c.num_wires_cap) as nat));
    lemma_decimal_is_mark_free((c.num_plonk_zs_partial_products_cap) as nat);
    assert(keys[5].key == "$NUM_PLONK_ZS_PARTIAL_PRODUCTS_CAP"@);
    lemma_fill_step(t2, keys, 5, decimal((c.num_plonk_zs_partial_products_cap) as nat));
    let t3 = replace_all(t2, "$NUM_PLONK_ZS_PARTIAL_PRODUCTS_CAP"@, decimal((c.num_plonk_zs_partial_products_cap) as nat));
    lemma_decimal_is_mark_free((c.num_quotient_polys_cap) as nat);
    assert(keys[6].key == "$NUM_QUOTIENT_POLYS_CAP"@);
    lemma_fill_step(t3, keys, 6, decimal((c.num_quotient_polys_cap) as nat));
    let t4 = replace_all(t3, "$NUM_QUOTIENT_POLYS_CAP"@, decimal((c.num_quotient_polys_cap) as nat));
    lemma_decimal_is_mark_free((c.num_openings_constants) as nat);
    assert(keys[7].key == "$NUM_OPENINGS_CONSTANTS"@);
    lemma_fill_step(t4, keys, 7, decimal((c.num_openings_constants) as nat));
    let t5 = replace_all(t4, "$NUM_OPENINGS_CONSTANTS"@, decimal((c.num_openings_constants) as nat));
    lemma_decimal_is_mark_free((c.num_openings_plonk_sigmas) as nat);
    assert(keys[8].key == "$NUM_OPENINGS_PLONK_SIGMAS"@);
    lemma_fill_step(t5, keys, 8, decimal((c.num_openings_plonk_sigmas) as nat));
    let t6 = replace_all(t5, "$NUM_OPENINGS_PLONK_SIGMAS"@, decimal((c.num_openings_plonk_sigmas) as nat));
    lemma_decimal_is_mark_free((c.num_openings_wires) as nat);
    assert(keys[9].key == "$NUM_OPENINGS_WIRES"@);
    lemma_fill_step(t6, keys, 9, decimal((c.num_openings_wires) as nat));
    let t7 = replace_all(t6, "$NUM_OPENINGS_WIRES"@, decimal((c.num_openings_wires) as nat));
    lemma_decimal_is_mark_free((c.num_openings_plonk_zs) as nat);
    assert(keys[10].key == "$NUM_OPENINGS_PLONK_ZS0"@);
    lemma_fill_step(t7, keys, 10, decimal((c.num_openings_plonk_zs) as nat));
    let t8 = replace_all(t7, "$NUM_OPENINGS_PLONK_ZS0"@, decimal((c.num_openings_plonk_zs) as nat));
    lemma_decimal_is_mark_free((c.num_openings_plonk_zs_next) as nat);
    assert(keys[11].key == "$NUM_OPENINGS_PLONK_ZS_NEXT"@);
    lemma_fill_step(t8, keys, 11, decimal((c.num_openings_plonk_zs_next) as nat));
    let t9 = replace_all(t8, "$NUM_OPENINGS_PLONK_ZS_NEXT"@, decimal((c.num_openings_plonk_zs_next) as nat));
    lemma_decimal_is_mark_free((c.num_openings_partial_products) as nat);
    assert(keys[12].key == "$NUM_OPENINGS_PARTIAL_PRODUCTS"@);
    lemma_fill_step(t9, keys, 12, decimal((c.num_openings_partial_products) as nat));
    let t10 = replace_all(t9, "$NUM_OPENINGS_PARTIAL_PRODUCTS"@, decimal((c.num_openings_partial_products) as nat));
    lemma_decimal_is_mark_free((c.num_openings_quotient_polys) as nat);
    assert(keys[13].key == "$NUM_OPENINGS_QUOTIENT_POLYS"@);
    lemma_fill_step(t10, keys, 13, decimal((c.num_openings_quotient_polys) as nat));
    let t11 = replace_all(t10, "$NUM_OPENINGS_QUOTIENT_POLYS"@, decimal((c.num_openings_quotient_polys) as nat));
    lemma_decimal_is_mark_free((c.num_fri_commit_round) as nat);
    assert(keys[14].key == "$NUM_FRI_COMMIT_ROUND"@);
    lemma_fill_step(t11, keys, 14, decimal((c.num_fri_commit_round) as nat));
    let t12 = replace_all(t11, "$NUM_FRI_COMMIT_ROUND"@, decimal((c.num_fri_commit_round) as nat));
    lemma_decimal_is_mark_free((c.fri_commit_merkle_cap_height) as nat);
    assert(keys[15].key == "$FRI_COMMIT_MERKLE_CAP_HEIGHT"@);
    lemma_fill_step(t12, keys, 15, decimal((c.fri_commit_merkle_cap_height) as nat));
    let t13 = replace_all(t12, "$FRI_COMMIT_MERKLE_CAP_HEIGHT"@, decimal((c.fri_commit_merkle_cap_height) as nat));
    lemma_decimal_is_mark_free((c.num_fri_query_round) as nat);
    assert(keys[16].key == "$NUM_FRI_QUERY_ROUND"@);
    lemma_fill_step(t13, keys, 16, decimal((c.num_fri_query_round) as nat));
    let t14 = replace_all(t13, "$NUM_FRI_QUERY_ROUND"@, decimal((c.num_fri_query_round) as nat));
    lemma_decimal_is_mark_free((c.num_fri_query_init_constants_sigmas_v) as nat);
    assert(keys[17].key == "$NUM_FRI_QUERY_INIT_CONSTANTS_SIGMAS_V"@);
    lemma_fill_step(t14, keys, 17, decimal((c.num_fri_query_init_constants_sigmas_v) as nat));
    let t15 = replace_all(t14, "$NUM_FRI_QUERY_INIT_CONSTANTS_SIGMAS_V"@, decimal((c.num_fri_query_init_constants_sigmas_v) as nat));
    lemma_decimal_is_mark_free((c.num_fri_query_init_constants_sigmas_p) as nat);
    assert(keys[18].key == "$NUM_FRI_QUERY_INIT_CONSTANTS_SIGMAS_P"@);
    lemma_fill_step(t15, keys, 18, decimal((c.num_fri_query_init_constants_sigmas_p) as nat));
    let t16 = replace_all(t15, "$NUM_FRI_QUERY_INIT_CONSTANTS_SIGMAS_P"@, decimal((c.num_fri_query_init_constants_sigmas_p) as nat));
    lemma_decimal_is_mark_free((c.num_fri_query_init_wires_v) as nat);
    assert(keys[19].key == "$NUM_FRI_QUERY_INIT_WIRES_V"@);
    lemma_fill_step(t16, keys, 19, decimal((c.num_fri_query_init_wires_v) as nat));
    let t17 = replace_all(t16, "$NUM_FRI_QUERY_INIT_WIRES_V"@, decimal((c.num_fri_query_init_wires_v) as nat));
    lemma_decimal_is_mark_free((c.num_fri_query_init_wires_p) as nat);
    assert(keys[20].key == "$NUM_FRI_QUERY_INIT_WIRES_P"@);
    lemma_fill_step(t17, keys, 20, decimal((c.num_fri_query_init_wires_p) as nat));
    let t18 = replace_all(t17, "$NUM_FRI_QUERY_INIT_WIRES_P"@, decimal((c.num_fri_query_init_wires_p) as nat));
    lemma_decimal_is_mark_free((c.num_fri_query_init_zs_partial_v) as nat);
    assert(keys[21].key == "$NUM_FRI_QUERY_INIT_ZS_PARTIAL_V"@);
    lemma_fill_step(t18, keys, 21, decimal((c.num_fri_query_init_zs_partial_v) as nat));
    let t19 = replace_all(t18, "$NUM_FRI_QUERY_INIT_ZS_PARTIAL_V"@, decimal((c.num_fri_query_init_zs_partial_v) as nat));
    lemma_decimal_is_mark_free((c.num_fri_query_init_zs_partial_p) as nat);
    assert(keys[22].key == "$NUM_FRI_QUERY_INIT_ZS_PARTIAL_P"@);
    lemma_fill_step(t19, keys, 22, decimal((c.num_fri_query_init_zs_partial_p) as nat));
    let t20 = replace_all(t19, "$NUM_FRI_QUERY_INIT_ZS_PARTIAL_P"@, decimal((c.num_fri_query_init_zs_partial_p) as nat));
    lemma_decimal_is_mark_free((c.num_fri_query_init_quotient_v) as nat);
    assert(keys[23].key == "$NUM_FRI_QUERY_INIT_QUOTIENT_V"@);
    lemma_fill_step(t20, keys, 23, decimal((c.num_fri_query_init_quotient_v) as nat));
    let t21 = replace_all(t20, "$NUM_FRI_QUERY_INIT_QUOTIENT_V"@, decimal((c.num_fri_query_init_quotient_v) as nat));
    lemma_decimal_is_mark_free((c.num_fri_query_init_quotient_p) as nat);
    assert(keys[24].key == "$NUM_FRI_QUERY_INIT_QUOTIENT_P"@);
    lemma_fill_step(t21, keys, 24, decimal((c.num_fri_query_init_quotient_p) as nat));
    let t22 = replace_all(t21, "$NUM_FRI_QUERY_INIT_QUOTIENT_P"@, decimal((c.num_fri_query_init_quotient_p) as nat));
    lemma_decimal_is_mark_free((c.num_fri_query_step0_v) as nat);
    assert(keys[25].key == "$NUM_FRI_QUERY_STEP0_V"@);
    lemma_fill_step(t22, keys, 25, decimal((c.num_fri_query_step0_v) as nat));
    let t23 = replace_all(t22, "$NUM_FRI_QUERY_STEP0_V"@, decimal((c.num_fri_query_step0_v) as nat));
    lemma_decimal_is_mark_free((c.num_fri_query_step0_p) as nat);
    assert(keys[26].key == "$NUM_FRI_QUERY_STEP0_P"@);
    lemma_fill_step(t23, keys, 26, decimal((c.num_fri_query_step0_p) as nat));
    let t24 = replace_all(t23, "$NUM_FRI_QUERY_STEP0_P"@, decimal((c.num_fri_query_step0_p) as nat));
    lemma_decimal_is_mark_free((c.num_fri_query_step1_v) as nat);
    assert(keys[27].key == "$NUM_FRI_QUERY_STEP1_V"@);
    lemma_fill_step(t24, keys, 27, decimal((c.num_fri_query_step1_v) as nat));
    let t25 = replace_all(t24, "$NUM_FRI_QUERY_STEP1_V"@, decimal((c.num_fri_query_step1_v) as nat));
    lemma_decimal_is_mark_free((c.num_fri_query_step1_p) as nat);
    assert(keys[28].key == "$NUM_FRI_QUERY_STEP1_P"@);
    lemma_fill_step(t25, keys, 28, decimal((c.num_fri_query_step1_p) as nat));
    let t26 = replace_all(t25, "$NUM_FRI_QUERY_STEP1_P"@, decimal((c.num_fri_query_step1_p) as nat));
    lemma_decimal_is_mark_free((c.num_fri_final_poly_ext_v) as nat);
    assert(keys[29].key == "$NUM_FRI_FINAL_POLY_EXT_V"@);
    lemma_fill_step(t26, keys, 29, decimal((c.num_fri_final_poly_ext_v) as nat));
    let t27 = replace_all(t26, "$NUM_FRI_FINAL_POLY_EXT_V"@, decimal((c.num_fri_final_poly_ext_v) as nat));
    assert(t27 == shape_filled(t, c));
}

/// The parameters of the circuit filled in: the marks left belong to the placeholders behind them.
proof fn lemma_circuit_claims(t: Seq<char>, common: CommonData, vo: VerifierOnlyData)
    requires
        marks_claimed(t, constants_keys(), 30),
    ensures
        marks_claimed(circuit_filled(t, common, vo), constants_keys(), 37),
{
    let keys = constants_keys();
    lemma_constants_keys_well_formed();
    let t0 = t;
    lemma_decimal_is_mark_free((common.num_challenges) as nat);
    assert(keys[30].key == "$NUM_CHALLENGES"@);
    lemma_fill_step(t0, keys, 30, decimal((common.num_challenges) as nat));
    let t1 = replace_all(t0, "$NUM_CHALLENGES"@, decimal((common.num_challenges) as nat));
    reveal_strlit("  cd["); lemma_assignment_lines_mark_free("  cd["@, vo.circuit_digest@);
    assert(keys[31].key == "  $SET_CIRCUIT_DIGEST;\n"@);
    lemma_fill_step(t1, keys, 31, assignment_lines("  cd["@, vo.circuit_digest@));
    let t2 = replace_all(t1, "  $SET_CIRCUIT_DIGEST;\n"@, assignment_lines("  cd["@, vo.circuit_digest@));
    lemma_decimal_is_mark_free((common.rate_bits) as nat);
    assert(keys[32].key == "$FRI_RATE_BITS"@);
    lemma_fill_step(t2, keys, 32, decimal((common.rate_bits) as nat));
    let t3 = replace_all(t2, "$FRI_RATE_BITS"@, decimal((common.rate_bits) as nat));
    lemma_decimal_is_mark_free((common.degree_bits) as nat);
    assert(keys[33].key == "$DEGREE_BITS"@);
    lemma_fill_step(t3, keys, 33, decimal((common.degree_bits) as nat));
    let t4 = replace_all(t3, "$DEGREE_BITS"@, decimal((common.degree_bits) as nat));
    lemma_decimal_is_mark_free((common.num_gate_constraints) as nat);
    assert(keys[34].key == "$NUM_GATE_CONSTRAINTS"@);
    lemma_fill_step(t4, keys, 34, decimal((common.num_gate_constraints) as nat));
    let t5 = replace_all(t4, "$NUM_GATE_CONSTRAINTS"@, decimal((common.num_gate_constraints) as nat));
    lemma_decimal_is_mark_free((common.quotient_degree_factor) as nat);
    assert(keys[35].key == "$QUOTIENT_DEGREE_FACTOR"@);
    lemma_fill_step(t5, keys, 35, decimal((common.quotient_degree_factor) as nat));
    let t6 = replace_all(t5, "$QUOTIENT_DEGREE_FACTOR"@, decimal((common.quotient_degree_factor) as nat));
    lemma_decimal_is_mark_free(min_fri_pow_response(common));
    assert(keys[36].key == "$MIN_FRI_POW_RESPONSE"@);
    lemma_fill_step(t6, keys, 36, decimal(min_fri_pow_response(common)));
    let t7 = replace_all(t6, "$MIN_FRI_POW_RESPONSE"@, decimal(min_fri_pow_response(common)));
    assert(t7 == circuit_filled(t, common, vo));
}

/// The constants of the field filled in: the marks left belong to the placeholders behind them.
proof fn lemma_field_claims(t: Seq<char>, common: CommonData, field: FieldParameters, log_n: nat)
    requires
        marks_claimed(t, constants_keys(), 37),
    ensures
        marks_claimed(field_filled(t, common, field, log_n), constants_keys(), 47),
{
    let keys = constants_keys();
    lemma_constants_keys_well_formed();
    let t0 = t;
    lemma_decimal_is_mark_free((field.extension_roots_of_unity@[common.degree_bits as int]@[0]) as nat);
    assert(keys[37].key == "$G_FROM_DEGREE_BITS_0"@);
    lemma_fill_step(t0, keys, 37, decimal((field.extension_roots_of_unity@[common.degree_bits as int]@[0]) as nat));
    let t1 = replace_all(t0, "$G_FROM_DEGREE_BITS_0"@, decimal((field.extension_roots_of_unity@[common.degree_bits as int]@[0]) as nat));
    lemma_decimal_is_mark_free((field.extension_roots_of_unity@[common.degree_bits as int]@[1]) as nat);
    assert(keys[38].key == "$G_FROM_DEGREE_BITS_1"@);
    lemma_fill_step(t1, keys, 38, decimal((field.extension_roots_of_unity@[common.degree_bits as int]@[1]) as nat));
    let t2 = replace_all(t1, "$G_FROM_DEGREE_BITS_1"@, decimal((field.extension_roots_of_unity@[common.degree_bits as int]@[1]) as nat));
    lemma_decimal_is_mark_free(log_n);
    assert(keys[39].key == "$LOG_SIZE_OF_LDE_DOMAIN"@);
    lemma_fill_step(t2, keys, 39, decimal(log_n));
    let t3 = replace_all(t2, "$LOG_SIZE_OF_LDE_DOMAIN"@, decimal(log_n));
    lemma_decimal_is_mark_free((field.multiplicative_group_generator) as nat);
    assert(keys[40].key == "$MULTIPLICATIVE_GROUP_GENERATOR"@);
    lemma_fill_step(t3, keys, 40, decimal((field.multiplicative_group_generator) as nat));
    let t4 = replace_all(t3, "$MULTIPLICATIVE_GROUP_GENERATOR"@, decimal((field.multiplicative_group_generator) as nat));
    lemma_decimal_is_mark_free((field.roots_of_unity@[log_n as int]) as nat);
    assert(keys[41].key == "$PRIMITIVE_ROOT_OF_UNITY_LDE"@);
    lemma_fill_step(t4, keys, 41, decimal((field.roots_of_unity@[log_n as int]) as nat));
    let t5 = replace_all(t4, "$PRIMITIVE_ROOT_OF_UNITY_LDE"@, decimal((field.roots_of_unity@[log_n as int]) as nat));
    reveal_strlit("true"); reveal_strlit("false");
    assert(keys[42].key == "$ZERO_KNOWLEDGE"@);
    lemma_fill_step(t5, keys, 42, flag_text(common.zero_knowledge));
    let t6 = replace_all(t5, "$ZERO_KNOWLEDGE"@, flag_text(common.zero_knowledge));
    lemma_decimal_is_mark_free((field.roots_of_unity@[1]) as nat);
    assert(keys[43].key == "$G_ARITY_BITS_1"@);
    lemma_fill_step(t6, keys, 43, decimal((field.roots_of_unity@[1]) as nat));
    let t7 = replace_all(t6, "$G_ARITY_BITS_1"@, decimal((field.roots_of_unity@[1]) as nat));
    lemma_decimal_is_mark_free((field.roots_of_unity@[2]) as nat);
    assert(keys[44].key == "$G_ARITY_BITS_2"@);
    lemma_fill_step(t7, keys, 44, decimal((field.roots_of_unity@[2]) as nat));
    let t8 = replace_all(t7, "$G_ARITY_BITS_2"@, decimal((field.roots_of_unity@[2]) as nat));
    lemma_decimal_is_mark_free((field.roots_of_unity@[3]) as nat);
    assert(keys[45].key == "$G_ARITY_BITS_3"@);
    lemma_fill_step(t8, keys, 45, decimal((field.roots_of_unity@[3]) as nat));
    let t9 = replace_all(t8, "$G_ARITY_BITS_3"@, decimal((field.roots_of_unity@[3]) as nat));
    lemma_decimal_is_mark_free((field.roots_of_unity@[4]) as nat);
    assert(keys[46].key == "$G_ARITY_BITS_4"@);
    lemma_fill_step(t9, keys, 46, decimal((field.roots_of_unity@[4]) as nat));
    let t10 = replace_all(t9, "$G_ARITY_BITS_4"@, decimal((field.roots_of_unity@[4]) as nat));
    assert(t10 == field_filled(t, common, field, log_n));
}

/// The selectors and the cap filled in: no mark is left that belongs to a placeholder.
proof fn lemma_cap_claims(t: Seq<char>, common: CommonData, vo: VerifierOnlyData)
    requires
        marks_claimed(t, constants_keys(), 47),
    ensures
        marks_claimed(cap_filled(t, common, vo), constants_keys(), 50),
{
    let keys = constants_keys();
    lemma_constants_keys_well_formed();
    let t0 = t;
    lemma_decimal_is_mark_free(common.selectors_info.groups@.len());
    assert(keys[47].key == "$NUM_SELECTORS"@);
    lemma_fill_step(t0, keys, 47, decimal(common.selectors_info.groups@.len()));
    let t1 = replace_all(t0, "$NUM_SELECTORS"@, decimal(common.selectors_info.groups@.len()));
    lemma_decimal_is_mark_free(pow2(common.cap_height as nat));
    assert(keys[48].key == "$SIGMA_CAP_COUNT"@);
    lemma_fill_step(t1, keys, 48, decimal(pow2(common.cap_height as nat)));
    let t2 = replace_all(t1, "$SIGMA_CAP_COUNT"@, decimal(pow2(common.cap_height as nat)));
    lemma_cap_lines_mark_free(vo.constants_sigmas_cap@.take(pow2(common.cap_height as nat) as int));
    assert(keys[49].key == "  $SET_SIGMA_CAP;\n"@);
    lemma_fill_step(t2, keys, 49, cap_lines(vo.constants_sigmas_cap@.take(pow2(common.cap_height as nat) as int)));
    let t3 = replace_all(t2, "  $SET_SIGMA_CAP;\n"@, cap_lines(vo.constants_sigmas_cap@.take(pow2(common.cap_height as nat) as int)));
    assert(t3 == cap_filled(t, common, vo));
}

/// No placeholder is left in the file of constants: where every mark of
/// the template belongs to an occurrence of one of the placeholders of the
/// file of constants, the file holds no mark.
pub proof fn lemma_constants_hold_no_mark(
    template: Seq<char>,
    conf: VerifierConfig,
    common: CommonData,
    vo: VerifierOnlyData,
    field: FieldParameters,
    log_n: nat,
)
    requires
        marks_claimed(template, constants_keys(), 0),
    ensures
        mark_free(constants_text(template, conf, common, vo, field, log_n)),
{
    lemma_constants_keys_well_formed();
    lemma_tables_claims(template, common);
    let t1 = tables_filled(template, common);
    lemma_shape_claims(t1, conf);
    let t2 = shape_filled(t1, conf);
    lemma_circuit_claims(t2, common, vo);
    let t3 = circuit_filled(t2, common, vo);
    lemma_field_claims(t3, common, field, log_n);
    let t4 = field_filled(t3, common, field, log_n);
    lemma_cap_claims(t4, common, vo);
    lemma_no_claim_no_mark(cap_filled(t4, common, vo), constants_keys());
}

/// No placeholder is left in the file of gates: where every mark of the
/// template with the code of the gates behind it belongs to an occurrence
/// of one of the placeholders of the file of gates, and the statements
/// that evaluate the gates hold no mark, the file holds no mark.
pub proof fn lemma_gates_hold_no_mark(
    template: Seq<char>,
    conf: VerifierConfig,
    common: CommonData,
    field: FieldParameters,
    emitted: Emission,
)
    requires
        marks_claimed(template + emitted.code, gates_keys(), 0),
        mark_free(emitted.evaluation),
        mark_free(emitted.last_component),
    ensures
        mark_free(gates_text(template, conf, common, field, emitted)),
{
    let keys = gates_keys();
    lemma_gates_keys_are_well_formed();
    reveal_strlit("  out <== ");
    reveal_strlit(".out;");
    let evaluation = emitted.evaluation + "  out <== "@ + emitted.last_component + ".out;"@;
    assert(mark_free(evaluation));
    let t0 = template + emitted.code;
    assert(keys[0].key == "  $EVALUATE_GATE_CONSTRAINTS;"@);
    lemma_fill_step(t0, keys, 0, evaluation);
    let t1 = replace_all(t0, "  $EVALUATE_GATE_CONSTRAINTS;"@, evaluation);
    lemma_decimal_is_mark_free(common.num_gate_constraints as nat);
    assert(keys[1].key == "$NUM_GATE_CONSTRAINTS"@);
    lemma_fill_step(t1, keys, 1, decimal(common.num_gate_constraints as nat));
    let t2 = replace_all(t1, "$NUM_GATE_CONSTRAINTS"@, decimal(common.num_gate_constraints as nat));
    lemma_decimal_is_mark_free(common.selectors_info.groups@.len());
    assert(keys[2].key == "$NUM_SELECTORS"@);
    lemma_fill_step(t2, keys, 2, decimal(common.selectors_info.groups@.len()));
    let t3 = replace_all(t2, "$NUM_SELECTORS"@, decimal(common.selectors_info.groups@.len()));
    lemma_decimal_is_mark_free(conf.num_openings_constants as nat);
    assert(keys[3].key == "$NUM_OPENINGS_CONSTANTS"@);
    lemma_fill_step(t3, keys, 3, decimal(conf.num_openings_constants as nat));
    let t4 = replace_all(t3, "$NUM_OPENINGS_CONSTANTS"@, decimal(conf.num_openings_constants as nat));
    lemma_decimal_is_mark_free(conf.num_openings_wires as nat);
    assert(keys[4].key == "$NUM_OPENINGS_WIRES"@);
    lemma_fill_step(t4, keys, 4, decimal(conf.num_openings_wires as nat));
    let t5 = replace_all(t4, "$NUM_OPENINGS_WIRES"@, decimal(conf.num_openings_wires as nat));
    lemma_decimal_is_mark_free(field.extension_w as nat);
    assert(keys[5].key == "$F_EXT_W"@);
    lemma_fill_step(t5, keys, 5, decimal(field.extension_w as nat));
    let t6 = replace_all(t5, "$F_EXT_W"@, decimal(field.extension_w as nat));
    assert(t6 == gates_text(template, conf, common, field, emitted));
    lemma_no_claim_no_mark(t6, keys);
}

/// The placeholders of the code of a gate: the filter, then those of the
/// file of gates.
pub open spec fn code_keys() -> Seq<Placeholder> {
    seq![Placeholder { key: "$SET_FILTER;"@, mark: 0 }] + gates_keys()
}

/// Every placeholder of the code of a gate is well formed.
pub proof fn lemma_code_keys_well_formed()
    ensures
        code_keys().len() == 7,
        all_well_formed(code_keys()),
{
    lemma_gates_keys_are_well_formed();
    reveal_strlit("$SET_FILTER;");
    let keys = code_keys();
    assert(well_formed(keys[0]));
    assert forall|j: int| 0 <= j < keys.len() implies well_formed(#[trigger] keys[j]) by {
        if j > 0 {
            assert(keys[j] == gates_keys()[j - 1]);
        }
    }
}

/// The factors of a filter hold no mark.
pub proof fn lemma_filter_terms_mark_free(chain: Seq<nat>, selector_index: nat)
    ensures
        mark_free(filter_terms(chain, selector_index)),
    decreases chain.len(),
{
    if chain.len() > 0 {
        lemma_filter_terms_mark_free(chain.drop_last(), selector_index);
        reveal_strlit("GlExtMul()(GlExtSub()(GlExt(");
        reveal_strlit(", 0)(), constants[");
        reveal_strlit("]), ");
        lemma_decimal_is_mark_free(chain.last());
        lemma_decimal_is_mark_free(selector_index);
        assert(mark_free(filter_term(chain.last(), selector_index)));
    }
}

/// The statement that assigns a filter holds no mark.
pub proof fn lemma_filter_text_mark_free(chain: Seq<nat>, selector_index: nat)
    ensures
        mark_free(filter_text(chain, selector_index)),
{
    lemma_filter_terms_mark_free(chain, selector_index);
    reveal_strlit("filter <== ");
    reveal_strlit("GlExt(1, 0)()");
    reveal_strlit(";");
}

/// The marks of two texts keep their placeholders where the one text is
/// put behind the other.
pub proof fn lemma_concat_claims(a: Seq<char>, b: Seq<char>, keys: Seq<Placeholder>, k: int)
    requires
        marks_claimed(a, keys, k),
        marks_claimed(b, keys, k),
    ensures
        marks_claimed(a + b, keys, k),
{
    let s = a + b;
    assert forall|i: int| 0 <= i < s.len() && s[i] == '$' implies #[trigger] claimed_from(
        s,
        i,
        keys,
        k,
    ) by {
        if i < a.len() {
            assert(a[i] == '$');
            assert(claimed_from(a, i, keys, k));
            let j = choose|j: int| k <= j < keys.len() && #[trigger] claimed_by(a, i, keys[j]);
            lemma_occurs_before(a, b, i - keys[j].mark, keys[j].key);
            assert(claimed_by(s, i, keys[j]));
        } else {
            let q = i - a.len();
            assert(b[q] == '$');
            assert(claimed_from(b, q, keys, k));
            let j = choose|j: int| k <= j < keys.len() && #[trigger] claimed_by(b, q, keys[j]);
            lemma_occurs_behind(a, b, q - keys[j].mark, keys[j].key);
            assert(claimed_by(s, i, keys[j]));
        }
    }
}

/// Whether the gates of a circuit bring no mark of their own: the
/// identifier of every gate that does something holds no mark, every mark
/// of its code belongs to the filter or to a placeholder of the file of
/// gates, and the name of the template that its code declares holds no
/// mark.
pub open spec fn gates_bring_no_mark(common: CommonData) -> bool {
    forall|row: int|
        0 <= row < common.gates@.len() && !is_noop((#[trigger] common.gates@[row]).id@) ==> {
            &&& mark_free(common.gates@[row].id@)
            &&& marks_claimed(common.gates@[row].circom_code@, code_keys(), 0)
            &&& (template_name_of(gate_code(common, row)) matches Some(name) ==> mark_free(name))
        }
}

/// The code of a gate with its filter set holds only marks of the
/// placeholders of the file of gates.
proof fn lemma_gate_code_claims(common: CommonData, row: int)
    requires
        marks_claimed(common.gates@[row].circom_code@, code_keys(), 0),
    ensures
        marks_claimed(gate_code(common, row), gates_keys(), 0),
{
    let selectors = common.selectors_info;
    let s = selectors.selector_indices@[row];
    let group = selectors.groups@[s as int];
    let chain = filter_chain_of(
        group.0 as nat,
        group.1 as nat,
        row as nat,
        selectors.groups@.len() > 1,
    );
    let value = filter_text(chain, s as nat);
    lemma_filter_text_mark_free(chain, s as nat);
    lemma_code_keys_well_formed();
    let keys = code_keys();
    assert(keys[0].key == "$SET_FILTER;"@);
    lemma_fill_step(common.gates@[row].circom_code@, keys, 0, value);
    let out = gate_code(common, row);
    assert forall|i: int| 0 <= i < out.len() && out[i] == '$' implies #[trigger] claimed_from(
        out,
        i,
        gates_keys(),
        0,
    ) by {
        assert(claimed_from(out, i, keys, 1));
        let j = choose|j: int| 1 <= j < keys.len() && #[trigger] claimed_by(out, i, keys[j]);
        assert(keys[j] == gates_keys()[j - 1]);
        assert(claimed_by(out, i, gates_keys()[j - 1]));
    }
}

/// The statements that evaluate one gate hold no mark where its
/// identifier, its name and the component before it hold none.
proof fn lemma_component_block_mark_free(id: Seq<char>, name: Seq<char>, last: Seq<char>)
    requires
        mark_free(id),
        mark_free(name),
        mark_free(last),
    ensures
        mark_free(component_block(id, name, last)),
        mark_free("c_"@ + name),
{
    reveal_strlit("c_");
    reveal_strlit("  // ");
    reveal_strlit("\n");
    reveal_strlit("  component ");
    reveal_strlit(" = ");
    reveal_strlit("();\n");
    reveal_strlit("  ");
    reveal_strlit(".constants <== constants;\n");
    reveal_strlit(".wires <== wires;\n");
    reveal_strlit(".public_input_hash <== public_input_hash;\n");
    reveal_strlit(".constraints <== constraints;\n");
    reveal_strlit(".constraints <== ");
    reveal_strlit(".out;\n");
}

/// What the gates add brings no mark of its own, where the gates bring
/// none.
pub proof fn lemma_emission_brings_no_mark(common: CommonData, n: nat)
    requires
        n <= common.gates@.len(),
        gates_bring_no_mark(common),
        emit_rows(common, n) is Ok,
    ensures
        marks_claimed(emit_rows(common, n)->Ok_0.code, gates_keys(), 0),
        mark_free(emit_rows(common, n)->Ok_0.evaluation),
        mark_free(emit_rows(common, n)->Ok_0.last_component),
    decreases n,
{
    if n > 0 {
        let row = (n - 1) as int;
        lemma_emission_brings_no_mark(common, (n - 1) as nat);
        let acc = emit_rows(common, (n - 1) as nat)->Ok_0;
        let gate = common.gates@[row];
        if !is_noop(gate.id@) {
            let code = gate_code(common, row);
            let name = template_name_of(code)->Some_0;
            lemma_gate_code_claims(common, row);
            lemma_component_block_mark_free(gate.id@, name, acc.last_component);
            reveal_strlit("\n");
            assert(marks_claimed("\n"@, gates_keys(), 0));
            lemma_concat_claims(acc.code, code, gates_keys(), 0);
            lemma_concat_claims(acc.code + code, "\n"@, gates_keys(), 0);
        }
    }
}

/// No placeholder is left: where every mark of the two templates belongs
/// to an occurrence of one of their placeholders and the gates bring no
/// mark of their own, the two generated files hold no mark.
pub proof fn lemma_no_placeholder_is_left(
    conf: VerifierConfig,
    common: CommonData,
    vo: VerifierOnlyData,
    field: FieldParameters,
    constants_template: Seq<char>,
    gates_template: Seq<char>,
)
    requires
        marks_claimed(constants_template, constants_keys(), 0),
        marks_claimed(gates_template, gates_keys(), 0),
        gates_bring_no_mark(common),
        generated(conf, common, vo, field, constants_template, gates_template) is Ok,
    ensures
        mark_free(generated(conf, common, vo, field, constants_template, gates_template)->Ok_0.0),
        mark_free(generated(conf, common, vo, field, constants_template, gates_template)->Ok_0.1),
{
    let log_n = exact_log2(common.lde_size as nat)->Some_0;
    let emitted = emit_rows(common, common.gates@.len())->Ok_0;
    lemma_constants_hold_no_mark(constants_template, conf, common, vo, field, log_n);
    lemma_emission_brings_no_mark(common, common.gates@.len());
    lemma_concat_claims(gates_template, emitted.code, gates_keys(), 0);
    lemma_gates_hold_no_mark(gates_template, conf, common, field, emitted);
}

} // verus!
