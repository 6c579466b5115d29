//! The generator of the verifier for the circuit backend: it fills the
//! template of constants and the template of gates for one circuit.

use vstd::prelude::*;
use vstd::arithmetic::power2::pow2;
use crate::circuit::{CommonData, FieldParameters, VerifierOnlyData};
use crate::field::{GOLDILOCKS_ORDER_BITS, TWO_ADICITY};
use crate::gates::{
    filter_chain, filter_chain_of, filter_text, gate_is_noop, gate_kind, gate_kind_of,
    is_noop, render_filter,
};
use crate::numbers::{exact_log2, log2_exact, pow2_checked};
use crate::shape::VerifierConfig;
use crate::template::{
    as_words, assignment_lines, cap_lines, fill, fill_count, fill_flag, fill_number, flag_text,
    render_assignments, render_cap, with_number, words_of,
};
use crate::text::{chars_of, push_all, push_str, replace_all, string_of};

verus! {

/// Why no verifier could be generated.
#[derive(Clone, Copy, Debug, PartialEq, Eq, Structural)]
pub enum GeneratorError {
    /// The extension field has no root of unity of order `2^degree_bits`.
    ExtensionRootMissing,
    /// The size of the low-degree extension is no power of two.
    NotPowerOfTwo,
    /// The field has no root of unity of the order of the low-degree
    /// extension.
    RootMissing,
    /// The row `row` has no selector, or its selector has no group.
    SelectorMissing { row: usize },
    /// The row `row` holds a gate of a kind that is not implemented.
    GateNotImplemented { row: usize },
    /// The code of row `row` does not name its template.
    MalformedGateCode { row: usize },
    /// The number of digests in the cap does not fit the machine word.
    SigmaCapCount,
    /// The cap holds fewer digests than its height asks for.
    SigmaCapTooShort,
}

/// The template with the tables of the circuit and their sizes filled in.
pub open spec fn tables_filled(t: Seq<char>, common: CommonData) -> Seq<char> {
    let t = replace_all(t, "  $SET_K_IS;\n"@, assignment_lines("  k_is["@, common.k_is@));
    let t = replace_all(
        t,
        "  $SET_REDUCTION_ARITY_BITS;\n"@,
        assignment_lines("  bits["@, as_words(common.reduction_arity_bits@)),
    );
    with_number(t, "$NUM_REDUCTION_ARITY_BITS"@, common.reduction_arity_bits@.len())
}

/// The template with the counts of the shape of a proof filled in.
pub open spec fn shape_filled(t: Seq<char>, c: VerifierConfig) -> Seq<char> {
    let t = with_number(t, "$NUM_PUBLIC_INPUTS"@, c.num_public_inputs as nat);
    let t = with_number(t, "$NUM_WIRES_CAP"@, c.num_wires_cap as nat);
    let t = with_number(
        t,
        "$NUM_PLONK_ZS_PARTIAL_PRODUCTS_CAP"@,
        c.num_plonk_zs_partial_products_cap as nat,
    );
    let t = with_number(t, "$NUM_QUOTIENT_POLYS_CAP"@, c.num_quotient_polys_cap as nat);
    let t = with_number(t, "$NUM_OPENINGS_CONSTANTS"@, c.num_openings_constants as nat);
    let t = with_number(t, "$NUM_OPENINGS_PLONK_SIGMAS"@, c.num_openings_plonk_sigmas as nat);
    let t = with_number(t, "$NUM_OPENINGS_WIRES"@, c.num_openings_wires as nat);
    let t = with_number(t, "$NUM_OPENINGS_PLONK_ZS0"@, c.num_openings_plonk_zs as nat);
    let t = with_number(t, "$NUM_OPENINGS_PLONK_ZS_NEXT"@, c.num_openings_plonk_zs_next as nat);
    let t = with_number(
        t,
        "$NUM_OPENINGS_PARTIAL_PRODUCTS"@,
        c.num_openings_partial_products as nat,
    );
    let t = with_number(t, "$NUM_OPENINGS_QUOTIENT_POLYS"@, c.num_openings_quotient_polys as nat);
    let t = with_number(t, "$NUM_FRI_COMMIT_ROUND"@, c.num_fri_commit_round as nat);
    let t = with_number(
        t,
        "$FRI_COMMIT_MERKLE_CAP_HEIGHT"@,
        c.fri_commit_merkle_cap_height as nat,
    );
    let t = with_number(t, "$NUM_FRI_QUERY_ROUND"@, c.num_fri_query_round as nat);
    let t = with_number(
        t,
        "$NUM_FRI_QUERY_INIT_CONSTANTS_SIGMAS_V"@,
        c.num_fri_query_init_constants_sigmas_v as nat,
    );
    let t = with_number(
        t,
        "$NUM_FRI_QUERY_INIT_CONSTANTS_SIGMAS_P"@,
        c.num_fri_query_init_constants_sigmas_p as nat,
    );
    let t = with_number(t, "$NUM_FRI_QUERY_INIT_WIRES_V"@, c.num_fri_query_init_wires_v as nat);
    let t = with_number(t, "$NUM_FRI_QUERY_INIT_WIRES_P"@, c.num_fri_query_init_wires_p as nat);
    let t = with_number(
        t,
        "$NUM_FRI_QUERY_INIT_ZS_PARTIAL_V"@,
        c.num_fri_query_init_zs_partial_v as nat,
    );
    let t = with_number(
        t,
        "$NUM_FRI_QUERY_INIT_ZS_PARTIAL_P"@,
        c.num_fri_query_init_zs_partial_p as nat,
    );
    let t = with_number(
        t,
        "$NUM_FRI_QUERY_INIT_QUOTIENT_V"@,
        c.num_fri_query_init_quotient_v as nat,
    );
    let t = with_number(
        t,
        "$NUM_FRI_QUERY_INIT_QUOTIENT_P"@,
        c.num_fri_query_init_quotient_p as nat,
    );
    let t = with_number(t, "$NUM_FRI_QUERY_STEP0_V"@, c.num_fri_query_step0_v as nat);
    let t = with_number(t, "$NUM_FRI_QUERY_STEP0_P"@, c.num_fri_query_step0_p as nat);
    let t = with_number(t, "$NUM_FRI_QUERY_STEP1_V"@, c.num_fri_query_step1_v as nat);
    let t = with_number(t, "$NUM_FRI_QUERY_STEP1_P"@, c.num_fri_query_step1_p as nat);
    with_number(t, "$NUM_FRI_FINAL_POLY_EXT_V"@, c.num_fri_final_poly_ext_v as nat)
}

/// The template with the parameters of the circuit filled in.
pub open spec fn circuit_filled(t: Seq<char>, common: CommonData, vo: VerifierOnlyData) -> Seq<
    char,
> {
    let t = with_number(t, "$NUM_CHALLENGES"@, common.num_challenges as nat);
    let t = replace_all(
        t,
        "  $SET_CIRCUIT_DIGEST;\n"@,
        assignment_lines("  cd["@, vo.circuit_digest@),
    );
    let t = with_number(t, "$FRI_RATE_BITS"@, common.rate_bits as nat);
    let t = with_number(t, "$DEGREE_BITS"@, common.degree_bits as nat);
    let t = with_number(t, "$NUM_GATE_CONSTRAINTS"@, common.num_gate_constraints as nat);
    let t = with_number(t, "$QUOTIENT_DEGREE_FACTOR"@, common.quotient_degree_factor as nat);
    with_number(t, "$MIN_FRI_POW_RESPONSE"@, min_fri_pow_response(common))
}

/// The least proof-of-work response that the verifier accepts: the bits
/// of proof of work and the bits that the order of the field leaves free
/// in a word.
pub open spec fn min_fri_pow_response(common: CommonData) -> nat {
    (common.proof_of_work_bits + (64 - GOLDILOCKS_ORDER_BITS)) as nat
}

/// The template with the constants of the field filled in. `log_n` is the
/// logarithm of the size of the low-degree extension.
pub open spec fn field_filled(
    t: Seq<char>,
    common: CommonData,
    field: FieldParameters,
    log_n: nat,
) -> Seq<char> {
    let g = field.extension_roots_of_unity@[common.degree_bits as int];
    let t = with_number(t, "$G_FROM_DEGREE_BITS_0"@, g@[0] as nat);
    let t = with_number(t, "$G_FROM_DEGREE_BITS_1"@, g@[1] as nat);
    let t = with_number(t, "$LOG_SIZE_OF_LDE_DOMAIN"@, log_n);
    let t = with_number(
        t,
        "$MULTIPLICATIVE_GROUP_GENERATOR"@,
        field.multiplicative_group_generator as nat,
    );
    let t = with_number(
        t,
        "$PRIMITIVE_ROOT_OF_UNITY_LDE"@,
        field.roots_of_unity@[log_n as int] as nat,
    );
    let t = replace_all(t, "$ZERO_KNOWLEDGE"@, flag_text(common.zero_knowledge));
    let t = with_number(t, "$G_ARITY_BITS_1"@, field.roots_of_unity@[1] as nat);
    let t = with_number(t, "$G_ARITY_BITS_2"@, field.roots_of_unity@[2] as nat);
    let t = with_number(t, "$G_ARITY_BITS_3"@, field.roots_of_unity@[3] as nat);
    with_number(t, "$G_ARITY_BITS_4"@, field.roots_of_unity@[4] as nat)
}

/// The template with the number of selectors and the cap of the constants
/// and permutation polynomials filled in.
pub open spec fn cap_filled(t: Seq<char>, common: CommonData, vo: VerifierOnlyData) -> Seq<char> {
    let count = pow2(common.cap_height as nat);
    let t = with_number(t, "$NUM_SELECTORS"@, common.selectors_info.groups@.len());
    let t = with_number(t, "$SIGMA_CAP_COUNT"@, count);
    replace_all(t, "  $SET_SIGMA_CAP;\n"@, cap_lines(vo.constants_sigmas_cap@.take(count as int)))
}

/// The file of constants: the template with every placeholder filled in,
/// one after the other.
pub open spec fn constants_text(
    template: Seq<char>,
    conf: VerifierConfig,
    common: CommonData,
    vo: VerifierOnlyData,
    field: FieldParameters,
    log_n: nat,
) -> Seq<char> {
    cap_filled(
        field_filled(
            circuit_filled(shape_filled(tables_filled(template, common), conf), common, vo),
            common,
            field,
            log_n,
        ),
        common,
        vo,
    )
}

fn fill_tables(t: &Vec<char>, common: &CommonData) -> (out: Vec<char>)
    ensures
        out@ == tables_filled(t@, *common),
{
    let k_is = render_assignments("  k_is[", common.k_is.as_slice());
    let t = fill(t, "  $SET_K_IS;\n", &k_is);
    let words = words_of(&common.reduction_arity_bits);
    let bits = render_assignments("  bits[", words.as_slice());
    let t = fill(&t, "  $SET_REDUCTION_ARITY_BITS;\n", &bits);
    fill_count(&t, "$NUM_REDUCTION_ARITY_BITS", common.reduction_arity_bits.len())
}

fn fill_shape(t: &Vec<char>, c: &VerifierConfig) -> (out: Vec<char>)
    ensures
        out@ == shape_filled(t@, *c),
{
    let t = fill_count(t, "$NUM_PUBLIC_INPUTS", c.num_public_inputs);
    let t = fill_count(&t, "$NUM_WIRES_CAP", c.num_wires_cap);
    let t = fill_count(
        &t,
        "$NUM_PLONK_ZS_PARTIAL_PRODUCTS_CAP",
        c.num_plonk_zs_partial_products_cap,
    );
    let t = fill_count(&t, "$NUM_QUOTIENT_POLYS_CAP", c.num_quotient_polys_cap);
    let t = fill_count(&t, "$NUM_OPENINGS_CONSTANTS", c.num_openings_constants);
    let t = fill_count(&t, "$NUM_OPENINGS_PLONK_SIGMAS", c.num_openings_plonk_sigmas);
    let t = fill_count(&t, "$NUM_OPENINGS_WIRES", c.num_openings_wires);
    let t = fill_count(&t, "$NUM_OPENINGS_PLONK_ZS0", c.num_openings_plonk_zs);
    let t = fill_count(&t, "$NUM_OPENINGS_PLONK_ZS_NEXT", c.num_openings_plonk_zs_next);
    let t = fill_count(&t, "$NUM_OPENINGS_PARTIAL_PRODUCTS", c.num_openings_partial_products);
    let t = fill_count(&t, "$NUM_OPENINGS_QUOTIENT_POLYS", c.num_openings_quotient_polys);
    let t = fill_count(&t, "$NUM_FRI_COMMIT_ROUND", c.num_fri_commit_round);
    let t = fill_count(&t, "$FRI_COMMIT_MERKLE_CAP_HEIGHT", c.fri_commit_merkle_cap_height);
    let t = fill_count(&t, "$NUM_FRI_QUERY_ROUND", c.num_fri_query_round);
    let t = fill_count(
        &t,
        "$NUM_FRI_QUERY_INIT_CONSTANTS_SIGMAS_V",
        c.num_fri_query_init_constants_sigmas_v,
    );
    let t = fill_count(
        &t,
        "$NUM_FRI_QUERY_INIT_CONSTANTS_SIGMAS_P",
        c.num_fri_query_init_constants_sigmas_p,
    );
    let t = fill_count(&t, "$NUM_FRI_QUERY_INIT_WIRES_V", c.num_fri_query_init_wires_v);
    let t = fill_count(&t, "$NUM_FRI_QUERY_INIT_WIRES_P", c.num_fri_query_init_wires_p);
    let t = fill_count(
        &t,
        "$NUM_FRI_QUERY_INIT_ZS_PARTIAL_V",
        c.num_fri_query_init_zs_partial_v,
    );
    let t = fill_count(
        &t,
        "$NUM_FRI_QUERY_INIT_ZS_PARTIAL_P",
        c.num_fri_query_init_zs_partial_p,
    );
    let t = fill_count(&t, "$NUM_FRI_QUERY_INIT_QUOTIENT_V", c.num_fri_query_init_quotient_v);
    let t = fill_count(&t, "$NUM_FRI_QUERY_INIT_QUOTIENT_P", c.num_fri_query_init_quotient_p);
    let t = fill_count(&t, "$NUM_FRI_QUERY_STEP0_V", c.num_fri_query_step0_v);
    let t = fill_count(&t, "$NUM_FRI_QUERY_STEP0_P", c.num_fri_query_step0_p);
    let t = fill_count(&t, "$NUM_FRI_QUERY_STEP1_V", c.num_fri_query_step1_v);
    let t = fill_count(&t, "$NUM_FRI_QUERY_STEP1_P", c.num_fri_query_step1_p);
    fill_count(&t, "$NUM_FRI_FINAL_POLY_EXT_V", c.num_fri_final_poly_ext_v)
}

fn fill_circuit(t: &Vec<char>, common: &CommonData, vo: &VerifierOnlyData) -> (out: Vec<char>)
    ensures
        out@ == circuit_filled(t@, *common, *vo),
{
    let t = fill_count(t, "$NUM_CHALLENGES", common.num_challenges);
    let digest = render_assignments("  cd[", vo.circuit_digest.as_slice());
    let t = fill(&t, "  $SET_CIRCUIT_DIGEST;\n", &digest);
    let t = fill_count(&t, "$FRI_RATE_BITS", common.rate_bits);
    let t = fill_count(&t, "$DEGREE_BITS", common.degree_bits);
    let t = fill_count(&t, "$NUM_GATE_CONSTRAINTS", common.num_gate_constraints);
    let t = fill_count(&t, "$QUOTIENT_DEGREE_FACTOR", common.quotient_degree_factor);
    let response: u32 = common.proof_of_work_bits + (64 - GOLDILOCKS_ORDER_BITS);
    fill_number(&t, "$MIN_FRI_POW_RESPONSE", response as u64)
}

fn fill_field(t: &Vec<char>, common: &CommonData, field: &FieldParameters, log_n: usize) -> (out:
    Vec<char>)
    requires
        common.degree_bits <= TWO_ADICITY + 1,
        log_n <= TWO_ADICITY,
    ensures
        out@ == field_filled(t@, *common, *field, log_n as nat),
{
    let g = &field.extension_roots_of_unity[common.degree_bits];
    let t = fill_number(t, "$G_FROM_DEGREE_BITS_0", g[0]);
    let t = fill_number(&t, "$G_FROM_DEGREE_BITS_1", g[1]);
    let t = fill_count(&t, "$LOG_SIZE_OF_LDE_DOMAIN", log_n);
    let t = fill_number(
        &t,
        "$MULTIPLICATIVE_GROUP_GENERATOR",
        field.multiplicative_group_generator,
    );
    let t = fill_number(&t, "$PRIMITIVE_ROOT_OF_UNITY_LDE", field.roots_of_unity[log_n]);
    let t = fill_flag(&t, "$ZERO_KNOWLEDGE", common.zero_knowledge);
    let t = fill_number(&t, "$G_ARITY_BITS_1", field.roots_of_unity[1]);
    let t = fill_number(&t, "$G_ARITY_BITS_2", field.roots_of_unity[2]);
    let t = fill_number(&t, "$G_ARITY_BITS_3", field.roots_of_unity[3]);
    fill_number(&t, "$G_ARITY_BITS_4", field.roots_of_unity[4])
}

fn fill_cap(t: &Vec<char>, common: &CommonData, vo: &VerifierOnlyData, count: usize) -> (out: Vec<
    char,
>)
    requires
        count == pow2(common.cap_height as nat),
        count <= vo.constants_sigmas_cap@.len(),
    ensures
        out@ == cap_filled(t@, *common, *vo),
{
    let t = fill_count(t, "$NUM_SELECTORS", common.selectors_info.groups.len());
    let t = fill_count(&t, "$SIGMA_CAP_COUNT", count);
    let lines = render_cap(&vo.constants_sigmas_cap, count);
    fill(&t, "  $SET_SIGMA_CAP;\n", &lines)
}

/// What the gates seen so far have added: their code, the statements that
/// evaluate them, and the name of the component of the last of them.
pub struct Emission {
    pub code: Seq<char>,
    pub evaluation: Seq<char>,
    pub last_component: Seq<char>,
}

/// Number of characters of `s` before its first space, or the length of
/// `s` where it holds no space.
pub open spec fn first_space(s: Seq<char>) -> int
    decreases s.len(),
{
    if s.len() == 0 {
        0
    } else if s[0] == ' ' {
        0
    } else {
        1 + first_space(s.skip(1))
    }
}

/// The name of the template that the code of a gate declares: the second
/// of the words that single spaces part, without its last two characters.
pub open spec fn template_name_of(code: Seq<char>) -> Option<Seq<char>> {
    let k = first_space(code);
    if k >= code.len() {
        None
    } else {
        let rest = code.skip(k + 1);
        let word = rest.take(first_space(rest));
        if word.len() < 2 {
            None
        } else {
            Some(word.take(word.len() - 2))
        }
    }
}

/// The statements that evaluate one gate: a comment with its identifier,
/// its component, the signals of the component, and the constraints that
/// the component starts from, which are those that the component before
/// it ends with, or the given ones for the first component.
pub open spec fn component_block(id: Seq<char>, name: Seq<char>, last: Seq<char>) -> Seq<char> {
    let component = "c_"@ + name;
    let head = "  // "@ + id + "\n"@ + "  component "@ + component + " = "@ + name + "();\n"@
        + "  "@ + component + ".constants <== constants;\n"@ + "  "@ + component
        + ".wires <== wires;\n"@ + "  "@ + component
        + ".public_input_hash <== public_input_hash;\n"@;
    if last.len() == 0 {
        head + "  "@ + component + ".constraints <== constraints;\n"@
    } else {
        head + "  "@ + component + ".constraints <== "@ + last + ".out;\n"@
    }
}

/// The code of row `row` with its filter set.
pub open spec fn gate_code(common: CommonData, row: int) -> Seq<char> {
    let selectors = common.selectors_info;
    let s = selectors.selector_indices@[row];
    let group = selectors.groups@[s as int];
    let chain = filter_chain_of(
        group.0 as nat,
        group.1 as nat,
        row as nat,
        selectors.groups@.len() > 1,
    );
    replace_all(common.gates@[row].circom_code@, "$SET_FILTER;"@, filter_text(chain, s as nat))
}

/// What row `row` adds to what the gates before it have added. A
/// gate that does nothing adds nothing.
pub open spec fn emit_row(acc: Emission, common: CommonData, row: int) -> Result<
    Emission,
    GeneratorError,
> {
    let gate = common.gates@[row];
    let selectors = common.selectors_info;
    if is_noop(gate.id@) {
        Ok(acc)
    } else if row >= selectors.selector_indices@.len() || selectors.selector_indices@[row]
        >= selectors.groups@.len() {
        Err(GeneratorError::SelectorMissing { row: row as usize })
    } else if gate_kind_of(gate.id@) is None {
        Err(GeneratorError::GateNotImplemented { row: row as usize })
    } else {
        let code = gate_code(common, row);
        match template_name_of(code) {
            None => Err(GeneratorError::MalformedGateCode { row: row as usize }),
            Some(name) => Ok(
                Emission {
                    code: acc.code + code + "\n"@,
                    evaluation: acc.evaluation + "\n"@ + component_block(
                        gate.id@,
                        name,
                        acc.last_component,
                    ),
                    last_component: "c_"@ + name,
                },
            ),
        }
    }
}

/// What the first `n` gates add, row by row, or the error of the first
/// gate that fails.
pub open spec fn emit_rows(common: CommonData, n: nat) -> Result<Emission, GeneratorError>
    decreases n,
{
    if n == 0 {
        Ok(Emission { code: Seq::empty(), evaluation: Seq::empty(), last_component: Seq::empty() })
    } else {
        match emit_rows(common, (n - 1) as nat) {
            Err(e) => Err(e),
            Ok(acc) => emit_row(acc, common, n - 1),
        }
    }
}

/// The file of gates: the template with the code of the gates behind it,
/// the statements that evaluate the gates in place of their placeholder,
/// and the remaining placeholders filled in.
pub open spec fn gates_text(
    template: Seq<char>,
    conf: VerifierConfig,
    common: CommonData,
    field: FieldParameters,
    emitted: Emission,
) -> Seq<char> {
    let evaluation = emitted.evaluation + "  out <== "@ + emitted.last_component + ".out;"@;
    let t = template + emitted.code;
    let t = replace_all(t, "  $EVALUATE_GATE_CONSTRAINTS;"@, evaluation);
    let t = with_number(t, "$NUM_GATE_CONSTRAINTS"@, common.num_gate_constraints as nat);
    let t = with_number(t, "$NUM_SELECTORS"@, common.selectors_info.groups@.len());
    let t = with_number(t, "$NUM_OPENINGS_CONSTANTS"@, conf.num_openings_constants as nat);
    let t = with_number(t, "$NUM_OPENINGS_WIRES"@, conf.num_openings_wires as nat);
    with_number(t, "$F_EXT_W"@, field.extension_w as nat)
}

/// The two files of the verifier, or why they cannot be generated. The
/// checks are made in this order: the roots of unity, the gates row by
/// row, the cap.
pub open spec fn generated(
    conf: VerifierConfig,
    common: CommonData,
    vo: VerifierOnlyData,
    field: FieldParameters,
    constants_template: Seq<char>,
    gates_template: Seq<char>,
) -> Result<(Seq<char>, Seq<char>), GeneratorError> {
    if common.degree_bits > TWO_ADICITY + 1 {
        Err(GeneratorError::ExtensionRootMissing)
    } else {
        match exact_log2(common.lde_size as nat) {
            None => Err(GeneratorError::NotPowerOfTwo),
            Some(log_n) => if log_n > TWO_ADICITY {
                Err(GeneratorError::RootMissing)
            } else {
                match emit_rows(common, common.gates@.len()) {
                    Err(e) => Err(e),
                    Ok(emitted) => if pow2(common.cap_height as nat) > usize::MAX {
                        Err(GeneratorError::SigmaCapCount)
                    } else if vo.constants_sigmas_cap@.len() < pow2(common.cap_height as nat) {
                        Err(GeneratorError::SigmaCapTooShort)
                    } else {
                        Ok(
                            (
                                constants_text(constants_template, conf, common, vo, field, log_n),
                                gates_text(gates_template, conf, common, field, emitted),
                            ),
                        )
                    },
                }
            },
        }
    }
}

/// Number of characters of `s` from `from` on and before the next space.
fn count_to_space(s: &Vec<char>, from: usize) -> (k: usize)
    requires
        from <= s@.len(),
    ensures
        k == first_space(s@.skip(from as int)),
        from + k <= s@.len(),
{
    let len = s.len();
    let mut k: usize = 0;
    while from + k < len && s[from + k] != ' '
        invariant
            len == s@.len(),
            from + k <= len,
            first_space(s@.skip(from as int)) == k + first_space(s@.skip(from + k)),
        decreases s@.len() - from - k,
    {
        proof {
            assert(s@.skip(from + k).skip(1) =~= s@.skip(from + k + 1));
        }
        k += 1;
    }
    k
}

/// The name of the template that the code of a gate declares.
pub fn template_name(code: &Vec<char>) -> (name: Option<Vec<char>>)
    ensures
        match name {
            Some(n) => template_name_of(code@) == Some(n@),
            None => template_name_of(code@).is_none(),
        },
{
    proof {
        assert(code@.skip(0) =~= code@);
    }
    let k = count_to_space(code, 0);
    if k >= code.len() {
        return None;
    }
    let n = count_to_space(code, k + 1);
    if n < 2 {
        return None;
    }
    let mut name: Vec<char> = Vec::new();
    let mut i: usize = 0;
    while i < n - 2
        invariant
            i <= n - 2,
            k + 1 + n <= code@.len() <= usize::MAX,
            name@ == code@.subrange(k + 1, k + 1 + i),
        decreases n - 2 - i,
    {
        name.push(code[k + 1 + i]);
        proof {
            assert(name@ =~= code@.subrange(k + 1, k + 1 + i + 1));
        }
        i += 1;
    }
    proof {
        let rest = code@.skip(k + 1);
        let word = rest.take(n as int);
        assert(word.take(word.len() - 2) =~= name@);
    }
    Some(name)
}

/// Writes the statements that evaluate one gate.
fn render_component(id: &Vec<char>, name: &Vec<char>, last: &Vec<char>) -> (out: Vec<char>)
    ensures
        out@ == component_block(id@, name@, last@),
{
    let mut component = chars_of("c_");
    push_all(&mut component, name);
    let mut out = chars_of("  // ");
    push_all(&mut out, id);
    push_str(&mut out, "\n");
    push_str(&mut out, "  component ");
    push_all(&mut out, &component);
    push_str(&mut out, " = ");
    push_all(&mut out, name);
    push_str(&mut out, "();\n");
    push_str(&mut out, "  ");
    push_all(&mut out, &component);
    push_str(&mut out, ".constants <== constants;\n");
    push_str(&mut out, "  ");
    push_all(&mut out, &component);
    push_str(&mut out, ".wires <== wires;\n");
    push_str(&mut out, "  ");
    push_all(&mut out, &component);
    push_str(&mut out, ".public_input_hash <== public_input_hash;\n");
    push_str(&mut out, "  ");
    push_all(&mut out, &component);
    if last.len() == 0 {
        push_str(&mut out, ".constraints <== constraints;\n");
    } else {
        push_str(&mut out, ".constraints <== ");
        push_all(&mut out, last);
        push_str(&mut out, ".out;\n");
    }
    proof {
        assert(out@ =~= component_block(id@, name@, last@));
    }
    out
}

/// Once a gate has failed, the gates after it change nothing.
pub proof fn lemma_emit_error_persists(common: CommonData, i: nat, n: nat)
    requires
        i <= n,
        emit_rows(common, i) is Err,
    ensures
        emit_rows(common, n) == emit_rows(common, i),
    decreases n,
{
    if i < n {
        lemma_emit_error_persists(common, i, (n - 1) as nat);
    }
}

/// A gate of a kind that is not implemented stops generation: where a
/// row holds a gate that does something and whose kind is not known, no
/// files are generated, whatever else the circuit holds. Where the rows
/// before it are fine and the row has its selector, the error names the
/// row.
pub proof fn lemma_unknown_gate_stops_generation(
    conf: VerifierConfig,
    common: CommonData,
    vo: VerifierOnlyData,
    field: FieldParameters,
    constants_template: Seq<char>,
    gates_template: Seq<char>,
    row: int,
)
    requires
        0 <= row < common.gates@.len(),
        !is_noop(common.gates@[row].id@),
        gate_kind_of(common.gates@[row].id@) is None,
    ensures
        emit_rows(common, common.gates@.len()) is Err,
        generated(conf, common, vo, field, constants_template, gates_template) is Err,
        emit_rows(common, row as nat) is Ok && row < common.selectors_info.selector_indices@.len()
            && common.selectors_info.selector_indices@[row] < common.selectors_info.groups@.len()
            ==> emit_rows(common, common.gates@.len()) == Err::<Emission, GeneratorError>(
            GeneratorError::GateNotImplemented { row: row as usize },
        ),
{
    if emit_rows(common, row as nat) is Err {
        lemma_emit_error_persists(common, row as nat, common.gates@.len());
    } else {
        assert(emit_rows(common, (row + 1) as nat) is Err);
        lemma_emit_error_persists(common, (row + 1) as nat, common.gates@.len());
    }
}

/// What the gates add, as text.
pub struct Emitted {
    pub code: Vec<char>,
    pub evaluation: Vec<char>,
    pub last_component: Vec<char>,
}

impl View for Emitted {
    type V = Emission;

    open spec fn view(&self) -> Emission {
        Emission {
            code: self.code@,
            evaluation: self.evaluation@,
            last_component: self.last_component@,
        }
    }
}

/// Adds what row `row` adds, or says why it cannot.
fn emit_gate(acc: Emitted, common: &CommonData, row: usize) -> (res: Result<
    Emitted,
    GeneratorError,
>)
    requires
        row < common.gates@.len(),
    ensures
        match emit_row(acc@, *common, row as int) {
            Ok(e) => res is Ok && res->Ok_0@ == e,
            Err(e) => res == Err::<Emitted, GeneratorError>(e),
        },
{
    let gate = &common.gates[row];
    let selectors = &common.selectors_info;
    let id = chars_of(gate.id.as_str());
    if gate_is_noop(&id) {
        return Ok(acc);
    }
    if row >= selectors.selector_indices.len() {
        return Err(GeneratorError::SelectorMissing { row });
    }
    let s = selectors.selector_indices[row];
    if s >= selectors.groups.len() {
        return Err(GeneratorError::SelectorMissing { row });
    }
    if gate_kind(&id).is_none() {
        return Err(GeneratorError::GateNotImplemented { row });
    }
    let group = selectors.groups[s];
    let chain = filter_chain(group.0, group.1, row, selectors.groups.len() > 1);
    let filter = render_filter(&chain, s);
    let raw = chars_of(gate.circom_code.as_str());
    let code = fill(&raw, "$SET_FILTER;", &filter);
    proof {
        assert(code@ == gate_code(*common, row as int));
    }
    match template_name(&code) {
        None => Err(GeneratorError::MalformedGateCode { row }),
        Some(name) => {
            let block = render_component(&id, &name, &acc.last_component);
            let mut all_code = acc.code;
            push_all(&mut all_code, &code);
            push_str(&mut all_code, "\n");
            let mut evaluation = acc.evaluation;
            push_str(&mut evaluation, "\n");
            push_all(&mut evaluation, &block);
            let mut component = chars_of("c_");
            push_all(&mut component, &name);
            Ok(Emitted { code: all_code, evaluation, last_component: component })
        },
    }
}

/// Adds what each gate adds, row by row.
pub fn emit_gates(common: &CommonData) -> (res: Result<Emitted, GeneratorError>)
    ensures
        match emit_rows(*common, common.gates@.len()) {
            Ok(e) => res is Ok && res->Ok_0@ == e,
            Err(e) => res == Err::<Emitted, GeneratorError>(e),
        },
{
    let mut acc = Emitted { code: Vec::new(), evaluation: Vec::new(), last_component: Vec::new() };
    let mut row: usize = 0;
    while row < common.gates.len()
        invariant
            row <= common.gates@.len(),
            emit_rows(*common, row as nat) == Ok::<Emission, GeneratorError>(acc@),
        decreases common.gates@.len() - row,
    {
        match emit_gate(acc, common, row) {
            Ok(next) => {
                acc = next;
            },
            Err(e) => {
                proof {
                    assert(emit_rows(*common, (row + 1) as nat) == Err::<Emission, GeneratorError>(e));
                    lemma_emit_error_persists(*common, (row + 1) as nat, common.gates@.len());
                }
                return Err(e);
            },
        }
        row += 1;
    }
    Ok(acc)
}

fn fill_gates(
    template: &Vec<char>,
    conf: &VerifierConfig,
    common: &CommonData,
    field: &FieldParameters,
    emitted: &Emitted,
) -> (out: Vec<char>)
    ensures
        out@ == gates_text(template@, *conf, *common, *field, emitted@),
{
    let mut evaluation: Vec<char> = Vec::new();
    push_all(&mut evaluation, &emitted.evaluation);
    push_str(&mut evaluation, "  out <== ");
    push_all(&mut evaluation, &emitted.last_component);
    push_str(&mut evaluation, ".out;");
    let mut t: Vec<char> = Vec::new();
    push_all(&mut t, template);
    push_all(&mut t, &emitted.code);
    proof {
        assert(evaluation@ =~= emitted@.evaluation + "  out <== "@ + emitted@.last_component
            + ".out;"@);
        assert(t@ =~= template@ + emitted@.code);
    }
    let t = fill(&t, "  $EVALUATE_GATE_CONSTRAINTS;", &evaluation);
    let t = fill_count(&t, "$NUM_GATE_CONSTRAINTS", common.num_gate_constraints);
    let t = fill_count(&t, "$NUM_SELECTORS", common.selectors_info.groups.len());
    let t = fill_count(&t, "$NUM_OPENINGS_CONSTANTS", conf.num_openings_constants);
    let t = fill_count(&t, "$NUM_OPENINGS_WIRES", conf.num_openings_wires);
    fill_number(&t, "$F_EXT_W", field.extension_w)
}

/// Generates the two files of the verifier of one circuit: the file of
/// constants and the file of gates, each from its template.
///
/// Every placeholder of the templates is replaced wherever it occurs, in a
/// fixed order; text that is no placeholder is left as it is. The code of
/// each gate but those that do nothing is put behind the template of
/// gates, with its filter set, and the gates are evaluated in
/// the order of their rows, each starting from the constraints that the
/// one before it ends with.
///
/// Fails where the field lacks a root of unity that the circuit needs,
/// where the size of the low-degree extension is no power of two, at the
/// first gate that has no selector, is of a kind that is not implemented
/// or does not name its template, and where the cap is shorter than its
/// height says.
pub fn generate_circom_verifier(
    conf: &VerifierConfig,
    common: &CommonData,
    verifier_only: &VerifierOnlyData,
    field: &FieldParameters,
    constants_template: &str,
    gates_template: &str,
) -> (res: Result<(String, String), GeneratorError>)
    ensures
        match generated(
            *conf,
            *common,
            *verifier_only,
            *field,
            constants_template@,
            gates_template@,
        ) {
            Ok(texts) => res is Ok && res->Ok_0.0@ == texts.0 && res->Ok_0.1@ == texts.1,
            Err(e) => res == Err::<(String, String), GeneratorError>(e),
        },
{
    if common.degree_bits > TWO_ADICITY + 1 {
        return Err(GeneratorError::ExtensionRootMissing);
    }
    let log_n = match log2_exact(common.lde_size) {
        None => {
            return Err(GeneratorError::NotPowerOfTwo);
        },
        Some(log_n) => log_n,
    };
    if log_n > TWO_ADICITY {
        return Err(GeneratorError::RootMissing);
    }
    let emitted = match emit_gates(common) {
        Err(e) => {
            return Err(e);
        },
        Ok(emitted) => emitted,
    };
    let count = match pow2_checked(common.cap_height) {
        None => {
            return Err(GeneratorError::SigmaCapCount);
        },
        Some(count) => count,
    };
    if verifier_only.constants_sigmas_cap.len() < count {
        return Err(GeneratorError::SigmaCapTooShort);
    }
    let template = chars_of(constants_template);
    let t = fill_tables(&template, common);
    let t = fill_shape(&t, conf);
    let t = fill_circuit(&t, common, verifier_only);
    let t = fill_field(&t, common, field, log_n);
    let constants = fill_cap(&t, common, verifier_only, count);
    let gates_lib = chars_of(gates_template);
    let gates = fill_gates(&gates_lib, conf, common, field, &emitted);
    Ok((string_of(&constants), string_of(&gates)))
}

} // verus!
