use plonky2_circom_verifier::circuit::{
    CommonData, FieldParameters, GateInfo, SelectorsInfo, VerifierOnlyData,
};
use plonky2_circom_verifier::gates::{
    filter_chain, gate_is_noop, gate_kind, render_filter, GateKind, UNUSED_SELECTOR,
};
use plonky2_circom_verifier::generator::{
    emit_gates, generate_circom_verifier, template_name, GeneratorError,
};
use plonky2_circom_verifier::numbers::{is_power_of_two, log2_exact, pow2_checked};
use plonky2_circom_verifier::shape::VerifierConfig;
use plonky2_circom_verifier::template::holds_mark;
use plonky2_circom_verifier::text::{chars_of, string_of};

const NUMBER_KEYS: [&str; 45] = [
    "$NUM_REDUCTION_ARITY_BITS",
    "$NUM_PUBLIC_INPUTS",
    "$NUM_WIRES_CAP",
    "$NUM_PLONK_ZS_PARTIAL_PRODUCTS_CAP",
    "$NUM_QUOTIENT_POLYS_CAP",
    "$NUM_OPENINGS_CONSTANTS",
    "$NUM_OPENINGS_PLONK_SIGMAS",
    "$NUM_OPENINGS_WIRES",
    "$NUM_OPENINGS_PLONK_ZS0",
    "$NUM_OPENINGS_PLONK_ZS_NEXT",
    "$NUM_OPENINGS_PARTIAL_PRODUCTS",
    "$NUM_OPENINGS_QUOTIENT_POLYS",
    "$NUM_FRI_COMMIT_ROUND",
    "$FRI_COMMIT_MERKLE_CAP_HEIGHT",
    "$NUM_FRI_QUERY_ROUND",
    "$NUM_FRI_QUERY_INIT_CONSTANTS_SIGMAS_V",
    "$NUM_FRI_QUERY_INIT_CONSTANTS_SIGMAS_P",
    "$NUM_FRI_QUERY_INIT_WIRES_V",
    "$NUM_FRI_QUERY_INIT_WIRES_P",
    "$NUM_FRI_QUERY_INIT_ZS_PARTIAL_V",
    "$NUM_FRI_QUERY_INIT_ZS_PARTIAL_P",
    "$NUM_FRI_QUERY_INIT_QUOTIENT_V",
    "$NUM_FRI_QUERY_INIT_QUOTIENT_P",
    "$NUM_FRI_QUERY_STEP0_V",
    "$NUM_FRI_QUERY_STEP0_P",
    "$NUM_FRI_QUERY_STEP1_V",
    "$NUM_FRI_QUERY_STEP1_P",
    "$NUM_FRI_FINAL_POLY_EXT_V",
    "$NUM_CHALLENGES",
    "$FRI_RATE_BITS",
    "$DEGREE_BITS",
    "$NUM_GATE_CONSTRAINTS",
    "$QUOTIENT_DEGREE_FACTOR",
    "$MIN_FRI_POW_RESPONSE",
    "$G_FROM_DEGREE_BITS_0",
    "$G_FROM_DEGREE_BITS_1",
    "$LOG_SIZE_OF_LDE_DOMAIN",
    "$MULTIPLICATIVE_GROUP_GENERATOR",
    "$PRIMITIVE_ROOT_OF_UNITY_LDE",
    "$G_ARITY_BITS_1",
    "$G_ARITY_BITS_2",
    "$G_ARITY_BITS_3",
    "$G_ARITY_BITS_4",
    "$NUM_SELECTORS",
    "$SIGMA_CAP_COUNT",
];

fn constants_template() -> String {
    let mut t = String::from("pragma circom 2.0.9;\n");
    for key in NUMBER_KEYS.iter() {
        t += &format!("function F{}() {{ return {}; }}\n", &key[1..], key);
    }
    t += "function ZK() { return $ZERO_KNOWLEDGE; }\n";
    t += "template GetKIs() {\n  $SET_K_IS;\n}\n";
    t += "template Bits() {\n  $SET_REDUCTION_ARITY_BITS;\n}\n";
    t += "template Digest() {\n  $SET_CIRCUIT_DIGEST;\n}\n";
    t += "template SigmaCap() {\n  $SET_SIGMA_CAP;\n}\n";
    t
}

fn gates_template() -> String {
    String::from(
        "pragma circom 2.0.9;\ntemplate EvalGateConstraints() {\n  signal input constants[$NUM_OPENINGS_CONSTANTS][2];\n  signal input wires[$NUM_OPENINGS_WIRES][2];\n  signal output out[$NUM_GATE_CONSTRAINTS][2];\n  var s = $NUM_SELECTORS;\n  var w = $F_EXT_W;\n  $EVALUATE_GATE_CONSTRAINTS;\n}\n",
    )
}

fn gate(id: &str, template: &str) -> GateInfo {
    GateInfo {
        id: id.to_string(),
        circom_code: format!(
            "template {}() {{\n  signal input constants[$NUM_OPENINGS_CONSTANTS][2];\n  signal output out[$NUM_GATE_CONSTRAINTS][2];\n  signal filter[2];\n  $SET_FILTER;\n}}",
            template
        ),
    }
}

fn sample_common() -> CommonData {
    CommonData {
        num_challenges: 2,
        zero_knowledge: false,
        rate_bits: 3,
        cap_height: 1,
        proof_of_work_bits: 16,
        reduction_arity_bits: vec![4, 4, 1],
        degree_bits: 12,
        lde_size: 1 << 15,
        gates: vec![
            gate("NoopGate", "Noop"),
            gate("ConstantGate { num_consts: 2 }", "Constant2"),
            gate("PublicInputGate", "PublicInputGateLib"),
            gate("ArithmeticGate { num_ops: 20 }", "Arithmetic20"),
        ],
        selectors_info: SelectorsInfo {
            selector_indices: vec![0, 0, 0, 1],
            groups: vec![(0, 3), (3, 4)],
        },
        quotient_degree_factor: 8,
        num_gate_constraints: 123,
        k_is: vec![1, 7, 49],
    }
}

fn sample_verifier_only() -> VerifierOnlyData {
    VerifierOnlyData {
        constants_sigmas_cap: vec![[11, 12, 13, 14], [21, 22, 23, 24]],
        circuit_digest: [5, 6, 7, 18446744069414584320],
    }
}

fn sample_field() -> FieldParameters {
    let mut roots = [0u64; 33];
    for (i, r) in roots.iter_mut().enumerate() {
        *r = 1000 + i as u64;
    }
    let mut ext_roots = [[0u64; 2]; 34];
    for (i, r) in ext_roots.iter_mut().enumerate() {
        *r = [2000 + i as u64, 3000 + i as u64];
    }
    FieldParameters {
        multiplicative_group_generator: 7,
        extension_w: 7,
        roots_of_unity: roots,
        extension_roots_of_unity: ext_roots,
    }
}

fn sample_config() -> VerifierConfig {
    VerifierConfig {
        hash_size: 32,
        field_size: 8,
        ext_field_size: 16,
        merkle_height_size: 1,
        num_wires_cap: 101,
        num_plonk_zs_partial_products_cap: 102,
        num_quotient_polys_cap: 103,
        num_openings_constants: 104,
        num_openings_plonk_sigmas: 105,
        num_openings_wires: 106,
        num_openings_plonk_zs: 107,
        num_openings_plonk_zs_next: 108,
        num_openings_partial_products: 109,
        num_openings_quotient_polys: 110,
        num_fri_commit_round: 111,
        fri_commit_merkle_cap_height: 112,
        num_fri_query_round: 113,
        num_fri_query_init_constants_sigmas_v: 114,
        num_fri_query_init_constants_sigmas_p: 115,
        num_fri_query_init_wires_v: 116,
        num_fri_query_init_wires_p: 117,
        num_fri_query_init_zs_partial_v: 118,
        num_fri_query_init_zs_partial_p: 119,
        num_fri_query_init_quotient_v: 120,
        num_fri_query_init_quotient_p: 121,
        num_fri_query_step0_v: 122,
        num_fri_query_step0_p: 123,
        num_fri_query_step1_v: 124,
        num_fri_query_step1_p: 125,
        num_fri_final_poly_ext_v: 126,
        num_public_inputs: 127,
    }
}

fn expected_filter(row: usize, start: usize, end: usize, selector: usize, many: bool) -> String {
    let mut s = "filter <== ".to_owned();
    let mut n = 0;
    let mut values: Vec<usize> = (start..end).filter(|&i| i != row).collect();
    if many {
        values.push(u32::MAX as usize);
    }
    for i in values {
        s += &format!("GlExtMul()(GlExtSub()(GlExt({}, 0)(), constants[{}]), ", i, selector);
        n += 1;
    }
    s += "GlExt(1, 0)()";
    for _ in 0..n {
        s += ")";
    }
    s + ";"
}

fn expected_texts(
    conf: &VerifierConfig,
    common: &CommonData,
    vo: &VerifierOnlyData,
    field: &FieldParameters,
    constants_template: &str,
    gates_template: &str,
) -> (String, String) {
    let mut c = constants_template.to_string();
    let mut k_is = String::new();
    for (i, k) in common.k_is.iter().enumerate() {
        k_is += &format!("  k_is[{}] = {};\n", i, k);
    }
    c = c.replace("  $SET_K_IS;\n", &k_is);
    let mut bits = String::new();
    for (i, b) in common.reduction_arity_bits.iter().enumerate() {
        bits += &format!("  bits[{}] = {};\n", i, b);
    }
    c = c.replace("  $SET_REDUCTION_ARITY_BITS;\n", &bits);
    let log_n = common.lde_size.trailing_zeros() as usize;
    let g = field.extension_roots_of_unity[common.degree_bits];
    let mut digest = String::new();
    for (i, d) in vo.circuit_digest.iter().enumerate() {
        digest += &format!("  cd[{}] = {};\n", i, d);
    }
    let values: Vec<(&str, String)> = vec![
        ("$NUM_REDUCTION_ARITY_BITS", common.reduction_arity_bits.len().to_string()),
        ("$NUM_PUBLIC_INPUTS", conf.num_public_inputs.to_string()),
        ("$NUM_WIRES_CAP", conf.num_wires_cap.to_string()),
        ("$NUM_PLONK_ZS_PARTIAL_PRODUCTS_CAP", conf.num_plonk_zs_partial_products_cap.to_string()),
        ("$NUM_QUOTIENT_POLYS_CAP", conf.num_quotient_polys_cap.to_string()),
        ("$NUM_OPENINGS_CONSTANTS", conf.num_openings_constants.to_string()),
        ("$NUM_OPENINGS_PLONK_SIGMAS", conf.num_openings_plonk_sigmas.to_string()),
        ("$NUM_OPENINGS_WIRES", conf.num_openings_wires.to_string()),
        ("$NUM_OPENINGS_PLONK_ZS0", conf.num_openings_plonk_zs.to_string()),
        ("$NUM_OPENINGS_PLONK_ZS_NEXT", conf.num_openings_plonk_zs_next.to_string()),
        ("$NUM_OPENINGS_PARTIAL_PRODUCTS", conf.num_openings_partial_products.to_string()),
        ("$NUM_OPENINGS_QUOTIENT_POLYS", conf.num_openings_quotient_polys.to_string()),
        ("$NUM_FRI_COMMIT_ROUND", conf.num_fri_commit_round.to_string()),
        ("$FRI_COMMIT_MERKLE_CAP_HEIGHT", conf.fri_commit_merkle_cap_height.to_string()),
        ("$NUM_FRI_QUERY_ROUND", conf.num_fri_query_round.to_string()),
        (
            "$NUM_FRI_QUERY_INIT_CONSTANTS_SIGMAS_V",
            conf.num_fri_query_init_constants_sigmas_v.to_string(),
        ),
        (
            "$NUM_FRI_QUERY_INIT_CONSTANTS_SIGMAS_P",
            conf.num_fri_query_init_constants_sigmas_p.to_string(),
        ),
        ("$NUM_FRI_QUERY_INIT_WIRES_V", conf.num_fri_query_init_wires_v.to_string()),
        ("$NUM_FRI_QUERY_INIT_WIRES_P", conf.num_fri_query_init_wires_p.to_string()),
        ("$NUM_FRI_QUERY_INIT_ZS_PARTIAL_V", conf.num_fri_query_init_zs_partial_v.to_string()),
        ("$NUM_FRI_QUERY_INIT_ZS_PARTIAL_P", conf.num_fri_query_init_zs_partial_p.to_string()),
        ("$NUM_FRI_QUERY_INIT_QUOTIENT_V", conf.num_fri_query_init_quotient_v.to_string()),
        ("$NUM_FRI_QUERY_INIT_QUOTIENT_P", conf.num_fri_query_init_quotient_p.to_string()),
        ("$NUM_FRI_QUERY_STEP0_V", conf.num_fri_query_step0_v.to_string()),
        ("$NUM_FRI_QUERY_STEP0_P", conf.num_fri_query_step0_p.to_string()),
        ("$NUM_FRI_QUERY_STEP1_V", conf.num_fri_query_step1_v.to_string()),
        ("$NUM_FRI_QUERY_STEP1_P", conf.num_fri_query_step1_p.to_string()),
        ("$NUM_FRI_FINAL_POLY_EXT_V", conf.num_fri_final_poly_ext_v.to_string()),
        ("$NUM_CHALLENGES", common.num_challenges.to_string()),
        ("  $SET_CIRCUIT_DIGEST;\n", digest),
        ("$FRI_RATE_BITS", common.rate_bits.to_string()),
        ("$DEGREE_BITS", common.degree_bits.to_string()),
        ("$NUM_GATE_CONSTRAINTS", common.num_gate_constraints.to_string()),
        ("$QUOTIENT_DEGREE_FACTOR", common.quotient_degree_factor.to_string()),
        ("$MIN_FRI_POW_RESPONSE", common.proof_of_work_bits.to_string()),
        ("$G_FROM_DEGREE_BITS_0", g[0].to_string()),
        ("$G_FROM_DEGREE_BITS_1", g[1].to_string()),
        ("$LOG_SIZE_OF_LDE_DOMAIN", log_n.to_string()),
        ("$MULTIPLICATIVE_GROUP_GENERATOR", field.multiplicative_group_generator.to_string()),
        ("$PRIMITIVE_ROOT_OF_UNITY_LDE", field.roots_of_unity[log_n].to_string()),
        ("$ZERO_KNOWLEDGE", common.zero_knowledge.to_string()),
        ("$G_ARITY_BITS_1", field.roots_of_unity[1].to_string()),
        ("$G_ARITY_BITS_2", field.roots_of_unity[2].to_string()),
        ("$G_ARITY_BITS_3", field.roots_of_unity[3].to_string()),
        ("$G_ARITY_BITS_4", field.roots_of_unity[4].to_string()),
    ];
    for (key, value) in values.iter() {
        c = c.replace(key, value);
    }

    let mut g_lib = gates_template.to_string();
    let num_selectors = common.selectors_info.groups.len();
    c = c.replace("$NUM_SELECTORS", &num_selectors.to_string());
    let mut evaluation = String::new();
    let mut last = String::new();
    for (row, gate) in common.gates.iter().enumerate() {
        if gate.id == "NoopGate" {
            continue;
        }
        let selector = common.selectors_info.selector_indices[row];
        let (start, end) = common.selectors_info.groups[selector];
        evaluation += "\n";
        let filter = expected_filter(row, start, end, selector, num_selectors > 1);
        let code = gate.circom_code.replace("$SET_FILTER;", &filter);
        let words: Vec<&str> = code.split(' ').collect();
        let name = &words[1][0..words[1].len() - 2];
        let component = format!("c_{}", name);
        evaluation += &format!("  // {}\n", gate.id);
        evaluation += &format!("  component {} = {}();\n", component, name);
        evaluation += &format!("  {}.constants <== constants;\n", component);
        evaluation += &format!("  {}.wires <== wires;\n", component);
        evaluation += &format!("  {}.public_input_hash <== public_input_hash;\n", component);
        if last.is_empty() {
            evaluation += &format!("  {}.constraints <== constraints;\n", component);
        } else {
            evaluation += &format!("  {}.constraints <== {}.out;\n", component, last);
        }
        g_lib += &(code + "\n");
        last = component;
    }
    evaluation += &format!("  out <== {}.out;", last);
    g_lib = g_lib.replace("  $EVALUATE_GATE_CONSTRAINTS;", &evaluation);
    g_lib = g_lib.replace("$NUM_GATE_CONSTRAINTS", &common.num_gate_constraints.to_string());
    g_lib = g_lib.replace("$NUM_SELECTORS", &num_selectors.to_string());
    g_lib = g_lib.replace("$NUM_OPENINGS_CONSTANTS", &conf.num_openings_constants.to_string());
    g_lib = g_lib.replace("$NUM_OPENINGS_WIRES", &conf.num_openings_wires.to_string());
    g_lib = g_lib.replace("$F_EXT_W", &field.extension_w.to_string());

    let count = 1usize << common.cap_height;
    c = c.replace("$SIGMA_CAP_COUNT", &count.to_string());
    let mut cap = String::new();
    for i in 0..count {
        for k in 0..4 {
            cap += &format!("  sc[{}][{}] = {};\n", i, k, vo.constants_sigmas_cap[i][k]);
        }
    }
    c = c.replace("  $SET_SIGMA_CAP;\n", &cap);
    (c, g_lib)
}

fn generate(common: &CommonData) -> Result<(String, String), GeneratorError> {
    generate_circom_verifier(
        &sample_config(),
        common,
        &sample_verifier_only(),
        &sample_field(),
        &constants_template(),
        &gates_template(),
    )
}

#[test]
fn generated_files_are_the_filled_templates() {
    let common = sample_common();
    let (constants, gates) = generate(&common).unwrap();
    let (expected_constants, expected_gates) = expected_texts(
        &sample_config(),
        &common,
        &sample_verifier_only(),
        &sample_field(),
        &constants_template(),
        &gates_template(),
    );
    assert_eq!(constants, expected_constants);
    assert_eq!(gates, expected_gates);
}

#[test]
fn no_placeholder_is_left() {
    let (constants, gates) = generate(&sample_common()).unwrap();
    assert!(!constants.contains('$'));
    assert!(!gates.contains('$'));
    assert!(!holds_mark(&constants));
    assert!(!holds_mark(&gates));
    assert!(holds_mark(&constants_template()));
    assert!(holds_mark("a $b"));
    assert!(!holds_mark(""));
}

#[test]
fn an_unknown_placeholder_is_left_as_it_is() {
    let constants = generate_circom_verifier(
        &sample_config(),
        &sample_common(),
        &sample_verifier_only(),
        &sample_field(),
        "x $NUM_WIRES_CAP y $UNKNOWN z $NUM_WIRES_CAP\n",
        "",
    )
    .unwrap()
    .0;
    assert_eq!(constants, "x 101 y $UNKNOWN z 101\n");
    assert!(holds_mark(&constants));
}

#[test]
fn constants_hold_the_values_of_the_circuit() {
    let (constants, _) = generate(&sample_common()).unwrap();
    assert!(constants.contains("function FNUM_PUBLIC_INPUTS() { return 127; }\n"));
    assert!(constants.contains("function FNUM_OPENINGS_PLONK_ZS0() { return 107; }\n"));
    assert!(constants.contains("function FNUM_OPENINGS_PLONK_ZS_NEXT() { return 108; }\n"));
    assert!(constants.contains("function FNUM_REDUCTION_ARITY_BITS() { return 3; }\n"));
    assert!(constants.contains("function FMIN_FRI_POW_RESPONSE() { return 16; }\n"));
    assert!(constants.contains("function FLOG_SIZE_OF_LDE_DOMAIN() { return 15; }\n"));
    assert!(constants.contains("function FPRIMITIVE_ROOT_OF_UNITY_LDE() { return 1015; }\n"));
    assert!(constants.contains("function FG_FROM_DEGREE_BITS_0() { return 2012; }\n"));
    assert!(constants.contains("function FG_FROM_DEGREE_BITS_1() { return 3012; }\n"));
    assert!(constants.contains("function FG_ARITY_BITS_4() { return 1004; }\n"));
    assert!(constants.contains("function FNUM_SELECTORS() { return 2; }\n"));
    assert!(constants.contains("function FSIGMA_CAP_COUNT() { return 2; }\n"));
    assert!(constants.contains("function ZK() { return false; }\n"));
    assert!(constants.contains(
        "template GetKIs() {\n  k_is[0] = 1;\n  k_is[1] = 7;\n  k_is[2] = 49;\n}\n"
    ));
    assert!(constants.contains(
        "template Bits() {\n  bits[0] = 4;\n  bits[1] = 4;\n  bits[2] = 1;\n}\n"
    ));
    assert!(constants.contains(
        "template Digest() {\n  cd[0] = 5;\n  cd[1] = 6;\n  cd[2] = 7;\n  cd[3] = 18446744069414584320;\n}\n"
    ));
    assert!(constants.contains(
        "template SigmaCap() {\n  sc[0][0] = 11;\n  sc[0][1] = 12;\n  sc[0][2] = 13;\n  sc[0][3] = 14;\n  sc[1][0] = 21;\n  sc[1][1] = 22;\n  sc[1][2] = 23;\n  sc[1][3] = 24;\n}\n"
    ));
}

#[test]
fn zero_knowledge_is_written_as_a_word() {
    let mut common = sample_common();
    common.zero_knowledge = true;
    let (constants, _) = generate(&common).unwrap();
    assert!(constants.contains("function ZK() { return true; }\n"));
}

#[test]
fn gates_are_chained_in_row_order() {
    let (_, gates) = generate(&sample_common()).unwrap();
    let evaluation = "\n  // ConstantGate { num_consts: 2 }\n  component c_Constant2 = Constant2();\n  c_Constant2.constants <== constants;\n  c_Constant2.wires <== wires;\n  c_Constant2.public_input_hash <== public_input_hash;\n  c_Constant2.constraints <== constraints;\n\n  // PublicInputGate\n  component c_PublicInputGateLib = PublicInputGateLib();\n  c_PublicInputGateLib.constants <== constants;\n  c_PublicInputGateLib.wires <== wires;\n  c_PublicInputGateLib.public_input_hash <== public_input_hash;\n  c_PublicInputGateLib.constraints <== c_Constant2.out;\n\n  // ArithmeticGate { num_ops: 20 }\n  component c_Arithmetic20 = Arithmetic20();\n  c_Arithmetic20.constants <== constants;\n  c_Arithmetic20.wires <== wires;\n  c_Arithmetic20.public_input_hash <== public_input_hash;\n  c_Arithmetic20.constraints <== c_PublicInputGateLib.out;\n  out <== c_Arithmetic20.out;\n}\n";
    assert!(gates.contains(evaluation));
    assert!(gates.contains("  var s = 2;\n  var w = 7;\n"));
    assert!(gates.contains("  signal output out[123][2];\n"));
    assert!(!gates.contains("template Noop()"));
    let constant = gates.find("template Constant2()").unwrap();
    let public_input = gates.find("template PublicInputGateLib()").unwrap();
    let arithmetic = gates.find("template Arithmetic20()").unwrap();
    assert!(constant < public_input && public_input < arithmetic);
}

#[test]
fn gate_code_gets_its_filter() {
    let (_, gates) = generate(&sample_common()).unwrap();
    assert!(gates.contains(
        "  filter <== GlExtMul()(GlExtSub()(GlExt(0, 0)(), constants[0]), GlExtMul()(GlExtSub()(GlExt(2, 0)(), constants[0]), GlExtMul()(GlExtSub()(GlExt(4294967295, 0)(), constants[0]), GlExt(1, 0)())));\n"
    ));
    assert!(gates.contains(
        "  filter <== GlExtMul()(GlExtSub()(GlExt(4294967295, 0)(), constants[1]), GlExt(1, 0)());\n"
    ));
}

#[test]
fn a_circuit_of_noops_has_no_component() {
    let mut common = sample_common();
    common.gates = vec![gate("NoopGate", "Noop"), gate("NoopGate", "Noop")];
    let (_, gates) = generate(&common).unwrap();
    assert!(gates.contains("  var w = 7;\n  out <== .out;\n}\n"));
    assert!(gates.ends_with("}\n"));
}

#[test]
fn unknown_gate_is_not_implemented() {
    let mut common = sample_common();
    common.gates[2] = gate("CosetInterpolationGate { subgroup_bits: 4 }", "Coset");
    assert_eq!(generate(&common), Err(GeneratorError::GateNotImplemented { row: 2 }));
    common.gates[1] = gate("Gate", "G");
    assert_eq!(generate(&common), Err(GeneratorError::GateNotImplemented { row: 1 }));
    let mut common = sample_common();
    common.gates[3] = gate("PublicInputGate2", "P");
    assert_eq!(generate(&common), Err(GeneratorError::GateNotImplemented { row: 3 }));
}

#[test]
fn gate_without_selector_is_rejected() {
    let mut common = sample_common();
    common.selectors_info.selector_indices = vec![0, 0, 0];
    assert_eq!(generate(&common), Err(GeneratorError::SelectorMissing { row: 3 }));
    let mut common = sample_common();
    common.selectors_info.selector_indices[1] = 2;
    assert_eq!(generate(&common), Err(GeneratorError::SelectorMissing { row: 1 }));
}

#[test]
fn gate_code_must_name_its_template() {
    let mut common = sample_common();
    common.gates[1].circom_code = "template".to_string();
    assert_eq!(generate(&common), Err(GeneratorError::MalformedGateCode { row: 1 }));
    common.gates[1].circom_code = "template X {}".to_string();
    assert_eq!(generate(&common), Err(GeneratorError::MalformedGateCode { row: 1 }));
    common.gates[1].circom_code = "template () {}".to_string();
    assert!(generate(&common).is_ok());
}

#[test]
fn lde_size_must_be_a_power_of_two() {
    let mut common = sample_common();
    common.lde_size = 3 << 13;
    assert_eq!(generate(&common), Err(GeneratorError::NotPowerOfTwo));
    common.lde_size = 0;
    assert_eq!(generate(&common), Err(GeneratorError::NotPowerOfTwo));
}

#[test]
fn roots_of_unity_must_exist() {
    let mut common = sample_common();
    common.lde_size = 1 << 33;
    assert_eq!(generate(&common), Err(GeneratorError::RootMissing));
    common.lde_size = 1 << 32;
    assert!(generate(&common).is_ok());
    common.degree_bits = 34;
    assert_eq!(generate(&common), Err(GeneratorError::ExtensionRootMissing));
    common.degree_bits = 33;
    assert!(generate(&common).is_ok());
}

#[test]
fn cap_must_hold_all_its_digests() {
    let mut common = sample_common();
    common.cap_height = 2;
    assert_eq!(generate(&common), Err(GeneratorError::SigmaCapTooShort));
    common.cap_height = 64;
    assert_eq!(generate(&common), Err(GeneratorError::SigmaCapCount));
    common.cap_height = 0;
    let (constants, _) = generate(&common).unwrap();
    assert!(constants.contains("function FSIGMA_CAP_COUNT() { return 1; }\n"));
    assert!(constants.contains("  sc[0][3] = 14;\n}\n"));
    assert!(!constants.contains("sc[1]"));
}

#[test]
fn errors_come_in_a_fixed_order() {
    let mut common = sample_common();
    common.cap_height = 2;
    common.gates[3] = gate("LookupGate", "L");
    assert_eq!(generate(&common), Err(GeneratorError::GateNotImplemented { row: 3 }));
    common.gates[1] = gate("LookupTableGate", "L");
    assert_eq!(generate(&common), Err(GeneratorError::GateNotImplemented { row: 1 }));
    common.lde_size = 5;
    assert_eq!(generate(&common), Err(GeneratorError::NotPowerOfTwo));
    common.degree_bits = 40;
    assert_eq!(generate(&common), Err(GeneratorError::ExtensionRootMissing));
}

#[test]
fn gate_kinds_are_told_by_their_names() {
    let kind = |id: &str| gate_kind(&chars_of(id));
    assert_eq!(kind("PublicInputGate"), Some(GateKind::PublicInput));
    assert_eq!(kind("BaseSumGate { num_limbs: 63 } + Base: 2"), Some(GateKind::BaseSum));
    assert_eq!(kind("ConstantGate { num_consts: 2 }"), Some(GateKind::Constant));
    assert_eq!(kind("PoseidonGate(PhantomData<F>)<WIDTH=12>"), Some(GateKind::Poseidon));
    assert_eq!(kind("ReducingGate { num_coeffs: 43 }"), Some(GateKind::Reducing));
    assert_eq!(kind("ArithmeticGate { num_ops: 20 }"), Some(GateKind::Arithmetic));
    assert_eq!(kind("PoseidonMdsGate(PhantomData)<WIDTH=12>"), Some(GateKind::PoseidonMds));
    assert_eq!(kind("MulExtensionGate { num_ops: 13 }"), Some(GateKind::MulExtension));
    assert_eq!(kind("RandomAccessGate { bits: 4 }"), Some(GateKind::RandomAccess));
    assert_eq!(kind("ExponentiationGate { num_power_bits: 66 }"), Some(GateKind::Exponentiation));
    assert_eq!(
        kind("ReducingExtensionGate { num_coeffs: 32 }"),
        Some(GateKind::ReducingExtension)
    );
    assert_eq!(
        kind("ArithmeticExtensionGate { num_ops: 10 }"),
        Some(GateKind::ArithmeticExtension)
    );
    assert_eq!(
        kind("LowDegreeInterpolationGate { subgroup_bits: 4 }"),
        Some(GateKind::LowDegreeInterpolation)
    );
    assert_eq!(kind("NoopGate"), None);
    assert_eq!(kind(""), None);
    assert_eq!(kind("PublicInputGate "), None);
    assert_eq!(kind("BaseSumGat"), None);
    assert_eq!(kind("xArithmeticGate"), None);
    assert!(gate_is_noop(&chars_of("NoopGate")));
    assert!(!gate_is_noop(&chars_of("NoopGate2")));
    assert!(!gate_is_noop(&chars_of("Noop")));
}

#[test]
fn filter_chain_holds_the_other_rows_and_the_sentinel() {
    assert_eq!(filter_chain(0, 3, 1, true), vec![0, 2, UNUSED_SELECTOR]);
    assert_eq!(filter_chain(0, 3, 1, false), vec![0, 2]);
    assert_eq!(filter_chain(3, 4, 3, false), Vec::<usize>::new());
    assert_eq!(filter_chain(3, 4, 3, true), vec![4294967295]);
    assert_eq!(filter_chain(2, 6, 9, false), vec![2, 3, 4, 5]);
    assert_eq!(filter_chain(5, 5, 5, false), Vec::<usize>::new());
    assert_eq!(filter_chain(6, 2, 3, true), vec![UNUSED_SELECTOR]);
}

#[test]
fn filter_vanishes_on_other_rows_only() {
    let eval = |chain: &Vec<usize>, s: i128| -> i128 {
        chain.iter().map(|&c| c as i128 - s).product()
    };
    let start = 4;
    let end = 9;
    for row in start..end {
        let chain = filter_chain(start, end, row, true);
        for s in start..end {
            let v = eval(&chain, s as i128);
            if s == row {
                assert_ne!(v, 0);
            } else {
                assert_eq!(v, 0);
            }
        }
        assert_eq!(eval(&chain, UNUSED_SELECTOR as i128), 0);
    }
    assert_eq!(eval(&filter_chain(7, 8, 7, false), 7), 1);
    assert_eq!(eval(&filter_chain(0, 3, 0, false), 0), 2);
}

#[test]
fn filter_text_nests_its_factors() {
    let text = |chain: Vec<usize>, selector: usize| string_of(&render_filter(&chain, selector));
    assert_eq!(text(vec![], 0), "filter <== GlExt(1, 0)();");
    assert_eq!(
        text(vec![5], 2),
        "filter <== GlExtMul()(GlExtSub()(GlExt(5, 0)(), constants[2]), GlExt(1, 0)());"
    );
    assert_eq!(text(filter_chain(0, 3, 1, true), 0), expected_filter(1, 0, 3, 0, true));
    assert_eq!(text(filter_chain(10, 14, 12, false), 3), expected_filter(12, 10, 14, 3, false));
}

#[test]
fn template_name_is_the_second_word_without_its_brackets() {
    let name = |code: &str| template_name(&chars_of(code)).map(|n| string_of(&n));
    assert_eq!(name("template Constant2() {\n}"), Some("Constant2".to_string()));
    assert_eq!(name("template A()"), Some("A".to_string()));
    assert_eq!(name("a bcd e f"), Some("b".to_string()));
    assert_eq!(name("a () b"), Some("".to_string()));
    assert_eq!(name("a  b"), None);
    assert_eq!(name("a b c"), None);
    assert_eq!(name("template"), None);
    assert_eq!(name(""), None);
    assert_eq!(name(" ab"), Some("".to_string()));
}

#[test]
fn emitted_gates_end_with_the_last_component() {
    let emitted = emit_gates(&sample_common()).unwrap();
    assert_eq!(string_of(&emitted.last_component), "c_Arithmetic20");
    assert_eq!(string_of(&emitted.code).matches("template ").count(), 3);
}

#[test]
fn logarithms_of_powers_of_two() {
    assert_eq!(log2_exact(1), Some(0));
    assert_eq!(log2_exact(2), Some(1));
    assert_eq!(log2_exact(1 << 20), Some(20));
    assert_eq!(log2_exact(1 << 63), Some(63));
    assert_eq!(log2_exact(0), None);
    assert_eq!(log2_exact(3), None);
    assert_eq!(log2_exact(6), None);
    assert_eq!(log2_exact((1 << 20) + 1), None);
    assert_eq!(log2_exact(usize::MAX), None);
    assert!(is_power_of_two(1024));
    assert!(!is_power_of_two(1000));
}

#[test]
fn powers_of_two_that_fit() {
    assert_eq!(pow2_checked(0), Some(1));
    assert_eq!(pow2_checked(1), Some(2));
    assert_eq!(pow2_checked(10), Some(1024));
    assert_eq!(pow2_checked(63), Some(1 << 63));
    assert_eq!(pow2_checked(64), None);
    assert_eq!(pow2_checked(1000), None);
}

#[test]
fn templates_whose_marks_are_placeholders_are_filled_without_a_mark() {
    let common = sample_common();
    let (constants, gates) = generate(&common).unwrap();
    for text in [&constants, &gates] {
        assert!(!holds_mark(text));
    }
    let mut marked = sample_common();
    marked.gates[1].id = "ConstantGate { num_consts: $2 }".to_string();
    let (constants, gates) = generate(&marked).unwrap();
    assert!(!holds_mark(&constants));
    assert!(holds_mark(&gates));
}
