//! What a verifier has to know of a circuit, held as plain values.

use vstd::prelude::*;
use crate::data::HashOut;

verus! {

/// One gate of a circuit: its identifier and the verification code that
/// its gate describes itself with. The code holds the placeholder
/// `$SET_FILTER;` where the filter belongs, and begins with
/// the word `template`, a space, and the name of the template followed by
/// `()`.
#[derive(Clone, Debug, PartialEq, Eq)]
pub struct GateInfo {
    pub id: String,
    pub circom_code: String,
}

/// Which selector tells each gate, and the rows that each selector
/// covers: `groups[s]` is the first row of selector `s` and the row after
/// its last.
#[derive(Clone, Debug, PartialEq, Eq)]
pub struct SelectorsInfo {
    pub selector_indices: Vec<usize>,
    pub groups: Vec<(usize, usize)>,
}

/// The data of a circuit that prover and verifier share.
#[derive(Clone, Debug, PartialEq, Eq)]
pub struct CommonData {
    pub num_challenges: usize,
    pub zero_knowledge: bool,
    pub rate_bits: usize,
    pub cap_height: usize,
    pub proof_of_work_bits: u32,
    pub reduction_arity_bits: Vec<usize>,
    pub degree_bits: usize,
    pub lde_size: usize,
    pub gates: Vec<GateInfo>,
    pub selectors_info: SelectorsInfo,
    pub quotient_degree_factor: usize,
    pub num_gate_constraints: usize,
    pub k_is: Vec<u64>,
}

/// The data of a circuit that only the verifier needs.
#[derive(Clone, Debug, PartialEq, Eq)]
pub struct VerifierOnlyData {
    pub constants_sigmas_cap: Vec<HashOut>,
    pub circuit_digest: HashOut,
}

/// Constants of the 64-bit field and of its quadratic extension.
/// `roots_of_unity[k]` is a primitive root of unity of order `2^k` in the
/// field, `extension_roots_of_unity[k]` one in the extension.
#[derive(Clone, Debug, PartialEq, Eq)]
pub struct FieldParameters {
    pub multiplicative_group_generator: u64,
    pub extension_w: u64,
    pub roots_of_unity: [u64; 33],
    pub extension_roots_of_unity: [[u64; 2]; 34],
}

} // verus!
