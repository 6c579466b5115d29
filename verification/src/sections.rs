//! The sections of the flat layout of a proof, and where each of them
//! starts.

use vstd::prelude::*;
use vstd::arithmetic::overflow::CheckedUsize;
use crate::layout::{closed_form_size, query_init_size, query_steps_size, query_rounds_size};
use crate::shape::VerifierConfig;

verus! {

/// Number of sections in the flat layout of a proof.
pub const NUM_SECTIONS: usize = 15;

/// The sections of the flat layout of a proof, in the order in which they
/// are laid out.
#[derive(Clone, Copy, Debug, PartialEq, Eq, Structural)]
pub enum Section {
    WiresCap,
    PlonkZsPartialProductsCap,
    QuotientPolysCap,
    OpeningsConstants,
    OpeningsPlonkSigmas,
    OpeningsWires,
    OpeningsPlonkZs,
    OpeningsPlonkZsNext,
    OpeningsPartialProducts,
    OpeningsQuotientPolys,
    FriCommitPhaseMerkleCaps,
    FriQueryRounds,
    FriFinalPoly,
    FriPowWitness,
    PublicInputs,
}

/// The section at place `k` of the layout.
pub open spec fn section_at(k: nat) -> Section {
    if k == 0 {
        Section::WiresCap
    } else if k == 1 {
        Section::PlonkZsPartialProductsCap
    } else if k == 2 {
        Section::QuotientPolysCap
    } else if k == 3 {
        Section::OpeningsConstants
    } else if k == 4 {
        Section::OpeningsPlonkSigmas
    } else if k == 5 {
        Section::OpeningsWires
    } else if k == 6 {
        Section::OpeningsPlonkZs
    } else if k == 7 {
        Section::OpeningsPlonkZsNext
    } else if k == 8 {
        Section::OpeningsPartialProducts
    } else if k == 9 {
        Section::OpeningsQuotientPolys
    } else if k == 10 {
        Section::FriCommitPhaseMerkleCaps
    } else if k == 11 {
        Section::FriQueryRounds
    } else if k == 12 {
        Section::FriFinalPoly
    } else if k == 13 {
        Section::FriPowWitness
    } else {
        Section::PublicInputs
    }
}

/// The place of a section in the layout.
pub open spec fn section_index(s: Section) -> nat {
    match s {
        Section::WiresCap => 0,
        Section::PlonkZsPartialProductsCap => 1,
        Section::QuotientPolysCap => 2,
        Section::OpeningsConstants => 3,
        Section::OpeningsPlonkSigmas => 4,
        Section::OpeningsWires => 5,
        Section::OpeningsPlonkZs => 6,
        Section::OpeningsPlonkZsNext => 7,
        Section::OpeningsPartialProducts => 8,
        Section::OpeningsQuotientPolys => 9,
        Section::FriCommitPhaseMerkleCaps => 10,
        Section::FriQueryRounds => 11,
        Section::FriFinalPoly => 12,
        Section::FriPowWitness => 13,
        Section::PublicInputs => 14,
    }
}

/// The size in bytes of a section of a proof of the shape `c`.
pub open spec fn section_size(c: VerifierConfig, s: Section) -> int {
    match s {
        Section::WiresCap => c.num_wires_cap * c.hash_size,
        Section::PlonkZsPartialProductsCap => c.num_plonk_zs_partial_products_cap * c.hash_size,
        Section::QuotientPolysCap => c.num_quotient_polys_cap * c.hash_size,
        Section::OpeningsConstants => c.num_openings_constants * c.ext_field_size,
        Section::OpeningsPlonkSigmas => c.num_openings_plonk_sigmas * c.ext_field_size,
        Section::OpeningsWires => c.num_openings_wires * c.ext_field_size,
        Section::OpeningsPlonkZs => c.num_openings_plonk_zs * c.ext_field_size,
        Section::OpeningsPlonkZsNext => c.num_openings_plonk_zs_next * c.ext_field_size,
        Section::OpeningsPartialProducts => c.num_openings_partial_products * c.ext_field_size,
        Section::OpeningsQuotientPolys => c.num_openings_quotient_polys * c.ext_field_size,
        Section::FriCommitPhaseMerkleCaps => (c.num_fri_commit_round
            * c.fri_commit_merkle_cap_height) * c.hash_size,
        Section::FriQueryRounds => c.num_fri_query_round * (query_init_size(c) + query_steps_size(
            c,
        )),
        Section::FriFinalPoly => c.num_fri_final_poly_ext_v * c.ext_field_size,
        Section::FriPowWitness => c.field_size as int,
        Section::PublicInputs => c.num_public_inputs * c.field_size,
    }
}

/// The size in bytes of the first `k` sections.
pub open spec fn sections_size(c: VerifierConfig, k: nat) -> int
    decreases k,
{
    if k == 0 {
        0
    } else {
        sections_size(c, (k - 1) as nat) + section_size(c, section_at((k - 1) as nat))
    }
}

/// The place of the first byte of a section: the size of the sections
/// before it.
pub open spec fn section_start(c: VerifierConfig, s: Section) -> int {
    sections_size(c, section_index(s))
}

/// The sections tile the proof: the first starts at zero, each starts
/// where the one before it ends, and the last ends where the proof ends.
pub proof fn lemma_sections_tile_the_proof(c: VerifierConfig, k: nat)
    requires
        k < NUM_SECTIONS,
    ensures
        section_index(section_at(k)) == k,
        section_start(c, section_at(0)) == 0,
        k + 1 < NUM_SECTIONS ==> section_start(c, section_at(k + 1)) == section_start(
            c,
            section_at(k),
        ) + section_size(c, section_at(k)),
        section_size(c, section_at(k)) >= 0,
        section_start(c, section_at(k)) >= 0,
        sections_size(c, NUM_SECTIONS as nat) == closed_form_size(c),
{
    lemma_sections_nonnegative(c, k);
    lemma_section_size_nonnegative(c, section_at(k));
    reveal_with_fuel(sections_size, 16);
    let h = c.hash_size as int;
    let e = c.ext_field_size as int;
    assert((c.num_wires_cap + c.num_plonk_zs_partial_products_cap + c.num_quotient_polys_cap) * h
        == c.num_wires_cap * h + c.num_plonk_zs_partial_products_cap * h
        + c.num_quotient_polys_cap * h) by (nonlinear_arith);
    assert((c.num_openings_constants + c.num_openings_plonk_sigmas + c.num_openings_wires
        + c.num_openings_plonk_zs + c.num_openings_plonk_zs_next
        + c.num_openings_partial_products + c.num_openings_quotient_polys) * e
        == c.num_openings_constants * e + c.num_openings_plonk_sigmas * e + c.num_openings_wires
        * e + c.num_openings_plonk_zs * e + c.num_openings_plonk_zs_next * e
        + c.num_openings_partial_products * e + c.num_openings_quotient_polys * e)
        by (nonlinear_arith);
    assert(c.num_fri_query_round * (query_init_size(c) + query_steps_size(c))
        == query_rounds_size(c)) by (nonlinear_arith)
        requires
            query_rounds_size(c) == c.num_fri_query_round * query_init_size(c)
                + c.num_fri_query_round * query_steps_size(c),
    ;
}

/// No section has a negative size.
pub proof fn lemma_section_size_nonnegative(c: VerifierConfig, s: Section)
    ensures
        section_size(c, s) >= 0,
{
    assert(forall|a: int, b: int| a >= 0 && b >= 0 ==> #[trigger] (a * b) >= 0)
        by (nonlinear_arith);
    assert(query_init_size(c) >= 0);
    assert(query_steps_size(c) >= 0);
}

/// No section starts before zero.
pub proof fn lemma_sections_nonnegative(c: VerifierConfig, k: nat)
    ensures
        sections_size(c, k) >= 0,
    decreases k,
{
    if k > 0 {
        lemma_sections_nonnegative(c, (k - 1) as nat);
        lemma_section_size_nonnegative(c, section_at((k - 1) as nat));
    }
}

/// The sections start in the order of the layout.
pub proof fn lemma_sections_are_ordered(c: VerifierConfig, i: nat, j: nat)
    requires
        i <= j,
    ensures
        sections_size(c, i) <= sections_size(c, j),
    decreases j,
{
    if i < j {
        lemma_sections_are_ordered(c, i, (j - 1) as nat);
        lemma_section_size_nonnegative(c, section_at((j - 1) as nat));
    }
}

/// The section at place `k` of the layout.
pub fn nth_section(k: usize) -> (s: Section)
    requires
        k < NUM_SECTIONS,
    ensures
        s == section_at(k as nat),
        section_index(s) == k,
{
    if k == 0 {
        Section::WiresCap
    } else if k == 1 {
        Section::PlonkZsPartialProductsCap
    } else if k == 2 {
        Section::QuotientPolysCap
    } else if k == 3 {
        Section::OpeningsConstants
    } else if k == 4 {
        Section::OpeningsPlonkSigmas
    } else if k == 5 {
        Section::OpeningsWires
    } else if k == 6 {
        Section::OpeningsPlonkZs
    } else if k == 7 {
        Section::OpeningsPlonkZsNext
    } else if k == 8 {
        Section::OpeningsPartialProducts
    } else if k == 9 {
        Section::OpeningsQuotientPolys
    } else if k == 10 {
        Section::FriCommitPhaseMerkleCaps
    } else if k == 11 {
        Section::FriQueryRounds
    } else if k == 12 {
        Section::FriFinalPoly
    } else if k == 13 {
        Section::FriPowWitness
    } else {
        Section::PublicInputs
    }
}

/// The place of a section in the layout.
pub fn index_of_section(s: Section) -> (k: usize)
    ensures
        k == section_index(s),
        k < NUM_SECTIONS,
        section_at(k as nat) == s,
{
    match s {
        Section::WiresCap => 0,
        Section::PlonkZsPartialProductsCap => 1,
        Section::QuotientPolysCap => 2,
        Section::OpeningsConstants => 3,
        Section::OpeningsPlonkSigmas => 4,
        Section::OpeningsWires => 5,
        Section::OpeningsPlonkZs => 6,
        Section::OpeningsPlonkZsNext => 7,
        Section::OpeningsPartialProducts => 8,
        Section::OpeningsQuotientPolys => 9,
        Section::FriCommitPhaseMerkleCaps => 10,
        Section::FriQueryRounds => 11,
        Section::FriFinalPoly => 12,
        Section::FriPowWitness => 13,
        Section::PublicInputs => 14,
    }
}

fn product(a: usize, b: usize) -> (r: CheckedUsize)
    ensures
        r@ == a * b,
{
    CheckedUsize::new(a).mul_value(b)
}

fn checked_size(c: &VerifierConfig, s: Section) -> (r: CheckedUsize)
    ensures
        r@ == section_size(*c, s),
{
    match s {
        Section::WiresCap => product(c.num_wires_cap, c.hash_size),
        Section::PlonkZsPartialProductsCap => product(
            c.num_plonk_zs_partial_products_cap,
            c.hash_size,
        ),
        Section::QuotientPolysCap => product(c.num_quotient_polys_cap, c.hash_size),
        Section::OpeningsConstants => product(c.num_openings_constants, c.ext_field_size),
        Section::OpeningsPlonkSigmas => product(c.num_openings_plonk_sigmas, c.ext_field_size),
        Section::OpeningsWires => product(c.num_openings_wires, c.ext_field_size),
        Section::OpeningsPlonkZs => product(c.num_openings_plonk_zs, c.ext_field_size),
        Section::OpeningsPlonkZsNext => product(c.num_openings_plonk_zs_next, c.ext_field_size),
        Section::OpeningsPartialProducts => product(
            c.num_openings_partial_products,
            c.ext_field_size,
        ),
        Section::OpeningsQuotientPolys => product(c.num_openings_quotient_polys, c.ext_field_size),
        Section::FriCommitPhaseMerkleCaps => product(
            c.num_fri_commit_round,
            c.fri_commit_merkle_cap_height,
        ).mul_value(c.hash_size),
        Section::FriQueryRounds => {
            let values = CheckedUsize::new(c.num_fri_query_init_constants_sigmas_v).add_value(
                c.num_fri_query_init_wires_v,
            ).add_value(c.num_fri_query_init_zs_partial_v).add_value(
                c.num_fri_query_init_quotient_v,
            ).mul_value(c.field_size);
            let paths = CheckedUsize::new(c.num_fri_query_init_constants_sigmas_p).add_value(
                c.num_fri_query_init_wires_p,
            ).add_value(c.num_fri_query_init_zs_partial_p).add_value(
                c.num_fri_query_init_quotient_p,
            ).mul_value(c.hash_size);
            let init = values.add_checked(&paths).add_checked(&product(c.merkle_height_size, 4));
            let steps = product(c.num_fri_query_step0_v, c.ext_field_size).add_checked(
                &product(c.num_fri_query_step0_p, c.hash_size),
            ).add_value(c.merkle_height_size).add_checked(
                &product(c.num_fri_query_step1_v, c.ext_field_size),
            ).add_checked(&product(c.num_fri_query_step1_p, c.hash_size)).add_value(
                c.merkle_height_size,
            );
            CheckedUsize::new(c.num_fri_query_round).mul_checked(&init.add_checked(&steps))
        },
        Section::FriFinalPoly => product(c.num_fri_final_poly_ext_v, c.ext_field_size),
        Section::FriPowWitness => CheckedUsize::new(c.field_size),
        Section::PublicInputs => product(c.num_public_inputs, c.field_size),
    }
}

/// The size in bytes of a section of a proof of the shape `conf`, or
/// `None` where it does not fit the machine word.
pub fn size_of_section(conf: &VerifierConfig, section: Section) -> (size: Option<usize>)
    ensures
        match size {
            Some(n) => n == section_size(*conf, section),
            None => section_size(*conf, section) > usize::MAX,
        },
{
    checked_size(conf, section).to_option()
}

/// The place of the first byte of a section in a proof of the shape
/// `conf`, or `None` where it does not fit the machine word.
pub fn section_offset(conf: &VerifierConfig, section: Section) -> (offset: Option<usize>)
    ensures
        match offset {
            Some(n) => n == section_start(*conf, section),
            None => section_start(*conf, section) > usize::MAX,
        },
{
    let k = index_of_section(section);
    let mut total = CheckedUsize::new(0);
    let mut i: usize = 0;
    while i < k
        invariant
            i <= k < NUM_SECTIONS,
            total@ == sections_size(*conf, i as nat),
        decreases k - i,
    {
        let size = checked_size(conf, nth_section(i));
        total = total.add_checked(&size);
        i += 1;
    }
    total.to_option()
}

/// The sections of a proof of the shape `conf`, each with the place of
/// its first byte, in the order of the layout; or `None` where the size
/// of the proof does not fit the machine word.
pub fn section_offsets(conf: &VerifierConfig) -> (map: Option<Vec<(Section, usize)>>)
    ensures
        match map {
            Some(m) => m@.len() == NUM_SECTIONS && forall|k: int|
                0 <= k < NUM_SECTIONS ==> (#[trigger] m@[k]).0 == section_at(k as nat) && m@[k].1
                    == section_start(*conf, section_at(k as nat)),
            None => closed_form_size(*conf) > usize::MAX,
        },
{
    proof {
        lemma_sections_tile_the_proof(*conf, 0);
    }
    let mut map: Vec<(Section, usize)> = Vec::new();
    let mut total = CheckedUsize::new(0);
    let mut i: usize = 0;
    while i < NUM_SECTIONS
        invariant
            i <= NUM_SECTIONS,
            total@ == sections_size(*conf, i as nat),
            map@.len() == i,
            sections_size(*conf, NUM_SECTIONS as nat) == closed_form_size(*conf),
            forall|k: int|
                0 <= k < i ==> (#[trigger] map@[k]).0 == section_at(k as nat) && map@[k].1
                    == section_start(*conf, section_at(k as nat)),
        decreases NUM_SECTIONS - i,
    {
        let section = nth_section(i);
        match total.to_option() {
            None => {
                proof {
                    lemma_sections_are_ordered(*conf, i as nat, NUM_SECTIONS as nat);
                }
                return None;
            },
            Some(start) => {
                map.push((section, start));
            },
        }
        let size = checked_size(conf, section);
        total = total.add_checked(&size);
        i += 1;
    }
    if total.is_overflowed() {
        return None;
    }
    Some(map)
}

} // verus!
