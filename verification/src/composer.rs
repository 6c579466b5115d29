//! The decisions of recursive composition: how far a circuit that
//! verifies another proof is padded, and in which order it is built,
//! proved and checked. The work itself is done by the proving engine; a
//! driver hands each outcome in and carries each action out.

use vstd::prelude::*;
use vstd::arithmetic::power2::{lemma_pow2_unfold, pow2};
use crate::numbers::pow2_checked;

verus! {

/// Where a composition stands.
#[derive(Clone, Copy, Debug, PartialEq, Eq, Structural)]
pub enum Stage {
    /// The circuit that verifies the inner proof is being put together.
    Assembling,
    /// The circuit is padded and is being built.
    Building,
    /// The outer proof is being made.
    Proving,
    /// The outer proof is being checked against its own circuit.
    Verifying,
    /// The outer proof is made and checked.
    Done,
    /// The composition has failed for good.
    Failed,
}

/// What the proving engine reports.
#[derive(Clone, Copy, Debug, PartialEq, Eq, Structural)]
pub enum Event {
    /// The inner proof is verified in the circuit, which now has
    /// `num_gates` gates.
    VerifierAdded { num_gates: usize },
    /// The circuit is built.
    Built,
    /// The outer proof is made.
    Proved,
    /// No outer proof could be made.
    ProvingFailed,
    /// The outer proof was accepted.
    Accepted,
    /// The outer proof was rejected.
    Rejected,
}

/// What the driver has to do next.
#[derive(Clone, Copy, Debug, PartialEq, Eq, Structural)]
pub enum Action {
    /// Add `noops` gates that do nothing, then build the circuit.
    PadAndBuild { noops: usize },
    /// Make the outer proof.
    Prove,
    /// Check the outer proof against the circuit just built.
    Verify,
    /// Hand out the outer proof and the data of its circuit.
    Return,
    /// Give up; nothing may be handed out.
    Abort,
}

/// The least number of gates of a circuit that is to have `2^bits` rows
/// once it is built: one more than half of them, so that building, which
/// adds a few gates and then fills up to a power of two, ends at `2^bits`.
pub open spec fn min_gates_of(bits: nat) -> nat
    recommends
        bits >= 1,
{
    pow2((bits - 1) as nat) + 1
}

/// The number of gates that do nothing to add to a circuit of `num_gates`
/// gates.
pub open spec fn padding_of(num_gates: nat, min_degree_bits: Option<usize>) -> nat {
    match min_degree_bits {
        None => 0,
        Some(bits) => if num_gates >= min_gates_of(bits as nat) {
            0
        } else {
            (min_gates_of(bits as nat) - num_gates) as nat
        },
    }
}

/// Whether padding can be computed: the number of bits is at least one
/// and the least number of gates fits the machine word.
pub open spec fn padding_defined(min_degree_bits: Option<usize>) -> bool {
    match min_degree_bits {
        None => true,
        Some(bits) => bits >= 1 && min_gates_of(bits as nat) <= usize::MAX,
    }
}

/// The number of gates that do nothing to add to a circuit of `num_gates`
/// gates so that it has at least `2^(min_degree_bits - 1) + 1` gates, or
/// `None` where that number is not defined.
pub fn noop_padding(num_gates: usize, min_degree_bits: Option<usize>) -> (noops: Option<usize>)
    ensures
        padding_defined(min_degree_bits) ==> noops == Some(
            padding_of(num_gates as nat, min_degree_bits) as usize,
        ),
        padding_defined(min_degree_bits) ==> padding_of(num_gates as nat, min_degree_bits)
            <= usize::MAX,
        !padding_defined(min_degree_bits) ==> noops.is_none(),
{
    match min_degree_bits {
        None => Some(0),
        Some(bits) => {
            if bits == 0 {
                return None;
            }
            match pow2_checked(bits - 1) {
                None => None,
                Some(half) => {
                    if half == usize::MAX {
                        return None;
                    }
                    let min_gates = half + 1;
                    if num_gates >= min_gates {
                        Some(0)
                    } else {
                        Some(min_gates - num_gates)
                    }
                },
            }
        },
    }
}

/// A padded circuit has more than half of `2^bits` gates, and no more
/// than `2^bits` where it had no more before.
pub proof fn lemma_padding_reaches_half(num_gates: nat, bits: usize)
    requires
        bits >= 1,
    ensures
        num_gates + padding_of(num_gates, Some(bits)) > pow2((bits - 1) as nat),
        num_gates <= pow2(bits as nat) ==> num_gates + padding_of(num_gates, Some(bits)) <= pow2(
            bits as nat,
        ),
        num_gates >= min_gates_of(bits as nat) ==> padding_of(num_gates, Some(bits)) == 0,
{
    lemma_pow2_unfold(bits as nat);
    vstd::arithmetic::power2::lemma_pow2_pos((bits - 1) as nat);
}

/// The stage and the action that follow an event.
pub open spec fn transition(stage: Stage, min_degree_bits: Option<usize>, event: Event) -> (
    Stage,
    Action,
) {
    match (stage, event) {
        (Stage::Assembling, Event::VerifierAdded { num_gates }) => if padding_defined(
            min_degree_bits,
        ) {
            (
                Stage::Building,
                Action::PadAndBuild {
                    noops: padding_of(num_gates as nat, min_degree_bits) as usize,
                },
            )
        } else {
            (Stage::Failed, Action::Abort)
        },
        (Stage::Building, Event::Built) => (Stage::Proving, Action::Prove),
        (Stage::Proving, Event::Proved) => (Stage::Verifying, Action::Verify),
        (Stage::Verifying, Event::Accepted) => (Stage::Done, Action::Return),
        _ => (Stage::Failed, Action::Abort),
    }
}

/// The place of a stage in the order of a composition.
pub open spec fn stage_rank(stage: Stage) -> nat {
    match stage {
        Stage::Assembling => 0,
        Stage::Building => 1,
        Stage::Proving => 2,
        Stage::Verifying => 3,
        Stage::Done => 4,
        Stage::Failed => 5,
    }
}

/// Takes one step of a composition: given the stage and what the engine
/// reports, says the next stage and what to do.
pub fn step(stage: Stage, min_degree_bits: Option<usize>, event: Event) -> (next: (Stage, Action))
    ensures
        next == transition(stage, min_degree_bits, event),
{
    match (stage, event) {
        (Stage::Assembling, Event::VerifierAdded { num_gates }) => {
            match noop_padding(num_gates, min_degree_bits) {
                Some(noops) => (Stage::Building, Action::PadAndBuild { noops }),
                None => (Stage::Failed, Action::Abort),
            }
        },
        (Stage::Building, Event::Built) => (Stage::Proving, Action::Prove),
        (Stage::Proving, Event::Proved) => (Stage::Verifying, Action::Verify),
        (Stage::Verifying, Event::Accepted) => (Stage::Done, Action::Return),
        _ => (Stage::Failed, Action::Abort),
    }
}

/// A composition never goes back and never hands out a proof that was
/// not checked: each step leads to a later stage or to failure, failure is
/// final, and a proof is handed out only when the outer proof has just
/// been verified and accepted.
pub proof fn lemma_composition_is_safe(stage: Stage, min_degree_bits: Option<usize>, event: Event)
    ensures
        stage_rank(transition(stage, min_degree_bits, event).0) > stage_rank(stage) || transition(
            stage,
            min_degree_bits,
            event,
        ).0 == Stage::Failed,
        stage == Stage::Failed ==> transition(stage, min_degree_bits, event) == (
            Stage::Failed,
            Action::Abort,
        ),
        transition(stage, min_degree_bits, event).1 == Action::Return <==> stage
            == Stage::Verifying && event == Event::Accepted,
        transition(stage, min_degree_bits, event).0 == Stage::Done <==> transition(
            stage,
            min_degree_bits,
            event,
        ).1 == Action::Return,
        transition(stage, min_degree_bits, event).0 == Stage::Failed <==> transition(
            stage,
            min_degree_bits,
            event,
        ).1 == Action::Abort,
{
}

} // verus!
