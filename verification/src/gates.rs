//! Gate kinds and the filter of a gate: the expression that tells on which
//! rows of a selector group a gate is active.

use vstd::prelude::*;
use crate::field::GOLDILOCKS_ORDER;
use crate::text::{
    chars_of, decimal, matches_at, occurs_at, push_decimal, push_str, starts_with,
};

verus! {

/// The value that a selector takes on rows where none of its gates is
/// active.
pub const UNUSED_SELECTOR: usize = 4294967295;

/// The kinds of gate that verification code can be generated for.
#[derive(Clone, Copy, Debug, PartialEq, Eq, Structural)]
pub enum GateKind {
    PublicInput,
    BaseSum,
    Constant,
    Poseidon,
    Reducing,
    Arithmetic,
    PoseidonMds,
    MulExtension,
    RandomAccess,
    Exponentiation,
    ReducingExtension,
    ArithmeticExtension,
    LowDegreeInterpolation,
}

/// The kind of a gate with the given identifier: the public-input gate
/// is told by its whole identifier, every other kind by the name that its
/// identifier begins with.
pub open spec fn gate_kind_of(id: Seq<char>) -> Option<GateKind> {
    if id == "PublicInputGate"@ {
        Some(GateKind::PublicInput)
    } else if occurs_at(id, 0, "BaseSumGate"@) {
        Some(GateKind::BaseSum)
    } else if occurs_at(id, 0, "ConstantGate"@) {
        Some(GateKind::Constant)
    } else if occurs_at(id, 0, "PoseidonGate"@) {
        Some(GateKind::Poseidon)
    } else if occurs_at(id, 0, "ReducingGate"@) {
        Some(GateKind::Reducing)
    } else if occurs_at(id, 0, "ArithmeticGate"@) {
        Some(GateKind::Arithmetic)
    } else if occurs_at(id, 0, "PoseidonMdsGate"@) {
        Some(GateKind::PoseidonMds)
    } else if occurs_at(id, 0, "MulExtensionGate"@) {
        Some(GateKind::MulExtension)
    } else if occurs_at(id, 0, "RandomAccessGate"@) {
        Some(GateKind::RandomAccess)
    } else if occurs_at(id, 0, "ExponentiationGate"@) {
        Some(GateKind::Exponentiation)
    } else if occurs_at(id, 0, "ReducingExtensionGate"@) {
        Some(GateKind::ReducingExtension)
    } else if occurs_at(id, 0, "ArithmeticExtensionGate"@) {
        Some(GateKind::ArithmeticExtension)
    } else if occurs_at(id, 0, "LowDegreeInterpolationGate"@) {
        Some(GateKind::LowDegreeInterpolation)
    } else {
        None
    }
}

/// Whether a gate with the given identifier does nothing.
pub open spec fn is_noop(id: Seq<char>) -> bool {
    id == "NoopGate"@
}

/// Whether two texts are the same.
pub fn text_eq(a: &Vec<char>, b: &Vec<char>) -> (same: bool)
    ensures
        same == (a@ == b@),
{
    if a.len() != b.len() {
        return false;
    }
    let same = matches_at(a, 0, b);
    proof {
        assert(a@.subrange(0, a@.len() as int) =~= a@);
    }
    same
}

fn begins_with(id: &Vec<char>, name: &str) -> (b: bool)
    ensures
        b == occurs_at(id@, 0, name@),
{
    let n = chars_of(name);
    starts_with(id, &n)
}

/// Whether a gate with the given identifier does nothing.
pub fn gate_is_noop(id: &Vec<char>) -> (b: bool)
    ensures
        b == is_noop(id@),
{
    let n = chars_of("NoopGate");
    text_eq(id, &n)
}

/// The kind of a gate with the given identifier, or `None` where no
/// verification code can be generated for it.
pub fn gate_kind(id: &Vec<char>) -> (kind: Option<GateKind>)
    ensures
        kind == gate_kind_of(id@),
{
    let public_input = chars_of("PublicInputGate");
    if text_eq(id, &public_input) {
        Some(GateKind::PublicInput)
    } else if begins_with(id, "BaseSumGate") {
        Some(GateKind::BaseSum)
    } else if begins_with(id, "ConstantGate") {
        Some(GateKind::Constant)
    } else if begins_with(id, "PoseidonGate") {
        Some(GateKind::Poseidon)
    } else if begins_with(id, "ReducingGate") {
        Some(GateKind::Reducing)
    } else if begins_with(id, "ArithmeticGate") {
        Some(GateKind::Arithmetic)
    } else if begins_with(id, "PoseidonMdsGate") {
        Some(GateKind::PoseidonMds)
    } else if begins_with(id, "MulExtensionGate") {
        Some(GateKind::MulExtension)
    } else if begins_with(id, "RandomAccessGate") {
        Some(GateKind::RandomAccess)
    } else if begins_with(id, "ExponentiationGate") {
        Some(GateKind::Exponentiation)
    } else if begins_with(id, "ReducingExtensionGate") {
        Some(GateKind::ReducingExtension)
    } else if begins_with(id, "ArithmeticExtensionGate") {
        Some(GateKind::ArithmeticExtension)
    } else if begins_with(id, "LowDegreeInterpolationGate") {
        Some(GateKind::LowDegreeInterpolation)
    } else {
        None
    }
}

/// The rows from `start` up to but without `end`, in rising order, without
/// `row`.
pub open spec fn other_rows(start: nat, end: nat, row: nat) -> Seq<nat>
    decreases end,
{
    if start >= end {
        Seq::empty()
    } else if end - 1 == row {
        other_rows(start, (end - 1) as nat, row)
    } else {
        other_rows(start, (end - 1) as nat, row).push((end - 1) as nat)
    }
}

/// The selector values that the filter of row `row` must vanish
/// on: the other rows of its group, `start` up to but without `end`, and,
/// where the circuit has more than one selector, the value of unused
/// rows.
pub open spec fn filter_chain_of(start: nat, end: nat, row: nat, many_selectors: bool) -> Seq<
    nat,
> {
    if many_selectors {
        other_rows(start, end, row).push(UNUSED_SELECTOR as nat)
    } else {
        other_rows(start, end, row)
    }
}

/// The value of a filter at the selector value `s`: the product of the
/// differences between each value of the chain and `s`, and one for the
/// empty chain.
pub open spec fn eval_filter(chain: Seq<nat>, s: int) -> int
    decreases chain.len(),
{
    if chain.len() == 0 {
        1
    } else {
        (chain[0] - s) * eval_filter(chain.skip(1), s)
    }
}

/// The numbers of a vector of machine words.
pub open spec fn as_nats(v: Seq<usize>) -> Seq<nat> {
    Seq::new(v.len(), |i: int| v[i] as nat)
}

/// The selector values that the filter of row `row` must vanish
/// on.
pub fn filter_chain(start: usize, end: usize, row: usize, many_selectors: bool) -> (chain: Vec<
    usize,
>)
    ensures
        as_nats(chain@) == filter_chain_of(start as nat, end as nat, row as nat, many_selectors),
{
    let mut chain: Vec<usize> = Vec::new();
    let mut i: usize = start;
    proof {
        assert(as_nats(chain@) =~= other_rows(start as nat, start as nat, row as nat));
    }
    while i < end
        invariant
            start <= i,
            i <= end || i == start,
            as_nats(chain@) == other_rows(start as nat, i as nat, row as nat),
        decreases end - i,
    {
        if i != row {
            chain.push(i);
        }
        proof {
            assert(as_nats(chain@) =~= other_rows(start as nat, (i + 1) as nat, row as nat));
        }
        i += 1;
    }
    proof {
        if start >= end {
            assert(other_rows(start as nat, end as nat, row as nat) =~= Seq::<nat>::empty());
        }
    }
    if many_selectors {
        chain.push(UNUSED_SELECTOR);
        proof {
            assert(as_nats(chain@) =~= other_rows(start as nat, end as nat, row as nat).push(
                UNUSED_SELECTOR as nat,
            ));
        }
    }
    chain
}

/// One factor of a filter, with the product it opens left unclosed.
pub open spec fn filter_term(value: nat, selector_index: nat) -> Seq<char> {
    "GlExtMul()(GlExtSub()(GlExt("@ + decimal(value) + ", 0)(), constants["@ + decimal(
        selector_index,
    ) + "]), "@
}

/// The factors of a filter, one after the other.
pub open spec fn filter_terms(chain: Seq<nat>, selector_index: nat) -> Seq<char>
    decreases chain.len(),
{
    if chain.len() == 0 {
        Seq::empty()
    } else {
        filter_terms(chain.drop_last(), selector_index) + filter_term(
            chain.last(),
            selector_index,
        )
    }
}

/// The statement that assigns a filter: the nested product of its factors
/// around the unit of the extension field.
pub open spec fn filter_text(chain: Seq<nat>, selector_index: nat) -> Seq<char> {
    "filter <== "@ + filter_terms(chain, selector_index) + "GlExt(1, 0)()"@ + Seq::new(
        chain.len(),
        |i: int| ')',
    ) + ";"@
}

/// Writes the statement that assigns the filter of a gate.
pub fn render_filter(chain: &Vec<usize>, selector_index: usize) -> (out: Vec<char>)
    ensures
        out@ == filter_text(as_nats(chain@), selector_index as nat),
{
    let mut out: Vec<char> = Vec::new();
    push_str(&mut out, "filter <== ");
    let ghost head = out@;
    let mut i: usize = 0;
    proof {
        assert(as_nats(chain@).take(0) =~= Seq::<nat>::empty());
        assert(out@ =~= head + filter_terms(as_nats(chain@).take(0), selector_index as nat));
    }
    while i < chain.len()
        invariant
            i <= chain@.len(),
            head == "filter <== "@,
            out@ == head + filter_terms(as_nats(chain@).take(i as int), selector_index as nat),
        decreases chain@.len() - i,
    {
        let ghost before = out@;
        push_str(&mut out, "GlExtMul()(GlExtSub()(GlExt(");
        push_decimal(&mut out, chain[i] as u64);
        push_str(&mut out, ", 0)(), constants[");
        push_decimal(&mut out, selector_index as u64);
        push_str(&mut out, "]), ");
        proof {
            let next = as_nats(chain@).take(i + 1);
            assert(next.drop_last() =~= as_nats(chain@).take(i as int));
            assert(next.last() == chain@[i as int] as nat);
            assert(out@ =~= before + filter_term(chain@[i as int] as nat, selector_index as nat));
            assert(out@ =~= head + filter_terms(next, selector_index as nat));
        }
        i += 1;
    }
    proof {
        assert(as_nats(chain@).take(i as int) =~= as_nats(chain@));
    }
    push_str(&mut out, "GlExt(1, 0)()");
    let ghost body = out@;
    let mut k: usize = 0;
    while k < chain.len()
        invariant
            k <= chain@.len(),
            out@ == body + Seq::new(k as nat, |i: int| ')'),
        decreases chain@.len() - k,
    {
        out.push(')');
        proof {
            assert(out@ =~= body + Seq::new((k + 1) as nat, |i: int| ')'));
        }
        k += 1;
    }
    push_str(&mut out, ";");
    proof {
        assert(out@ =~= filter_text(as_nats(chain@), selector_index as nat));
    }
    out
}

/// The other rows of a group are the rows of the group but `row`.
pub proof fn lemma_other_rows_contains(start: nat, end: nat, row: nat, i: nat)
    ensures
        other_rows(start, end, row).contains(i) <==> start <= i < end && i != row,
    decreases end,
{
    if start < end {
        let shorter = other_rows(start, (end - 1) as nat, row);
        lemma_other_rows_contains(start, (end - 1) as nat, row, i);
        if end - 1 != row {
            let all = shorter.push((end - 1) as nat);
            if shorter.contains(i) {
                let k = choose|k: int| 0 <= k < shorter.len() && shorter[k] == i;
                assert(all[k] == i);
            }
            if i == end - 1 {
                assert(all[shorter.len() as int] == i);
            }
        }
    }
}

/// A filter vanishes at every selector value of its chain.
pub proof fn lemma_filter_vanishes(chain: Seq<nat>, s: int)
    requires
        exists|k: int| 0 <= k < chain.len() && chain[k] == s,
    ensures
        eval_filter(chain, s) == 0,
    decreases chain.len(),
{
    let k = choose|k: int| 0 <= k < chain.len() && chain[k] == s;
    let rest = eval_filter(chain.skip(1), s);
    if k == 0 {
        assert((chain[0] - s) * rest == 0) by (nonlinear_arith)
            requires
                chain[0] - s == 0,
        ;
    } else {
        assert(chain.skip(1)[k - 1] == s);
        lemma_filter_vanishes(chain.skip(1), s);
        assert((chain[0] - s) * rest == 0) by (nonlinear_arith)
            requires
                rest == 0,
        ;
    }
}

/// A filter does not vanish at a selector value outside its chain.
pub proof fn lemma_filter_nonzero(chain: Seq<nat>, s: int)
    requires
        forall|k: int| 0 <= k < chain.len() ==> chain[k] != s,
    ensures
        eval_filter(chain, s) != 0,
    decreases chain.len(),
{
    if chain.len() > 0 {
        let rest = eval_filter(chain.skip(1), s);
        assert forall|k: int| 0 <= k < chain.skip(1).len() implies chain.skip(1)[k] != s by {
            assert(chain.skip(1)[k] == chain[k + 1]);
        }
        lemma_filter_nonzero(chain.skip(1), s);
        assert((chain[0] - s) * rest != 0) by (nonlinear_arith)
            requires
                chain[0] - s != 0,
                rest != 0,
        ;
    }
}

/// The filter of row `row` tells its row from the others. Over
/// the integers it is not zero at the row's own selector value, and it is
/// zero, hence zero in the 64-bit field too, at the value of every other
/// row of the group and, where the circuit has more than one selector, at
/// the value of unused rows. Where the row is alone in its group and
/// the circuit has one selector, the filter is one.
pub proof fn lemma_filter_selects_row(start: nat, end: nat, row: nat, many_selectors: bool, s: nat)
    requires
        start <= row < end,
        many_selectors ==> row != UNUSED_SELECTOR,
    ensures
        eval_filter(filter_chain_of(start, end, row, many_selectors), row as int) != 0,
        start <= s < end && s != row ==> eval_filter(
            filter_chain_of(start, end, row, many_selectors),
            s as int,
        ) == 0,
        start <= s < end && s != row ==> eval_filter(
            filter_chain_of(start, end, row, many_selectors),
            s as int,
        ) % (GOLDILOCKS_ORDER as int) == 0,
        many_selectors ==> eval_filter(
            filter_chain_of(start, end, row, many_selectors),
            UNUSED_SELECTOR as int,
        ) == 0,
        end == start + 1 && !many_selectors ==> eval_filter(
            filter_chain_of(start, end, row, many_selectors),
            row as int,
        ) == 1,
{
    let others = other_rows(start, end, row);
    let chain = filter_chain_of(start, end, row, many_selectors);
    assert forall|k: int| 0 <= k < chain.len() implies chain[k] != row by {
        if k < others.len() {
            lemma_other_rows_contains(start, end, row, others[k]);
            assert(others.contains(others[k]));
        }
    }
    lemma_filter_nonzero(chain, row as int);
    if start <= s < end && s != row {
        lemma_other_rows_contains(start, end, row, s);
        let k = choose|k: int| 0 <= k < others.len() && others[k] == s;
        assert(chain[k] == s);
        lemma_filter_vanishes(chain, s as int);
    }
    if many_selectors {
        assert(chain[others.len() as int] == UNUSED_SELECTOR);
        lemma_filter_vanishes(chain, UNUSED_SELECTOR as int);
    }
    if end == start + 1 && !many_selectors {
        assert(other_rows(start, start, row) =~= Seq::<nat>::empty());
        assert(chain =~= Seq::<nat>::empty());
    }
}

} // verus!
