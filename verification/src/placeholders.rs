//! Placeholders and the marks they leave: where every `$` of a text
//! belongs to a placeholder that is filled, no `$` is left.

use vstd::prelude::*;
use crate::template::mark_free;
use crate::text::{lemma_replace_absent, occurs_at, replace_all};

verus! {

/// A placeholder: its text, and the place of the mark `$` in it.
pub struct Placeholder {
    pub key: Seq<char>,
    pub mark: int,
}

/// Whether a placeholder is well formed: it holds exactly one mark, only
/// spaces before the mark, and does not end with a space.
pub open spec fn well_formed(p: Placeholder) -> bool {
    &&& 0 <= p.mark < p.key.len()
    &&& p.key[p.mark] == '$'
    &&& forall|i: int| 0 <= i < p.key.len() && p.key[i] == '$' ==> i == p.mark
    &&& forall|i: int| 0 <= i < p.mark ==> p.key[i] == ' '
    &&& p.key[p.key.len() - 1] != ' '
}

/// Whether the mark at `i` of the text is the mark of an occurrence of the
/// placeholder.
pub open spec fn claimed_by(s: Seq<char>, i: int, p: Placeholder) -> bool {
    occurs_at(s, i - p.mark, p.key)
}

/// Whether the mark at `i` belongs to one of the placeholders from place
/// `k` of the list on.
pub open spec fn claimed_from(s: Seq<char>, i: int, keys: Seq<Placeholder>, k: int) -> bool {
    exists|j: int| k <= j < keys.len() && #[trigger] claimed_by(s, i, keys[j])
}

/// Whether every mark of the text belongs to one of the placeholders from
/// place `k` of the list on.
pub open spec fn marks_claimed(s: Seq<char>, keys: Seq<Placeholder>, k: int) -> bool {
    forall|i: int| 0 <= i < s.len() && s[i] == '$' ==> #[trigger] claimed_from(s, i, keys, k)
}

/// Whether every placeholder of the list is well formed.
pub open spec fn all_well_formed(keys: Seq<Placeholder>) -> bool {
    forall|j: int| 0 <= j < keys.len() ==> well_formed(#[trigger] keys[j])
}

/// Number of characters before the first mark, or the length of the text
/// where it holds none.
pub open spec fn first_mark(s: Seq<char>) -> int
    decreases s.len(),
{
    if s.len() == 0 {
        0
    } else if s[0] == '$' {
        0
    } else {
        1 + first_mark(s.skip(1))
    }
}

/// The first mark is the first.
pub proof fn lemma_first_mark(s: Seq<char>)
    ensures
        0 <= first_mark(s) <= s.len(),
        first_mark(s) < s.len() ==> s[first_mark(s)] == '$',
        forall|i: int| 0 <= i < first_mark(s) ==> s[i] != '$',
    decreases s.len(),
{
    if s.len() > 0 && s[0] != '$' {
        lemma_first_mark(s.skip(1));
        assert forall|i: int| 0 <= i < first_mark(s) implies s[i] != '$' by {
            if i > 0 {
                assert(s.skip(1)[i - 1] == s[i]);
            }
        }
    }
}

/// Where the pattern does not occur before `e`, the text up to `e` is
/// left as it is.
pub proof fn lemma_replace_prefix(s: Seq<char>, from: Seq<char>, to: Seq<char>, e: int)
    requires
        from.len() > 0,
        0 <= e <= s.len(),
        forall|m: int| 0 <= m < e ==> !occurs_at(s, m, from),
    ensures
        replace_all(s, from, to) == s.take(e) + replace_all(s.skip(e), from, to),
    decreases e,
{
    if e == 0 {
        assert(s.skip(0) =~= s);
        assert(s.take(0) + replace_all(s, from, to) =~= replace_all(s, from, to));
    } else {
        let rest = s.skip(1);
        assert(!occurs_at(s, 0, from));
        assert forall|m: int| 0 <= m < e - 1 implies !occurs_at(rest, m, from) by {
            if m + from.len() <= rest.len() {
                assert(rest.subrange(m, m + from.len()) =~= s.subrange(m + 1, m + 1 + from.len()));
                assert(!occurs_at(s, m + 1, from));
            }
        }
        lemma_replace_prefix(rest, from, to, e - 1);
        assert(rest.skip(e - 1) =~= s.skip(e));
        assert(seq![s[0]] + (rest.take(e - 1) + replace_all(s.skip(e), from, to)) =~= s.take(e)
            + replace_all(s.skip(e), from, to));
    }
}

/// An occurrence in the tail of a text is an occurrence in the text, and
/// the other way round where it begins in the tail.
pub proof fn lemma_occurs_in_tail(s: Seq<char>, e: int, q: int, pat: Seq<char>)
    requires
        0 <= e <= s.len(),
        0 <= q,
    ensures
        occurs_at(s.skip(e), q, pat) == occurs_at(s, e + q, pat),
{
    if e + q + pat.len() <= s.len() {
        assert(s.skip(e).subrange(q, q + pat.len()) =~= s.subrange(e + q, e + q + pat.len()));
    }
}

/// An occurrence in the second part of a text is an occurrence in the
/// text.
pub proof fn lemma_occurs_behind(head: Seq<char>, tail: Seq<char>, q: int, pat: Seq<char>)
    requires
        occurs_at(tail, q, pat),
    ensures
        occurs_at(head + tail, head.len() + q, pat),
{
    assert((head + tail).subrange(head.len() + q, head.len() + q + pat.len()) =~= tail.subrange(
        q,
        q + pat.len(),
    ));
}

/// An occurrence in the first part of a text is an occurrence in the
/// text.
pub proof fn lemma_occurs_before(head: Seq<char>, tail: Seq<char>, q: int, pat: Seq<char>)
    requires
        occurs_at(head, q, pat),
    ensures
        occurs_at(head + tail, q, pat),
{
    assert((head + tail).subrange(q, q + pat.len()) =~= head.subrange(q, q + pat.len()));
}

/// The marks behind a cut keep their placeholders, where the text does
/// not have a space just before the cut.
pub proof fn lemma_claims_behind_cut(s: Seq<char>, keys: Seq<Placeholder>, k: int, e: int)
    requires
        0 <= k,
        all_well_formed(keys),
        marks_claimed(s, keys, k),
        0 < e <= s.len(),
        s[e - 1] != ' ',
    ensures
        marks_claimed(s.skip(e), keys, k),
{
    let tail = s.skip(e);
    assert forall|x: int| 0 <= x < tail.len() && tail[x] == '$' implies #[trigger] claimed_from(
        tail,
        x,
        keys,
        k,
    ) by {
        assert(s[e + x] == '$');
        assert(claimed_from(s, e + x, keys, k));
        let j = choose|j: int| k <= j < keys.len() && #[trigger] claimed_by(s, e + x, keys[j]);
        let p = keys[j];
        assert(well_formed(p));
        let start = e + x - p.mark;
        if start < e {
            let idx = e - 1 - start;
            assert(0 <= idx < p.mark);
            assert(s.subrange(start, start + p.key.len())[idx] == p.key[idx]);
            assert(s[e - 1] == ' ');
        }
        lemma_occurs_in_tail(s, e, x - p.mark, p.key);
        assert(claimed_by(tail, x, keys[j]));
    }
}

/// The marks of a text made of a head without marks and a tail keep the
/// placeholders they have in the tail.
pub proof fn lemma_claims_behind_head(
    head: Seq<char>,
    tail: Seq<char>,
    keys: Seq<Placeholder>,
    k: int,
    x: int,
)
    requires
        marks_claimed(tail, keys, k),
        head.len() <= x < head.len() + tail.len(),
        (head + tail)[x] == '$',
    ensures
        claimed_from(head + tail, x, keys, k),
{
    let q = x - head.len();
    assert(tail[q] == '$');
    assert(claimed_from(tail, q, keys, k));
    let j = choose|j: int| k <= j < keys.len() && #[trigger] claimed_by(tail, q, keys[j]);
    lemma_occurs_behind(head, tail, q - keys[j].mark, keys[j].key);
    assert(claimed_by(head + tail, x, keys[j]));
}

/// Filling the placeholder at place `k` of the list: where every mark of
/// the text belongs to a placeholder from place `k` on and the value
/// holds no mark, every mark of the filled text belongs to a placeholder
/// from the next place on.
pub proof fn lemma_fill_step(s: Seq<char>, keys: Seq<Placeholder>, k: int, value: Seq<char>)
    requires
        0 <= k < keys.len(),
        all_well_formed(keys),
        mark_free(value),
        marks_claimed(s, keys, k),
    ensures
        marks_claimed(replace_all(s, keys[k].key, value), keys, k + 1),
    decreases s.len(),
{
    let key = keys[k].key;
    let d = keys[k].mark;
    let out = replace_all(s, key, value);
    assert(well_formed(keys[k]));
    lemma_first_mark(s);
    let i = first_mark(s);
    if i == s.len() {
        assert forall|m: int| 0 <= m <= s.len() implies !occurs_at(s, m, key) by {
            if occurs_at(s, m, key) {
                assert(s.subrange(m, m + key.len())[d] == key[d]);
            }
        }
        lemma_replace_absent(s, key, value);
    } else if occurs_at(s, i - d, key) {
        let a = i - d;
        let e = a + key.len();
        assert forall|m: int| 0 <= m < a implies !occurs_at(s, m, key) by {
            if occurs_at(s, m, key) {
                assert(s.subrange(m, m + key.len())[d] == key[d]);
                assert(s[m + d] == '$');
            }
        }
        lemma_replace_prefix(s, key, value, a);
        let mid = s.skip(a);
        lemma_occurs_in_tail(s, a, 0, key);
        assert(occurs_at(mid, 0, key));
        let tail = mid.skip(key.len() as int);
        assert(tail =~= s.skip(e));
        assert(s.subrange(a, a + key.len())[key.len() - 1] == key[key.len() - 1]);
        lemma_claims_behind_cut(s, keys, k, e);
        lemma_fill_step(tail, keys, k, value);
        let rest = replace_all(tail, key, value);
        let head = s.take(a) + value;
        assert(out =~= head + rest);
        assert forall|x: int| 0 <= x < out.len() && out[x] == '$' implies #[trigger] claimed_from(
            out,
            x,
            keys,
            k + 1,
        ) by {
            if x < head.len() {
                if x < a {
                    assert(out[x] == s[x]);
                } else {
                    assert(out[x] == value[x - a]);
                }
            } else {
                lemma_claims_behind_head(head, rest, keys, k + 1, x);
            }
        }
    } else {
        assert(claimed_from(s, i, keys, k));
        let j = choose|j: int| k <= j < keys.len() && #[trigger] claimed_by(s, i, keys[j]);
        let p = keys[j];
        assert(well_formed(p));
        let start = i - p.mark;
        let e = start + p.key.len();
        assert(s.subrange(start, e)[p.key.len() - 1] == p.key[p.key.len() - 1]);
        assert(s[e - 1] != ' ');
        assert forall|m: int| 0 <= m < e implies !occurs_at(s, m, key) by {
            if occurs_at(s, m, key) {
                let g = m + d;
                assert(s.subrange(m, m + key.len())[d] == key[d]);
                assert(s[g] == '$');
                if g < i {
                } else if g == i {
                } else if g < e {
                    assert(s.subrange(start, e)[g - start] == p.key[g - start]);
                } else {
                    let idx = e - 1 - m;
                    assert(0 <= idx < d);
                    assert(s.subrange(m, m + key.len())[idx] == key[idx]);
                }
            }
        }
        lemma_replace_prefix(s, key, value, e);
        let tail = s.skip(e);
        lemma_claims_behind_cut(s, keys, k, e);
        lemma_fill_step(tail, keys, k, value);
        let rest = replace_all(tail, key, value);
        let head = s.take(e);
        assert(out =~= head + rest);
        assert forall|x: int| 0 <= x < out.len() && out[x] == '$' implies #[trigger] claimed_from(
            out,
            x,
            keys,
            k + 1,
        ) by {
            if x < e {
                assert(out[x] == s[x]);
                if x < i {
                } else if x > i {
                    assert(s.subrange(start, e)[x - start] == p.key[x - start]);
                } else {
                    assert(head.subrange(start, e) =~= s.subrange(start, e));
                    assert(occurs_at(head, start, p.key));
                    lemma_occurs_before(head, rest, start, p.key);
                    assert(claimed_by(out, i, keys[j]));
                }
            } else {
                lemma_claims_behind_head(head, rest, keys, k + 1, x);
            }
        }
    }
}

/// Where every mark belongs to a placeholder behind the end of the list,
/// there is no mark.
pub proof fn lemma_no_claim_no_mark(s: Seq<char>, keys: Seq<Placeholder>)
    requires
        marks_claimed(s, keys, keys.len() as int),
    ensures
        mark_free(s),
{
    assert forall|i: int| 0 <= i < s.len() implies s[i] != '$' by {
        if s[i] == '$' {
            assert(claimed_from(s, i, keys, keys.len() as int));
        }
    }
}

} // verus!
