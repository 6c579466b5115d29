//! Filling the placeholders of a template, and the blocks of assignments
//! that some placeholders stand for.

use vstd::prelude::*;
use crate::data::HashOut;
use crate::text::{
    chars_of, decimal, decimal_chars, occurs_at, push_decimal, push_str, replace, replace_all,
};

verus! {

/// The text with every occurrence of `key` replaced by the decimal
/// numeral of `n`.
pub open spec fn with_number(text: Seq<char>, key: Seq<char>, n: nat) -> Seq<char> {
    replace_all(text, key, decimal(n))
}

/// The word that a flag is written as.
pub open spec fn flag_text(b: bool) -> Seq<char> {
    if b {
        "true"@
    } else {
        "false"@
    }
}

/// One assignment to an indexed name: `head`, the index, `] = `, the
/// value, and the end of the statement.
pub open spec fn assignment_line(head: Seq<char>, index: nat, value: u64) -> Seq<char> {
    head + decimal(index) + "] = "@ + decimal(value as nat) + ";\n"@
}

/// One assignment for each value, by rising index.
pub open spec fn assignment_lines(head: Seq<char>, values: Seq<u64>) -> Seq<char>
    decreases values.len(),
{
    if values.len() == 0 {
        Seq::empty()
    } else {
        assignment_lines(head, values.drop_last()) + assignment_line(
            head,
            (values.len() - 1) as nat,
            values.last(),
        )
    }
}

/// The words of a vector of machine words.
pub open spec fn as_words(v: Seq<usize>) -> Seq<u64> {
    Seq::new(v.len(), |i: int| v[i] as u64)
}

/// One assignment to a cell of a table: the index of the digest, the
/// index of the word in it, and the word.
pub open spec fn cap_line(index: nat, word: nat, value: u64) -> Seq<char> {
    "  sc["@ + decimal(index) + "]["@ + decimal(word) + "] = "@ + decimal(value as nat) + ";\n"@
}

/// The four assignments of one digest of a cap.
pub open spec fn cap_digest_lines(index: nat, digest: HashOut) -> Seq<char> {
    cap_line(index, 0, digest@[0]) + cap_line(index, 1, digest@[1]) + cap_line(
        index,
        2,
        digest@[2],
    ) + cap_line(index, 3, digest@[3])
}

/// The assignments of the digests of a cap, by rising index.
pub open spec fn cap_lines(cap: Seq<HashOut>) -> Seq<char>
    decreases cap.len(),
{
    if cap.len() == 0 {
        Seq::empty()
    } else {
        cap_lines(cap.drop_last()) + cap_digest_lines((cap.len() - 1) as nat, cap.last())
    }
}

/// Replaces every occurrence of `key` by `value`.
pub fn fill(text: &Vec<char>, key: &str, value: &Vec<char>) -> (out: Vec<char>)
    ensures
        out@ == replace_all(text@, key@, value@),
{
    let k = chars_of(key);
    replace(text, &k, value)
}

/// Replaces every occurrence of `key` by the decimal numeral of `n`.
pub fn fill_number(text: &Vec<char>, key: &str, n: u64) -> (out: Vec<char>)
    ensures
        out@ == with_number(text@, key@, n as nat),
{
    let v = decimal_chars(n);
    fill(text, key, &v)
}

/// Replaces every occurrence of `key` by the decimal numeral of `n`.
pub fn fill_count(text: &Vec<char>, key: &str, n: usize) -> (out: Vec<char>)
    ensures
        out@ == with_number(text@, key@, n as nat),
{
    fill_number(text, key, n as u64)
}

/// Replaces every occurrence of `key` by `true` or `false`.
pub fn fill_flag(text: &Vec<char>, key: &str, b: bool) -> (out: Vec<char>)
    ensures
        out@ == replace_all(text@, key@, flag_text(b)),
{
    let v = if b {
        chars_of("true")
    } else {
        chars_of("false")
    };
    fill(text, key, &v)
}

/// Writes one assignment for each value.
pub fn render_assignments(head: &str, values: &[u64]) -> (out: Vec<char>)
    ensures
        out@ == assignment_lines(head@, values@),
{
    let mut out: Vec<char> = Vec::new();
    let mut i: usize = 0;
    proof {
        assert(values@.take(0) =~= Seq::<u64>::empty());
    }
    while i < values.len()
        invariant
            i <= values@.len(),
            out@ == assignment_lines(head@, values@.take(i as int)),
        decreases values@.len() - i,
    {
        let ghost before = out@;
        push_str(&mut out, head);
        push_decimal(&mut out, i as u64);
        push_str(&mut out, "] = ");
        push_decimal(&mut out, values[i]);
        push_str(&mut out, ";\n");
        proof {
            let next = values@.take(i + 1);
            assert(next.drop_last() =~= values@.take(i as int));
            assert(next.last() == values@[i as int]);
            assert(out@ =~= before + assignment_line(head@, i as nat, values@[i as int]));
        }
        i += 1;
    }
    proof {
        assert(values@.take(i as int) =~= values@);
    }
    out
}

/// The words of a vector of machine words.
pub fn words_of(v: &Vec<usize>) -> (out: Vec<u64>)
    ensures
        out@ == as_words(v@),
{
    let mut out: Vec<u64> = Vec::new();
    let mut i: usize = 0;
    while i < v.len()
        invariant
            i <= v@.len(),
            out@.len() == i,
            forall|j: int| 0 <= j < i ==> out@[j] == v@[j] as u64,
        decreases v@.len() - i,
    {
        out.push(v[i] as u64);
        i += 1;
    }
    proof {
        assert(out@ =~= as_words(v@));
    }
    out
}

fn push_cap_line(out: &mut Vec<char>, index: usize, word: usize, value: u64)
    ensures
        final(out)@ == old(out)@ + cap_line(index as nat, word as nat, value),
{
    let ghost before = out@;
    push_str(out, "  sc[");
    push_decimal(out, index as u64);
    push_str(out, "][");
    push_decimal(out, word as u64);
    push_str(out, "] = ");
    push_decimal(out, value);
    push_str(out, ";\n");
    proof {
        assert(out@ =~= before + cap_line(index as nat, word as nat, value));
    }
}

/// Writes the assignments of the first `n` digests of a cap.
pub fn render_cap(cap: &Vec<HashOut>, n: usize) -> (out: Vec<char>)
    requires
        n <= cap@.len(),
    ensures
        out@ == cap_lines(cap@.take(n as int)),
{
    let mut out: Vec<char> = Vec::new();
    let mut i: usize = 0;
    proof {
        assert(cap@.take(0) =~= Seq::<HashOut>::empty());
    }
    while i < n
        invariant
            i <= n <= cap@.len(),
            out@ == cap_lines(cap@.take(i as int)),
        decreases n - i,
    {
        let ghost before = out@;
        let digest = &cap[i];
        push_cap_line(&mut out, i, 0, digest[0]);
        push_cap_line(&mut out, i, 1, digest[1]);
        push_cap_line(&mut out, i, 2, digest[2]);
        push_cap_line(&mut out, i, 3, digest[3]);
        proof {
            let next = cap@.take(i + 1);
            assert(next.drop_last() =~= cap@.take(i as int));
            assert(next.last() == cap@[i as int]);
            assert(out@ =~= before + cap_digest_lines(i as nat, cap@[i as int]));
        }
        i += 1;
    }
    out
}

/// Whether a text holds no `$`, the mark that placeholders begin with.
pub open spec fn mark_free(s: Seq<char>) -> bool {
    forall|i: int| 0 <= i < s.len() ==> s[i] != '$'
}

/// A decimal numeral holds no mark.
pub proof fn lemma_decimal_is_mark_free(n: nat)
    ensures
        mark_free(decimal(n)),
    decreases n,
{
    if n >= 10 {
        lemma_decimal_is_mark_free(n / 10);
    }
}

/// Filling one placeholder leaves no mark, where the text holds no other:
/// where every mark of a text begins the placeholder `key` and the value
/// holds no mark, the filled text holds no mark.
pub proof fn lemma_filled_text_is_mark_free(s: Seq<char>, key: Seq<char>, value: Seq<char>)
    requires
        key.len() > 0,
        mark_free(value),
        forall|i: int| 0 <= i < s.len() && s[i] == '$' ==> occurs_at(s, i, key),
    ensures
        mark_free(replace_all(s, key, value)),
    decreases s.len(),
{
    if s.len() > 0 {
        let n: int = if occurs_at(s, 0, key) {
            key.len() as int
        } else {
            1
        };
        let rest = s.skip(n);
        assert forall|i: int| 0 <= i < rest.len() && rest[i] == '$' implies occurs_at(
            rest,
            i,
            key,
        ) by {
            assert(s[n + i] == '$');
            assert(occurs_at(s, n + i, key));
            assert(rest.subrange(i, i + key.len()) =~= s.subrange(n + i, n + i + key.len()));
        }
        lemma_filled_text_is_mark_free(rest, key, value);
        if !occurs_at(s, 0, key) {
            assert(s[0] != '$');
        }
    }
}

/// Whether a text holds a mark, that is, whether a placeholder may be
/// left in it.
pub fn holds_mark(text: &str) -> (b: bool)
    ensures
        b == !mark_free(text@),
{
    let chars = chars_of(text);
    let mut i: usize = 0;
    while i < chars.len()
        invariant
            i <= chars@.len(),
            chars@ == text@,
            forall|j: int| 0 <= j < i ==> chars@[j] != '$',
        decreases chars@.len() - i,
    {
        if chars[i] == '$' {
            assert(text@[i as int] == '$');
            return true;
        }
        i += 1;
    }
    false
}

} // verus!
