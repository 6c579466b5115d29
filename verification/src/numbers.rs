//! Powers of two and their logarithms.

use vstd::prelude::*;
use vstd::arithmetic::power2::{lemma_pow2_pos, lemma_pow2_unfold, pow2};

verus! {

/// The exponent `k` with `2^k == n`, where there is one.
pub open spec fn exact_log2(n: nat) -> Option<nat>
    decreases n,
{
    if n == 0 {
        None
    } else if n == 1 {
        Some(0)
    } else if n % 2 != 0 {
        None
    } else {
        match exact_log2(n / 2) {
            Some(k) => Some(k + 1),
            None => None,
        }
    }
}

/// The exact logarithm of a number is the exponent of the power of two
/// that the number is.
pub proof fn lemma_exact_log2_is_exponent(n: nat)
    ensures
        exact_log2(n) matches Some(k) ==> pow2(k) == n,
    decreases n,
{
    if n == 1 {
        vstd::arithmetic::power2::lemma2_to64();
    } else if n > 1 && n % 2 == 0 {
        lemma_exact_log2_is_exponent(n / 2);
        if let Some(k) = exact_log2(n / 2) {
            lemma_pow2_unfold(k + 1);
        }
    }
}

/// Every power of two has its exponent as exact logarithm.
pub proof fn lemma_exact_log2_of_pow2(k: nat)
    ensures
        exact_log2(pow2(k)) == Some(k),
    decreases k,
{
    if k == 0 {
        vstd::arithmetic::power2::lemma2_to64();
    } else {
        lemma_pow2_unfold(k);
        lemma_pow2_pos((k - 1) as nat);
        lemma_exact_log2_of_pow2((k - 1) as nat);
        assert(pow2(k) / 2 == pow2((k - 1) as nat));
    }
}

/// Whether `n` is a power of two.
pub fn is_power_of_two(n: usize) -> (b: bool)
    ensures
        b == exact_log2(n as nat).is_some(),
{
    let mut m: usize = n;
    while m > 1 && m % 2 == 0
        invariant
            exact_log2(m as nat).is_some() == exact_log2(n as nat).is_some(),
        decreases m,
    {
        m = m / 2;
    }
    m == 1
}

/// `plonky2_util::log2_strict`: the exponent of a power of two. On any
/// other number it does not return, so such numbers are left out.
#[verifier::external_body]
fn log2_strict(n: usize) -> (log: usize)
    requires
        exact_log2(n as nat).is_some(),
    ensures
        exact_log2(n as nat) == Some(log as nat),
{
    plonky2_util::log2_strict(n)
}

/// The exponent `k` with `2^k == n`, or `None` where `n` is no power of
/// two.
pub fn log2_exact(n: usize) -> (log: Option<usize>)
    ensures
        match log {
            Some(k) => exact_log2(n as nat) == Some(k as nat) && pow2(k as nat) == n,
            None => exact_log2(n as nat).is_none() && forall|k: nat| pow2(k) != n,
        },
{
    proof {
        lemma_exact_log2_is_exponent(n as nat);
    }
    if is_power_of_two(n) {
        Some(log2_strict(n))
    } else {
        proof {
            assert forall|k: nat| pow2(k) != n by {
                lemma_exact_log2_of_pow2(k);
            }
        }
        None
    }
}

/// `2^k`, or `None` where it does not fit the machine word.
pub fn pow2_checked(k: usize) -> (p: Option<usize>)
    ensures
        match p {
            Some(n) => n == pow2(k as nat),
            None => pow2(k as nat) > usize::MAX,
        },
{
    let mut n: usize = 1;
    let mut i: usize = 0;
    proof {
        vstd::arithmetic::power2::lemma2_to64();
    }
    while i < k
        invariant
            i <= k,
            n == pow2(i as nat),
        decreases k - i,
    {
        proof {
            lemma_pow2_unfold((i + 1) as nat);
        }
        if n > usize::MAX / 2 {
            proof {
                if i + 1 < k {
                    vstd::arithmetic::power2::lemma_pow2_strictly_increases(
                        (i + 1) as nat,
                        k as nat,
                    );
                }
            }
            return None;
        }
        n = n * 2;
        i += 1;
    }
    Some(n)
}

} // verus!
