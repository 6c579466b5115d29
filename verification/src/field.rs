//! The 64-bit prime field that proofs are computed over.

use vstd::prelude::*;

verus! {

/// The order of the field: `2^64 - 2^32 + 1`.
pub const GOLDILOCKS_ORDER: u64 = 0xFFFF_FFFF_0000_0001u64;

/// Bits needed to write the order of the field.
pub const GOLDILOCKS_ORDER_BITS: u32 = 64;

/// The largest `k` such that `2^k` divides the order of the multiplicative
/// group of the field.
pub const TWO_ADICITY: usize = 32;

/// Whether `x` is the canonical representative of a field element.
pub open spec fn is_canonical(x: u64) -> bool {
    x < GOLDILOCKS_ORDER
}

/// The canonical representative of the field element that `x` stands for.
pub fn reduce(x: u64) -> (r: u64)
    ensures
        r == x % GOLDILOCKS_ORDER,
        is_canonical(r),
{
    x % GOLDILOCKS_ORDER
}

} // verus!
