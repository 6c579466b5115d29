//! The hash that works in the bridge field.

pub use crate::bridge::{PoseidonBN128Hash, PoseidonBN128Permutation};
