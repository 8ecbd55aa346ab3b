//! The 256-bit word that names blocks, transactions, contracts, classes and storage slots.

use vstd::prelude::*;

verus! {

/// A 256-bit word, held as two 128-bit limbs.
///
/// Hashes, contract addresses, storage keys, storage values and nonces are all words of
/// this type. Two words are equal exactly when both limbs are equal.
#[derive(Clone, Copy, Debug, PartialEq, Eq, Hash, Structural)]
pub struct Felt {
    /// The most significant 128 bits.
    pub hi: u128,
    /// The least significant 128 bits.
    pub lo: u128,
}

impl Felt {
    /// The word with the given limbs.
    pub fn new(hi: u128, lo: u128) -> (r: Self)
        ensures
            r == (Felt { hi, lo }),
    {
        Felt { hi, lo }
    }

    /// The word whose value is `v`.
    pub fn from_u128(v: u128) -> (r: Self)
        ensures
            r == (Felt { hi: 0, lo: v }),
    {
        Felt { hi: 0, lo: v }
    }

    /// The zero word, the default class hash and nonce of a contract that has
    /// only been touched by a write to the other field.
    pub open spec fn spec_zero() -> Self {
        Felt { hi: 0, lo: 0 }
    }

    /// The zero word.
    #[verifier::when_used_as_spec(spec_zero)]
    pub fn zero() -> (r: Self)
        ensures
            r == Self::spec_zero(),
    {
        Felt { hi: 0, lo: 0 }
    }
}

} // verus!
