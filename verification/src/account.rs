use vstd::prelude::*;

verus! {

/// An opaque participant identity. Nothing is assumed of it beyond equality:
/// two accounts are the same participant exactly when their identifiers are
/// equal.
#[derive(Clone, Copy, PartialEq, Eq, Hash, Debug, Structural)]
pub struct AccountId(pub u128);

/// A non-negative token quantity, wide enough to hold any total supply.
/// All arithmetic on balances is proved free of overflow and underflow.
pub type Balance = u128;

} // verus!
