use vstd::prelude::*;

verus! {

/// The closed set of failure kinds of the registry. Every fallible operation
/// returns exactly one of these; a caller can always tell why a call failed.
#[derive(Clone, Copy, Debug, PartialEq, Eq, Structural)]
pub enum Error {
    /// The wallet is already present in the creator map.
    DuplicateCreator,
    /// The caller did not confirm a destructive operation.
    Unconfirmed,
    /// The wallet is not present in the creator map.
    CreatorNotFound,
    /// The file URL is too short to count as authenticated.
    InvalidUrl,
    /// No content item with the given title exists for the wallet.
    ContentNotFound,
    /// The consumer's balance does not cover the requested amount.
    InsufficientFunds,
}

} // verus!
