use vstd::prelude::*;

verus! {

/// Everything that can go wrong during one invocation of the core.
/// An error aborts the whole invocation: no state change survives it.
#[derive(Clone, Copy, Debug, PartialEq, Eq, Structural)]
pub enum ContractError {
    /// A gated operation was attempted by a caller other than the admin.
    Unauthorized,
    /// A lookup of an item identifier that was never created.
    NotFound,
    /// A refill would push an item's stock above the capacity.
    BeverageNumberExceed,
    /// A purchase was attempted while the item's stock is zero.
    BeverageIsOver,
    /// A debit larger than the account's current balance.
    NotEnoughCoins,
}

} // verus!
