//! The errors of the ledger's operations.

use vstd::prelude::*;

verus! {

/// Why an operation was refused.
///
/// Every variant reports a violated precondition of the operation; none is
/// transient, and an operation that returns one has changed nothing.
#[derive(Clone, Copy, Debug, PartialEq, Eq, Structural)]
pub enum StakingError {
    /// The token supplied for staking is not the pool's stake token.
    InvalidTokenAccount,
    /// The pool has been stopped.
    PoolFinished,
    /// A purchase below the minimum amount.
    TooSmallAmount,
    /// The token supplied is not the one the pool manages.
    WrongMint,
    /// The account does not hold (or the ledger does not record) the amount.
    InsufficientBalance,
    /// The pool's native reserve cannot pay the proceeds.
    InsufficientPoolFunds,
    /// The caller is not the pool's owner.
    Unauthorized,
    /// The delegation is too small relative to lifetime purchases.
    InsufficientAmountEntrusted,
    /// The confidant already serves the maximum number of active principals.
    TooManyPrincipals,
    /// The pool is not stopped, or its cooldown has not elapsed.
    WithdrawTooEarly,
    /// Principal and confidant holdings differ by more than a factor of two.
    DepositRatioTooWide,
    /// The minimum lock duration has not elapsed since the stake.
    CannotUnstakeThisRound,
    /// The confidant has no entry for the principal.
    NoSuchPrincipal,
    /// The principal's entry has already been reclaimed.
    NothingToDemandBack,
    /// A tracked quantity would leave the range of `u64`, or the clock ran
    /// backwards.
    ArithmeticOverflow,
    /// The ledger refused an instruction. No operation of this crate returns
    /// it; it lets a caller report a ledger failure in the same type.
    LedgerError,
    /// The co-signer of a registration is not the pool's proof signer.
    BadProofSigner,
    /// The ledger records less than the amount to delegate.
    InsufficientHoldings,
    /// An account in the trust program tried to buy.
    CantBuyInTrustProgram,
}

} // verus!
