//! What each operation reads from its caller and from the ledger, besides
//! the records it works on.

use vstd::prelude::*;
use crate::state::Identity;

verus! {

/// What creating a pool reads from its caller.
#[derive(Clone, Copy, Debug, PartialEq, Eq, Structural)]
pub struct Initialize {
    /// Who creates the pool and becomes its owner.
    pub owner: Identity,
}

/// What funding the pool reads from its caller.
#[derive(Clone, Copy, Debug, PartialEq, Eq, Structural)]
pub struct Fund {
    /// Who signs the transfer.
    pub owner: Identity,
}

/// What an owner's withdrawal reads from its caller and from the ledger.
#[derive(Clone, Copy, Debug, PartialEq, Eq, Structural)]
pub struct Withdraw {
    /// Who asks for the withdrawal.
    pub owner: Identity,
    /// The pool's native reserve, as the ledger records it.
    pub pool_native_balance: u64,
}

/// What stopping the pool reads from its caller.
#[derive(Clone, Copy, Debug, PartialEq, Eq, Structural)]
pub struct Stop {
    /// Who asks for the stop.
    pub owner: Identity,
}

/// What a registration reads from its caller.
#[derive(Clone, Copy, Debug, PartialEq, Eq, Structural)]
pub struct Register {
    /// Who registers.
    pub staker: Identity,
    /// Who co-signed the registration.
    pub proof_signer: Identity,
}

/// What staking reads from its caller and from the ledger.
#[derive(Clone, Copy, Debug, PartialEq, Eq, Structural)]
pub struct Stake {
    /// The token offered as stake.
    pub fctr_mint: Identity,
    /// The staker's FCTR balance, as the ledger records it.
    pub staker_fctr_balance: u64,
}

/// What unstaking reads from its caller.
#[derive(Clone, Copy, Debug, PartialEq, Eq, Structural)]
pub struct Unstake {
    /// The token in which the stake is returned.
    pub fctr_mint: Identity,
    /// The token in which the reward is paid.
    pub bcdev_mint: Identity,
}

/// What a purchase of FCTR reads from its caller.
#[derive(Clone, Copy, Debug, PartialEq, Eq, Structural)]
pub struct BuyFctr {
    /// The token to buy.
    pub fctr_mint: Identity,
}

/// What a sale of FCTR reads from its caller and from the ledger.
#[derive(Clone, Copy, Debug, PartialEq, Eq, Structural)]
pub struct SellFctr {
    /// The token to sell.
    pub fctr_mint: Identity,
    /// The seller's FCTR balance, as the ledger records it.
    pub user_fctr_balance: u64,
    /// The pool's native reserve, as the ledger records it.
    pub pool_native_balance: u64,
}

/// What a sale of BCDEV reads from its caller and from the ledger.
#[derive(Clone, Copy, Debug, PartialEq, Eq, Structural)]
pub struct SellBcdev {
    /// The token to sell.
    pub bcdev_mint: Identity,
    /// The seller's BCDEV balance, as the ledger records it.
    pub user_bcdev_balance: u64,
    /// The pool's native reserve, as the ledger records it.
    pub pool_native_balance: u64,
}

/// What a delegation reads from the ledger.
#[derive(Clone, Copy, Debug, PartialEq, Eq, Structural)]
pub struct Entrust {
    /// The principal's FCTR balance, as the ledger records it.
    pub principal_fctr_balance: u64,
}

} // verus!
