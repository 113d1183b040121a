//! A staking-and-exchange ledger.
//!
//! Participants buy and sell a utility token, FCTR, against the native
//! currency at fixed prices, lock FCTR in a pool to earn a reward token,
//! BCDEV, that accrues with time, and may delegate half of their FCTR to a
//! confidant who stakes it for them and shares the reward.
//!
//! The crate keeps the records and decides: every operation takes the
//! records it concerns and plain values read from the ledger and the clock,
//! checks them, changes the records, and returns the instructions that the
//! ledger has to carry out. An operation that refuses changes nothing. The
//! contract of each operation says, over the value of the records, when it
//! is refused and with which error, and what it leaves otherwise.

pub mod accrual;
pub mod error;
pub mod instructions;
pub mod invariants;
pub mod ledger;
pub mod pool;
pub mod pricing;
pub mod principals;
pub mod staker;
pub mod state;
pub mod trust;
pub mod unstake;

pub use crate::accrual::accrue;
pub use crate::error::StakingError;
pub use crate::instructions::{
    BuyFctr, Entrust, Fund, Initialize, Register, SellBcdev, SellFctr, Stake, Stop, Unstake,
    Withdraw,
};
pub use crate::ledger::{Holder, LedgerCall, Token};
pub use crate::pool::{fund, initialize, stop, withdraw};
pub use crate::staker::{buy_fctr, register, sell_bcdev, sell_fctr, stake};
pub use crate::state::{EntrustInfo, Identity, Staking, StakerInfo, MAX_PRINCIPALS};
pub use crate::trust::{demand_back, entrust};
pub use crate::unstake::unstake;
