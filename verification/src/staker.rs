//! A participant's own operations: registration, purchase, sales and
//! staking.

use vstd::prelude::*;
use crate::accrual::{accrue_error, accrue_next, accrued};
use crate::error::StakingError;
use crate::instructions::{BuyFctr, Register, SellBcdev, SellFctr, Stake};
use crate::ledger::{Holder, LedgerCall, Token};
use crate::pricing::{buy, buy_cost, sell, sell_proceeds, MIN_PURCHASE};
use crate::state::{EntrustInfo, Identity, Staking, StakerInfo, StakerInfoView};

verus! {

/// The record of a participant that has just registered: a multiplier of
/// one, and nothing else.
pub open spec fn registered(staker: Identity) -> StakerInfoView {
    StakerInfoView {
        staker,
        stake_size: 0,
        stake_time: 0,
        fctr_amount: 0,
        bcdev_amount: 0,
        pending_bcdev_reward: 0,
        last_update_timestamp: 0,
        user_rpr: 1,
        bought_fctr: 0,
        is_staked: false,
        is_in_trust_program: false,
        principals: Seq::empty(),
    }
}

/// Why a registration is refused, if it is.
pub open spec fn register_error(staking: Staking, ctx: Register) -> Option<StakingError> {
    if staking.finished {
        Some(StakingError::PoolFinished)
    } else if ctx.proof_signer != staking.proof_signer {
        Some(StakingError::BadProofSigner)
    } else {
        None
    }
}

/// Registers a participant with the pool and returns its record.
pub fn register(staking: &Staking, ctx: &Register) -> (r: Result<StakerInfo, StakingError>)
    ensures
        match r {
            Ok(staker_info) => register_error(*staking, *ctx) is None && staker_info@
                == registered(ctx.staker) && staker_info.wf(),
            Err(e) => register_error(*staking, *ctx) == Some(e),
        },
{
    if staking.finished {
        return Err(StakingError::PoolFinished);
    }
    if ctx.proof_signer != staking.proof_signer {
        return Err(StakingError::BadProofSigner);
    }
    let principals: Vec<EntrustInfo> = Vec::new();
    let staker_info = StakerInfo {
        staker: ctx.staker,
        stake_size: 0,
        stake_time: 0,
        fctr_amount: 0,
        bcdev_amount: 0,
        pending_bcdev_reward: 0,
        last_update_timestamp: 0,
        user_rpr: 1,
        bought_fctr: 0,
        is_staked: false,
        is_in_trust_program: false,
        principals,
    };
    proof {
        assert(staker_info@.principals =~= Seq::<EntrustInfo>::empty());
    }
    Ok(staker_info)
}

/// Why a purchase of `amount` FCTR at `now` is refused, if it is.
pub open spec fn buy_fctr_error(
    staking: Staking,
    v: StakerInfoView,
    ctx: BuyFctr,
    amount: u64,
    now: u64,
) -> Option<StakingError> {
    if staking.finished {
        Some(StakingError::PoolFinished)
    } else if amount < MIN_PURCHASE {
        Some(StakingError::TooSmallAmount)
    } else if ctx.fctr_mint != staking.fctr_mint {
        Some(StakingError::WrongMint)
    } else if v.is_in_trust_program {
        Some(StakingError::CantBuyInTrustProgram)
    } else if accrue_error(v, now) is Some || v.bought_fctr + amount > u64::MAX || v.fctr_amount
        + amount > u64::MAX || staking.total_fctr_bought_by_users + amount > u64::MAX {
        Some(StakingError::ArithmeticOverflow)
    } else {
        None
    }
}

/// The buyer's record after the purchase: the reward window closed, and the
/// amount added to its liquid FCTR and to its lifetime purchases.
pub open spec fn buy_fctr_staker(v: StakerInfoView, amount: u64, now: u64) -> StakerInfoView {
    StakerInfoView {
        bought_fctr: (v.bought_fctr + amount) as u64,
        fctr_amount: (v.fctr_amount + amount) as u64,
        ..accrue_next(v, now)
    }
}

/// The pool after the purchase.
pub open spec fn buy_fctr_pool(staking: Staking, amount: u64) -> Staking {
    Staking {
        total_fctr_bought_by_users: (staking.total_fctr_bought_by_users + amount) as u64,
        ..staking
    }
}

/// The instructions of a purchase: the buyer pays the price to the pool in
/// native currency, and the amount is minted to the buyer.
pub open spec fn buy_fctr_calls(v: StakerInfoView, amount: u64) -> Seq<LedgerCall> {
    seq![
        LedgerCall::TransferNative {
            from: Holder::Participant(v.staker),
            to: Holder::Pool,
            amount: buy_cost(amount as int) as u64,
        },
        LedgerCall::Mint { token: Token::Fctr, to: Holder::Participant(v.staker), amount },
    ]
}

/// Buys `amount` units of FCTR at `now`.
///
/// Where the purchase succeeds, the buyer's liquid FCTR grows by exactly
/// `amount` and the native debit is the price of `amount`. A refusal changes
/// nothing.
pub fn buy_fctr(
    staking: &mut Staking,
    staker_info: &mut StakerInfo,
    ctx: &BuyFctr,
    amount: u64,
    now: u64,
) -> (r: Result<Vec<LedgerCall>, StakingError>)
    ensures
        match r {
            Ok(calls) => (buy_fctr_error(*old(staking), old(staker_info)@, *ctx, amount, now)
                is None
                && *final(staking) == buy_fctr_pool(*old(staking), amount)
                && final(staker_info)@ == buy_fctr_staker(old(staker_info)@, amount, now)
                && calls@ == buy_fctr_calls(old(staker_info)@, amount)
                && final(staker_info).fctr_amount == old(staker_info).fctr_amount + amount),
            Err(e) => (buy_fctr_error(*old(staking), old(staker_info)@, *ctx, amount, now) == Some(
                e,
            )
                && *final(staking) == *old(staking)
                && final(staker_info)@ == old(staker_info)@),
        },
        old(staker_info).wf() ==> final(staker_info).wf(),
{
    if staking.finished {
        return Err(StakingError::PoolFinished);
    }
    let cost: u64 = match buy(amount) {
        Ok(cost) => cost,
        Err(e) => {
            return Err(e);
        },
    };
    if ctx.fctr_mint != staking.fctr_mint {
        return Err(StakingError::WrongMint);
    }
    if staker_info.is_in_trust_program {
        return Err(StakingError::CantBuyInTrustProgram);
    }
    let pending: u64 = match accrued(staker_info, now) {
        Ok(pending) => pending,
        Err(e) => {
            return Err(e);
        },
    };
    if staker_info.bought_fctr > u64::MAX - amount || staker_info.fctr_amount > u64::MAX - amount
        || staking.total_fctr_bought_by_users > u64::MAX - amount {
        return Err(StakingError::ArithmeticOverflow);
    }
    staker_info.pending_bcdev_reward = pending;
    staker_info.last_update_timestamp = now;
    staker_info.bought_fctr = staker_info.bought_fctr + amount;
    staker_info.fctr_amount = staker_info.fctr_amount + amount;
    staking.total_fctr_bought_by_users = staking.total_fctr_bought_by_users + amount;
    let buyer: Holder = Holder::Participant(staker_info.staker);
    let mut calls: Vec<LedgerCall> = Vec::new();
    calls.push(LedgerCall::TransferNative { from: buyer, to: Holder::Pool, amount: cost });
    calls.push(LedgerCall::Mint { token: Token::Fctr, to: buyer, amount });
    proof {
        assert(calls@ =~= buy_fctr_calls(old(staker_info)@, amount));
    }
    Ok(calls)
}

/// Why a sale of `amount` FCTR is refused, if it is.
pub open spec fn sell_fctr_error(staking: Staking, v: StakerInfoView, ctx: SellFctr, amount: u64)
    -> Option<StakingError> {
    if staking.finished {
        Some(StakingError::PoolFinished)
    } else if ctx.fctr_mint != staking.fctr_mint {
        Some(StakingError::WrongMint)
    } else if v.fctr_amount < amount || ctx.user_fctr_balance < amount {
        Some(StakingError::InsufficientBalance)
    } else if sell_proceeds(Token::Fctr, amount as int) > ctx.pool_native_balance {
        Some(StakingError::InsufficientPoolFunds)
    } else if staking.total_fctr_sold_by_users + amount > u64::MAX {
        Some(StakingError::ArithmeticOverflow)
    } else {
        None
    }
}

/// The seller's record after the sale of FCTR.
pub open spec fn sell_fctr_staker(v: StakerInfoView, amount: u64) -> StakerInfoView {
    StakerInfoView { fctr_amount: (v.fctr_amount - amount) as u64, ..v }
}

/// The pool after the sale of FCTR.
pub open spec fn sell_fctr_pool(staking: Staking, amount: u64) -> Staking {
    Staking {
        total_fctr_sold_by_users: (staking.total_fctr_sold_by_users + amount) as u64,
        ..staking
    }
}

/// The instructions of a sale: the pool pays the proceeds to the seller in
/// native currency, and the amount is burnt from the seller.
pub open spec fn sell_calls(token: Token, seller: Identity, amount: u64) -> Seq<LedgerCall> {
    seq![
        LedgerCall::TransferNative {
            from: Holder::Pool,
            to: Holder::Participant(seller),
            amount: sell_proceeds(token, amount as int) as u64,
        },
        LedgerCall::Burn { token, from: Holder::Participant(seller), amount },
    ]
}

/// Sells `amount` units of FCTR to the pool. A refusal changes nothing.
pub fn sell_fctr(staking: &mut Staking, staker_info: &mut StakerInfo, ctx: &SellFctr, amount: u64)
    -> (r: Result<Vec<LedgerCall>, StakingError>)
    ensures
        match r {
            Ok(calls) => (sell_fctr_error(*old(staking), old(staker_info)@, *ctx, amount) is None
                && *final(staking) == sell_fctr_pool(*old(staking), amount)
                && final(staker_info)@ == sell_fctr_staker(old(staker_info)@, amount)
                && calls@ == sell_calls(Token::Fctr, old(staker_info).staker, amount)),
            Err(e) => (sell_fctr_error(*old(staking), old(staker_info)@, *ctx, amount) == Some(e)
                && *final(staking) == *old(staking)
                && final(staker_info)@ == old(staker_info)@),
        },
        old(staker_info).wf() ==> final(staker_info).wf(),
{
    if staking.finished {
        return Err(StakingError::PoolFinished);
    }
    if ctx.fctr_mint != staking.fctr_mint {
        return Err(StakingError::WrongMint);
    }
    if staker_info.fctr_amount < amount || ctx.user_fctr_balance < amount {
        return Err(StakingError::InsufficientBalance);
    }
    let proceeds: u64 = match sell(Token::Fctr, amount, ctx.pool_native_balance) {
        Ok(proceeds) => proceeds,
        Err(e) => {
            return Err(e);
        },
    };
    if staking.total_fctr_sold_by_users > u64::MAX - amount {
        return Err(StakingError::ArithmeticOverflow);
    }
    staking.total_fctr_sold_by_users = staking.total_fctr_sold_by_users + amount;
    staker_info.fctr_amount = staker_info.fctr_amount - amount;
    let seller: Holder = Holder::Participant(staker_info.staker);
    let mut calls: Vec<LedgerCall> = Vec::new();
    calls.push(LedgerCall::TransferNative { from: Holder::Pool, to: seller, amount: proceeds });
    calls.push(LedgerCall::Burn { token: Token::Fctr, from: seller, amount });
    proof {
        assert(calls@ =~= sell_calls(Token::Fctr, old(staker_info).staker, amount));
    }
    Ok(calls)
}

/// Why a sale of `amount` BCDEV is refused, if it is.
pub open spec fn sell_bcdev_error(staking: Staking, v: StakerInfoView, ctx: SellBcdev, amount: u64)
    -> Option<StakingError> {
    if staking.finished {
        Some(StakingError::PoolFinished)
    } else if ctx.bcdev_mint != staking.bcdev_mint {
        Some(StakingError::WrongMint)
    } else if v.bcdev_amount < amount || ctx.user_bcdev_balance < amount {
        Some(StakingError::InsufficientBalance)
    } else if sell_proceeds(Token::Bcdev, amount as int) > ctx.pool_native_balance {
        Some(StakingError::InsufficientPoolFunds)
    } else if staking.total_bcdev_sold_by_users + amount > u64::MAX {
        Some(StakingError::ArithmeticOverflow)
    } else {
        None
    }
}

/// The seller's record after the sale of BCDEV.
pub open spec fn sell_bcdev_staker(v: StakerInfoView, amount: u64) -> StakerInfoView {
    StakerInfoView { bcdev_amount: (v.bcdev_amount - amount) as u64, ..v }
}

/// The pool after the sale of BCDEV.
pub open spec fn sell_bcdev_pool(staking: Staking, amount: u64) -> Staking {
    Staking {
        total_bcdev_sold_by_users: (staking.total_bcdev_sold_by_users + amount) as u64,
        ..staking
    }
}

/// Sells `amount` units of BCDEV to the pool. A refusal changes nothing.
pub fn sell_bcdev(staking: &mut Staking, staker_info: &mut StakerInfo, ctx: &SellBcdev, amount: u64)
    -> (r: Result<Vec<LedgerCall>, StakingError>)
    ensures
        match r {
            Ok(calls) => (sell_bcdev_error(*old(staking), old(staker_info)@, *ctx, amount) is None
                && *final(staking) == sell_bcdev_pool(*old(staking), amount)
                && final(staker_info)@ == sell_bcdev_staker(old(staker_info)@, amount)
                && calls@ == sell_calls(Token::Bcdev, old(staker_info).staker, amount)),
            Err(e) => (sell_bcdev_error(*old(staking), old(staker_info)@, *ctx, amount) == Some(e)
                && *final(staking) == *old(staking)
                && final(staker_info)@ == old(staker_info)@),
        },
        old(staker_info).wf() ==> final(staker_info).wf(),
{
    if staking.finished {
        return Err(StakingError::PoolFinished);
    }
    if ctx.bcdev_mint != staking.bcdev_mint {
        return Err(StakingError::WrongMint);
    }
    if staker_info.bcdev_amount < amount || ctx.user_bcdev_balance < amount {
        return Err(StakingError::InsufficientBalance);
    }
    let proceeds: u64 = match sell(Token::Bcdev, amount, ctx.pool_native_balance) {
        Ok(proceeds) => proceeds,
        Err(e) => {
            return Err(e);
        },
    };
    if staking.total_bcdev_sold_by_users > u64::MAX - amount {
        return Err(StakingError::ArithmeticOverflow);
    }
    staking.total_bcdev_sold_by_users = staking.total_bcdev_sold_by_users + amount;
    staker_info.bcdev_amount = staker_info.bcdev_amount - amount;
    let seller: Holder = Holder::Participant(staker_info.staker);
    let mut calls: Vec<LedgerCall> = Vec::new();
    calls.push(LedgerCall::TransferNative { from: Holder::Pool, to: seller, amount: proceeds });
    calls.push(LedgerCall::Burn { token: Token::Bcdev, from: seller, amount });
    proof {
        assert(calls@ =~= sell_calls(Token::Bcdev, old(staker_info).staker, amount));
    }
    Ok(calls)
}

/// Why staking `amount` at `now` is refused, if it is.
pub open spec fn stake_error(
    staking: Staking,
    v: StakerInfoView,
    ctx: Stake,
    amount: u64,
    now: u64,
) -> Option<StakingError> {
    if staking.finished {
        Some(StakingError::PoolFinished)
    } else if ctx.fctr_mint != staking.fctr_mint {
        Some(StakingError::InvalidTokenAccount)
    } else if amount > v.fctr_amount || amount > ctx.staker_fctr_balance {
        Some(StakingError::InsufficientBalance)
    } else if accrue_error(v, now) is Some || v.stake_size + amount > u64::MAX {
        Some(StakingError::ArithmeticOverflow)
    } else {
        None
    }
}

/// The staker's record after staking `amount` at `now`: the reward window
/// closed on the stake it had, the amount moved from its liquid FCTR into
/// the stake, and the lock started anew.
pub open spec fn stake_staker(v: StakerInfoView, amount: u64, now: u64) -> StakerInfoView {
    StakerInfoView {
        fctr_amount: (v.fctr_amount - amount) as u64,
        stake_size: (v.stake_size + amount) as u64,
        stake_time: now,
        is_staked: true,
        ..accrue_next(v, now)
    }
}

/// The instruction of staking: the amount is burnt from the staker.
pub open spec fn stake_calls(v: StakerInfoView, amount: u64) -> Seq<LedgerCall> {
    seq![LedgerCall::Burn { token: Token::Fctr, from: Holder::Participant(v.staker), amount }]
}

/// Locks `amount` units of the staker's liquid FCTR in the pool at `now`. A
/// refusal changes nothing.
pub fn stake(staking: &Staking, staker_info: &mut StakerInfo, ctx: &Stake, amount: u64, now: u64)
    -> (r: Result<Vec<LedgerCall>, StakingError>)
    ensures
        match r {
            Ok(calls) => (stake_error(*staking, old(staker_info)@, *ctx, amount, now) is None
                && final(staker_info)@ == stake_staker(old(staker_info)@, amount, now)
                && calls@ == stake_calls(old(staker_info)@, amount)),
            Err(e) => (stake_error(*staking, old(staker_info)@, *ctx, amount, now) == Some(e)
                && final(staker_info)@ == old(staker_info)@),
        },
        old(staker_info).wf() ==> final(staker_info).wf(),
{
    if staking.finished {
        return Err(StakingError::PoolFinished);
    }
    if ctx.fctr_mint != staking.fctr_mint {
        return Err(StakingError::InvalidTokenAccount);
    }
    if amount > staker_info.fctr_amount || amount > ctx.staker_fctr_balance {
        return Err(StakingError::InsufficientBalance);
    }
    let pending: u64 = match accrued(staker_info, now) {
        Ok(pending) => pending,
        Err(e) => {
            return Err(e);
        },
    };
    if staker_info.stake_size > u64::MAX - amount {
        return Err(StakingError::ArithmeticOverflow);
    }
    staker_info.pending_bcdev_reward = pending;
    staker_info.last_update_timestamp = now;
    staker_info.fctr_amount = staker_info.fctr_amount - amount;
    staker_info.stake_size = staker_info.stake_size + amount;
    staker_info.stake_time = now;
    staker_info.is_staked = true;
    let mut calls: Vec<LedgerCall> = Vec::new();
    calls.push(
        LedgerCall::Burn { token: Token::Fctr, from: Holder::Participant(staker_info.staker), amount },
    );
    proof {
        assert(calls@ =~= stake_calls(old(staker_info)@, amount));
    }
    Ok(calls)
}

} // verus!
