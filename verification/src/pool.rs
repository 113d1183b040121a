//! The pool's lifecycle: creation, funding, stop and the owner's withdrawal.

use vstd::prelude::*;
use crate::error::StakingError;
use crate::instructions::{Fund, Initialize, Stop, Withdraw};
use crate::ledger::{Holder, LedgerCall};
use crate::state::{Identity, Staking};

verus! {

/// A pool as it is created: running, with every counter at zero.
pub open spec fn initialized(
    owner: Identity,
    round_time: u64,
    fctr_mint: Identity,
    bcdev_mint: Identity,
    proof_signer: Identity,
) -> Staking {
    Staking {
        owner,
        round_time,
        rounds_num: 0,
        total_fctr_bought_by_users: 0,
        total_fctr_sold_by_users: 0,
        total_bcdev_sold_by_users: 0,
        finished: false,
        finish_time: 0,
        fctr_mint,
        bcdev_mint,
        proof_signer,
    }
}

/// Creates a pool owned by the caller.
pub fn initialize(
    ctx: &Initialize,
    round_time: u64,
    fctr_mint: Identity,
    bcdev_mint: Identity,
    proof_signer: Identity,
) -> (staking: Staking)
    ensures
        staking == initialized(ctx.owner, round_time, fctr_mint, bcdev_mint, proof_signer),
{
    Staking {
        owner: ctx.owner,
        round_time,
        rounds_num: 0,
        total_fctr_bought_by_users: 0,
        total_fctr_sold_by_users: 0,
        total_bcdev_sold_by_users: 0,
        finished: false,
        finish_time: 0,
        fctr_mint,
        bcdev_mint,
        proof_signer,
    }
}

/// The instruction of funding: the owner pays `amount` into the pool's
/// native reserve.
pub open spec fn fund_calls(staking: Staking, amount: u64) -> Seq<LedgerCall> {
    seq![
        LedgerCall::TransferNative {
            from: Holder::Participant(staking.owner),
            to: Holder::Pool,
            amount,
        },
    ]
}

/// Pays `amount` of the owner's native currency into the pool's reserve.
/// Only the owner may do so.
pub fn fund(staking: &Staking, ctx: &Fund, amount: u64) -> (r: Result<
    Vec<LedgerCall>,
    StakingError,
>)
    ensures
        match r {
            Ok(calls) => ctx.owner == staking.owner && calls@ == fund_calls(*staking, amount),
            Err(e) => ctx.owner != staking.owner && e == StakingError::Unauthorized,
        },
{
    if ctx.owner != staking.owner {
        return Err(StakingError::Unauthorized);
    }
    let mut calls: Vec<LedgerCall> = Vec::new();
    calls.push(
        LedgerCall::TransferNative {
            from: Holder::Participant(staking.owner),
            to: Holder::Pool,
            amount,
        },
    );
    proof {
        assert(calls@ =~= fund_calls(*staking, amount));
    }
    Ok(calls)
}

/// Why stopping the pool is refused, if it is.
pub open spec fn stop_error(staking: Staking, ctx: Stop) -> Option<StakingError> {
    if ctx.owner != staking.owner {
        Some(StakingError::Unauthorized)
    } else if staking.finished {
        Some(StakingError::PoolFinished)
    } else {
        None
    }
}

/// Stops the pool at `now`. Only the owner may do so, and only once: a pool
/// that is stopped stays stopped, and its finish time stays what it is.
pub fn stop(staking: &mut Staking, ctx: &Stop, now: u64) -> (r: Result<(), StakingError>)
    ensures
        match r {
            Ok(()) => stop_error(*old(staking), *ctx) is None && *final(staking) == (Staking {
                finished: true,
                finish_time: now,
                ..*old(staking)
            }),
            Err(e) => stop_error(*old(staking), *ctx) == Some(e) && *final(staking) == *old(
                staking,
            ),
        },
        old(staking).finished ==> final(staking).finished,
        old(staking).finished ==> final(staking).finish_time == old(staking).finish_time,
{
    if ctx.owner != staking.owner {
        return Err(StakingError::Unauthorized);
    }
    if staking.finished {
        return Err(StakingError::PoolFinished);
    }
    staking.finished = true;
    staking.finish_time = now;
    Ok(())
}

/// The owner may withdraw at `now`: the pool is stopped and two rounds have
/// passed since.
pub open spec fn cooldown_over(staking: Staking, now: u64) -> bool {
    staking.finished && now - staking.finish_time >= 2 * staking.round_time
}

/// Why a withdrawal of `amount` at `now` is refused, if it is. Whether the
/// time has come is asked first, whatever the caller and the amount.
pub open spec fn withdraw_error(staking: Staking, ctx: Withdraw, amount: u64, now: u64) -> Option<
    StakingError,
> {
    if !cooldown_over(staking, now) {
        Some(StakingError::WithdrawTooEarly)
    } else if ctx.owner != staking.owner {
        Some(StakingError::Unauthorized)
    } else if amount > ctx.pool_native_balance {
        Some(StakingError::InsufficientPoolFunds)
    } else {
        None
    }
}

/// The instruction of a withdrawal: the pool pays `amount` to the owner.
pub open spec fn withdraw_calls(staking: Staking, amount: u64) -> Seq<LedgerCall> {
    seq![
        LedgerCall::TransferNative {
            from: Holder::Pool,
            to: Holder::Participant(staking.owner),
            amount,
        },
    ]
}

/// Pays `amount` of the pool's native reserve to the owner at `now`.
///
/// Before the pool is stopped, and until two rounds have passed since, every
/// withdrawal is refused as too early.
pub fn withdraw(staking: &Staking, ctx: &Withdraw, amount: u64, now: u64) -> (r: Result<
    Vec<LedgerCall>,
    StakingError,
>)
    ensures
        match r {
            Ok(calls) => withdraw_error(*staking, *ctx, amount, now) is None && calls@
                == withdraw_calls(*staking, amount),
            Err(e) => withdraw_error(*staking, *ctx, amount, now) == Some(e),
        },
        !cooldown_over(*staking, now) ==> r == Err::<Vec<LedgerCall>, StakingError>(
            StakingError::WithdrawTooEarly,
        ),
{
    if !staking.finished || now < staking.finish_time || ((now - staking.finish_time) as u128) < 2
        * (staking.round_time as u128) {
        return Err(StakingError::WithdrawTooEarly);
    }
    if ctx.owner != staking.owner {
        return Err(StakingError::Unauthorized);
    }
    if amount > ctx.pool_native_balance {
        return Err(StakingError::InsufficientPoolFunds);
    }
    let mut calls: Vec<LedgerCall> = Vec::new();
    calls.push(
        LedgerCall::TransferNative {
            from: Holder::Pool,
            to: Holder::Participant(staking.owner),
            amount,
        },
    );
    proof {
        assert(calls@ =~= withdraw_calls(*staking, amount));
    }
    Ok(calls)
}

} // verus!
