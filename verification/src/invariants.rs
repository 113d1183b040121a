//! What holds across operations: the lifecycle of the pool, and the cover of
//! what has been delegated.

use vstd::prelude::*;
use crate::accrual::{accrue_error, accrue_next, accrued_reward};
use crate::error::StakingError;
use crate::instructions::{BuyFctr, Entrust, Register, SellBcdev, SellFctr, Stake, Unstake};
use crate::principals::{
    active_count, entrusted_total, lemma_entrusted_total_push, lemma_entrusted_total_update,
    lemma_reclaimed, lemma_slot_from, lemma_vacant_exists, slot_of, vacant_slot,
};
use crate::staker::{
    buy_fctr_error, buy_fctr_pool, buy_fctr_staker, register_error, sell_bcdev_error,
    sell_bcdev_pool, sell_bcdev_staker, sell_fctr_error, sell_fctr_pool, stake_error, stake_staker,
};
use crate::state::{EntrustInfo, Staking, StakerInfoView, MAX_PRINCIPALS};
use crate::trust::{
    demand_back_confidant, demand_back_error, demand_back_principal, entrust_amount,
    entrust_confidant, entrust_error,
};
use crate::unstake::{credit_fits, reward_share, unstake_error, unstake_principal, unstake_staker};

verus! {

/// What the record holds, liquid and staked together, covers what its
/// principals have delegated to it.
pub open spec fn covered(v: StakerInfoView) -> bool {
    entrusted_total(v.principals) <= v.fctr_amount + v.stake_size
}

/// A stopped pool refuses every registration, purchase, sale, stake, unstake
/// and delegation, whatever the other inputs are.
pub proof fn lemma_finished_pool_refuses(
    staking: Staking,
    v: StakerInfoView,
    other: StakerInfoView,
    records: Seq<StakerInfoView>,
    amount: u64,
    now: u64,
    registration: Register,
    purchase: BuyFctr,
    fctr_sale: SellFctr,
    bcdev_sale: SellBcdev,
    staking_ctx: Stake,
    unstaking_ctx: Unstake,
    delegation: Entrust,
)
    requires
        staking.finished,
    ensures
        register_error(staking, registration) == Some(StakingError::PoolFinished),
        buy_fctr_error(staking, v, purchase, amount, now) == Some(StakingError::PoolFinished),
        sell_fctr_error(staking, v, fctr_sale, amount) == Some(StakingError::PoolFinished),
        sell_bcdev_error(staking, v, bcdev_sale, amount) == Some(StakingError::PoolFinished),
        stake_error(staking, v, staking_ctx, amount, now) == Some(StakingError::PoolFinished),
        unstake_error(staking, v, records, unstaking_ctx, now) == Some(
            StakingError::PoolFinished,
        ),
        entrust_error(staking, v, other, delegation, now) == Some(StakingError::PoolFinished),
{
}

/// No operation answers with the ledger's own failure: that error is the
/// caller's to report.
pub proof fn lemma_ledger_error_is_never_returned(
    staking: Staking,
    v: StakerInfoView,
    other: StakerInfoView,
    records: Seq<StakerInfoView>,
    amount: u64,
    now: u64,
    registration: Register,
    purchase: BuyFctr,
    fctr_sale: SellFctr,
    bcdev_sale: SellBcdev,
    staking_ctx: Stake,
    unstaking_ctx: Unstake,
    delegation: Entrust,
)
    ensures
        register_error(staking, registration) != Some(StakingError::LedgerError),
        buy_fctr_error(staking, v, purchase, amount, now) != Some(StakingError::LedgerError),
        sell_fctr_error(staking, v, fctr_sale, amount) != Some(StakingError::LedgerError),
        sell_bcdev_error(staking, v, bcdev_sale, amount) != Some(StakingError::LedgerError),
        stake_error(staking, v, staking_ctx, amount, now) != Some(StakingError::LedgerError),
        unstake_error(staking, v, records, unstaking_ctx, now) != Some(StakingError::LedgerError),
        entrust_error(staking, v, other, delegation, now) != Some(StakingError::LedgerError),
        demand_back_error(v, other, now) != Some(StakingError::LedgerError),
        accrue_error(v, now) != Some(StakingError::LedgerError),
{
}

/// Purchases and sales move the pool's counters and nothing else: its
/// parameters and its lifecycle stay what they are, and no counter goes down.
pub proof fn lemma_trades_keep_the_pool(staking: Staking, amount: u64)
    ensures
        buy_fctr_pool(staking, amount) == (Staking {
            total_fctr_bought_by_users: buy_fctr_pool(staking, amount).total_fctr_bought_by_users,
            ..staking
        }),
        sell_fctr_pool(staking, amount) == (Staking {
            total_fctr_sold_by_users: sell_fctr_pool(staking, amount).total_fctr_sold_by_users,
            ..staking
        }),
        sell_bcdev_pool(staking, amount) == (Staking {
            total_bcdev_sold_by_users: sell_bcdev_pool(staking, amount).total_bcdev_sold_by_users,
            ..staking
        }),
        staking.total_fctr_bought_by_users + amount <= u64::MAX ==> buy_fctr_pool(
            staking,
            amount,
        ).total_fctr_bought_by_users >= staking.total_fctr_bought_by_users,
        staking.total_fctr_sold_by_users + amount <= u64::MAX ==> sell_fctr_pool(
            staking,
            amount,
        ).total_fctr_sold_by_users >= staking.total_fctr_sold_by_users,
        staking.total_bcdev_sold_by_users + amount <= u64::MAX ==> sell_bcdev_pool(
            staking,
            amount,
        ).total_bcdev_sold_by_users >= staking.total_bcdev_sold_by_users,
{
}

/// Accrual and a sale of BCDEV leave the FCTR of a record alone, so it stays
/// covered.
pub proof fn lemma_reward_side_keeps_covered(v: StakerInfoView, amount: u64, now: u64)
    requires
        covered(v),
    ensures
        covered(accrue_next(v, now)),
        covered(sell_bcdev_staker(v, amount)),
{
}

/// A purchase keeps the buyer's record covered.
pub proof fn lemma_buy_keeps_covered(
    staking: Staking,
    v: StakerInfoView,
    ctx: BuyFctr,
    amount: u64,
    now: u64,
)
    requires
        buy_fctr_error(staking, v, ctx, amount, now) is None,
        covered(v),
    ensures
        covered(buy_fctr_staker(v, amount, now)),
{
}

/// Staking keeps the staker's record covered: what leaves the liquid
/// holdings enters the stake.
pub proof fn lemma_stake_keeps_covered(
    staking: Staking,
    v: StakerInfoView,
    ctx: Stake,
    amount: u64,
    now: u64,
)
    requires
        stake_error(staking, v, ctx, amount, now) is None,
        covered(v),
    ensures
        covered(stake_staker(v, amount, now)),
{
}

/// Unstaking leaves the staker's record covered, with nothing delegated to
/// it any more.
pub proof fn lemma_unstake_keeps_covered(
    staking: Staking,
    v: StakerInfoView,
    records: Seq<StakerInfoView>,
    ctx: Unstake,
    now: u64,
)
    requires
        unstake_error(staking, v, records, ctx, now) is None,
    ensures
        entrusted_total(unstake_staker(v, now).principals) == 0,
        covered(unstake_staker(v, now)),
{
    lemma_reclaimed(v.principals);
}

/// Unstaking keeps the record of every principal covered: a principal only
/// gains.
pub proof fn lemma_unstake_keeps_principals_covered(
    staking: Staking,
    v: StakerInfoView,
    records: Seq<StakerInfoView>,
    ctx: Unstake,
    now: u64,
    i: int,
)
    requires
        unstake_error(staking, v, records, ctx, now) is None,
        0 <= i < records.len(),
        covered(records[i]),
    ensures
        covered(unstake_principal(v, now, i, records[i])),
{
    assert(credit_fits(
        records[i],
        v.principals[i].amount as int,
        reward_share(accrued_reward(v, now), v.principals[i].amount as int, v.stake_size as int),
    ));
}

/// A delegation keeps the confidant's record covered: what is entered in its
/// list is added to its holdings.
pub proof fn lemma_entrust_keeps_confidant_covered(
    staking: Staking,
    p: StakerInfoView,
    c: StakerInfoView,
    ctx: Entrust,
    now: u64,
)
    requires
        entrust_error(staking, p, c, ctx, now) is None,
        covered(c),
    ensures
        entrusted_total(entrust_confidant(p, c, now).principals) == entrusted_total(c.principals)
            + entrust_amount(p),
        covered(entrust_confidant(p, c, now)),
{
    let s = c.principals;
    let amount = entrust_amount(p);
    let k = slot_of(s, p.staker);
    lemma_slot_from(s, p.staker, 0);
    if k < s.len() {
        lemma_entrusted_total_update(
            s,
            k,
            EntrustInfo { principal: p.staker, amount: (s[k].amount + amount) as u64 },
        );
    } else if s.len() < MAX_PRINCIPALS {
        lemma_entrusted_total_push(s, EntrustInfo { principal: p.staker, amount });
    } else {
        assert(active_count(s) < s.len());
        lemma_vacant_exists(s);
        lemma_entrusted_total_update(
            s,
            vacant_slot(s),
            EntrustInfo { principal: p.staker, amount },
        );
    }
}

/// A demand-back keeps both records covered: what leaves the confidant's
/// list leaves its holdings, and the principal only gains.
pub proof fn lemma_demand_back_keeps_covered(p: StakerInfoView, c: StakerInfoView, now: u64)
    requires
        demand_back_error(p, c, now) is None,
        covered(c),
        covered(p),
    ensures
        covered(demand_back_confidant(p, c, now)),
        covered(demand_back_principal(p, c)),
{
    let k = slot_of(c.principals, p.staker);
    lemma_slot_from(c.principals, p.staker, 0);
    lemma_entrusted_total_update(
        c.principals,
        k,
        EntrustInfo { principal: p.staker, amount: 0 },
    );
}

} // verus!
