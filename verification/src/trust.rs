//! Delegation: a principal entrusts half of its FCTR to a confidant, and
//! demands it back.

use vstd::prelude::*;
use vstd::pervasive::unreached;
use crate::accrual::{accrue_error, accrue_next, accrued};
use crate::error::StakingError;
use crate::instructions::Entrust;
use crate::ledger::{Holder, LedgerCall, Token};
use crate::principals::{
    active_count, count_active, find_principal, find_vacant, lemma_slot_from, lemma_vacant_exists,
    slot_from, slot_of, vacant_slot,
};
use crate::state::{
    distinct_principals, EntrustInfo, Identity, Staking, StakerInfo, StakerInfoView, MAX_PRINCIPALS,
};

verus! {

/// What a principal delegates: half of its liquid FCTR.
pub open spec fn entrust_amount(p: StakerInfoView) -> u64 {
    p.fctr_amount / 2
}

/// Neither holding is more than twice the other.
pub open spec fn within_factor_two(a: int, b: int) -> bool {
    a <= 2 * b && b <= 2 * a
}

/// The list of a confidant once `who` has delegated `amount`: the entry of
/// `who` grows by `amount` if there is one; else a new entry is appended
/// while the list is short of its capacity; else the first reclaimed entry is
/// given to `who`.
pub open spec fn entrusted_list(s: Seq<EntrustInfo>, who: Identity, amount: u64) -> Seq<
    EntrustInfo,
> {
    let k = slot_of(s, who);
    if k < s.len() {
        s.update(k, EntrustInfo { principal: who, amount: (s[k].amount + amount) as u64 })
    } else if s.len() < MAX_PRINCIPALS {
        s.push(EntrustInfo { principal: who, amount })
    } else {
        s.update(vacant_slot(s), EntrustInfo { principal: who, amount })
    }
}

/// The entry of `who` cannot take `amount` more.
pub open spec fn entry_overflows(s: Seq<EntrustInfo>, who: Identity, amount: u64) -> bool {
    slot_of(s, who) < s.len() && s[slot_of(s, who)].amount + amount > u64::MAX
}

/// Why the delegation from `p` to `c` at `now` is refused, if it is.
pub open spec fn entrust_error(
    staking: Staking,
    p: StakerInfoView,
    c: StakerInfoView,
    ctx: Entrust,
    now: u64,
) -> Option<StakingError> {
    let amount = entrust_amount(p);
    if staking.finished {
        Some(StakingError::PoolFinished)
    } else if active_count(c.principals) >= MAX_PRINCIPALS {
        Some(StakingError::TooManyPrincipals)
    } else if amount > p.fctr_amount || amount > ctx.principal_fctr_balance {
        Some(StakingError::InsufficientHoldings)
    } else if amount < p.bought_fctr / 4 {
        Some(StakingError::InsufficientAmountEntrusted)
    } else if !within_factor_two(p.fctr_amount as int, c.fctr_amount as int) {
        Some(StakingError::DepositRatioTooWide)
    } else if accrue_error(p, now) is Some || accrue_error(c, now) is Some || p.user_rpr + 2
        > u64::MAX || c.fctr_amount + amount > u64::MAX || (c.is_staked && c.stake_size + amount
        > u64::MAX) || entry_overflows(c.principals, p.staker, amount) {
        Some(StakingError::ArithmeticOverflow)
    } else {
        None
    }
}

/// The principal's record after it has delegated at `now`: the reward window
/// closed, the amount gone from its liquid FCTR, its multiplier raised by
/// two, and the trust flag set.
pub open spec fn entrust_principal(p: StakerInfoView, now: u64) -> StakerInfoView {
    StakerInfoView {
        fctr_amount: (p.fctr_amount - entrust_amount(p)) as u64,
        user_rpr: (p.user_rpr + 2) as u64,
        is_in_trust_program: true,
        ..accrue_next(p, now)
    }
}

/// The confidant's record after `p` has delegated to it at `now`: the reward
/// window closed, the amount added to its FCTR holdings and, if it is staked,
/// to its stake as well, the trust flag set, and the amount entered in its
/// list.
pub open spec fn entrust_confidant(p: StakerInfoView, c: StakerInfoView, now: u64)
    -> StakerInfoView {
    let amount = entrust_amount(p);
    StakerInfoView {
        stake_size: if c.is_staked {
            (c.stake_size + amount) as u64
        } else {
            c.stake_size
        },
        fctr_amount: (c.fctr_amount + amount) as u64,
        is_in_trust_program: true,
        principals: entrusted_list(c.principals, p.staker, amount),
        ..accrue_next(c, now)
    }
}

/// The instructions of a delegation: the amount is burnt from the principal
/// and minted to the pool's reserve if the confidant is staked, to the
/// confidant if it is not.
pub open spec fn entrust_calls(p: StakerInfoView, c: StakerInfoView) -> Seq<LedgerCall> {
    seq![
        LedgerCall::Burn {
            token: Token::Fctr,
            from: Holder::Participant(p.staker),
            amount: entrust_amount(p),
        },
        LedgerCall::Mint {
            token: Token::Fctr,
            to: if c.is_staked {
                Holder::Pool
            } else {
                Holder::Participant(c.staker)
            },
            amount: entrust_amount(p),
        },
    ]
}

/// Why `p` cannot demand back from `c` at `now`, if it cannot.
pub open spec fn demand_back_error(p: StakerInfoView, c: StakerInfoView, now: u64) -> Option<
    StakingError,
> {
    let k = slot_of(c.principals, p.staker);
    if k >= c.principals.len() {
        Some(StakingError::NoSuchPrincipal)
    } else if c.principals[k].amount == 0 {
        Some(StakingError::NothingToDemandBack)
    } else if accrue_error(c, now) is Some {
        Some(StakingError::ArithmeticOverflow)
    } else if (if c.is_staked {
        c.stake_size
    } else {
        c.fctr_amount
    }) < c.principals[k].amount {
        Some(StakingError::InsufficientBalance)
    } else if p.fctr_amount + c.principals[k].amount > u64::MAX {
        Some(StakingError::ArithmeticOverflow)
    } else {
        None
    }
}

/// What `p` has with `c`: the amount of its entry.
pub open spec fn demanded_amount(p: StakerInfoView, c: StakerInfoView) -> u64 {
    c.principals[slot_of(c.principals, p.staker)].amount
}

/// The principal's record after it has demanded back from `c`.
pub open spec fn demand_back_principal(p: StakerInfoView, c: StakerInfoView) -> StakerInfoView {
    StakerInfoView { fctr_amount: (p.fctr_amount + demanded_amount(p, c)) as u64, ..p }
}

/// The confidant's record after `p` has demanded back at `now`: the reward
/// window closed, the entry of `p` reclaimed, and the amount taken from the
/// stake if the confidant is staked, from its liquid FCTR if it is not.
pub open spec fn demand_back_confidant(p: StakerInfoView, c: StakerInfoView, now: u64)
    -> StakerInfoView {
    let k = slot_of(c.principals, p.staker);
    let amount = demanded_amount(p, c);
    StakerInfoView {
        stake_size: if c.is_staked {
            (c.stake_size - amount) as u64
        } else {
            c.stake_size
        },
        fctr_amount: if c.is_staked {
            c.fctr_amount
        } else {
            (c.fctr_amount - amount) as u64
        },
        principals: c.principals.update(k, EntrustInfo { principal: p.staker, amount: 0 }),
        ..accrue_next(c, now)
    }
}

/// The instruction of a demand-back: the amount is minted to the principal.
pub open spec fn demand_back_calls(p: StakerInfoView, c: StakerInfoView) -> Seq<LedgerCall> {
    seq![
        LedgerCall::Mint {
            token: Token::Fctr,
            to: Holder::Participant(p.staker),
            amount: demanded_amount(p, c),
        },
    ]
}

/// A list that names `who` nowhere still names no principal twice when an
/// entry for `who` is appended or takes the place of another.
proof fn lemma_entrusted_list_wf(s: Seq<EntrustInfo>, who: Identity, amount: u64)
    requires
        distinct_principals(s),
        active_count(s) < MAX_PRINCIPALS,
    ensures
        distinct_principals(entrusted_list(s, who, amount)),
        s.len() <= MAX_PRINCIPALS ==> entrusted_list(s, who, amount).len() <= MAX_PRINCIPALS,
{
    lemma_slot_from(s, who, 0);
    let k = slot_of(s, who);
    let after = entrusted_list(s, who, amount);
    if k < s.len() {
        assert forall|i: int, j: int| 0 <= i < j < after.len() implies (#[trigger] after[i]).principal
            != (#[trigger] after[j]).principal by {
            assert(after[i].principal == s[i].principal);
            assert(after[j].principal == s[j].principal);
        }
    } else if s.len() < MAX_PRINCIPALS {
        assert forall|i: int, j: int| 0 <= i < j < after.len() implies (#[trigger] after[i]).principal
            != (#[trigger] after[j]).principal by {
            if j < s.len() {
                assert(after[i] == s[i]);
                assert(after[j] == s[j]);
            } else {
                assert(after[i] == s[i]);
            }
        }
    } else {
        lemma_vacant_exists(s);
        let v = vacant_slot(s);
        assert forall|i: int, j: int| 0 <= i < j < after.len() implies (#[trigger] after[i]).principal
            != (#[trigger] after[j]).principal by {
            if i != v {
                assert(after[i] == s[i]);
            }
            if j != v {
                assert(after[j] == s[j]);
            }
        }
    }
}

/// Reclaiming an entry moves no principal: every search finds what it found
/// before.
pub proof fn lemma_slot_after_reclaim(s: Seq<EntrustInfo>, k: int, who: Identity, from: int)
    requires
        0 <= k < s.len(),
        0 <= from <= s.len(),
    ensures
        slot_from(s.update(k, EntrustInfo { principal: s[k].principal, amount: 0 }), who, from)
            == slot_from(s, who, from),
    decreases s.len() - from,
{
    let after = s.update(k, EntrustInfo { principal: s[k].principal, amount: 0 });
    if from < s.len() {
        assert(after[from].principal == s[from].principal);
        if s[from].principal != who {
            lemma_slot_after_reclaim(s, k, who, from + 1);
        }
    }
}

/// A confidant that serves the maximum number of active principals takes no
/// further delegation while the pool runs, whoever asks and whatever the
/// amounts are.
pub proof fn lemma_full_confidant_refuses(
    staking: Staking,
    p: StakerInfoView,
    c: StakerInfoView,
    ctx: Entrust,
    now: u64,
)
    requires
        !staking.finished,
        active_count(c.principals) >= MAX_PRINCIPALS,
    ensures
        entrust_error(staking, p, c, ctx, now) == Some(StakingError::TooManyPrincipals),
{
}

/// What was demanded back cannot be demanded back again: after a demand-back
/// that succeeded, the next one by the same principal from the same
/// confidant is refused because nothing is left, at whatever time it comes.
pub proof fn lemma_demand_back_once(p: StakerInfoView, c: StakerInfoView, now: u64, later: u64)
    requires
        demand_back_error(p, c, now) is None,
    ensures
        demand_back_error(demand_back_principal(p, c), demand_back_confidant(p, c, now), later)
            == Some(StakingError::NothingToDemandBack),
{
    let k = slot_of(c.principals, p.staker);
    lemma_slot_from(c.principals, p.staker, 0);
    lemma_slot_after_reclaim(c.principals, k, p.staker, 0);
}

/// Delegates half of the principal's liquid FCTR to the confidant at `now`.
///
/// The returned instructions move the amount on the ledger. A refusal
/// changes neither record.
pub fn entrust(
    staking: &Staking,
    principal_info: &mut StakerInfo,
    confidant_info: &mut StakerInfo,
    ctx: &Entrust,
    now: u64,
) -> (r: Result<Vec<LedgerCall>, StakingError>)
    ensures
        match r {
            Ok(calls) => (entrust_error(
                *staking,
                old(principal_info)@,
                old(confidant_info)@,
                *ctx,
                now,
            ) is None
                && final(principal_info)@ == entrust_principal(old(principal_info)@, now)
                && final(confidant_info)@ == entrust_confidant(
                old(principal_info)@,
                old(confidant_info)@,
                now,
            ) && calls@ == entrust_calls(old(principal_info)@, old(confidant_info)@)),
            Err(e) => (entrust_error(
                *staking,
                old(principal_info)@,
                old(confidant_info)@,
                *ctx,
                now,
            ) == Some(e)
                && final(principal_info)@ == old(principal_info)@
                && final(confidant_info)@ == old(confidant_info)@),
        },
        old(principal_info).wf() ==> final(principal_info).wf(),
        old(confidant_info).wf() ==> final(confidant_info).wf(),
{
    let amount: u64 = principal_info.fctr_amount / 2;
    let who: Identity = principal_info.staker;
    if staking.finished {
        return Err(StakingError::PoolFinished);
    }
    if count_active(&confidant_info.principals) >= MAX_PRINCIPALS {
        return Err(StakingError::TooManyPrincipals);
    }
    if amount > principal_info.fctr_amount || amount > ctx.principal_fctr_balance {
        return Err(StakingError::InsufficientHoldings);
    }
    if amount < principal_info.bought_fctr / 4 {
        return Err(StakingError::InsufficientAmountEntrusted);
    }
    let principal_holding: u128 = principal_info.fctr_amount as u128;
    let confidant_holding: u128 = confidant_info.fctr_amount as u128;
    if principal_holding > 2 * confidant_holding || confidant_holding > 2 * principal_holding {
        return Err(StakingError::DepositRatioTooWide);
    }
    let principal_pending: u64 = match accrued(principal_info, now) {
        Ok(pending) => pending,
        Err(e) => {
            return Err(e);
        },
    };
    let confidant_pending: u64 = match accrued(confidant_info, now) {
        Ok(pending) => pending,
        Err(e) => {
            return Err(e);
        },
    };
    if principal_info.user_rpr > u64::MAX - 2 || confidant_info.fctr_amount > u64::MAX - amount {
        return Err(StakingError::ArithmeticOverflow);
    }
    if confidant_info.is_staked && confidant_info.stake_size > u64::MAX - amount {
        return Err(StakingError::ArithmeticOverflow);
    }
    let slot: Option<usize> = find_principal(&confidant_info.principals, who);
    if let Some(k) = slot {
        if confidant_info.principals[k].amount > u64::MAX - amount {
            return Err(StakingError::ArithmeticOverflow);
        }
    }
    proof {
        lemma_slot_from(confidant_info@.principals, who, 0);
        if old(confidant_info).wf() {
            lemma_entrusted_list_wf(confidant_info@.principals, who, amount);
        }
    }
    principal_info.pending_bcdev_reward = principal_pending;
    principal_info.last_update_timestamp = now;
    principal_info.fctr_amount = principal_info.fctr_amount - amount;
    principal_info.user_rpr = principal_info.user_rpr + 2;
    principal_info.is_in_trust_program = true;

    let to: Holder = if confidant_info.is_staked {
        Holder::Pool
    } else {
        Holder::Participant(confidant_info.staker)
    };
    confidant_info.pending_bcdev_reward = confidant_pending;
    confidant_info.last_update_timestamp = now;
    if confidant_info.is_staked {
        confidant_info.stake_size = confidant_info.stake_size + amount;
    }
    confidant_info.fctr_amount = confidant_info.fctr_amount + amount;
    confidant_info.is_in_trust_program = true;
    match slot {
        Some(k) => {
            confidant_info.principals[k].amount = confidant_info.principals[k].amount + amount;
        },
        None => {
            if confidant_info.principals.len() < MAX_PRINCIPALS {
                confidant_info.principals.push(EntrustInfo { principal: who, amount });
            } else {
                proof {
                    lemma_vacant_exists(confidant_info@.principals);
                }
                match find_vacant(&confidant_info.principals) {
                    Some(v) => {
                        confidant_info.principals[v].principal = who;
                        confidant_info.principals[v].amount = amount;
                    },
                    None => {
                        unreached::<()>();
                    },
                }
            }
        },
    }
    proof {
        assert(confidant_info@.principals =~= entrusted_list(
            old(confidant_info)@.principals,
            who,
            amount,
        ));
    }
    let mut calls: Vec<LedgerCall> = Vec::new();
    calls.push(LedgerCall::Burn { token: Token::Fctr, from: Holder::Participant(who), amount });
    calls.push(LedgerCall::Mint { token: Token::Fctr, to, amount });
    proof {
        assert(calls@ =~= entrust_calls(old(principal_info)@, old(confidant_info)@));
    }
    Ok(calls)
}

/// Takes back at `now` what the principal has delegated to the confidant.
///
/// The confidant's entry for the principal is reclaimed and keeps its place.
/// The returned instruction mints the amount to the principal. A refusal
/// changes neither record.
pub fn demand_back(principal_info: &mut StakerInfo, confidant_info: &mut StakerInfo, now: u64) -> (r:
    Result<Vec<LedgerCall>, StakingError>)
    ensures
        match r {
            Ok(calls) => (demand_back_error(old(principal_info)@, old(confidant_info)@, now)
                is None
                && final(principal_info)@ == demand_back_principal(
                old(principal_info)@,
                old(confidant_info)@,
            ) && final(confidant_info)@ == demand_back_confidant(
                old(principal_info)@,
                old(confidant_info)@,
                now,
            ) && calls@ == demand_back_calls(old(principal_info)@, old(confidant_info)@)),
            Err(e) => (demand_back_error(old(principal_info)@, old(confidant_info)@, now) == Some(e)
                && final(principal_info)@ == old(principal_info)@
                && final(confidant_info)@ == old(confidant_info)@),
        },
        old(principal_info).wf() ==> final(principal_info).wf(),
        old(confidant_info).wf() ==> final(confidant_info).wf(),
{
    let who: Identity = principal_info.staker;
    let k: usize = match find_principal(&confidant_info.principals, who) {
        Some(k) => k,
        None => {
            return Err(StakingError::NoSuchPrincipal);
        },
    };
    let amount: u64 = confidant_info.principals[k].amount;
    if amount == 0 {
        return Err(StakingError::NothingToDemandBack);
    }
    let pending: u64 = match accrued(confidant_info, now) {
        Ok(pending) => pending,
        Err(e) => {
            return Err(e);
        },
    };
    let source: u64 = if confidant_info.is_staked {
        confidant_info.stake_size
    } else {
        confidant_info.fctr_amount
    };
    if source < amount {
        return Err(StakingError::InsufficientBalance);
    }
    if principal_info.fctr_amount > u64::MAX - amount {
        return Err(StakingError::ArithmeticOverflow);
    }
    proof {
        lemma_slot_from(confidant_info@.principals, who, 0);
    }
    principal_info.fctr_amount = principal_info.fctr_amount + amount;
    confidant_info.pending_bcdev_reward = pending;
    confidant_info.last_update_timestamp = now;
    if confidant_info.is_staked {
        confidant_info.stake_size = confidant_info.stake_size - amount;
    } else {
        confidant_info.fctr_amount = confidant_info.fctr_amount - amount;
    }
    confidant_info.principals[k].amount = 0;
    proof {
        let before = old(confidant_info)@.principals;
        let after = confidant_info@.principals;
        assert(after =~= before.update(k as int, EntrustInfo { principal: who, amount: 0 }));
        assert forall|i: int, j: int| 0 <= i < j < after.len() && distinct_principals(
            before,
        ) implies (#[trigger] after[i]).principal != (#[trigger] after[j]).principal by {
            assert(after[i].principal == before[i].principal);
            assert(after[j].principal == before[j].principal);
        }
    }
    let mut calls: Vec<LedgerCall> = Vec::new();
    calls.push(LedgerCall::Mint { token: Token::Fctr, to: Holder::Participant(who), amount });
    proof {
        assert(calls@ =~= demand_back_calls(old(principal_info)@, old(confidant_info)@));
    }
    Ok(calls)
}

} // verus!
