//! Reward accrual: the reward a stake earns grows with the time it is
//! staked, the amount staked and the record's multiplier.

use vstd::prelude::*;
use crate::error::StakingError;
use crate::state::{StakerInfo, StakerInfoView};

verus! {

/// Reward earned over `elapsed` seconds by `basis` staked units at
/// `multiplier`.
pub open spec fn reward_increment(elapsed: int, basis: int, multiplier: int) -> int {
    elapsed * basis * multiplier
}

/// The pending reward of `v` once the window from its last update to `now`
/// is closed. The basis is the staked amount.
pub open spec fn accrued_reward(v: StakerInfoView, now: u64) -> int {
    v.pending_bcdev_reward + reward_increment(
        now - v.last_update_timestamp,
        v.stake_size as int,
        v.user_rpr as int,
    )
}

/// Accrual is refused when the clock is behind the record's last update, or
/// when the pending reward would leave the range of `u64`.
pub open spec fn accrue_error(v: StakerInfoView, now: u64) -> Option<StakingError> {
    if now < v.last_update_timestamp || accrued_reward(v, now) > u64::MAX {
        Some(StakingError::ArithmeticOverflow)
    } else {
        None
    }
}

/// The record after accrual at `now`.
pub open spec fn accrue_next(v: StakerInfoView, now: u64) -> StakerInfoView {
    StakerInfoView {
        pending_bcdev_reward: accrued_reward(v, now) as u64,
        last_update_timestamp: now,
        ..v
    }
}

/// Computes the pending reward that accrual at `now` would leave, without
/// changing the record.
pub fn accrued(staker_info: &StakerInfo, now: u64) -> (r: Result<u64, StakingError>)
    ensures
        match r {
            Ok(pending) => accrue_error(staker_info@, now) is None && pending == accrued_reward(
                staker_info@,
                now,
            ),
            Err(e) => accrue_error(staker_info@, now) == Some(e),
        },
{
    if now < staker_info.last_update_timestamp {
        return Err(StakingError::ArithmeticOverflow);
    }
    let elapsed: u64 = now - staker_info.last_update_timestamp;
    let basis: u64 = staker_info.stake_size;
    let multiplier: u64 = staker_info.user_rpr;
    let pending: u64 = staker_info.pending_bcdev_reward;
    proof {
        assert(0 <= elapsed * basis <= 0xFFFF_FFFF_FFFF_FFFF * 0xFFFF_FFFF_FFFF_FFFF)
            by (nonlinear_arith)
            requires
                0 <= elapsed <= 0xFFFF_FFFF_FFFF_FFFF,
                0 <= basis <= 0xFFFF_FFFF_FFFF_FFFF,
        ;
    }
    let weighted: u128 = (elapsed as u128) * (basis as u128);
    let room: u64 = u64::MAX - pending;
    match weighted.checked_mul(multiplier as u128) {
        Some(increment) => {
            if increment > room as u128 {
                Err(StakingError::ArithmeticOverflow)
            } else {
                Ok(pending + increment as u64)
            }
        },
        None => Err(StakingError::ArithmeticOverflow),
    }
}

/// Closes the accrual window of `staker_info` at `now`: adds the reward
/// earned since the last update and moves the last update to `now`.
pub fn accrue(staker_info: &mut StakerInfo, now: u64) -> (r: Result<(), StakingError>)
    ensures
        match r {
            Ok(()) => accrue_error(old(staker_info)@, now) is None && final(staker_info)@
                == accrue_next(old(staker_info)@, now),
            Err(e) => accrue_error(old(staker_info)@, now) == Some(e) && final(staker_info)@ == old(
                staker_info,
            )@,
        },
        old(staker_info).wf() ==> final(staker_info).wf(),
{
    match accrued(staker_info, now) {
        Ok(pending) => {
            staker_info.pending_bcdev_reward = pending;
            staker_info.last_update_timestamp = now;
            Ok(())
        },
        Err(e) => Err(e),
    }
}

/// Accrual is additive: closing the window at `first` and then at `second`
/// leaves the record that closing it once at `second` leaves, and the two
/// steps succeed exactly when the single step does.
pub proof fn lemma_accrue_additive(v: StakerInfoView, first: u64, second: u64)
    requires
        v.last_update_timestamp <= first <= second,
    ensures
        accrue_error(v, second) is None <==> (accrue_error(v, first) is None && accrue_error(
            accrue_next(v, first),
            second,
        ) is None),
        accrue_error(v, second) is None ==> accrue_next(accrue_next(v, first), second)
            == accrue_next(v, second),
{
    let t1 = first - v.last_update_timestamp;
    let t2 = second - first;
    let s = v.stake_size as int;
    let m = v.user_rpr as int;
    assert(reward_increment(t1 + t2, s, m) == reward_increment(t1, s, m) + reward_increment(
        t2,
        s,
        m,
    )) by (nonlinear_arith);
    assert(reward_increment(t1, s, m) >= 0) by (nonlinear_arith)
        requires
            t1 >= 0,
            s >= 0,
            m >= 0,
    ;
    assert(reward_increment(t2, s, m) >= 0) by (nonlinear_arith)
        requires
            t2 >= 0,
            s >= 0,
            m >= 0,
    ;
}

} // verus!
