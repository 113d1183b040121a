//! Unstaking: the stake and the reward are split between the principals and
//! the staker.

use vstd::prelude::*;
use crate::accrual::{accrue_error, accrue_next, accrued, accrued_reward};
use crate::error::StakingError;
use crate::instructions::Unstake;
use crate::ledger::{minted_total, Holder, LedgerCall, Token};
use crate::principals::{
    entrusted_total, lemma_entrusted_total_bounds, lemma_reclaimed, reclaimed, total_entrusted,
};
use crate::state::{views_of, EntrustInfo, Staking, StakerInfo, StakerInfoView};

verus! {

/// The part of `pending` that falls to `part` units out of a stake of
/// `total` units, rounded down.
pub open spec fn reward_share(pending: int, part: int, total: int) -> int {
    if total == 0 {
        0
    } else {
        pending * part / total
    }
}

/// The part of `pending` that falls to the staker's own `remainder` out of a
/// stake of `total` units. With nothing staked, nobody else has a claim and
/// the staker keeps all of it.
pub open spec fn own_reward(pending: int, remainder: int, total: int) -> int {
    if total == 0 {
        pending
    } else {
        pending * remainder / total
    }
}

/// The stake that no principal has a claim to.
pub open spec fn unstake_remainder(v: StakerInfoView) -> int {
    v.stake_size - entrusted_total(v.principals)
}

/// One record is supplied for every entry, in order, and is that of the
/// entry's principal.
pub open spec fn records_match(entries: Seq<EntrustInfo>, records: Seq<StakerInfoView>) -> bool {
    &&& entries.len() == records.len()
    &&& forall|i: int|
        0 <= i < entries.len() ==> (#[trigger] records[i]).staker == entries[i].principal
}

/// The record with `fctr` and `bcdev` added to its liquid holdings.
pub open spec fn credited(p: StakerInfoView, fctr: int, bcdev: int) -> StakerInfoView {
    StakerInfoView {
        fctr_amount: (p.fctr_amount + fctr) as u64,
        bcdev_amount: (p.bcdev_amount + bcdev) as u64,
        ..p
    }
}

/// Both holdings stay in range when `fctr` and `bcdev` are added.
pub open spec fn credit_fits(p: StakerInfoView, fctr: int, bcdev: int) -> bool {
    p.fctr_amount + fctr <= u64::MAX && p.bcdev_amount + bcdev <= u64::MAX
}

/// Every principal's record can take its stake and its share of the reward.
pub open spec fn principals_fit(
    entries: Seq<EntrustInfo>,
    records: Seq<StakerInfoView>,
    pending: int,
    total: int,
) -> bool {
    forall|i: int|
        0 <= i < entries.len() ==> credit_fits(
            #[trigger] records[i],
            entries[i].amount as int,
            reward_share(pending, entries[i].amount as int, total),
        )
}

/// Why unstaking `v` at `now` is refused, if it is. `records` are the records
/// of the principals of `v`, one for each entry.
pub open spec fn unstake_error(
    staking: Staking,
    v: StakerInfoView,
    records: Seq<StakerInfoView>,
    ctx: Unstake,
    now: u64,
) -> Option<StakingError> {
    let pending = accrued_reward(v, now);
    let total = v.stake_size as int;
    let remainder = unstake_remainder(v);
    if staking.finished {
        Some(StakingError::PoolFinished)
    } else if ctx.bcdev_mint != staking.bcdev_mint || ctx.fctr_mint != staking.fctr_mint {
        Some(StakingError::WrongMint)
    } else if now - v.stake_time < staking.round_time {
        Some(StakingError::CannotUnstakeThisRound)
    } else if !records_match(v.principals, records) {
        Some(StakingError::NoSuchPrincipal)
    } else if accrue_error(v, now) is Some {
        Some(StakingError::ArithmeticOverflow)
    } else if remainder < 0 {
        Some(StakingError::InsufficientBalance)
    } else if !principals_fit(v.principals, records, pending, total) || !credit_fits(
        v,
        remainder,
        own_reward(pending, remainder, total),
    ) {
        Some(StakingError::ArithmeticOverflow)
    } else {
        None
    }
}

/// The staker's record after unstaking at `now`: the reward window closed,
/// the unclaimed stake and its share of the reward moved to the liquid
/// holdings, nothing staked or pending, and every entry reclaimed.
pub open spec fn unstake_staker(v: StakerInfoView, now: u64) -> StakerInfoView {
    let pending = accrued_reward(v, now);
    let total = v.stake_size as int;
    let remainder = unstake_remainder(v);
    StakerInfoView {
        fctr_amount: (v.fctr_amount + remainder) as u64,
        bcdev_amount: (v.bcdev_amount + own_reward(pending, remainder, total)) as u64,
        pending_bcdev_reward: 0,
        stake_size: 0,
        is_staked: false,
        principals: reclaimed(v.principals),
        ..accrue_next(v, now)
    }
}

/// The record of the principal of entry `i` after `v` is unstaked at `now`:
/// what it delegated and its share of the reward are back in its liquid
/// holdings.
pub open spec fn unstake_principal(
    v: StakerInfoView,
    now: u64,
    i: int,
    record: StakerInfoView,
) -> StakerInfoView {
    credited(
        record,
        v.principals[i].amount as int,
        reward_share(accrued_reward(v, now), v.principals[i].amount as int, v.stake_size as int),
    )
}

/// The instructions that pay one entry out: its stake, then its share of the
/// reward. A reclaimed entry takes none.
pub open spec fn entry_calls(entry: EntrustInfo, pending: int, total: int) -> Seq<LedgerCall> {
    if entry.amount > 0 {
        seq![
            LedgerCall::Mint {
                token: Token::Fctr,
                to: Holder::Participant(entry.principal),
                amount: entry.amount,
            },
            LedgerCall::Mint {
                token: Token::Bcdev,
                to: Holder::Participant(entry.principal),
                amount: reward_share(pending, entry.amount as int, total) as u64,
            },
        ]
    } else {
        Seq::empty()
    }
}

/// The instructions that pay the entries out, in the order of the list.
pub open spec fn payout_calls(entries: Seq<EntrustInfo>, pending: int, total: int) -> Seq<
    LedgerCall,
>
    decreases entries.len(),
{
    if entries.len() == 0 {
        Seq::empty()
    } else {
        payout_calls(entries.drop_last(), pending, total) + entry_calls(
            entries.last(),
            pending,
            total,
        )
    }
}

/// The instructions of unstaking `v` at `now`: the principals are paid out in
/// the order of the list, then the staker receives its reward and its stake.
pub open spec fn unstake_calls(v: StakerInfoView, now: u64) -> Seq<LedgerCall> {
    let pending = accrued_reward(v, now);
    let total = v.stake_size as int;
    let remainder = unstake_remainder(v);
    payout_calls(v.principals, pending, total) + seq![
        LedgerCall::Mint {
            token: Token::Bcdev,
            to: Holder::Participant(v.staker),
            amount: own_reward(pending, remainder, total) as u64,
        },
        LedgerCall::Mint {
            token: Token::Fctr,
            to: Holder::Participant(v.staker),
            amount: remainder as u64,
        },
    ]
}

/// Sum of the reward shares of all entries.
pub open spec fn shares_total(entries: Seq<EntrustInfo>, pending: int, total: int) -> int
    decreases entries.len(),
{
    if entries.len() == 0 {
        0
    } else {
        shares_total(entries.drop_last(), pending, total) + reward_share(
            pending,
            entries.last().amount as int,
            total,
        )
    }
}

/// A share never exceeds the whole, and is never negative.
pub proof fn lemma_share_bounded(pending: int, part: int, total: int)
    requires
        0 <= pending,
        0 <= part <= total,
    ensures
        0 <= reward_share(pending, part, total) <= pending,
        0 <= own_reward(pending, part, total) <= pending,
{
    if total > 0 {
        assert(0 <= pending * part / total <= pending) by (nonlinear_arith)
            requires
                0 <= pending,
                0 <= part <= total,
                total > 0,
        ;
    }
}

/// Rounding down loses, it never adds: two shares are together at most the
/// share of the two parts together.
pub proof fn lemma_shares_add(pending: int, a: int, b: int, total: int)
    requires
        0 <= pending,
        0 <= a,
        0 <= b,
        0 < total,
    ensures
        pending * a / total + pending * b / total <= pending * (a + b) / total,
{
    let x = pending * a;
    let y = pending * b;
    assert(pending * (a + b) == x + y) by (nonlinear_arith)
        requires
            x == pending * a,
            y == pending * b,
    ;
    assert(x / total + y / total <= (x + y) / total) by (nonlinear_arith)
        requires
            0 < total,
    ;
}

/// The shares of the entries are together at most the share of their total.
pub proof fn lemma_shares_total(entries: Seq<EntrustInfo>, pending: int, total: int)
    requires
        0 <= pending,
        0 < total,
    ensures
        0 <= shares_total(entries, pending, total) <= pending * entrusted_total(entries) / total,
    decreases entries.len(),
{
    if entries.len() == 0 {
        assert(pending * 0 / total == 0) by (nonlinear_arith)
            requires
                0 < total,
        ;
    } else {
        let rest = entries.drop_last();
        let a = entries.last().amount as int;
        lemma_shares_total(rest, pending, total);
        lemma_shares_add(pending, entrusted_total(rest) as int, a, total);
        assert(0 <= pending * a / total) by (nonlinear_arith)
            requires
                0 <= pending,
                0 <= a,
                0 < total,
        ;
    }
}

/// Minting adds up over concatenation.
pub proof fn lemma_minted_total_concat(a: Seq<LedgerCall>, b: Seq<LedgerCall>, token: Token)
    ensures
        minted_total(a + b, token) == minted_total(a, token) + minted_total(b, token),
    decreases b.len(),
{
    if b.len() == 0 {
        assert(a + b =~= a);
    } else {
        lemma_minted_total_concat(a, b.drop_last(), token);
        assert((a + b).drop_last() =~= a + b.drop_last());
    }
}

/// What the pay-out of one entry mints.
pub proof fn lemma_entry_calls_minted(entry: EntrustInfo, pending: int, total: int)
    requires
        0 <= pending <= u64::MAX,
        entry.amount <= total,
    ensures
        minted_total(entry_calls(entry, pending, total), Token::Fctr) == entry.amount,
        minted_total(entry_calls(entry, pending, total), Token::Bcdev) == if entry.amount > 0 {
            reward_share(pending, entry.amount as int, total)
        } else {
            0
        },
{
    let calls = entry_calls(entry, pending, total);
    if entry.amount > 0 {
        lemma_share_bounded(pending, entry.amount as int, total);
        assert(calls.drop_last() =~= seq![calls[0]]);
        assert(calls.drop_last().drop_last() =~= Seq::<LedgerCall>::empty());
        assert(minted_total(calls.drop_last().drop_last(), Token::Fctr) == 0);
        assert(minted_total(calls.drop_last().drop_last(), Token::Bcdev) == 0);
        assert(minted_total(calls.drop_last(), Token::Fctr) == entry.amount);
        assert(minted_total(calls.drop_last(), Token::Bcdev) == 0);
    }
}

/// Nothing falls to a part of zero.
pub proof fn lemma_share_of_nothing(pending: int, total: int)
    ensures
        reward_share(pending, 0, total) == 0,
{
    if total != 0 {
        assert(pending * 0 / total == 0) by (nonlinear_arith)
            requires
                total != 0,
        ;
    }
}

/// What the pay-out of all entries mints: of FCTR what was delegated, of
/// BCDEV the shares.
pub proof fn lemma_payout_minted(entries: Seq<EntrustInfo>, pending: int, total: int)
    requires
        0 <= pending <= u64::MAX,
        entrusted_total(entries) <= total,
    ensures
        minted_total(payout_calls(entries, pending, total), Token::Fctr) == entrusted_total(
            entries,
        ),
        minted_total(payout_calls(entries, pending, total), Token::Bcdev) == shares_total(
            entries,
            pending,
            total,
        ),
    decreases entries.len(),
{
    if entries.len() > 0 {
        let rest = entries.drop_last();
        lemma_payout_minted(rest, pending, total);
        lemma_entry_calls_minted(entries.last(), pending, total);
        lemma_share_of_nothing(pending, total);
        lemma_minted_total_concat(
            payout_calls(rest, pending, total),
            entry_calls(entries.last(), pending, total),
            Token::Fctr,
        );
        lemma_minted_total_concat(
            payout_calls(rest, pending, total),
            entry_calls(entries.last(), pending, total),
            Token::Bcdev,
        );
    }
}

/// Unstaking conserves the stake and does not create reward. Where it
/// succeeds, what the principals receive and what the staker receives is
/// together exactly the stake, the instructions mint exactly the stake in
/// FCTR, and they mint at most the accrued reward in BCDEV, each party's part
/// being its proportional share rounded down.
pub proof fn lemma_unstake_conserves(
    staking: Staking,
    v: StakerInfoView,
    records: Seq<StakerInfoView>,
    ctx: Unstake,
    now: u64,
)
    requires
        unstake_error(staking, v, records, ctx, now) is None,
    ensures
        0 <= unstake_remainder(v),
        entrusted_total(v.principals) + unstake_remainder(v) == v.stake_size,
        minted_total(unstake_calls(v, now), Token::Fctr) == v.stake_size,
        minted_total(unstake_calls(v, now), Token::Bcdev) == shares_total(
            v.principals,
            accrued_reward(v, now),
            v.stake_size as int,
        ) + own_reward(accrued_reward(v, now), unstake_remainder(v), v.stake_size as int),
        minted_total(unstake_calls(v, now), Token::Bcdev) <= accrued_reward(v, now),
{
    let pending = accrued_reward(v, now);
    let total = v.stake_size as int;
    let remainder = unstake_remainder(v);
    let own = own_reward(pending, remainder, total);
    assert(0 <= pending) by {
        assert(0 <= (now - v.last_update_timestamp) * (v.stake_size as int) * (v.user_rpr as int))
            by (nonlinear_arith)
            requires
                0 <= now - v.last_update_timestamp,
                0 <= v.stake_size as int,
                0 <= v.user_rpr as int,
        ;
    }
    lemma_payout_minted(v.principals, pending, total);
    lemma_share_bounded(pending, remainder, total);
    let tail = seq![
        LedgerCall::Mint { token: Token::Bcdev, to: Holder::Participant(v.staker), amount: own as u64 },
        LedgerCall::Mint {
            token: Token::Fctr,
            to: Holder::Participant(v.staker),
            amount: remainder as u64,
        },
    ];
    assert(tail.drop_last() =~= seq![tail[0]]);
    assert(tail.drop_last().drop_last() =~= Seq::<LedgerCall>::empty());
    assert(minted_total(tail.drop_last().drop_last(), Token::Fctr) == 0);
    assert(minted_total(tail.drop_last().drop_last(), Token::Bcdev) == 0);
    assert(minted_total(tail.drop_last(), Token::Fctr) == 0);
    assert(minted_total(tail.drop_last(), Token::Bcdev) == own);
    assert(minted_total(tail, Token::Fctr) == remainder);
    assert(minted_total(tail, Token::Bcdev) == own);
    lemma_minted_total_concat(payout_calls(v.principals, pending, total), tail, Token::Fctr);
    lemma_minted_total_concat(payout_calls(v.principals, pending, total), tail, Token::Bcdev);
    if total > 0 {
        lemma_shares_total(v.principals, pending, total);
        lemma_shares_add(pending, entrusted_total(v.principals) as int, remainder, total);
        assert(pending * total / total == pending) by (nonlinear_arith)
            requires
                0 < total,
        ;
    } else {
        lemma_shares_zero(v.principals, pending);
    }
}

/// With nothing staked every share is zero.
pub proof fn lemma_shares_zero(entries: Seq<EntrustInfo>, pending: int)
    ensures
        shares_total(entries, pending, 0) == 0,
    decreases entries.len(),
{
    if entries.len() > 0 {
        lemma_shares_zero(entries.drop_last(), pending);
    }
}

/// Computes a principal's share of the reward.
fn share(pending: u64, part: u64, total: u64) -> (r: u64)
    requires
        part <= total,
    ensures
        r == reward_share(pending as int, part as int, total as int),
{
    if total == 0 {
        return 0;
    }
    proof {
        lemma_share_bounded(pending as int, part as int, total as int);
        assert(0 <= pending * part <= 0xFFFF_FFFF_FFFF_FFFF * 0xFFFF_FFFF_FFFF_FFFF)
            by (nonlinear_arith)
            requires
                0 <= pending <= 0xFFFF_FFFF_FFFF_FFFF,
                0 <= part <= 0xFFFF_FFFF_FFFF_FFFF,
        ;
    }
    ((pending as u128) * (part as u128) / (total as u128)) as u64
}

/// Computes the staker's own share of the reward.
fn own_share(pending: u64, remainder: u64, total: u64) -> (r: u64)
    requires
        remainder <= total,
    ensures
        r == own_reward(pending as int, remainder as int, total as int),
{
    if total == 0 {
        pending
    } else {
        share(pending, remainder, total)
    }
}

/// Ends a stake at `now`.
///
/// `principal_infos` holds the record of the principal of each entry of
/// `staker_info.principals`, in the order of the list. Once the lock has
/// run out, the reward window is closed; every principal gets back what it
/// delegated together with its proportional share of the reward, the staker
/// gets the rest of the stake and of the reward, and the staker's record is
/// left with nothing staked, nothing pending and every entry reclaimed. The
/// instructions returned mint those amounts. A refusal changes nothing.
pub fn unstake(
    staking: &Staking,
    staker_info: &mut StakerInfo,
    principal_infos: &mut Vec<StakerInfo>,
    ctx: &Unstake,
    now: u64,
) -> (r: Result<Vec<LedgerCall>, StakingError>)
    ensures
        match r {
            Ok(calls) => (unstake_error(
                *staking,
                old(staker_info)@,
                views_of(old(principal_infos)@),
                *ctx,
                now,
            ) is None
                && final(staker_info)@ == unstake_staker(old(staker_info)@, now)
                && (forall|i: int|
                0 <= i < old(principal_infos)@.len() ==> (#[trigger] final(principal_infos)@[i])@
                    == unstake_principal(old(staker_info)@, now, i, old(principal_infos)@[i]@))
                && calls@ == unstake_calls(old(staker_info)@, now)),
            Err(e) => (unstake_error(
                *staking,
                old(staker_info)@,
                views_of(old(principal_infos)@),
                *ctx,
                now,
            ) == Some(e)
                && final(staker_info)@ == old(staker_info)@
                && views_of(final(principal_infos)@) == views_of(old(principal_infos)@)),
        },
        old(staker_info).wf() ==> final(staker_info).wf(),
        final(principal_infos)@.len() == old(principal_infos)@.len(),
        forall|i: int|
            0 <= i < old(principal_infos)@.len() && old(principal_infos)@[i].wf() ==> (
            #[trigger] final(principal_infos)@[i]).wf(),
{
    let ghost entries = staker_info@.principals;
    let ghost before = principal_infos@;
    let ghost records = views_of(principal_infos@);
    if staking.finished {
        return Err(StakingError::PoolFinished);
    }
    if ctx.bcdev_mint != staking.bcdev_mint || ctx.fctr_mint != staking.fctr_mint {
        return Err(StakingError::WrongMint);
    }
    if now < staker_info.stake_time || now - staker_info.stake_time < staking.round_time {
        return Err(StakingError::CannotUnstakeThisRound);
    }
    let n: usize = staker_info.principals.len();
    if principal_infos.len() != n {
        return Err(StakingError::NoSuchPrincipal);
    }
    let mut i: usize = 0;
    while i < n
        invariant
            0 <= i <= n,
            n == entries.len(),
            n == records.len(),
            staker_info@ == old(staker_info)@,
            principal_infos@ == old(principal_infos)@,
            entries == staker_info@.principals,
            records == views_of(principal_infos@),
            !staking.finished,
            ctx.bcdev_mint == staking.bcdev_mint,
            ctx.fctr_mint == staking.fctr_mint,
            now - staker_info.stake_time >= staking.round_time,
            forall|j: int| 0 <= j < i ==> (#[trigger] records[j]).staker == entries[j].principal,
        decreases n - i,
    {
        if principal_infos[i].staker != staker_info.principals[i].principal {
            assert(records[i as int].staker != entries[i as int].principal);
            return Err(StakingError::NoSuchPrincipal);
        }
        i = i + 1;
    }
    assert(records_match(entries, records));
    let pending: u64 = match accrued(staker_info, now) {
        Ok(pending) => pending,
        Err(e) => {
            return Err(e);
        },
    };
    let total: u64 = staker_info.stake_size;
    let entrusted: u128 = total_entrusted(&staker_info.principals);
    if entrusted > total as u128 {
        return Err(StakingError::InsufficientBalance);
    }
    let remainder: u64 = total - entrusted as u64;
    let mut i: usize = 0;
    while i < n
        invariant
            0 <= i <= n,
            n == entries.len(),
            n == records.len(),
            staker_info@ == old(staker_info)@,
            principal_infos@ == old(principal_infos)@,
            entries == staker_info@.principals,
            records == views_of(principal_infos@),
            !staking.finished,
            ctx.bcdev_mint == staking.bcdev_mint,
            ctx.fctr_mint == staking.fctr_mint,
            now - staker_info.stake_time >= staking.round_time,
            records_match(entries, records),
            accrue_error(staker_info@, now) is None,
            pending == accrued_reward(staker_info@, now),
            total == staker_info.stake_size,
            entrusted_total(entries) <= total,
            forall|j: int|
                0 <= j < i ==> credit_fits(
                    #[trigger] records[j],
                    entries[j].amount as int,
                    reward_share(pending as int, entries[j].amount as int, total as int),
                ),
        decreases n - i,
    {
        let entry: EntrustInfo = staker_info.principals[i];
        proof {
            lemma_entrusted_total_bounds(entries, i as int);
        }
        let part: u64 = share(pending, entry.amount, total);
        if principal_infos[i].fctr_amount > u64::MAX - entry.amount || principal_infos[i].bcdev_amount
            > u64::MAX - part {
            assert(!credit_fits(
                records[i as int],
                entries[i as int].amount as int,
                reward_share(pending as int, entries[i as int].amount as int, total as int),
            ));
            return Err(StakingError::ArithmeticOverflow);
        }
        i = i + 1;
    }
    assert(principals_fit(entries, records, pending as int, total as int));
    let own: u64 = own_share(pending, remainder, total);
    if staker_info.fctr_amount > u64::MAX - remainder || staker_info.bcdev_amount > u64::MAX - own {
        return Err(StakingError::ArithmeticOverflow);
    }
    let mut calls: Vec<LedgerCall> = Vec::new();
    let mut i: usize = 0;
    while i < n
        invariant
            0 <= i <= n,
            n == entries.len(),
            n == before.len(),
            n == principal_infos@.len(),
            n == staker_info@.principals.len(),
            entries == old(staker_info)@.principals,
            before == old(principal_infos)@,
            records == views_of(before),
            entrusted_total(entries) <= total,
            principals_fit(entries, records, pending as int, total as int),
            staker_info@ == (StakerInfoView {
                principals: staker_info@.principals,
                ..old(staker_info)@
            }),
            forall|j: int|
                0 <= j < i ==> (#[trigger] staker_info@.principals[j]) == (EntrustInfo {
                    principal: entries[j].principal,
                    amount: 0,
                }),
            forall|j: int| i <= j < n ==> (#[trigger] staker_info@.principals[j]) == entries[j],
            forall|j: int|
                0 <= j < i ==> (#[trigger] principal_infos@[j])@ == credited(
                    before[j]@,
                    entries[j].amount as int,
                    reward_share(pending as int, entries[j].amount as int, total as int),
                ),
            forall|j: int| i <= j < n ==> (#[trigger] principal_infos@[j]) == before[j],
            calls@ == payout_calls(entries.take(i as int), pending as int, total as int),
        decreases n - i,
    {
        let entry: EntrustInfo = staker_info.principals[i];
        proof {
            lemma_entrusted_total_bounds(entries, i as int);
            assert(credit_fits(
                records[i as int],
                entries[i as int].amount as int,
                reward_share(pending as int, entries[i as int].amount as int, total as int),
            ));
            assert(entries.take(i + 1).drop_last() =~= entries.take(i as int));
        }
        let part: u64 = share(pending, entry.amount, total);
        principal_infos[i].fctr_amount = principal_infos[i].fctr_amount + entry.amount;
        principal_infos[i].bcdev_amount = principal_infos[i].bcdev_amount + part;
        if entry.amount > 0 {
            calls.push(
                LedgerCall::Mint {
                    token: Token::Fctr,
                    to: Holder::Participant(entry.principal),
                    amount: entry.amount,
                },
            );
            calls.push(
                LedgerCall::Mint {
                    token: Token::Bcdev,
                    to: Holder::Participant(entry.principal),
                    amount: part,
                },
            );
        }
        staker_info.principals[i].amount = 0;
        proof {
            assert(calls@ =~= payout_calls(entries.take(i as int), pending as int, total as int)
                + entry_calls(entries[i as int], pending as int, total as int));
        }
        i = i + 1;
    }
    proof {
        assert(entries.take(n as int) =~= entries);
        assert(staker_info@.principals =~= reclaimed(entries));
        lemma_reclaimed(entries);
    }
    calls.push(
        LedgerCall::Mint { token: Token::Bcdev, to: Holder::Participant(staker_info.staker), amount: own },
    );
    calls.push(
        LedgerCall::Mint {
            token: Token::Fctr,
            to: Holder::Participant(staker_info.staker),
            amount: remainder,
        },
    );
    staker_info.fctr_amount = staker_info.fctr_amount + remainder;
    staker_info.bcdev_amount = staker_info.bcdev_amount + own;
    staker_info.pending_bcdev_reward = 0;
    staker_info.last_update_timestamp = now;
    staker_info.stake_size = 0;
    staker_info.is_staked = false;
    proof {
        assert(calls@ =~= unstake_calls(old(staker_info)@, now));
    }
    Ok(calls)
}


} // verus!
