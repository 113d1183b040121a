//! The fixed prices at which the pool sells FCTR and takes FCTR and BCDEV
//! back, in units of the native currency.

use vstd::prelude::*;
use crate::error::StakingError;
use crate::ledger::Token;

verus! {

/// Smallest units in one whole FCTR.
pub const ONE_FCTR: u64 = 1_000_000_000_000;

/// Smallest units in one whole BCDEV.
pub const ONE_BCDEV: u64 = 1_000_000_000_000_000_000;

/// Smallest units in one whole unit of the native currency.
pub const ONE_NATIVE: u64 = 1_000_000_000;

/// Divisor of the price at which the pool sells FCTR.
pub const FCTR_BUY_DIVISOR: u64 = 109;

/// Divisor of the price at which the pool takes FCTR back.
pub const FCTR_SELL_DIVISOR: u64 = 101;

/// Divisor of the price at which the pool takes BCDEV.
pub const BCDEV_SELL_DIVISOR: u64 = 11;

/// Smallest amount of FCTR that can be bought at once.
pub const MIN_PURCHASE: u64 = 10 * ONE_FCTR;

/// Units of `token` that correspond to one unit of the native currency
/// before the divisor is applied.
pub open spec fn units_per_native(token: Token) -> int {
    match token {
        Token::Fctr => ONE_FCTR as int / ONE_NATIVE as int,
        Token::Bcdev => ONE_BCDEV as int / ONE_NATIVE as int,
    }
}

/// Divisor applied when the pool takes `token` back.
pub open spec fn sell_divisor(token: Token) -> int {
    match token {
        Token::Fctr => FCTR_SELL_DIVISOR as int,
        Token::Bcdev => BCDEV_SELL_DIVISOR as int,
    }
}

/// Native units debited for `amount` units of FCTR.
pub open spec fn buy_cost(amount: int) -> int {
    amount / units_per_native(Token::Fctr) / (FCTR_BUY_DIVISOR as int)
}

/// Native units paid out for `amount` units of `token`.
pub open spec fn sell_proceeds(token: Token, amount: int) -> int {
    amount / units_per_native(token) / sell_divisor(token)
}

/// Reads the constant `LAMPORTS_PER_SOL` of `solana_native_token`, which
/// `anchor_lang::solana_program::native_token` re-exports: the number of
/// lamports in one SOL. The contract states its value, one thousand million,
/// which is [`ONE_NATIVE`]; that value is taken on trust.
#[verifier::external_body]
fn lamports_per_sol() -> (r: u64)
    ensures
        r == ONE_NATIVE,
{
    anchor_lang::solana_program::native_token::LAMPORTS_PER_SOL
}

/// Prices a purchase of `amount` units of FCTR.
pub fn buy(amount: u64) -> (r: Result<u64, StakingError>)
    ensures
        match r {
            Ok(cost) => amount >= MIN_PURCHASE && cost == buy_cost(amount as int),
            Err(e) => amount < MIN_PURCHASE && e == StakingError::TooSmallAmount,
        },
{
    if amount < MIN_PURCHASE {
        return Err(StakingError::TooSmallAmount);
    }
    Ok(amount / (ONE_FCTR / lamports_per_sol()) / FCTR_BUY_DIVISOR)
}

/// Prices a sale of `amount` units of `token` to a pool whose native reserve
/// is `pool_native_balance`.
pub fn sell(token: Token, amount: u64, pool_native_balance: u64) -> (r: Result<u64, StakingError>)
    ensures
        match r {
            Ok(proceeds) => proceeds == sell_proceeds(token, amount as int)
                && proceeds <= pool_native_balance,
            Err(e) => sell_proceeds(token, amount as int) > pool_native_balance
                && e == StakingError::InsufficientPoolFunds,
        },
{
    let one_native: u64 = lamports_per_sol();
    let proceeds: u64 = match token {
        Token::Fctr => amount / (ONE_FCTR / one_native) / FCTR_SELL_DIVISOR,
        Token::Bcdev => amount / (ONE_BCDEV / one_native) / BCDEV_SELL_DIVISOR,
    };
    if proceeds > pool_native_balance {
        return Err(StakingError::InsufficientPoolFunds);
    }
    Ok(proceeds)
}

/// From the minimum purchase on, FCTR costs strictly fewer native units to
/// buy than the same amount pays when it is sold: the larger divisor gives
/// the smaller price.
pub proof fn lemma_buy_cost_below_sell_proceeds(amount: int)
    requires
        amount >= MIN_PURCHASE,
    ensures
        buy_cost(amount) < sell_proceeds(Token::Fctr, amount),
{
    let x = amount / 1000;
    assert(x >= 10_000_000_000);
    assert(buy_cost(amount) == x / 109);
    assert(sell_proceeds(Token::Fctr, amount) == x / 101);
    assert(109 * (x / 101) > x) by {
        assert(101 * (x / 101) > x - 101);
        assert(8 * (x / 101) > 101);
    }
}

} // verus!
