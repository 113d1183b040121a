//! The instructions that operations hand to the ledger.

use vstd::prelude::*;
use crate::state::Identity;

verus! {

/// The two tokens a pool manages.
#[derive(Clone, Copy, Debug, PartialEq, Eq, Structural)]
pub enum Token {
    /// The stake-and-exchange token.
    Fctr,
    /// The reward token.
    Bcdev,
}

/// A party whose balance the ledger keeps.
#[derive(Clone, Copy, Debug, PartialEq, Eq, Structural)]
pub enum Holder {
    /// The pool's own reserve.
    Pool,
    /// A participant, by identity.
    Participant(Identity),
}

/// One instruction for the ledger. An operation that succeeds returns the
/// instructions that the ledger has to carry out, in order and under the
/// pool's authority, for the ledger's balances to follow the records.
#[derive(Clone, Copy, Debug, PartialEq, Eq, Structural)]
pub enum LedgerCall {
    Mint { token: Token, to: Holder, amount: u64 },
    Burn { token: Token, from: Holder, amount: u64 },
    TransferNative { from: Holder, to: Holder, amount: u64 },
}

/// What one instruction mints of `token`.
pub open spec fn minted_by(call: LedgerCall, token: Token) -> nat {
    match call {
        LedgerCall::Mint { token: t, to: _, amount } => if t == token {
            amount as nat
        } else {
            0
        },
        _ => 0,
    }
}

/// What a list of instructions mints of `token` in all.
pub open spec fn minted_total(calls: Seq<LedgerCall>, token: Token) -> nat
    decreases calls.len(),
{
    if calls.len() == 0 {
        0
    } else {
        minted_total(calls.drop_last(), token) + minted_by(calls.last(), token)
    }
}

} // verus!
