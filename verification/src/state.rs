//! The records: the pool, a participant, and what a principal has delegated.

use vstd::prelude::*;

verus! {

/// Most entries a confidant's list of principals can hold.
pub const MAX_PRINCIPALS: usize = 4;

/// A 256-bit identifier of a participant or of a token, as two limbs.
#[derive(Clone, Copy, Debug, PartialEq, Eq, Hash, Structural)]
pub struct Identity {
    pub hi: u128,
    pub lo: u128,
}

/// The pool: its parameters, lifecycle flag and accounting counters.
#[derive(Clone, Copy, Debug, PartialEq, Eq, Structural)]
pub struct Staking {
    pub owner: Identity,
    pub round_time: u64,
    pub rounds_num: u64,
    pub total_fctr_bought_by_users: u64,
    pub total_fctr_sold_by_users: u64,
    pub total_bcdev_sold_by_users: u64,
    pub finished: bool,
    pub finish_time: u64,
    pub fctr_mint: Identity,
    pub bcdev_mint: Identity,
    pub proof_signer: Identity,
}

/// What one principal has delegated to a confidant. An amount of zero marks
/// an entry that was reclaimed; the entry keeps its place in the list.
#[derive(Clone, Copy, Debug, PartialEq, Eq, Structural)]
pub struct EntrustInfo {
    pub principal: Identity,
    pub amount: u64,
}

/// One participant's record.
#[derive(Clone, Debug, PartialEq, Eq)]
pub struct StakerInfo {
    pub staker: Identity,
    pub stake_size: u64,
    pub stake_time: u64,
    pub fctr_amount: u64,
    pub bcdev_amount: u64,
    pub pending_bcdev_reward: u64,
    pub last_update_timestamp: u64,
    pub user_rpr: u64,
    pub bought_fctr: u64,
    pub is_staked: bool,
    pub is_in_trust_program: bool,
    pub principals: Vec<EntrustInfo>,
}

/// The mathematical value of a [`StakerInfo`]: the same fields, with the
/// list of principals as a sequence.
pub struct StakerInfoView {
    pub staker: Identity,
    pub stake_size: u64,
    pub stake_time: u64,
    pub fctr_amount: u64,
    pub bcdev_amount: u64,
    pub pending_bcdev_reward: u64,
    pub last_update_timestamp: u64,
    pub user_rpr: u64,
    pub bought_fctr: u64,
    pub is_staked: bool,
    pub is_in_trust_program: bool,
    pub principals: Seq<EntrustInfo>,
}

impl View for StakerInfo {
    type V = StakerInfoView;

    open spec fn view(&self) -> StakerInfoView {
        StakerInfoView {
            staker: self.staker,
            stake_size: self.stake_size,
            stake_time: self.stake_time,
            fctr_amount: self.fctr_amount,
            bcdev_amount: self.bcdev_amount,
            pending_bcdev_reward: self.pending_bcdev_reward,
            last_update_timestamp: self.last_update_timestamp,
            user_rpr: self.user_rpr,
            bought_fctr: self.bought_fctr,
            is_staked: self.is_staked,
            is_in_trust_program: self.is_in_trust_program,
            principals: self.principals@,
        }
    }
}

/// No two entries of the list name the same principal.
pub open spec fn distinct_principals(s: Seq<EntrustInfo>) -> bool {
    forall|i: int, j: int|
        0 <= i < j < s.len() ==> (#[trigger] s[i]).principal != (#[trigger] s[j]).principal
}

impl StakerInfoView {
    /// The record's invariant: a multiplier of at least one, and a list of at
    /// most [`MAX_PRINCIPALS`] entries that names no principal twice.
    pub open spec fn wf(self) -> bool {
        &&& self.user_rpr >= 1
        &&& self.principals.len() <= MAX_PRINCIPALS
        &&& distinct_principals(self.principals)
    }
}

impl StakerInfo {
    /// The invariant of the record's value.
    pub open spec fn wf(&self) -> bool {
        self@.wf()
    }
}

/// The views of a list of records, in order.
pub open spec fn views_of(records: Seq<StakerInfo>) -> Seq<StakerInfoView> {
    Seq::new(records.len(), |i: int| records[i]@)
}

} // verus!
