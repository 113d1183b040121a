use solana_staking::accrual::accrued;
use solana_staking::pricing::ONE_FCTR;
use solana_staking::{
    buy_fctr, initialize, register, stake, stop, unstake, BuyFctr, EntrustInfo, Holder, Identity,
    Initialize, LedgerCall, Register, Stake, Staking, StakerInfo, StakingError, Stop, Token,
    Unstake,
};

fn u_fctr() -> Identity {
    Identity { hi: 9, lo: 1 }
}

fn u_bcdev() -> Identity {
    Identity { hi: 9, lo: 2 }
}

fn u_signer() -> Identity {
    Identity { hi: 9, lo: 3 }
}

fn u_owner() -> Identity {
    Identity { hi: 9, lo: 4 }
}

fn u_person(n: u128) -> Identity {
    Identity { hi: 0, lo: n }
}

fn u_pool() -> Staking {
    initialize(&Initialize { owner: u_owner() }, 86_400, u_fctr(), u_bcdev(), u_signer())
}

fn u_account(n: u128) -> StakerInfo {
    register(&u_pool(), &Register { staker: u_person(n), proof_signer: u_signer() }).unwrap()
}

fn u_ctx() -> Unstake {
    Unstake { fctr_mint: u_fctr(), bcdev_mint: u_bcdev() }
}

fn u_confidant() -> StakerInfo {
    let mut confidant = u_account(1);
    confidant.stake_size = 300 * ONE_FCTR;
    confidant.is_staked = true;
    confidant.stake_time = 5_000;
    confidant.last_update_timestamp = 100_000;
    confidant.pending_bcdev_reward = 7;
    confidant.fctr_amount = 11;
    confidant.bcdev_amount = 13;
    confidant.is_in_trust_program = true;
    confidant.principals = vec![
        EntrustInfo { principal: u_person(2), amount: 100 * ONE_FCTR },
        EntrustInfo { principal: u_person(3), amount: 0 },
        EntrustInfo { principal: u_person(4), amount: 50 * ONE_FCTR },
    ];
    confidant
}

fn u_principals() -> Vec<StakerInfo> {
    let mut second = u_account(2);
    second.fctr_amount = 1;
    second.bcdev_amount = 2;
    second.user_rpr = 3;
    second.is_in_trust_program = true;
    let third = u_account(3);
    let mut fourth = u_account(4);
    fourth.is_in_trust_program = true;
    vec![second, third, fourth]
}

#[test]
fn one_round_of_one_hundred_tokens() {
    let mut staking = u_pool();
    let mut account = u_account(1);
    let amount: u64 = 100 * ONE_FCTR;
    let start: u64 = 1_700_000_000;
    let bought =
        buy_fctr(&mut staking, &mut account, &BuyFctr { fctr_mint: u_fctr() }, amount, start).unwrap();
    assert_eq!(
        bought[0],
        LedgerCall::TransferNative {
            from: Holder::Participant(u_person(1)),
            to: Holder::Pool,
            amount: amount / (ONE_FCTR / 1_000_000_000) / 109,
        }
    );
    let staked = stake(
        &staking,
        &mut account,
        &Stake { fctr_mint: u_fctr(), staker_fctr_balance: amount },
        amount,
        start,
    );
    assert!(staked.is_ok());
    assert_eq!(account.stake_size, amount);
    assert_eq!(account.fctr_amount, 0);

    assert_eq!(accrued(&account, start + 86_400), Ok(86_400 * amount));
    assert_eq!(86_400 * amount, 8_640_000_000_000_000_000);

    let mut nobody: Vec<StakerInfo> = Vec::new();
    let calls = unstake(&staking, &mut account, &mut nobody, &u_ctx(), start + 86_400);
    assert_eq!(
        calls,
        Ok(vec![
            LedgerCall::Mint {
                token: Token::Bcdev,
                to: Holder::Participant(u_person(1)),
                amount: 8_640_000_000_000_000_000,
            },
            LedgerCall::Mint { token: Token::Fctr, to: Holder::Participant(u_person(1)), amount },
        ])
    );
    assert_eq!(account.stake_size, 0);
    assert_eq!(account.pending_bcdev_reward, 0);
    assert_eq!(account.bcdev_amount, 8_640_000_000_000_000_000);
    assert_eq!(account.fctr_amount, amount);
    assert!(!account.is_staked);
    assert_eq!(account.last_update_timestamp, start + 86_400);
}

#[test]
fn unstake_before_the_round_is_over_is_refused() {
    let staking = u_pool();
    let mut account = u_account(1);
    account.fctr_amount = 500;
    assert!(stake(
        &staking,
        &mut account,
        &Stake { fctr_mint: u_fctr(), staker_fctr_balance: 500 },
        500,
        1_000
    )
    .is_ok());
    let before = account.clone();
    let mut nobody: Vec<StakerInfo> = Vec::new();
    assert_eq!(
        unstake(&staking, &mut account, &mut nobody, &u_ctx(), 1_000 + 86_399),
        Err(StakingError::CannotUnstakeThisRound)
    );
    assert_eq!(
        unstake(&staking, &mut account, &mut nobody, &u_ctx(), 999),
        Err(StakingError::CannotUnstakeThisRound)
    );
    assert_eq!(account, before);
    assert!(unstake(&staking, &mut account, &mut nobody, &u_ctx(), 1_000 + 86_400).is_ok());
}

#[test]
fn unstake_splits_stake_and_reward_among_the_principals() {
    let staking = u_pool();
    let mut confidant = u_confidant();
    let mut principals = u_principals();
    let calls = unstake(&staking, &mut confidant, &mut principals, &u_ctx(), 101_000).unwrap();
    let pending: u64 = 7 + 1_000 * 300 * ONE_FCTR;
    assert_eq!(pending, 300_000_000_000_000_007);
    assert_eq!(
        calls,
        vec![
            LedgerCall::Mint {
                token: Token::Fctr,
                to: Holder::Participant(u_person(2)),
                amount: 100 * ONE_FCTR,
            },
            LedgerCall::Mint {
                token: Token::Bcdev,
                to: Holder::Participant(u_person(2)),
                amount: 100_000_000_000_000_002,
            },
            LedgerCall::Mint {
                token: Token::Fctr,
                to: Holder::Participant(u_person(4)),
                amount: 50 * ONE_FCTR,
            },
            LedgerCall::Mint {
                token: Token::Bcdev,
                to: Holder::Participant(u_person(4)),
                amount: 50_000_000_000_000_001,
            },
            LedgerCall::Mint {
                token: Token::Bcdev,
                to: Holder::Participant(u_person(1)),
                amount: 150_000_000_000_000_003,
            },
            LedgerCall::Mint {
                token: Token::Fctr,
                to: Holder::Participant(u_person(1)),
                amount: 150 * ONE_FCTR,
            },
        ]
    );

    assert_eq!(confidant.stake_size, 0);
    assert_eq!(confidant.pending_bcdev_reward, 0);
    assert!(!confidant.is_staked);
    assert_eq!(confidant.fctr_amount, 11 + 150 * ONE_FCTR);
    assert_eq!(confidant.bcdev_amount, 13 + 150_000_000_000_000_003);
    assert_eq!(confidant.last_update_timestamp, 101_000);
    assert_eq!(confidant.stake_time, 5_000);
    assert!(confidant.is_in_trust_program);
    assert_eq!(
        confidant.principals,
        vec![
            EntrustInfo { principal: u_person(2), amount: 0 },
            EntrustInfo { principal: u_person(3), amount: 0 },
            EntrustInfo { principal: u_person(4), amount: 0 },
        ]
    );

    let mut expected = u_principals();
    expected[0].fctr_amount = 1 + 100 * ONE_FCTR;
    expected[0].bcdev_amount = 2 + 100_000_000_000_000_002;
    expected[2].fctr_amount = 50 * ONE_FCTR;
    expected[2].bcdev_amount = 50_000_000_000_000_001;
    assert_eq!(principals, expected);
}

#[test]
fn unstake_returns_exactly_the_stake() {
    let staking = u_pool();
    let mut confidant = u_confidant();
    let mut principals = u_principals();
    let stake_size: u64 = confidant.stake_size;
    let pending: u64 = accrued(&confidant, 101_000).unwrap();
    let calls = unstake(&staking, &mut confidant, &mut principals, &u_ctx(), 101_000).unwrap();
    let mut fctr: u64 = 0;
    let mut bcdev: u64 = 0;
    for call in calls {
        match call {
            LedgerCall::Mint { token: Token::Fctr, to: _, amount } => fctr += amount,
            LedgerCall::Mint { token: Token::Bcdev, to: _, amount } => bcdev += amount,
            _ => panic!("unstaking only mints"),
        }
    }
    assert_eq!(fctr, stake_size);
    assert!(bcdev <= pending);
    assert_eq!(bcdev, 300_000_000_000_000_006);
}

#[test]
fn unstake_with_nothing_staked_keeps_the_pending_reward() {
    let staking = u_pool();
    let mut account = u_account(1);
    account.pending_bcdev_reward = 77;
    account.last_update_timestamp = 10;
    let mut nobody: Vec<StakerInfo> = Vec::new();
    assert_eq!(
        unstake(&staking, &mut account, &mut nobody, &u_ctx(), 90_000),
        Ok(vec![
            LedgerCall::Mint { token: Token::Bcdev, to: Holder::Participant(u_person(1)), amount: 77 },
            LedgerCall::Mint { token: Token::Fctr, to: Holder::Participant(u_person(1)), amount: 0 },
        ])
    );
    assert_eq!(account.bcdev_amount, 77);
    assert_eq!(account.pending_bcdev_reward, 0);
}

#[test]
fn unstake_needs_the_record_of_every_principal() {
    let staking = u_pool();
    let mut confidant = u_confidant();
    let before = confidant.clone();

    let mut too_few = u_principals();
    too_few.pop();
    let few_before = too_few.clone();
    assert_eq!(
        unstake(&staking, &mut confidant, &mut too_few, &u_ctx(), 101_000),
        Err(StakingError::NoSuchPrincipal)
    );
    assert_eq!(too_few, few_before);

    let mut swapped = u_principals();
    swapped.swap(0, 2);
    let swapped_before = swapped.clone();
    assert_eq!(
        unstake(&staking, &mut confidant, &mut swapped, &u_ctx(), 101_000),
        Err(StakingError::NoSuchPrincipal)
    );
    assert_eq!(swapped, swapped_before);
    assert_eq!(confidant, before);
}

#[test]
fn unstake_refuses_when_the_stake_does_not_cover_the_principals() {
    let staking = u_pool();
    let mut confidant = u_confidant();
    confidant.stake_size = 150 * ONE_FCTR - 1;
    let before = confidant.clone();
    let mut principals = u_principals();
    assert_eq!(
        unstake(&staking, &mut confidant, &mut principals, &u_ctx(), 101_000),
        Err(StakingError::InsufficientBalance)
    );
    assert_eq!(confidant, before);
    assert_eq!(principals, u_principals());
}

#[test]
fn unstake_refuses_a_credit_beyond_the_range_and_changes_nothing() {
    let staking = u_pool();
    let mut confidant = u_confidant();
    let before = confidant.clone();
    let mut principals = u_principals();
    principals[2].fctr_amount = u64::MAX - 50 * ONE_FCTR + 1;
    let principals_before = principals.clone();
    assert_eq!(
        unstake(&staking, &mut confidant, &mut principals, &u_ctx(), 101_000),
        Err(StakingError::ArithmeticOverflow)
    );
    assert_eq!(confidant, before);
    assert_eq!(principals, principals_before);
}

#[test]
fn unstake_refuses_other_tokens_and_a_finished_pool() {
    let staking = u_pool();
    let mut account = u_account(1);
    let mut nobody: Vec<StakerInfo> = Vec::new();
    assert_eq!(
        unstake(
            &staking,
            &mut account,
            &mut nobody,
            &Unstake { fctr_mint: u_bcdev(), bcdev_mint: u_bcdev() },
            90_000
        ),
        Err(StakingError::WrongMint)
    );
    assert_eq!(
        unstake(
            &staking,
            &mut account,
            &mut nobody,
            &Unstake { fctr_mint: u_fctr(), bcdev_mint: u_fctr() },
            90_000
        ),
        Err(StakingError::WrongMint)
    );
    let mut finished = u_pool();
    assert_eq!(stop(&mut finished, &Stop { owner: u_owner() }, 1), Ok(()));
    assert_eq!(
        unstake(&finished, &mut account, &mut nobody, &u_ctx(), 90_000),
        Err(StakingError::PoolFinished)
    );
}
