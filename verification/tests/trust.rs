use solana_staking::principals::{count_active, find_principal, find_vacant, total_entrusted};
use solana_staking::{
    demand_back, entrust, initialize, register, stop, Entrust, EntrustInfo, Holder, Identity,
    Initialize, LedgerCall, Register, Staking, StakerInfo, StakingError, Stop, Token,
    MAX_PRINCIPALS,
};

fn t_signer() -> Identity {
    Identity { hi: 5, lo: 3 }
}

fn t_owner() -> Identity {
    Identity { hi: 5, lo: 4 }
}

fn t_person(n: u128) -> Identity {
    Identity { hi: 0, lo: n }
}

fn t_pool() -> Staking {
    initialize(
        &Initialize { owner: t_owner() },
        86_400,
        Identity { hi: 5, lo: 1 },
        Identity { hi: 5, lo: 2 },
        t_signer(),
    )
}

fn t_account(n: u128, fctr_amount: u64) -> StakerInfo {
    let mut account =
        register(&t_pool(), &Register { staker: t_person(n), proof_signer: t_signer() }).unwrap();
    account.fctr_amount = fctr_amount;
    account.bought_fctr = fctr_amount;
    account
}

fn t_entry(n: u128, amount: u64) -> EntrustInfo {
    EntrustInfo { principal: t_person(n), amount }
}

fn t_ctx(balance: u64) -> Entrust {
    Entrust { principal_fctr_balance: balance }
}

#[test]
fn capacity_is_four() {
    assert_eq!(MAX_PRINCIPALS, 4);
}

#[test]
fn entrust_moves_half_to_a_confidant_that_is_not_staked() {
    let staking = t_pool();
    let mut principal = t_account(1, 100);
    let mut confidant = t_account(2, 60);
    assert_eq!(
        entrust(&staking, &mut principal, &mut confidant, &t_ctx(100), 1_000),
        Ok(vec![
            LedgerCall::Burn { token: Token::Fctr, from: Holder::Participant(t_person(1)), amount: 50 },
            LedgerCall::Mint { token: Token::Fctr, to: Holder::Participant(t_person(2)), amount: 50 },
        ])
    );
    assert_eq!(principal.fctr_amount, 50);
    assert_eq!(principal.user_rpr, 3);
    assert!(principal.is_in_trust_program);
    assert_eq!(principal.last_update_timestamp, 1_000);
    assert_eq!(principal.bought_fctr, 100);
    assert_eq!(confidant.fctr_amount, 110);
    assert_eq!(confidant.stake_size, 0);
    assert!(confidant.is_in_trust_program);
    assert_eq!(confidant.last_update_timestamp, 1_000);
    assert_eq!(confidant.principals, vec![t_entry(1, 50)]);
}

#[test]
fn entrust_compounds_into_the_stake_of_a_staked_confidant() {
    let staking = t_pool();
    let mut principal = t_account(1, 101);
    principal.bought_fctr = 200;
    let mut confidant = t_account(2, 60);
    confidant.is_staked = true;
    confidant.stake_size = 1_000;
    confidant.user_rpr = 2;
    confidant.last_update_timestamp = 900;
    assert_eq!(
        entrust(&staking, &mut principal, &mut confidant, &t_ctx(50), 1_000),
        Ok(vec![
            LedgerCall::Burn { token: Token::Fctr, from: Holder::Participant(t_person(1)), amount: 50 },
            LedgerCall::Mint { token: Token::Fctr, to: Holder::Pool, amount: 50 },
        ])
    );
    assert_eq!(principal.fctr_amount, 51);
    assert_eq!(confidant.stake_size, 1_050);
    assert_eq!(confidant.fctr_amount, 110);
    assert_eq!(confidant.pending_bcdev_reward, 100 * 1_000 * 2);
    assert_eq!(confidant.last_update_timestamp, 1_000);
    assert_eq!(confidant.principals, vec![t_entry(1, 50)]);
}

#[test]
fn entrust_closes_the_window_of_the_principal_at_its_old_multiplier() {
    let staking = t_pool();
    let mut principal = t_account(1, 100);
    principal.stake_size = 10;
    principal.is_staked = true;
    principal.last_update_timestamp = 990;
    let mut confidant = t_account(2, 60);
    assert!(entrust(&staking, &mut principal, &mut confidant, &t_ctx(100), 1_000).is_ok());
    assert_eq!(principal.pending_bcdev_reward, 10 * 10 * 1);
    assert_eq!(principal.user_rpr, 3);
}

#[test]
fn entrust_again_adds_to_the_entry() {
    let staking = t_pool();
    let mut principal = t_account(1, 100);
    let mut confidant = t_account(2, 30);
    confidant.fctr_amount = 50;
    assert!(entrust(&staking, &mut principal, &mut confidant, &t_ctx(100), 1_000).is_ok());
    assert_eq!(confidant.fctr_amount, 100);
    assert!(entrust(&staking, &mut principal, &mut confidant, &t_ctx(50), 1_001).is_ok());
    assert_eq!(principal.fctr_amount, 25);
    assert_eq!(principal.user_rpr, 5);
    assert_eq!(confidant.fctr_amount, 125);
    assert_eq!(confidant.principals, vec![t_entry(1, 75)]);
}

#[test]
fn a_fifth_principal_is_refused() {
    let staking = t_pool();
    let mut confidant = t_account(9, 60);
    confidant.principals = vec![t_entry(1, 5), t_entry(2, 6), t_entry(3, 7), t_entry(4, 8)];
    let mut principal = t_account(5, 100);
    let before = (principal.clone(), confidant.clone());
    assert_eq!(
        entrust(&staking, &mut principal, &mut confidant, &t_ctx(100), 1_000),
        Err(StakingError::TooManyPrincipals)
    );
    assert_eq!((principal, confidant), before);
}

#[test]
fn four_entrusts_fill_a_confidant() {
    let staking = t_pool();
    let mut confidant = t_account(9, 100);
    let mut n: u128 = 1;
    while n <= 4 {
        let mut principal = t_account(n, confidant.fctr_amount);
        let balance: u64 = principal.fctr_amount;
        assert!(entrust(&staking, &mut principal, &mut confidant, &t_ctx(balance), 1_000).is_ok());
        n += 1;
    }
    assert_eq!(confidant.principals.len(), 4);
    assert_eq!(count_active(&confidant.principals), 4);
    let mut fifth = t_account(5, confidant.fctr_amount);
    let balance: u64 = fifth.fctr_amount;
    let before = confidant.clone();
    assert_eq!(
        entrust(&staking, &mut fifth, &mut confidant, &t_ctx(balance), 1_000),
        Err(StakingError::TooManyPrincipals)
    );
    assert_eq!(confidant, before);
}

#[test]
fn entrust_takes_the_first_reclaimed_entry_of_a_full_list() {
    let staking = t_pool();
    let mut confidant = t_account(9, 60);
    confidant.principals = vec![t_entry(1, 5), t_entry(2, 0), t_entry(3, 0), t_entry(4, 8)];
    let mut principal = t_account(5, 100);
    assert!(entrust(&staking, &mut principal, &mut confidant, &t_ctx(100), 1_000).is_ok());
    assert_eq!(
        confidant.principals,
        vec![t_entry(1, 5), t_entry(5, 50), t_entry(3, 0), t_entry(4, 8)]
    );
}

#[test]
fn entrust_keeps_the_place_of_a_principal_that_comes_back() {
    let staking = t_pool();
    let mut confidant = t_account(9, 60);
    confidant.principals = vec![t_entry(1, 5), t_entry(2, 0), t_entry(3, 0)];
    let mut principal = t_account(3, 100);
    assert!(entrust(&staking, &mut principal, &mut confidant, &t_ctx(100), 1_000).is_ok());
    assert_eq!(confidant.principals, vec![t_entry(1, 5), t_entry(2, 0), t_entry(3, 50)]);
}

#[test]
fn entrust_needs_the_ledger_to_hold_the_amount() {
    let staking = t_pool();
    let mut principal = t_account(1, 100);
    let mut confidant = t_account(2, 60);
    let before = (principal.clone(), confidant.clone());
    assert_eq!(
        entrust(&staking, &mut principal, &mut confidant, &t_ctx(49), 1_000),
        Err(StakingError::InsufficientHoldings)
    );
    assert_eq!((principal, confidant), before);
}

#[test]
fn entrust_needs_a_quarter_of_the_lifetime_purchases() {
    let staking = t_pool();
    let mut principal = t_account(1, 100);
    principal.bought_fctr = 204;
    let mut confidant = t_account(2, 60);
    assert_eq!(
        entrust(&staking, &mut principal, &mut confidant, &t_ctx(100), 1_000),
        Err(StakingError::InsufficientAmountEntrusted)
    );
    principal.bought_fctr = 203;
    assert!(entrust(&staking, &mut principal, &mut confidant, &t_ctx(100), 1_000).is_ok());
}

#[test]
fn entrust_needs_holdings_within_a_factor_of_two() {
    let staking = t_pool();
    let mut principal = t_account(1, 100);
    let mut rich = t_account(2, 201);
    assert_eq!(
        entrust(&staking, &mut principal, &mut rich, &t_ctx(100), 1_000),
        Err(StakingError::DepositRatioTooWide)
    );
    let mut poor = t_account(3, 49);
    assert_eq!(
        entrust(&staking, &mut principal, &mut poor, &t_ctx(100), 1_000),
        Err(StakingError::DepositRatioTooWide)
    );
    let mut twice = t_account(4, 200);
    assert!(entrust(&staking, &mut principal.clone(), &mut twice, &t_ctx(100), 1_000).is_ok());
    let mut half = t_account(5, 50);
    assert!(entrust(&staking, &mut principal, &mut half, &t_ctx(100), 1_000).is_ok());
}

#[test]
fn entrust_refuses_a_finished_pool() {
    let mut staking = t_pool();
    assert_eq!(stop(&mut staking, &Stop { owner: t_owner() }, 1), Ok(()));
    let mut principal = t_account(1, 100);
    let mut confidant = t_account(2, 60);
    confidant.principals = vec![t_entry(5, 5), t_entry(6, 6), t_entry(7, 7), t_entry(8, 8)];
    assert_eq!(
        entrust(&staking, &mut principal, &mut confidant, &t_ctx(100), 1_000),
        Err(StakingError::PoolFinished)
    );
}

#[test]
fn entrust_refuses_a_multiplier_beyond_the_range() {
    let staking = t_pool();
    let mut principal = t_account(1, 100);
    principal.user_rpr = u64::MAX - 1;
    let mut confidant = t_account(2, 60);
    let before = (principal.clone(), confidant.clone());
    assert_eq!(
        entrust(&staking, &mut principal, &mut confidant, &t_ctx(100), 0),
        Err(StakingError::ArithmeticOverflow)
    );
    assert_eq!((principal, confidant), before);
}

#[test]
fn demand_back_returns_the_amount_from_the_liquid_holdings() {
    let staking = t_pool();
    let mut principal = t_account(1, 100);
    let mut confidant = t_account(2, 60);
    assert!(entrust(&staking, &mut principal, &mut confidant, &t_ctx(100), 1_000).is_ok());
    assert_eq!(
        demand_back(&mut principal, &mut confidant, 2_000),
        Ok(vec![LedgerCall::Mint {
            token: Token::Fctr,
            to: Holder::Participant(t_person(1)),
            amount: 50,
        }])
    );
    assert_eq!(principal.fctr_amount, 100);
    assert_eq!(principal.user_rpr, 3);
    assert_eq!(confidant.fctr_amount, 60);
    assert_eq!(confidant.principals, vec![t_entry(1, 0)]);
    assert_eq!(confidant.last_update_timestamp, 2_000);
}

#[test]
fn demand_back_returns_the_amount_from_the_stake() {
    let mut principal = t_account(1, 10);
    let mut confidant = t_account(2, 60);
    confidant.is_staked = true;
    confidant.stake_size = 500;
    confidant.last_update_timestamp = 1_990;
    confidant.principals = vec![t_entry(7, 3), t_entry(1, 200)];
    assert_eq!(
        demand_back(&mut principal, &mut confidant, 2_000),
        Ok(vec![LedgerCall::Mint {
            token: Token::Fctr,
            to: Holder::Participant(t_person(1)),
            amount: 200,
        }])
    );
    assert_eq!(principal.fctr_amount, 210);
    assert_eq!(confidant.stake_size, 300);
    assert_eq!(confidant.fctr_amount, 60);
    assert_eq!(confidant.pending_bcdev_reward, 10 * 500);
    assert_eq!(confidant.principals, vec![t_entry(7, 3), t_entry(1, 0)]);
}

#[test]
fn demand_back_twice_finds_nothing_the_second_time() {
    let staking = t_pool();
    let mut principal = t_account(1, 100);
    let mut confidant = t_account(2, 60);
    assert!(entrust(&staking, &mut principal, &mut confidant, &t_ctx(100), 1_000).is_ok());
    assert!(demand_back(&mut principal, &mut confidant, 2_000).is_ok());
    let before = (principal.clone(), confidant.clone());
    assert_eq!(
        demand_back(&mut principal, &mut confidant, 2_000),
        Err(StakingError::NothingToDemandBack)
    );
    assert_eq!(
        demand_back(&mut principal, &mut confidant, 1),
        Err(StakingError::NothingToDemandBack)
    );
    assert_eq!((principal, confidant), before);
}

#[test]
fn demand_back_needs_an_entry() {
    let mut principal = t_account(1, 100);
    let mut confidant = t_account(2, 60);
    confidant.principals = vec![t_entry(7, 3)];
    let before = (principal.clone(), confidant.clone());
    assert_eq!(
        demand_back(&mut principal, &mut confidant, 2_000),
        Err(StakingError::NoSuchPrincipal)
    );
    assert_eq!((principal, confidant), before);
}

#[test]
fn demand_back_needs_the_confidant_to_hold_the_amount() {
    let mut principal = t_account(1, 100);
    let mut confidant = t_account(2, 60);
    confidant.principals = vec![t_entry(1, 61)];
    let before = (principal.clone(), confidant.clone());
    assert_eq!(
        demand_back(&mut principal, &mut confidant, 2_000),
        Err(StakingError::InsufficientBalance)
    );
    assert_eq!((principal, confidant), before);
}

#[test]
fn demand_back_works_on_a_finished_pool() {
    let mut principal = t_account(1, 100);
    let mut confidant = t_account(2, 60);
    confidant.principals = vec![t_entry(1, 60)];
    assert!(demand_back(&mut principal, &mut confidant, 2_000).is_ok());
    assert_eq!(confidant.fctr_amount, 0);
    assert_eq!(principal.fctr_amount, 160);
}

#[test]
fn list_searches() {
    let list = vec![t_entry(1, 5), t_entry(2, 0), t_entry(3, 7), t_entry(2, 9), t_entry(4, 0)];
    assert_eq!(find_principal(&list, t_person(1)), Some(0));
    assert_eq!(find_principal(&list, t_person(2)), Some(1));
    assert_eq!(find_principal(&list, t_person(4)), Some(4));
    assert_eq!(find_principal(&list, t_person(5)), None);
    assert_eq!(find_vacant(&list), Some(1));
    assert_eq!(find_vacant(&vec![t_entry(1, 5)]), None);
    assert_eq!(count_active(&list), 3);
    assert_eq!(total_entrusted(&list), 21);
    let empty: Vec<EntrustInfo> = Vec::new();
    assert_eq!(find_principal(&empty, t_person(1)), None);
    assert_eq!(find_vacant(&empty), None);
    assert_eq!(count_active(&empty), 0);
    assert_eq!(total_entrusted(&empty), 0);
    assert_eq!(
        total_entrusted(&vec![t_entry(1, u64::MAX), t_entry(2, u64::MAX)]),
        2 * (u64::MAX as u128)
    );
}
