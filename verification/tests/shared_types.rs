use prediction_markets::records::{
    compute_apy, Bet, ContractCallResult, Market, MarketInfo, StakeInfo, SECONDS_PER_YEAR,
};
use prediction_markets::types::{
    compute_payout, exact_payout, price_outcome, proportion, Address, Bytes32, ContractError,
    MarketOutcome, MarketStatus,
    CONDITION_ABOVE, CONDITION_BELOW,
};
use prediction_markets::validation::{
    validate_address, validate_amount, validate_confidence, validate_fee_rate,
    validate_future_timestamp, validate_market_condition, validate_market_creation,
    validate_oracle_update, validate_price, validate_staking, validate_string,
};

fn someone() -> Address {
    Address::account(7, 9)
}

fn market(status: MarketStatus) -> Market {
    Market {
        id: 1,
        creator: someone(),
        event_name: "rain".to_string(),
        outcome_a_name: "YES".to_string(),
        outcome_b_name: "NO".to_string(),
        end_time: 100,
        resolution_time: 200,
        status,
        total_pool_a: 40,
        total_pool_b: 2,
        oracle_address: Address::contract(0, 1),
        min_bet_amount: 1,
        max_bet_amount: 10,
        creator_fee_rate: 100,
        platform_fee_rate: 50,
    }
}

#[test]
fn addresses_differ_by_kind_and_key() {
    assert_eq!(Address::account(1, 2), Address { contract: false, hi: 1, lo: 2 });
    assert_eq!(Address::contract(1, 2), Address { contract: true, hi: 1, lo: 2 });
    assert_ne!(Address::account(1, 2), Address::contract(1, 2));
    assert_ne!(Address::account(1, 2), Address::account(2, 1));
    assert_eq!(Address::none(), Address::account(0, 0));
}

#[test]
fn market_status_helpers() {
    let active = market(MarketStatus::Active);
    assert!(active.is_active());
    assert!(!active.is_resolved());
    assert_eq!(active.total_pool(), 42);
    assert!(!active.can_resolve(199));
    assert!(active.can_resolve(200));
    assert!(active.can_resolve(201));
    let resolved = market(MarketStatus::Resolved);
    assert!(!resolved.is_active());
    assert!(resolved.is_resolved());
    assert!(!resolved.can_resolve(500));
    assert!(!market(MarketStatus::Closed).can_resolve(500));
    assert!(!market(MarketStatus::Cancelled).is_active());
}

#[test]
fn market_clone_keeps_every_field() {
    let m = market(MarketStatus::Active);
    assert_eq!(m.clone(), m);
}

#[test]
fn bet_payout_is_pari_mutuel() {
    let bet = Bet {
        id: 1,
        market_id: 1,
        bettor: someone(),
        outcome: MarketOutcome::OutcomeA,
        amount: 100,
        timestamp: 5,
        odds_at_bet: 10000,
        claimed: false,
    };
    assert_eq!(bet.calculate_payout(100, 50), 150);
    assert_eq!(bet.calculate_payout(100, 0), 100);
    assert_eq!(bet.calculate_payout(300, 100), 133);
    assert_eq!(bet.calculate_payout(1000, 1), 100);
}

#[test]
fn payout_rounds_down() {
    assert_eq!(compute_payout(1, 3, 2), 1);
    assert_eq!(compute_payout(2, 3, 2), 3);
    assert_eq!(compute_payout(3, 3, 2), 5);
    assert_eq!(compute_payout(0, 3, 2), 0);
    assert_eq!(compute_payout(7, 7, 0), 7);
    assert_eq!(compute_payout(0, 0, 0), 0);
}

#[test]
fn proportion_is_exact_where_the_product_does_not_fit() {
    assert_eq!(proportion(50, 100, 100), 50);
    assert_eq!(proportion(10, 3, 7), 4);
    assert_eq!(proportion(10, 0, 7), 0);
    assert_eq!(proportion(0, 7, 7), 0);
    assert_eq!(proportion(1, 6, 7), 0);
    for whole in 1..40u128 {
        for part in 0..=whole {
            for amount in 0..40u128 {
                assert_eq!(proportion(amount, part, whole), part * amount / whole);
            }
        }
    }
    assert_eq!(
        proportion(
            170141183460469231731687303715884105727,
            170141183460469231731687303715884105722,
            170141183460469231731687303715884105722
        ),
        170141183460469231731687303715884105727
    );
    assert_eq!(proportion(7, 3, 170141183460469231731687303715884105727), 0);
    assert_eq!(
        proportion(170141183460469231731687303715884105727, 1, 3),
        56713727820156410577229101238628035242
    );
    assert_eq!(
        proportion(
            170141183460469231731687303715884105727,
            85070591730234615865843651857942052864,
            170141183460469231731687303715884105727
        ),
        85070591730234615865843651857942052864
    );
    assert_eq!(
        proportion(
            170141183460469231731687303715884105726,
            56713727820156410577229101238628035242,
            85070591730234615865843651857942052864
        ),
        113427455640312821154458202477256070482
    );
    assert_eq!(
        proportion(
            123456789012345678901234567890123456,
            98765432109876543210987654321,
            85070591730234615865843651857942065209
        ),
        143331119082466875512970300
    );
    assert_eq!(proportion(5, 170141183460469231731687303715884105722, 170141183460469231731687303715884105722), 5);
}

#[test]
fn exact_payout_agrees_with_the_formula_on_pools_of_any_size() {
    assert_eq!(exact_payout(100, 100, 50), 150);
    assert_eq!(exact_payout(3, 7, 10), 7);
    assert_eq!(exact_payout(4, 7, 10), 9);
    assert_eq!(exact_payout(7, 7, 0), 7);
    assert_eq!(exact_payout(0, 0, 0), 0);
    assert_eq!(exact_payout(0, 5, 9), 0);
    for won in 1..30i128 {
        for stake in 0..=won {
            for lost in 0..30i128 {
                assert_eq!(exact_payout(stake, won, lost), compute_payout(stake, won, lost));
            }
        }
    }
    assert_eq!(
        exact_payout(
            170141183460469231731687303715884105722,
            170141183460469231731687303715884105722,
            5
        ),
        170141183460469231731687303715884105727
    );
    assert_eq!(
        exact_payout(
            85070591730234615865843651857942052864,
            85070591730234615865843651857942052871,
            85070591730234615865843651857942052856
        ),
        170141183460469231731687303715884105713
    );
    assert_eq!(exact_payout(1, 170141183460469231731687303715884105726, 1), 1);
    assert_eq!(
        exact_payout(3, 7, 170141183460469231731687303715884105720),
        72917650054486813599294558735378902454
    );
    assert_eq!(
        exact_payout(
            85070591730234615865843651857942052863,
            85070591730234615865843651857942052863,
            85070591730234615865843651857942052863
        ),
        170141183460469231731687303715884105726
    );
}

#[test]
fn price_decides_by_condition() {
    assert!(price_outcome(CONDITION_ABOVE, 11, 10));
    assert!(!price_outcome(CONDITION_ABOVE, 10, 10));
    assert!(!price_outcome(CONDITION_ABOVE, 9, 10));
    assert!(price_outcome(CONDITION_BELOW, 9, 10));
    assert!(!price_outcome(CONDITION_BELOW, 10, 10));
    assert!(!price_outcome(CONDITION_BELOW, 11, 10));
    assert!(!price_outcome(2, 11, 10));
    assert!(!price_outcome(7, 9, 10));
}

fn market_info(condition: u32, resolved: bool) -> MarketInfo {
    MarketInfo {
        id: Bytes32 { hi: 0, lo: 1 },
        creator: someone(),
        description: "d".to_string(),
        asset_symbol: "BTC".to_string(),
        target_price: 1000,
        condition,
        resolve_time: 50,
        created_at: 1,
        resolved,
        outcome: None,
        total_for: 0,
        total_against: 0,
        market_fee: 0,
    }
}

#[test]
fn market_info_outcome_and_readiness() {
    let above = market_info(0, false);
    assert!(above.calculate_outcome(1001));
    assert!(!above.calculate_outcome(1000));
    let below = market_info(1, false);
    assert!(below.calculate_outcome(999));
    assert!(!below.calculate_outcome(1000));
    assert!(!market_info(5, false).calculate_outcome(1));
    assert!(!above.is_ready_for_resolution(49));
    assert!(above.is_ready_for_resolution(50));
    assert!(!market_info(0, true).is_ready_for_resolution(50));
}

#[test]
fn stake_info_activity_and_apy() {
    let stake = StakeInfo {
        staker: someone(),
        amount: 100,
        stake_time: 10,
        last_reward_time: 10,
        accumulated_rewards: 0,
    };
    assert!(!stake.is_active(10));
    assert!(stake.is_active(11));
    // 1 * 31_536_000 * 10_000 / 1_000_000_000_000 = 0.31536 -> 0
    assert_eq!(stake.calculate_apy(1, 1_000_000_000_000), 0);
    // 1 * 31_536_000 * 10_000 / 315_360_000 = 1000
    assert_eq!(stake.calculate_apy(1, 315_360_000), 1000);
    assert_eq!(stake.calculate_apy(1, 0), 0);
    let nothing = StakeInfo { amount: 0, ..stake };
    assert_eq!(nothing.calculate_apy(1, 315_360_000), 0);
    assert!(!nothing.is_active(11));
    assert_eq!(SECONDS_PER_YEAR, 365 * 24 * 60 * 60);
    assert_eq!(compute_apy(2, 315_360_000), 2000);
    assert_eq!(compute_apy(1, 315_360_001), 999);
    assert_eq!(compute_apy(5, 0), 0);
}

#[test]
fn call_results_carry_what_they_say() {
    let ok = ContractCallResult::ok(5i128);
    assert_eq!(ok, ContractCallResult { success: true, data: Some(5), error: None });
    let degraded = ContractCallResult::degraded(6i128, "old");
    assert_eq!(
        degraded,
        ContractCallResult { success: true, data: Some(6), error: Some("old".to_string()) }
    );
    let failure: ContractCallResult<i128> = ContractCallResult::failure("no");
    assert_eq!(
        failure,
        ContractCallResult { success: false, data: None, error: Some("no".to_string()) }
    );
}

#[test]
fn validate_address_refuses_the_unset_address() {
    assert_eq!(validate_address(&someone()), Ok(()));
    assert_eq!(validate_address(&Address::contract(0, 0)), Ok(()));
    assert_eq!(validate_address(&Address::none()), Err(ContractError::NotAuthorized));
}

#[test]
fn validate_amount_bounds() {
    assert_eq!(validate_amount(5, 1, None), Ok(()));
    assert_eq!(validate_amount(5, 5, Some(5)), Ok(()));
    assert_eq!(validate_amount(0, -3, None), Err(ContractError::InvalidAmount));
    assert_eq!(validate_amount(-1, -3, None), Err(ContractError::InvalidAmount));
    assert_eq!(validate_amount(4, 5, None), Err(ContractError::InvalidAmount));
    assert_eq!(validate_amount(6, 1, Some(5)), Err(ContractError::InvalidAmount));
}

#[test]
fn validate_future_timestamp_is_strict() {
    assert_eq!(validate_future_timestamp(10, 11), Ok(()));
    assert_eq!(validate_future_timestamp(10, 10), Err(ContractError::InvalidTimestamp));
    assert_eq!(validate_future_timestamp(10, 9), Err(ContractError::InvalidTimestamp));
}

#[test]
fn validate_string_counts_bytes() {
    assert_eq!(validate_string("abc", 3), Ok(()));
    assert_eq!(validate_string("abcd", 3), Err(ContractError::NotAuthorized));
    assert_eq!(validate_string("", 3), Err(ContractError::NotAuthorized));
    // two characters, four bytes
    assert_eq!(validate_string("éé", 4), Ok(()));
    assert_eq!(validate_string("éé", 3), Err(ContractError::NotAuthorized));
}

#[test]
fn validate_confidence_range() {
    assert_eq!(validate_confidence(50, 50, 100), Ok(()));
    assert_eq!(validate_confidence(100, 50, 100), Ok(()));
    assert_eq!(validate_confidence(49, 50, 100), Err(ContractError::OracleError));
    assert_eq!(validate_confidence(101, 50, 100), Err(ContractError::OracleError));
}

#[test]
fn validate_market_condition_codes() {
    assert_eq!(validate_market_condition(0), Ok(()));
    assert_eq!(validate_market_condition(1), Ok(()));
    assert_eq!(validate_market_condition(2), Err(ContractError::InvalidOutcome));
}

#[test]
fn validate_price_bounds() {
    assert_eq!(validate_price(5, 1, 10), Ok(()));
    assert_eq!(validate_price(1, 1, 10), Ok(()));
    assert_eq!(validate_price(10, 1, 10), Ok(()));
    assert_eq!(validate_price(0, -5, 10), Err(ContractError::InvalidAmount));
    assert_eq!(validate_price(-1, -5, 10), Err(ContractError::InvalidAmount));
    assert_eq!(validate_price(11, 1, 10), Err(ContractError::InvalidAmount));
    assert_eq!(validate_price(1, 2, 10), Err(ContractError::InvalidAmount));
}

#[test]
fn validate_fee_rate_bound() {
    assert_eq!(validate_fee_rate(1000, 1000), Ok(()));
    assert_eq!(validate_fee_rate(0, 0), Ok(()));
    assert_eq!(validate_fee_rate(1001, 1000), Err(ContractError::InvalidAmount));
}

#[test]
fn validate_market_creation_reports_first_failure() {
    let creator = someone();
    assert_eq!(validate_market_creation(10, &creator, "d", "BTC", 100, 0, 11, 1, 10), Ok(()));
    assert_eq!(
        validate_market_creation(10, &Address::none(), "", "BTC", 0, 9, 1, 1, 10),
        Err(ContractError::NotAuthorized)
    );
    assert_eq!(
        validate_market_creation(10, &creator, "", "BTC", 100, 0, 11, 1, 10),
        Err(ContractError::NotAuthorized)
    );
    assert_eq!(
        validate_market_creation(10, &creator, "d", "123456789012345678901", 100, 0, 11, 1, 10),
        Err(ContractError::NotAuthorized)
    );
    assert_eq!(
        validate_market_creation(10, &creator, "d", "BTC", 0, 9, 1, 1, 10),
        Err(ContractError::InvalidAmount)
    );
    assert_eq!(
        validate_market_creation(10, &creator, "d", "BTC", 1_000_000_000_000_000_001, 0, 11, 1, 10),
        Err(ContractError::InvalidAmount)
    );
    assert_eq!(
        validate_market_creation(10, &creator, "d", "BTC", 100, 0, 11, 11, 10),
        Err(ContractError::InvalidAmount)
    );
    assert_eq!(
        validate_market_creation(10, &creator, "d", "BTC", 100, 0, 11, 1, 100_000_000_000_000_001),
        Err(ContractError::InvalidAmount)
    );
    assert_eq!(
        validate_market_creation(10, &creator, "d", "BTC", 100, 2, 1, 1, 10),
        Err(ContractError::InvalidOutcome)
    );
    assert_eq!(
        validate_market_creation(10, &creator, "d", "BTC", 100, 1, 10, 1, 10),
        Err(ContractError::InvalidTimestamp)
    );
}

#[test]
fn validate_staking_checks_staker_then_amount() {
    assert_eq!(validate_staking(&someone(), 5, 1, Some(10)), Ok(()));
    assert_eq!(
        validate_staking(&Address::none(), 0, 1, None),
        Err(ContractError::NotAuthorized)
    );
    assert_eq!(validate_staking(&someone(), 0, 1, None), Err(ContractError::InvalidAmount));
    assert_eq!(validate_staking(&someone(), 11, 1, Some(10)), Err(ContractError::InvalidAmount));
}

#[test]
fn validate_oracle_update_checks_in_order() {
    let node = someone();
    assert_eq!(validate_oracle_update(&node, "BTC", 100, 50, "feed"), Ok(()));
    assert_eq!(validate_oracle_update(&node, "BTC", 100, 100, "feed"), Ok(()));
    assert_eq!(
        validate_oracle_update(&Address::none(), "BTC", 100, 50, "feed"),
        Err(ContractError::NotAuthorized)
    );
    assert_eq!(
        validate_oracle_update(&node, "", 0, 0, "feed"),
        Err(ContractError::NotAuthorized)
    );
    assert_eq!(
        validate_oracle_update(&node, "BTC", 0, 0, ""),
        Err(ContractError::NotAuthorized)
    );
    assert_eq!(
        validate_oracle_update(&node, "BTC", 0, 0, "feed"),
        Err(ContractError::InvalidAmount)
    );
    assert_eq!(
        validate_oracle_update(&node, "BTC", 100, 49, "feed"),
        Err(ContractError::OracleError)
    );
    assert_eq!(
        validate_oracle_update(&node, "BTC", 100, 101, "feed"),
        Err(ContractError::OracleError)
    );
}
