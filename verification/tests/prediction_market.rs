use prediction_markets::prediction_market::{EventType, PredictionMarketContract};
use prediction_markets::types::{Address, ContractError, MarketStatus};

fn factory() -> Address {
    Address::contract(0, 1)
}

fn token() -> Address {
    Address::contract(0, 2)
}

fn oracle() -> Address {
    Address::contract(0, 3)
}

fn alice() -> Address {
    Address::account(0, 10)
}

fn bob() -> Address {
    Address::account(0, 11)
}

fn carol() -> Address {
    Address::account(0, 12)
}

/// A market on BTC above 50, resolving at 1000, with bets from 1 to 1000.
fn open_market() -> PredictionMarketContract {
    let mut market = PredictionMarketContract::new();
    let set_up = market.initialize(
        factory(),
        alice(),
        "BTC above 50".to_string(),
        "BTC".to_string(),
        50,
        0,
        1000,
        1,
        1000,
        100,
        token(),
        oracle(),
    );
    assert_eq!(set_up, Ok(()));
    market
}

#[test]
fn initialize_twice_is_refused() {
    let mut market = open_market();
    let again = market.initialize(
        factory(),
        bob(),
        "other".to_string(),
        "ETH".to_string(),
        1,
        1,
        5,
        1,
        2,
        0,
        token(),
        oracle(),
    );
    assert_eq!(again, Err(ContractError::NotAuthorized));
    let info = market.get_market_info();
    assert_eq!(info.event_name, "BTC above 50");
    assert_eq!(info.creator, alice());
}

#[test]
fn market_info_starts_active_and_empty() {
    let market = open_market();
    let info = market.get_market_info();
    assert_eq!(info.id, 0);
    assert_eq!(info.outcome_a_name, "YES");
    assert_eq!(info.outcome_b_name, "NO");
    assert_eq!(info.end_time, 1000);
    assert_eq!(info.resolution_time, 1000);
    assert_eq!(info.status, MarketStatus::Active);
    assert_eq!(info.total_pool_a, 0);
    assert_eq!(info.total_pool_b, 0);
    assert_eq!(info.min_bet_amount, 1);
    assert_eq!(info.max_bet_amount, 1000);
    assert_eq!(info.creator_fee_rate, 100);
    assert_eq!(info.platform_fee_rate, 100);
    assert_eq!(info.oracle_address, oracle());
    assert!(info.is_active());
    assert!(!info.is_resolved());
    assert!(!market.is_resolved());
    assert!(!market.get_outcome());
}

#[test]
fn two_bettors_settle_pari_mutuel() {
    let mut market = open_market();
    assert_eq!(
        market.bet(alice(), true, 100, 10),
        Ok(EventType::BetPlaced {
            bettor: alice(),
            side: true,
            amount: 100,
            total_for: 100,
            total_against: 0
        })
    );
    assert_eq!(
        market.bet(bob(), false, 50, 20),
        Ok(EventType::BetPlaced {
            bettor: bob(),
            side: false,
            amount: 50,
            total_for: 100,
            total_against: 50
        })
    );
    assert_eq!(market.get_totals(), (100, 50));
    assert_eq!(
        market.resolve(1000, 60),
        Ok(EventType::MarketResolved { outcome: true, final_price: 60, total_pool: 150 })
    );
    assert!(market.is_resolved());
    assert!(market.get_outcome());
    assert_eq!(market.get_market_info().status, MarketStatus::Resolved);
    assert_eq!(market.claim_winnings(alice()), Ok(150));
    assert_eq!(market.claim_winnings(bob()), Ok(0));
}

#[test]
fn second_claim_is_refused() {
    let mut market = open_market();
    assert!(market.bet(alice(), true, 100, 10).is_ok());
    assert!(market.bet(bob(), false, 50, 20).is_ok());
    assert!(market.resolve(1000, 60).is_ok());
    assert_eq!(market.claim_winnings(alice()), Ok(150));
    assert_eq!(market.claim_winnings(alice()), Err(ContractError::AlreadyClaimed));
    assert_eq!(market.claim_winnings(alice()), Err(ContractError::AlreadyClaimed));
    // whoever was owed nothing is not listed as paid
    assert_eq!(market.claim_winnings(bob()), Ok(0));
    assert_eq!(market.claim_winnings(bob()), Ok(0));
}

#[test]
fn pools_are_sums_of_bets() {
    let mut market = open_market();
    assert!(market.bet(alice(), true, 100, 1).is_ok());
    assert!(market.bet(alice(), true, 30, 2).is_ok());
    assert!(market.bet(bob(), true, 5, 3).is_ok());
    assert!(market.bet(alice(), false, 7, 4).is_ok());
    assert!(market.bet(carol(), false, 11, 5).is_ok());
    assert_eq!(market.get_user_bets(alice()), (130, 7));
    assert_eq!(market.get_user_bets(bob()), (5, 0));
    assert_eq!(market.get_user_bets(carol()), (0, 11));
    assert_eq!(market.get_totals(), (135, 18));
    let info = market.get_market_info();
    assert_eq!(info.total_pool_a, 135);
    assert_eq!(info.total_pool_b, 18);
    assert_eq!(info.total_pool(), 153);
}

#[test]
fn payouts_stay_within_both_pools() {
    let mut market = open_market();
    assert!(market.bet(alice(), true, 3, 1).is_ok());
    assert!(market.bet(bob(), true, 4, 2).is_ok());
    assert!(market.bet(carol(), false, 10, 3).is_ok());
    assert!(market.resolve(2000, 51).is_ok());
    // 3 + floor(3 * 10 / 7) = 7, 4 + floor(4 * 10 / 7) = 9
    assert_eq!(market.claim_winnings(alice()), Ok(7));
    assert_eq!(market.claim_winnings(bob()), Ok(9));
    assert_eq!(market.claim_winnings(carol()), Ok(0));
    assert!(7 + 9 <= 17);
}

#[test]
fn winnings_are_paid_from_pools_of_any_size() {
    let mut market = PredictionMarketContract::new();
    let set_up = market.initialize(
        factory(),
        alice(),
        "BTC above 50".to_string(),
        "BTC".to_string(),
        50,
        0,
        1000,
        1,
        i128::MAX,
        0,
        token(),
        oracle(),
    );
    assert_eq!(set_up, Ok(()));
    let half = 85070591730234615865843651857942052863i128;
    assert!(market.bet(alice(), true, half - 1, 1).is_ok());
    assert!(market.bet(bob(), true, 1, 2).is_ok());
    assert!(market.bet(carol(), false, half, 3).is_ok());
    assert!(market.resolve(1000, 51).is_ok());
    // bob: 1 + floor(1 * half / half); alice: (half - 1) + floor((half - 1) * half / half)
    assert_eq!(market.claim_winnings(bob()), Ok(2));
    assert_eq!(market.claim_winnings(alice()), Ok(2 * half - 2));
    assert_eq!(market.claim_winnings(carol()), Ok(0));
    assert_eq!(market.get_totals(), (half, half));
    assert_eq!(market.get_user_bets(alice()), (half - 1, 0));
    assert!(market.validate());
}

#[test]
fn no_side_wins_below_target() {
    let mut market = open_market();
    assert!(market.bet(alice(), true, 100, 10).is_ok());
    assert!(market.bet(bob(), false, 50, 20).is_ok());
    assert_eq!(
        market.resolve(1000, 50),
        Ok(EventType::MarketResolved { outcome: false, final_price: 50, total_pool: 150 })
    );
    assert_eq!(market.claim_winnings(alice()), Ok(0));
    // 50 + floor(50 * 100 / 50) = 150
    assert_eq!(market.claim_winnings(bob()), Ok(150));
}

#[test]
fn winner_alone_gets_stake_back() {
    let mut market = open_market();
    assert!(market.bet(alice(), true, 100, 10).is_ok());
    assert!(market.resolve(1000, 60).is_ok());
    assert_eq!(market.claim_winnings(alice()), Ok(100));
}

#[test]
fn bet_is_refused_when_closed_or_out_of_bounds() {
    let mut market = open_market();
    assert_eq!(market.bet(alice(), true, 0, 10), Err(ContractError::InvalidAmount));
    assert_eq!(market.bet(alice(), true, 1001, 10), Err(ContractError::InvalidAmount));
    assert_eq!(market.bet(alice(), true, 1, 1000), Err(ContractError::MarketClosed));
    assert_eq!(market.bet(alice(), true, 0, 1000), Err(ContractError::MarketClosed));
    assert!(market.bet(alice(), true, 1, 999).is_ok());
    assert!(market.bet(alice(), true, 1000, 999).is_ok());
    assert!(market.resolve(1000, 0).is_ok());
    assert_eq!(market.bet(alice(), true, 5, 10), Err(ContractError::MarketClosed));
    assert_eq!(market.get_totals(), (1001, 0));
}

#[test]
fn resolve_is_refused_early_and_twice() {
    let mut market = open_market();
    assert_eq!(market.resolve(999, 60), Err(ContractError::InvalidTimestamp));
    assert!(!market.is_resolved());
    assert!(market.resolve(1000, 60).is_ok());
    assert_eq!(market.resolve(1001, 10), Err(ContractError::MarketAlreadyResolved));
    assert!(market.get_outcome());
}

#[test]
fn claim_before_resolution_is_refused() {
    let mut market = open_market();
    assert!(market.bet(alice(), true, 100, 10).is_ok());
    assert_eq!(market.claim_winnings(alice()), Err(ContractError::MarketClosed));
}

#[test]
fn majority_rule_and_winnings_formula() {
    assert!(PredictionMarketContract::determine_outcome(0, 100, 50));
    assert!(!PredictionMarketContract::determine_outcome(0, 50, 50));
    assert!(!PredictionMarketContract::determine_outcome(0, 10, 50));
    assert_eq!(PredictionMarketContract::calculate_winnings(100, 100, 50), 150);
    assert_eq!(PredictionMarketContract::calculate_winnings(100, 100, 0), 100);
    assert_eq!(PredictionMarketContract::calculate_winnings(1, 3, 2), 1);
    assert_eq!(PredictionMarketContract::calculate_winnings(2, 3, 2), 3);
}
