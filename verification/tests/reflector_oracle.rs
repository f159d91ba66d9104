use prediction_markets::price_feeds::update_reputation;
use prediction_markets::records::{ContractCallResult, EventData, OracleSubscription, PriceFeed};
use prediction_markets::reflector_oracle::{OracleNode, ReflectorOracleContract};
use prediction_markets::types::{Address, ContractError, MarketOutcome};

fn admin() -> Address {
    Address::account(0, 1)
}

fn node() -> Address {
    Address::account(0, 2)
}

fn other_node() -> Address {
    Address::account(0, 3)
}

fn alice() -> Address {
    Address::account(0, 10)
}

fn bob() -> Address {
    Address::account(0, 11)
}

fn s(text: &str) -> String {
    text.to_string()
}

/// An oracle with least confidence 80 and greatest age 3600, with one node
/// added at time 100.
fn oracle() -> ReflectorOracleContract {
    let mut oracle = ReflectorOracleContract::new();
    assert_eq!(oracle.initialize(admin(), 80, 3600), Ok(()));
    assert_eq!(oracle.add_oracle_node(admin(), node(), 100), Ok(()));
    oracle
}

fn reputation(oracle: &ReflectorOracleContract, address: Address) -> u32 {
    oracle
        .get_oracle_nodes()
        .into_iter()
        .find(|n| n.address == address)
        .map(|n| n.reputation_score)
        .unwrap()
}

#[test]
fn submitted_price_is_returned_and_reputation_stays_at_cap() {
    let mut oracle = oracle();
    assert_eq!(
        oracle.update_price(node(), s("BTC"), 45000_00000000000000, 90, s("exchange"), 200),
        Ok(())
    );
    assert_eq!(
        oracle.get_price(&s("BTC"), 200),
        Ok(PriceFeed {
            asset_name: s("BTC"),
            price: 45000_00000000000000,
            timestamp: 200,
            confidence: 90,
            source: s("exchange"),
        })
    );
    assert_eq!(reputation(&oracle, node()), 100);
    assert_eq!(
        oracle.get_oracle_nodes(),
        vec![OracleNode {
            address: node(),
            is_active: true,
            reputation_score: 100,
            last_update: 200
        }]
    );
}

#[test]
fn oracle_initialize_twice_is_refused() {
    let mut oracle = oracle();
    assert_eq!(oracle.initialize(alice(), 1, 1), Err(ContractError::NotAuthorized));
    assert_eq!(oracle.get_oracle_nodes().len(), 1);
    // the configuration is as it was: confidence 79 is still refused
    assert_eq!(
        oracle.update_price(node(), s("BTC"), 1, 79, s("x"), 200),
        Err(ContractError::OracleError)
    );
}

#[test]
fn nodes_are_added_and_removed_by_the_admin_only() {
    let mut oracle = oracle();
    assert_eq!(oracle.add_oracle_node(alice(), other_node(), 5), Err(ContractError::NotAuthorized));
    assert_eq!(oracle.add_oracle_node(admin(), node(), 5), Err(ContractError::NotAuthorized));
    assert_eq!(oracle.add_oracle_node(admin(), other_node(), 5), Ok(()));
    assert_eq!(oracle.get_oracle_nodes().len(), 2);
    assert!(oracle.is_authorized_oracle(other_node()));
    assert_eq!(
        oracle.remove_oracle_node(alice(), other_node()),
        Err(ContractError::NotAuthorized)
    );
    assert_eq!(oracle.remove_oracle_node(admin(), alice()), Err(ContractError::NotAuthorized));
    assert_eq!(oracle.remove_oracle_node(admin(), node()), Ok(()));
    assert!(!oracle.is_authorized_oracle(node()));
    assert_eq!(
        oracle.get_oracle_nodes(),
        vec![OracleNode {
            address: other_node(),
            is_active: true,
            reputation_score: 100,
            last_update: 5
        }]
    );
    assert_eq!(oracle.remove_oracle_node(admin(), node()), Err(ContractError::NotAuthorized));
}

#[test]
fn uninitialized_oracle_has_no_admin() {
    let mut oracle = ReflectorOracleContract::new();
    assert_eq!(oracle.add_oracle_node(admin(), node(), 1), Err(ContractError::NotAuthorized));
    assert_eq!(oracle.update_config(admin(), 1, 1), Err(ContractError::NotAuthorized));
    assert_eq!(oracle.get_price(&s("BTC"), 1), Err(ContractError::OracleError));
}

#[test]
fn submission_gates() {
    let mut oracle = oracle();
    assert_eq!(
        oracle.update_price(alice(), s("BTC"), 1, 100, s("x"), 200),
        Err(ContractError::NotAuthorized)
    );
    assert_eq!(
        oracle.update_price(alice(), s("BTC"), 1, 10, s("x"), 200),
        Err(ContractError::NotAuthorized)
    );
    assert_eq!(
        oracle.update_price(node(), s("BTC"), 1, 79, s("x"), 200),
        Err(ContractError::OracleError)
    );
    assert_eq!(oracle.get_price(&s("BTC"), 200), Err(ContractError::OracleError));
    assert_eq!(oracle.update_price(node(), s("BTC"), 1, 80, s("x"), 200), Ok(()));
    assert_eq!(
        oracle.submit_event_data(alice(), s("e"), MarketOutcome::Draw, 100, s("x"), 200),
        Err(ContractError::NotAuthorized)
    );
    assert_eq!(
        oracle.submit_event_data(node(), s("e"), MarketOutcome::Draw, 79, s("x"), 200),
        Err(ContractError::OracleError)
    );
}

#[test]
fn price_is_stale_exactly_beyond_max_age() {
    let mut oracle = oracle();
    assert_eq!(oracle.update_price(node(), s("BTC"), 7, 90, s("x"), 1000), Ok(()));
    assert!(oracle.get_price(&s("BTC"), 1000).is_ok());
    assert!(oracle.get_price(&s("BTC"), 4600).is_ok());
    assert_eq!(oracle.get_price(&s("BTC"), 4601), Err(ContractError::OracleError));
    assert!(oracle.is_price_available(&s("BTC"), 4600));
    assert!(!oracle.is_price_available(&s("BTC"), 4601));
    assert!(!oracle.is_price_available(&s("ETH"), 1000));
    // a reading before the submission is not stale
    assert!(oracle.get_price(&s("BTC"), 999).is_ok());
    assert_eq!(oracle.update_config(admin(), 80, 10), Ok(()));
    assert!(oracle.get_price(&s("BTC"), 1010).is_ok());
    assert_eq!(oracle.get_price(&s("BTC"), 1011), Err(ContractError::OracleError));
}

#[test]
fn new_price_overwrites_the_old() {
    let mut oracle = oracle();
    assert_eq!(oracle.update_price(node(), s("BTC"), 7, 90, s("x"), 1000), Ok(()));
    assert_eq!(oracle.update_price(node(), s("ETH"), 3, 91, s("y"), 1001), Ok(()));
    assert_eq!(oracle.update_price(node(), s("BTC"), 8, 92, s("z"), 1002), Ok(()));
    let btc = oracle.get_price(&s("BTC"), 1002).unwrap();
    assert_eq!((btc.price, btc.timestamp, btc.confidence, btc.source), (8, 1002, 92, s("z")));
    let eth = oracle.get_price(&s("ETH"), 1002).unwrap();
    assert_eq!((eth.price, eth.timestamp, eth.confidence, eth.source), (3, 1001, 91, s("y")));
}

#[test]
fn reputation_follows_confidence_within_bounds() {
    assert_eq!(update_reputation(100, 95), 100);
    assert_eq!(update_reputation(99, 95), 100);
    assert_eq!(update_reputation(50, 100), 51);
    assert_eq!(update_reputation(50, 94), 50);
    assert_eq!(update_reputation(50, 80), 50);
    assert_eq!(update_reputation(50, 79), 49);
    assert_eq!(update_reputation(1, 0), 0);
    assert_eq!(update_reputation(0, 0), 0);

    let mut oracle = ReflectorOracleContract::new();
    assert_eq!(oracle.initialize(admin(), 0, 3600), Ok(()));
    assert_eq!(oracle.add_oracle_node(admin(), node(), 0), Ok(()));
    for i in 0..150u64 {
        assert_eq!(oracle.update_price(node(), s("BTC"), 1, 10, s("x"), i), Ok(()));
        assert!(reputation(&oracle, node()) <= 100);
    }
    assert_eq!(reputation(&oracle, node()), 0);
    assert_eq!(oracle.update_price(node(), s("BTC"), 1, 85, s("x"), 200), Ok(()));
    assert_eq!(reputation(&oracle, node()), 0);
    for i in 0..150u64 {
        assert_eq!(oracle.update_price(node(), s("BTC"), 1, 99, s("x"), 300 + i), Ok(()));
        assert!(reputation(&oracle, node()) <= 100);
    }
    assert_eq!(reputation(&oracle, node()), 100);
}

#[test]
fn node_updates_touch_one_node() {
    let mut oracle = oracle();
    assert_eq!(oracle.add_oracle_node(admin(), other_node(), 100), Ok(()));
    oracle.update_oracle_node_activity(node(), 777);
    oracle.update_oracle_reputation(other_node(), 10);
    oracle.update_oracle_reputation(other_node(), 10);
    oracle.update_oracle_node_activity(alice(), 5);
    oracle.update_oracle_reputation(alice(), 5);
    assert_eq!(
        oracle.get_oracle_nodes(),
        vec![
            OracleNode { address: node(), is_active: true, reputation_score: 100, last_update: 777 },
            OracleNode {
                address: other_node(),
                is_active: true,
                reputation_score: 98,
                last_update: 100
            },
        ]
    );
}

#[test]
fn event_outcomes_overwrite_and_leave_reputation() {
    let mut oracle = ReflectorOracleContract::new();
    assert_eq!(oracle.initialize(admin(), 0, 3600), Ok(()));
    assert_eq!(oracle.add_oracle_node(admin(), node(), 0), Ok(()));
    assert_eq!(oracle.get_event_data(&s("final")), Err(ContractError::OracleError));
    assert_eq!(
        oracle.submit_event_data(node(), s("final"), MarketOutcome::OutcomeA, 10, s("x"), 5),
        Ok(())
    );
    assert_eq!(
        oracle.submit_event_data(node(), s("final"), MarketOutcome::OutcomeB, 85, s("y"), 6),
        Ok(())
    );
    assert_eq!(
        oracle.get_event_data(&s("final")),
        Ok(EventData {
            event_id: s("final"),
            outcome: MarketOutcome::OutcomeB,
            timestamp: 6,
            confidence: 85,
            data_source: s("y"),
        })
    );
    let nodes = oracle.get_oracle_nodes();
    assert_eq!(nodes[0].reputation_score, 100);
    assert_eq!(nodes[0].last_update, 6);
}

#[test]
fn subscriptions_are_idempotent() {
    let mut oracle = oracle();
    oracle.subscribe(alice(), s("BTC"));
    oracle.subscribe(bob(), s("BTC"));
    oracle.subscribe(alice(), s("BTC"));
    oracle.subscribe(alice(), s("ETH"));
    assert_eq!(oracle.get_subscribers(&s("BTC")), vec![alice(), bob()]);
    assert_eq!(oracle.get_subscribers(&s("ETH")), vec![alice()]);
    assert_eq!(oracle.get_subscribers(&s("XLM")), Vec::<Address>::new());
    oracle.unsubscribe(alice(), &s("BTC"));
    oracle.unsubscribe(alice(), &s("BTC"));
    oracle.unsubscribe(bob(), &s("ETH"));
    assert_eq!(oracle.get_subscribers(&s("BTC")), vec![bob()]);
    assert_eq!(oracle.get_subscribers(&s("ETH")), vec![alice()]);
}

#[test]
fn subscription_with_threshold_needs_a_fresh_price() {
    let mut oracle = oracle();
    assert_eq!(
        oracle.subscribe_with_threshold(alice(), s("BTC"), 10, 0, 200),
        ContractCallResult {
            success: false,
            data: None,
            error: Some(s("Price not available for asset"))
        }
    );
    assert_eq!(oracle.get_subscribers(&s("BTC")), Vec::<Address>::new());
    assert_eq!(oracle.update_price(node(), s("BTC"), 7, 90, s("x"), 200), Ok(()));
    assert_eq!(
        oracle.subscribe_with_threshold(alice(), s("BTC"), 10, 1, 300),
        ContractCallResult {
            success: true,
            data: Some(OracleSubscription {
                subscriber: alice(),
                asset_name: s("BTC"),
                threshold: 10,
                condition: 1,
                created_at: 300,
                is_active: true,
            }),
            error: None
        }
    );
    assert_eq!(oracle.get_subscribers(&s("BTC")), vec![alice()]);
}

#[test]
fn batch_takes_what_has_confidence() {
    let mut oracle = oracle();
    let result = oracle.batch_update_prices(
        node(),
        vec![s("BTC"), s("ETH"), s("XLM")],
        vec![10, 20, 30],
        vec![90, 79, 80],
        s("feed"),
        500,
    );
    assert_eq!(
        result,
        ContractCallResult { success: true, data: Some(vec![s("BTC"), s("XLM")]), error: None }
    );
    assert_eq!(oracle.get_price(&s("BTC"), 500).unwrap().price, 10);
    assert_eq!(oracle.get_price(&s("ETH"), 500), Err(ContractError::OracleError));
    let xlm = oracle.get_price(&s("XLM"), 500).unwrap();
    assert_eq!((xlm.price, xlm.confidence, xlm.timestamp, xlm.source), (30, 80, 500, s("feed")));
    assert_eq!(oracle.get_oracle_nodes()[0].last_update, 500);
}

#[test]
fn batch_failures_change_nothing() {
    let mut oracle = oracle();
    assert_eq!(
        oracle.batch_update_prices(alice(), vec![s("BTC")], vec![1], vec![90], s("f"), 500),
        ContractCallResult {
            success: false,
            data: None,
            error: Some(s("Unauthorized oracle node"))
        }
    );
    assert_eq!(
        oracle.batch_update_prices(node(), vec![s("BTC")], vec![1, 2], vec![90], s("f"), 500),
        ContractCallResult {
            success: false,
            data: None,
            error: Some(s("Mismatched array lengths"))
        }
    );
    assert_eq!(
        oracle.batch_update_prices(node(), vec![s("BTC")], vec![1], vec![], s("f"), 500),
        ContractCallResult {
            success: false,
            data: None,
            error: Some(s("Mismatched array lengths"))
        }
    );
    assert_eq!(oracle.get_price(&s("BTC"), 500), Err(ContractError::OracleError));
    assert_eq!(
        oracle.batch_update_prices(node(), vec![], vec![], vec![], s("f"), 500),
        ContractCallResult { success: true, data: Some(vec![]), error: None }
    );
}

#[test]
fn fallback_price_is_tagged() {
    let mut oracle = oracle();
    assert_eq!(
        oracle.get_price_with_fallback(&s("BTC"), 42, 100),
        ContractCallResult {
            success: true,
            data: Some(42),
            error: Some(s("No price data, using fallback"))
        }
    );
    assert_eq!(oracle.update_price(node(), s("BTC"), 7, 90, s("x"), 1000), Ok(()));
    assert_eq!(
        oracle.get_price_with_fallback(&s("BTC"), 42, 4600),
        ContractCallResult { success: true, data: Some(7), error: None }
    );
    assert_eq!(
        oracle.get_price_with_fallback(&s("BTC"), 42, 4601),
        ContractCallResult {
            success: true,
            data: Some(42),
            error: Some(s("Price too old, using fallback"))
        }
    );
}

#[test]
fn market_resolution_is_validated_against_the_price() {
    let mut oracle = oracle();
    assert_eq!(
        oracle.validate_market_resolution(&s("BTC"), 10, 0, 50, 1000),
        Err(ContractError::OracleError)
    );
    assert_eq!(oracle.update_price(node(), s("BTC"), 11, 90, s("x"), 1000), Ok(()));
    assert_eq!(
        oracle.validate_market_resolution(&s("BTC"), 10, 0, 91, 1000),
        Ok(ContractCallResult {
            success: false,
            data: None,
            error: Some(s("Insufficient confidence for resolution"))
        })
    );
    assert_eq!(
        oracle.validate_market_resolution(&s("BTC"), 10, 0, 90, 1000),
        Ok(ContractCallResult { success: true, data: Some(true), error: None })
    );
    assert_eq!(
        oracle.validate_market_resolution(&s("BTC"), 11, 0, 90, 1000),
        Ok(ContractCallResult { success: true, data: Some(false), error: None })
    );
    assert_eq!(
        oracle.validate_market_resolution(&s("BTC"), 12, 1, 90, 1000),
        Ok(ContractCallResult { success: true, data: Some(true), error: None })
    );
    assert_eq!(
        oracle.validate_market_resolution(&s("BTC"), 12, 2, 90, 1000),
        Ok(ContractCallResult { success: true, data: Some(false), error: None })
    );
    assert_eq!(
        oracle.validate_market_resolution(&s("BTC"), 10, 0, 90, 4601),
        Err(ContractError::OracleError)
    );
}
