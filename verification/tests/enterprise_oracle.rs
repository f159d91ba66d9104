use prediction_markets::enterprise_oracle::{
    get_price_metadata, get_price_sources, EnterpriseClient, EnterpriseMetrics,
    EnterpriseOracleContract, PriceMetadata, PriceSource,
};
use prediction_markets::records::PriceFeed;
use prediction_markets::types::{Address, ContractError};

fn admin() -> Address {
    Address::account(0, 1)
}

fn node() -> Address {
    Address::account(0, 2)
}

fn client() -> Address {
    Address::account(0, 10)
}

fn stranger() -> Address {
    Address::account(0, 11)
}

fn s(text: &str) -> String {
    text.to_string()
}

fn metadata() -> PriceMetadata {
    PriceMetadata {
        volume_24h: 1,
        spread: 2,
        volatility: 3,
        market_cap: None,
        last_update: 4,
        update_count: 5,
    }
}

/// A gateway set up at time 0 with one node of latency 40 and a price of
/// 65000 for BTC submitted at `priced_at`, and one client with the given
/// requests per hour.
fn gateway(rate_limit: u32, priced_at: u64) -> EnterpriseOracleContract {
    let mut gateway = EnterpriseOracleContract::new();
    assert_eq!(gateway.initialize(admin(), 80, 3600, 0), Ok(()));
    assert_eq!(gateway.add_oracle_node(admin(), node(), 3, 40, 0), Ok(()));
    assert_eq!(
        gateway.register_enterprise_client(admin(), client(), s("bank"), 2, rate_limit, 0),
        Ok(())
    );
    assert_eq!(
        gateway.update_price_enterprise(node(), s("BTC"), 65000, 90, s("x"), metadata(), priced_at),
        Ok(())
    );
    gateway
}

#[test]
fn third_request_in_the_hour_is_refused_and_counted() {
    let mut gateway = gateway(2, 7200);
    assert!(gateway.get_enterprise_price(client(), &s("BTC"), 80, 300, 7200).is_ok());
    assert!(gateway.get_enterprise_price(client(), &s("BTC"), 80, 300, 7300).is_ok());
    assert_eq!(
        gateway.get_enterprise_price(client(), &s("BTC"), 80, 300, 7400),
        Err(ContractError::OracleError)
    );
    let metrics = gateway.get_enterprise_metrics().unwrap();
    assert_eq!(metrics.total_requests, 3);
    assert_eq!(metrics.failed_requests, 1);
    assert_eq!(metrics.successful_requests, 2);
    assert_eq!(metrics.uptime_percentage, 66);
    assert_eq!(metrics.last_updated, 7400);
}

#[test]
fn limit_of_three_holds_for_the_hour_and_resets() {
    let mut gateway = gateway(3, 7200);
    assert_eq!(gateway.check_rate_limit(client(), 7200), Ok(()));
    assert_eq!(gateway.check_rate_limit(client(), 7201), Ok(()));
    assert_eq!(gateway.check_rate_limit(client(), 10799), Ok(()));
    assert_eq!(gateway.check_rate_limit(client(), 10799), Err(ContractError::OracleError));
    assert_eq!(gateway.check_rate_limit(client(), 7200), Err(ContractError::OracleError));
    assert_eq!(gateway.check_rate_limit(client(), 10800), Ok(()));
    assert_eq!(gateway.check_rate_limit(client(), 10801), Ok(()));
    assert_eq!(gateway.check_rate_limit(client(), 10802), Ok(()));
    assert_eq!(gateway.check_rate_limit(client(), 10803), Err(ContractError::OracleError));
}

#[test]
fn each_client_has_its_own_hour() {
    let mut gateway = gateway(1, 7200);
    assert_eq!(
        gateway.register_enterprise_client(admin(), stranger(), s("fund"), 1, 2, 0),
        Ok(())
    );
    assert_eq!(gateway.check_rate_limit(client(), 7200), Ok(()));
    assert_eq!(gateway.check_rate_limit(client(), 7200), Err(ContractError::OracleError));
    assert_eq!(gateway.check_rate_limit(stranger(), 7200), Ok(()));
    assert_eq!(gateway.check_rate_limit(stranger(), 7200), Ok(()));
    assert_eq!(gateway.check_rate_limit(stranger(), 7200), Err(ContractError::OracleError));
}

#[test]
fn answer_carries_price_breakdown_and_latency() {
    let mut gateway = gateway(10, 7200);
    let answer = gateway.get_enterprise_price(client(), &s("BTC"), 80, 300, 7250).unwrap();
    assert_eq!(answer.asset_name, "BTC");
    assert_eq!(answer.price, 65000);
    assert_eq!(answer.timestamp, 7200);
    assert_eq!(answer.confidence, 90);
    assert_eq!(answer.latency, 40);
    assert_eq!(answer.sources, get_price_sources());
    assert_eq!(answer.metadata, get_price_metadata(7250));
    assert_eq!(gateway.get_enterprise_client(client()).unwrap().last_activity, 7250);
    let metrics = gateway.get_enterprise_metrics().unwrap();
    assert_eq!(
        metrics,
        EnterpriseMetrics {
            total_requests: 1,
            successful_requests: 1,
            failed_requests: 0,
            average_latency: 0,
            uptime_percentage: 100,
            data_quality_score: 100,
            last_updated: 7250,
        }
    );
}

#[test]
fn reference_breakdown_and_metadata() {
    assert_eq!(
        get_price_sources(),
        vec![
            PriceSource {
                name: s("coinbase"),
                price: 65000,
                weight: 30,
                latency: 45,
                volume: Some(1000000),
                spread: Some(5),
            },
            PriceSource {
                name: s("binance"),
                price: 65001,
                weight: 40,
                latency: 52,
                volume: Some(2000000),
                spread: Some(3),
            },
        ]
    );
    assert_eq!(
        get_price_metadata(9),
        PriceMetadata {
            volume_24h: 2500000000,
            spread: 5,
            volatility: 15,
            market_cap: Some(1200000000000),
            last_update: 9,
            update_count: 1000,
        }
    );
}

#[test]
fn stranger_is_refused_without_a_count() {
    let mut gateway = gateway(10, 7200);
    assert_eq!(
        gateway.get_enterprise_price(stranger(), &s("BTC"), 80, 300, 7250),
        Err(ContractError::NotAuthorized)
    );
    assert_eq!(gateway.get_enterprise_metrics().unwrap().total_requests, 0);
    assert_eq!(
        gateway.get_batch_prices(stranger(), &vec![], 80, 7250),
        Err(ContractError::NotAuthorized)
    );
    assert_eq!(
        gateway.subscribe_enterprise(stranger(), s("BTC")),
        Err(ContractError::NotAuthorized)
    );
    assert_eq!(gateway.subscribe_enterprise(client(), s("BTC")), Ok(()));
    assert_eq!(gateway.get_enterprise_client(stranger()), Err(ContractError::NotAuthorized));
}

#[test]
fn caller_bounds_are_checked_beside_the_oracle_bounds() {
    let mut gateway = gateway(10, 7200);
    // confidence 90 < 91
    assert_eq!(
        gateway.get_enterprise_price(client(), &s("BTC"), 91, 300, 7250),
        Err(ContractError::OracleError)
    );
    // age 301 > 300
    assert_eq!(
        gateway.get_enterprise_price(client(), &s("BTC"), 80, 300, 7501),
        Err(ContractError::OracleError)
    );
    assert!(gateway.get_enterprise_price(client(), &s("BTC"), 80, 300, 7500).is_ok());
    // age within the caller's bound and beyond the oracle's 3600
    assert_eq!(
        gateway.get_enterprise_price(client(), &s("BTC"), 80, 10000, 10801),
        Err(ContractError::OracleError)
    );
    // no such asset
    assert_eq!(
        gateway.get_enterprise_price(client(), &s("ETH"), 80, 300, 10802),
        Err(ContractError::OracleError)
    );
    let metrics = gateway.get_enterprise_metrics().unwrap();
    assert_eq!(
        (metrics.total_requests, metrics.successful_requests, metrics.failed_requests),
        (5, 1, 4)
    );
    assert_eq!(metrics.uptime_percentage, 20);
    assert_eq!(gateway.get_price(&s("BTC"), 7250).unwrap().price, 65000);
}

#[test]
fn batch_charges_each_asset_and_stops_at_first_failure() {
    let mut gateway = gateway(3, 7200);
    assert_eq!(
        gateway.update_price_enterprise(node(), s("ETH"), 2800, 85, s("x"), metadata(), 7200),
        Ok(())
    );
    let answers = gateway.get_batch_prices(client(), &vec![s("BTC"), s("ETH")], 80, 7300).unwrap();
    assert_eq!(answers.len(), 2);
    assert_eq!((answers[0].asset_name.as_str(), answers[0].price), ("BTC", 65000));
    assert_eq!((answers[1].asset_name.as_str(), answers[1].price), ("ETH", 2800));
    let metrics = gateway.get_enterprise_metrics().unwrap();
    assert_eq!((metrics.total_requests, metrics.successful_requests), (2, 2));
    // one request is left in this hour: the second asset fails on the limit
    assert_eq!(
        gateway.get_batch_prices(client(), &vec![s("BTC"), s("ETH"), s("BTC")], 80, 7400),
        Err(ContractError::OracleError)
    );
    let metrics = gateway.get_enterprise_metrics().unwrap();
    assert_eq!(
        (metrics.total_requests, metrics.successful_requests, metrics.failed_requests),
        (4, 3, 1)
    );
    // a batch takes no price older than 300 seconds
    assert_eq!(
        gateway.get_batch_prices(client(), &vec![s("BTC")], 80, 10800),
        Err(ContractError::OracleError)
    );
    assert_eq!(gateway.get_batch_prices(client(), &vec![], 80, 10800), Ok(vec![]));
}

#[test]
fn enterprise_submission_gates_and_reputation() {
    let mut gateway = gateway(3, 7200);
    assert_eq!(
        gateway.update_price_enterprise(stranger(), s("BTC"), 1, 99, s("x"), metadata(), 7300),
        Err(ContractError::NotAuthorized)
    );
    assert_eq!(
        gateway.update_price_enterprise(node(), s("BTC"), 1, 79, s("x"), metadata(), 7300),
        Err(ContractError::OracleError)
    );
    assert_eq!(gateway.get_price(&s("BTC"), 7300).unwrap().price, 65000);
    assert_eq!(gateway.update_enterprise_config(stranger(), 0, 3600), Err(ContractError::NotAuthorized));
    assert_eq!(gateway.update_enterprise_config(admin(), 0, 3600), Ok(()));
    assert_eq!(
        gateway.update_price_enterprise(node(), s("BTC"), 1, 79, s("x"), metadata(), 7300),
        Ok(())
    );
    // one submission below 80: reputation 99; average of one active node
    assert_eq!(gateway.get_oracle_health(), (1, 1, 99, 40));
    assert_eq!(
        gateway.update_price_enterprise(node(), s("BTC"), 2, 95, s("x"), metadata(), 7301),
        Ok(())
    );
    assert_eq!(
        gateway.update_price_enterprise(node(), s("BTC"), 2, 100, s("x"), metadata(), 7302),
        Ok(())
    );
    assert_eq!(gateway.get_oracle_health(), (1, 1, 100, 40));
    assert_eq!(
        gateway.get_price(&s("BTC"), 7302),
        Ok(PriceFeed {
            asset_name: s("BTC"),
            price: 2,
            timestamp: 7302,
            confidence: 100,
            source: s("x")
        })
    );
}

#[test]
fn gateway_node_updates_touch_one_node() {
    let mut gateway = gateway(3, 7200);
    gateway.update_oracle_reputation(node(), 0);
    gateway.update_oracle_reputation(stranger(), 0);
    gateway.update_oracle_node_activity(node(), 9000);
    gateway.update_oracle_node_activity(stranger(), 9000);
    assert_eq!(gateway.get_oracle_health(), (1, 1, 99, 40));
    gateway.update_client_activity(client(), 9001);
    assert_eq!(gateway.get_enterprise_client(client()).unwrap().last_activity, 9001);
    // nothing changes for whoever is no client
    gateway.update_client_activity(stranger(), 9002);
    assert_eq!(gateway.get_enterprise_client(stranger()), Err(ContractError::NotAuthorized));
    assert_eq!(gateway.get_enterprise_client(client()).unwrap().last_activity, 9001);
    assert!(gateway.validate());
    gateway.update_metrics(true, 9002);
    gateway.update_metrics(false, 9003);
    gateway.update_metrics(false, 9004);
    let metrics = gateway.get_enterprise_metrics().unwrap();
    assert_eq!(
        (metrics.total_requests, metrics.successful_requests, metrics.failed_requests),
        (3, 1, 2)
    );
    assert_eq!(metrics.uptime_percentage, 33);
    assert_eq!(metrics.last_updated, 9004);
}

#[test]
fn health_averages_over_active_nodes() {
    let mut gateway = EnterpriseOracleContract::new();
    assert_eq!(gateway.get_oracle_health(), (0, 0, 0, 0));
    assert_eq!(gateway.calculate_average_latency(), 0);
    assert_eq!(gateway.get_enterprise_metrics(), Err(ContractError::OracleError));
    assert_eq!(gateway.initialize(admin(), 80, 3600, 0), Ok(()));
    assert_eq!(gateway.initialize(admin(), 80, 3600, 0), Err(ContractError::NotAuthorized));
    assert_eq!(gateway.add_oracle_node(admin(), node(), 3, 41, 0), Ok(()));
    assert_eq!(gateway.add_oracle_node(admin(), stranger(), 1, 44, 0), Ok(()));
    assert_eq!(gateway.add_oracle_node(admin(), stranger(), 1, 44, 0), Err(ContractError::NotAuthorized));
    assert_eq!(gateway.add_oracle_node(stranger(), client(), 1, 44, 0), Err(ContractError::NotAuthorized));
    // (41 + 44) / 2 = 42
    assert_eq!(gateway.get_oracle_health(), (2, 2, 100, 42));
    assert_eq!(gateway.calculate_average_latency(), 42);
    assert_eq!(gateway.remove_oracle_node(admin(), node()), Ok(()));
    assert_eq!(gateway.remove_oracle_node(admin(), node()), Err(ContractError::NotAuthorized));
    assert_eq!(gateway.get_oracle_health(), (1, 1, 100, 44));
    assert!(!gateway.is_authorized_oracle(node()));
    assert!(gateway.is_authorized_oracle(stranger()));
}

#[test]
fn clients_are_registered_once_by_the_admin() {
    let mut gateway = gateway(5, 7200);
    assert_eq!(
        gateway.register_enterprise_client(stranger(), stranger(), s("x"), 1, 1, 5),
        Err(ContractError::NotAuthorized)
    );
    assert_eq!(
        gateway.register_enterprise_client(admin(), client(), s("x"), 1, 1, 5),
        Err(ContractError::NotAuthorized)
    );
    assert_eq!(
        gateway.get_enterprise_client(client()),
        Ok(EnterpriseClient {
            address: client(),
            institution_id: s("bank"),
            tier: 2,
            is_active: true,
            rate_limit: 5,
            created_at: 0,
            last_activity: 0,
        })
    );
    assert!(gateway.is_enterprise_client(client()));
    assert!(!gateway.is_enterprise_client(stranger()));
    assert_eq!(gateway.require_admin(admin()), Ok(()));
    assert_eq!(gateway.require_admin(client()), Err(ContractError::NotAuthorized));
}
