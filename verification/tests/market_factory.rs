use prediction_markets::market_factory::{EventType, MarketFactoryContract};
use prediction_markets::records::Config;
use prediction_markets::types::{Address, ContractError};

fn admin() -> Address {
    Address::account(0, 1)
}

fn token() -> Address {
    Address::contract(0, 2)
}

fn oracle() -> Address {
    Address::contract(0, 3)
}

fn creator() -> Address {
    Address::account(0, 10)
}

fn deployed(n: u128) -> Address {
    Address::contract(9, n)
}

fn s(text: &str) -> String {
    text.to_string()
}

fn factory() -> MarketFactoryContract {
    let mut factory = MarketFactoryContract::new();
    assert_eq!(factory.initialize(admin(), token(), oracle(), 250, 1000), Ok(()));
    factory
}

#[test]
fn factory_starts_empty_with_its_config() {
    let mut factory = factory();
    assert_eq!(factory.get_market_count(), 0);
    assert_eq!(factory.get_markets(), Vec::<Address>::new());
    assert_eq!(factory.get_min_market_fee(), 1000);
    assert_eq!(factory.get_creator_fee(), 250);
    assert_eq!(
        factory.get_config(),
        Config {
            admin: admin(),
            kale_token: token(),
            oracle_address: oracle(),
            platform_fee_rate: 250,
            min_stake_amount: 1000,
            reward_rate_per_second: 0,
            max_market_duration: 30 * 24 * 60 * 60,
            min_market_duration: 60 * 60,
        }
    );
    assert_eq!(
        factory.initialize(creator(), token(), oracle(), 1, 1),
        Err(ContractError::NotAuthorized)
    );
    assert_eq!(factory.get_config().admin, admin());
}

#[test]
fn created_markets_are_counted_and_catalogued() {
    let mut factory = factory();
    let first = factory.create_market(
        creator(),
        s("BTC above 50k"),
        s("BTC"),
        50_000,
        0,
        10_000,
        1,
        100,
        1000,
        1_000,
        deployed(1),
    );
    assert_eq!(
        first,
        Ok(EventType::MarketCreated {
            market_id: 1,
            creator: creator(),
            contract_id: deployed(1),
            event_description: s("BTC above 50k"),
            oracle_asset: s("BTC"),
            target_price: 50_000,
            condition: 0,
            resolve_time: 10_000,
        })
    );
    let second = factory.create_market(
        creator(),
        s("ETH below 3k"),
        s("ETH"),
        3_000,
        1,
        4_600,
        5,
        6,
        0,
        1_000,
        deployed(2),
    );
    assert!(matches!(second, Ok(EventType::MarketCreated { market_id: 2, .. })));
    assert_eq!(factory.get_market_count(), 2);
    assert_eq!(factory.get_markets(), vec![deployed(1), deployed(2)]);
}

fn attempt(
    factory: &mut MarketFactoryContract,
    condition: u32,
    resolve_time: u64,
    min_bet: i128,
    max_bet: i128,
    fee: u32,
) -> Result<EventType, ContractError> {
    factory.create_market(
        creator(),
        s("d"),
        s("BTC"),
        1,
        condition,
        resolve_time,
        min_bet,
        max_bet,
        fee,
        1_000,
        deployed(7),
    )
}

#[test]
fn bad_terms_are_refused_in_order() {
    let mut factory = factory();
    // the past and the present
    assert_eq!(attempt(&mut factory, 9, 1_000, 0, 0, 9999), Err(ContractError::InvalidTimestamp));
    assert_eq!(attempt(&mut factory, 9, 999, 0, 0, 9999), Err(ContractError::InvalidTimestamp));
    // shorter than an hour, longer than thirty days
    assert_eq!(attempt(&mut factory, 0, 4_599, 1, 2, 0), Err(ContractError::InvalidTimestamp));
    assert_eq!(
        attempt(&mut factory, 0, 1_000 + 2_592_001, 1, 2, 0),
        Err(ContractError::InvalidTimestamp)
    );
    assert_eq!(attempt(&mut factory, 2, 4_600, 0, 0, 9999), Err(ContractError::InvalidOutcome));
    assert_eq!(attempt(&mut factory, 1, 4_600, 0, 0, 1001), Err(ContractError::InvalidAmount));
    assert_eq!(attempt(&mut factory, 1, 4_600, 0, 5, 1000), Err(ContractError::InvalidAmount));
    assert_eq!(attempt(&mut factory, 1, 4_600, 5, 5, 1000), Err(ContractError::InvalidAmount));
    assert_eq!(attempt(&mut factory, 1, 4_600, 5, 4, 1000), Err(ContractError::InvalidAmount));
    assert_eq!(factory.get_market_count(), 0);
    assert_eq!(factory.get_markets(), Vec::<Address>::new());
    // the bounds themselves are taken
    assert!(attempt(&mut factory, 1, 4_600, 1, 2, 1000).is_ok());
    assert!(attempt(&mut factory, 0, 1_000 + 2_592_000, 1, 2, 0).is_ok());
    assert_eq!(factory.get_market_count(), 2);
    assert_eq!(factory.validate_market_terms(1_000, 1, 4_600, 1, 2, 1000), Ok(()));
    assert_eq!(
        factory.validate_market_terms(1_000, 1, 4_600, 1, 1, 1000),
        Err(ContractError::InvalidAmount)
    );
}

#[test]
fn factory_config_is_updated_by_the_admin() {
    let mut factory = factory();
    assert_eq!(factory.update_config(creator(), 1, 1), Err(ContractError::NotAuthorized));
    assert_eq!(factory.update_config(creator(), 1001, 1), Err(ContractError::NotAuthorized));
    assert_eq!(factory.update_config(admin(), 1001, 1), Err(ContractError::InvalidAmount));
    assert_eq!(factory.get_creator_fee(), 250);
    assert_eq!(factory.get_min_market_fee(), 1000);
    assert_eq!(factory.update_config(admin(), 1000, 7), Ok(()));
    assert_eq!(factory.get_creator_fee(), 1000);
    assert_eq!(factory.get_min_market_fee(), 7);
}

#[test]
fn fees_are_withdrawn_by_the_admin() {
    let factory = factory();
    assert_eq!(factory.withdraw_fees(creator(), 50), Err(ContractError::NotAuthorized));
    assert_eq!(factory.withdraw_fees(admin(), 50), Ok(50));
    assert_eq!(factory.withdraw_fees(admin(), 0), Ok(0));
    assert_eq!(factory.withdraw_fees(admin(), -3), Ok(0));
}
