use prediction_markets::event_manager::{
    ContractRegistry, EventManagerContract, EventRecord, EventTypeCount,
};
use prediction_markets::events::{ContractEvent, EventFilter, EventKind, EventSubscription};
use prediction_markets::records::ContractCallResult;
use prediction_markets::types::{Address, Bytes32, ContractError};

fn admin() -> Address {
    Address::account(0, 1)
}

fn staking() -> Address {
    Address::contract(0, 2)
}

fn oracle() -> Address {
    Address::contract(0, 3)
}

fn factory() -> Address {
    Address::contract(0, 4)
}

fn market() -> Address {
    Address::contract(0, 5)
}

fn stranger() -> Address {
    Address::account(0, 9)
}

fn s(text: &str) -> String {
    text.to_string()
}

fn bus() -> EventManagerContract {
    let mut bus = EventManagerContract::new();
    assert_eq!(bus.initialize(admin(), staking(), oracle(), factory(), market()), Ok(()));
    bus
}

fn staked(amount: i128) -> ContractEvent {
    ContractEvent::TokensStaked { staker: stranger(), amount, total_staked: amount, apy: 0 }
}

fn price(timestamp: u64) -> ContractEvent {
    ContractEvent::PriceUpdated {
        asset_name: s("BTC"),
        price: 1,
        confidence: 90,
        source: s("x"),
        timestamp,
    }
}

fn no_filter() -> EventFilter {
    EventFilter {
        event_types: None,
        contract_addresses: None,
        from_timestamp: None,
        to_timestamp: None,
        user_addresses: None,
    }
}

fn found(bus: &EventManagerContract, filter: &EventFilter) -> Vec<ContractEvent> {
    let answer = bus.query_events(filter);
    assert!(answer.success);
    assert_eq!(answer.error, None);
    answer.data.unwrap()
}

#[test]
fn bus_initialize_twice_is_refused() {
    let mut bus = bus();
    assert_eq!(
        bus.initialize(stranger(), market(), market(), market(), market()),
        Err(ContractError::NotAuthorized)
    );
    assert_eq!(
        bus.get_contract_registry(),
        Ok(ContractRegistry {
            kale_integration: staking(),
            reflector_oracle: oracle(),
            market_factory: factory(),
            prediction_market: market(),
        })
    );
    let unset = EventManagerContract::new();
    assert_eq!(unset.get_contract_registry(), Err(ContractError::NotAuthorized));
    assert_eq!(unset.is_registered_contract(market()), Err(ContractError::NotAuthorized));
}

#[test]
fn only_registered_contracts_emit() {
    let mut bus = bus();
    assert_eq!(bus.emit_event(stranger(), staked(1), 10), Err(ContractError::NotAuthorized));
    assert_eq!(bus.emit_event(admin(), staked(1), 10), Err(ContractError::NotAuthorized));
    assert_eq!(found(&bus, &no_filter()), vec![]);
    assert_eq!(bus.emit_event(staking(), staked(1), 10), Ok(()));
    assert_eq!(bus.emit_event(oracle(), price(11), 12), Ok(()));
    assert_eq!(bus.emit_event(factory(), staked(2), 13), Ok(()));
    assert_eq!(bus.emit_event(market(), staked(3), 14), Ok(()));
    assert_eq!(found(&bus, &no_filter()), vec![staked(1), price(11), staked(2), staked(3)]);
    assert_eq!(bus.is_registered_contract(market()), Ok(true));
    assert_eq!(bus.is_registered_contract(stranger()), Ok(false));
    let mut unset = EventManagerContract::new();
    assert_eq!(unset.emit_event(market(), staked(1), 1), Err(ContractError::NotAuthorized));
}

#[test]
fn history_keeps_the_latest_thousand() {
    let mut bus = bus();
    for i in 0..1003i128 {
        assert_eq!(bus.emit_event(staking(), staked(i), i as u64), Ok(()));
    }
    let all = found(&bus, &no_filter());
    assert_eq!(all.len(), 1000);
    assert_eq!(all[0], staked(3));
    assert_eq!(all[999], staked(1002));
}

#[test]
fn filters_are_conjunctive_and_absent_dimensions_are_wildcards() {
    let mut bus = bus();
    assert_eq!(bus.emit_event(staking(), staked(1), 10), Ok(()));
    assert_eq!(bus.emit_event(oracle(), price(5), 20), Ok(()));
    assert_eq!(bus.emit_event(oracle(), price(25), 30), Ok(()));
    assert_eq!(bus.emit_event(market(), staked(2), 40), Ok(()));

    let by_type = EventFilter { event_types: Some(vec![s("PriceUpdated")]), ..no_filter() };
    assert_eq!(found(&bus, &by_type), vec![price(5), price(25)]);

    let by_types = EventFilter {
        event_types: Some(vec![s("BetPlaced"), s("TokensStaked")]),
        ..no_filter()
    };
    assert_eq!(found(&bus, &by_types), vec![staked(1), staked(2)]);

    let by_no_type = EventFilter { event_types: Some(vec![]), ..no_filter() };
    assert_eq!(found(&bus, &by_no_type), vec![]);

    let by_contract = EventFilter { contract_addresses: Some(vec![market(), staking()]), ..no_filter() };
    assert_eq!(found(&bus, &by_contract), vec![staked(1), staked(2)]);

    // a price update carries its own time: 5 and 25; the others the time of emission
    let from = EventFilter { from_timestamp: Some(10), ..no_filter() };
    assert_eq!(found(&bus, &from), vec![staked(1), price(25), staked(2)]);
    let to = EventFilter { to_timestamp: Some(25), ..no_filter() };
    assert_eq!(found(&bus, &to), vec![staked(1), price(5), price(25)]);
    let between = EventFilter { from_timestamp: Some(6), to_timestamp: Some(39), ..no_filter() };
    assert_eq!(found(&bus, &between), vec![staked(1), price(25)]);

    let all_dimensions = EventFilter {
        event_types: Some(vec![s("TokensStaked")]),
        contract_addresses: Some(vec![market()]),
        from_timestamp: Some(40),
        to_timestamp: Some(40),
        user_addresses: Some(vec![admin()]),
    };
    assert_eq!(found(&bus, &all_dimensions), vec![staked(2)]);
    let one_misses = EventFilter { to_timestamp: Some(39), ..all_dimensions };
    assert_eq!(found(&bus, &one_misses), vec![]);
}

#[test]
fn matches_filter_by_record() {
    let record = EventRecord { emitter: oracle(), emitted_at: 50, event: price(7) };
    assert!(EventManagerContract::matches_filter(&record, &no_filter()));
    assert_eq!(EventManagerContract::get_event_timestamp(&record), 7);
    assert_eq!(EventManagerContract::get_event_contract_address(&record), oracle());
    assert_eq!(EventManagerContract::get_event_type_name(&record.event), "PriceUpdated");
    let other = EventRecord { emitter: market(), emitted_at: 50, event: staked(1) };
    assert_eq!(EventManagerContract::get_event_timestamp(&other), 50);
    let filter = EventFilter { from_timestamp: Some(8), ..no_filter() };
    assert!(!EventManagerContract::matches_filter(&record, &filter));
    assert!(EventManagerContract::matches_filter(&other, &filter));
}

#[test]
fn every_kind_has_its_name() {
    let id = Bytes32 { hi: 0, lo: 1 };
    let a = stranger();
    let events = vec![
        (
            ContractEvent::MarketCreated {
                market_id: id,
                creator: a,
                asset_symbol: s("BTC"),
                target_price: 1,
                resolve_time: 2,
            },
            "MarketCreated",
        ),
        (
            ContractEvent::MarketResolved { market_id: id, outcome: true, final_price: 1, confidence: 2 },
            "MarketResolved",
        ),
        (
            ContractEvent::BetPlaced { market_id: id, bettor: a, side: true, amount: 1, odds: 2 },
            "BetPlaced",
        ),
        (ContractEvent::WinningsClaimed { market_id: id, winner: a, amount: 1 }, "WinningsClaimed"),
        (staked(1), "TokensStaked"),
        (
            ContractEvent::TokensUnstaked { staker: a, amount: 1, remaining_staked: 0 },
            "TokensUnstaked",
        ),
        (ContractEvent::RewardsClaimed { staker: a, amount: 1, new_balance: 0 }, "RewardsClaimed"),
        (price(1), "PriceUpdated"),
        (ContractEvent::OracleNodeAdded { node_address: a, reputation_score: 100 }, "OracleNodeAdded"),
        (
            ContractEvent::OracleNodeRemoved { node_address: a, reason: s("r") },
            "OracleNodeRemoved",
        ),
        (
            ContractEvent::CrossContractCall {
                from_contract: a,
                to_contract: a,
                function_name: s("f"),
                success: false,
                error_message: Some(s("e")),
            },
            "CrossContractCall",
        ),
        (
            ContractEvent::ContractValidationFailed {
                contract_address: a,
                validation_type: s("v"),
                reason: s("r"),
            },
            "ContractValidationFailed",
        ),
        (ContractEvent::FeeCollected { collector: a, amount: 1, fee_type: s("t") }, "FeeCollected"),
        (
            ContractEvent::ConfigurationUpdated {
                contract_address: a,
                parameter: s("p"),
                old_value: s("o"),
                new_value: s("n"),
            },
            "ConfigurationUpdated",
        ),
    ];
    assert_eq!(events.len(), 14);
    for (event, name) in events.iter() {
        assert_eq!(EventManagerContract::get_event_type_name(event), *name);
        assert_eq!(EventKind::of(event).name(), *name);
        assert_eq!(event.clone(), *event);
    }
    let mut names: Vec<&str> = (0..14).map(|i| EventKind::at(i).name()).collect();
    let in_order = names.clone();
    names.sort();
    names.dedup();
    assert_eq!(names, in_order);
}

#[test]
fn stats_count_each_kind_that_occurs() {
    let mut bus = bus();
    assert_eq!(bus.get_event_stats().data, Some(vec![]));
    assert_eq!(bus.emit_event(staking(), staked(1), 10), Ok(()));
    assert_eq!(bus.emit_event(oracle(), price(5), 20), Ok(()));
    assert_eq!(bus.emit_event(market(), staked(2), 40), Ok(()));
    assert_eq!(
        bus.emit_cross_contract_event(market(), oracle(), s("get_price"), true, None, 41),
        Ok(())
    );
    assert_eq!(
        bus.get_event_stats(),
        ContractCallResult {
            success: true,
            data: Some(vec![
                EventTypeCount { event_type: s("CrossContractCall"), count: 1 },
                EventTypeCount { event_type: s("PriceUpdated"), count: 1 },
                EventTypeCount { event_type: s("TokensStaked"), count: 2 },
            ]),
            error: None,
        }
    );
}

#[test]
fn cross_contract_reports_are_events_of_the_caller() {
    let mut bus = bus();
    assert_eq!(
        bus.emit_cross_contract_event(stranger(), oracle(), s("f"), true, None, 1),
        Err(ContractError::NotAuthorized)
    );
    assert_eq!(
        bus.emit_cross_contract_event(market(), oracle(), s("get_price"), false, Some(s("stale")), 7),
        Ok(())
    );
    let by_contract = EventFilter { contract_addresses: Some(vec![market()]), ..no_filter() };
    assert_eq!(
        found(&bus, &by_contract),
        vec![ContractEvent::CrossContractCall {
            from_contract: market(),
            to_contract: oracle(),
            function_name: s("get_price"),
            success: false,
            error_message: Some(s("stale")),
        }]
    );
}

#[test]
fn registry_slots_are_set_by_tag() {
    let mut bus = bus();
    let new = Address::contract(7, 7);
    assert_eq!(
        bus.register_contract(stranger(), new, &s("market_factory")),
        Err(ContractError::NotAuthorized)
    );
    assert_eq!(bus.register_contract(admin(), new, &s("nft")), Err(ContractError::NotAuthorized));
    assert_eq!(bus.register_contract(admin(), new, &s("")), Err(ContractError::NotAuthorized));
    assert_eq!(bus.get_contract_registry().unwrap().market_factory, factory());
    assert_eq!(bus.register_contract(admin(), new, &s("market_factory")), Ok(()));
    assert_eq!(
        bus.get_contract_registry(),
        Ok(ContractRegistry {
            kale_integration: staking(),
            reflector_oracle: oracle(),
            market_factory: new,
            prediction_market: market(),
        })
    );
    assert_eq!(bus.register_contract(admin(), new, &s("kale_integration")), Ok(()));
    assert_eq!(bus.register_contract(admin(), new, &s("reflector_oracle")), Ok(()));
    assert_eq!(bus.register_contract(admin(), new, &s("prediction_market")), Ok(()));
    assert_eq!(
        bus.get_contract_registry(),
        Ok(ContractRegistry {
            kale_integration: new,
            reflector_oracle: new,
            market_factory: new,
            prediction_market: new,
        })
    );
    assert_eq!(bus.is_registered_contract(factory()), Ok(false));
    let mut unset = EventManagerContract::new();
    assert_eq!(
        unset.register_contract(admin(), new, &s("market_factory")),
        Err(ContractError::NotAuthorized)
    );
}

#[test]
fn event_subscriptions_name_registered_contracts() {
    let mut bus = bus();
    let refused = bus.subscribe_to_events(stranger(), vec![s("BetPlaced")], vec![market(), admin()], 5);
    assert_eq!(
        refused,
        Ok(ContractCallResult {
            success: false,
            data: None,
            error: Some(s("Invalid contract address"))
        })
    );
    let taken = bus.subscribe_to_events(stranger(), vec![s("BetPlaced")], vec![market(), oracle()], 6);
    assert_eq!(
        taken,
        Ok(ContractCallResult {
            success: true,
            data: Some(EventSubscription {
                subscriber: stranger(),
                event_types: vec![s("BetPlaced")],
                contract_addresses: vec![market(), oracle()],
                created_at: 6,
                is_active: true,
            }),
            error: None,
        })
    );
    bus.unsubscribe_from_events(stranger());
    bus.unsubscribe_from_events(admin());
    let mut unset = EventManagerContract::new();
    assert_eq!(
        unset.subscribe_to_events(stranger(), vec![], vec![market()], 1),
        Err(ContractError::NotAuthorized)
    );
    assert!(unset.subscribe_to_events(stranger(), vec![], vec![], 1).unwrap().success);
}
