//! A prediction-market platform as explicit state machines: a market factory,
//! two-sided markets with pari-mutuel payout, a price oracle with a
//! reputation-weighted node set, an enterprise gateway with rate limiting, a
//! staking ledger and an event bus. Each contract is a value; each entry
//! point is a method that takes the caller, the ledger time and its other
//! inputs as plain values.

pub mod types;
pub mod records;
pub mod events;
pub mod table;
pub mod validation;
pub mod price_feeds;
pub mod subscriptions;
pub mod prediction_market;
pub mod kale_integration;
pub mod reflector_oracle;
pub mod enterprise_oracle;
pub mod market_factory;
pub mod event_manager;
pub mod receipt_nft;
pub mod clients;
