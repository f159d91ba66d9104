//! Checks on the inputs of the contracts, each with the error that a bad
//! input is answered with.

use vstd::prelude::*;
use vstd::string::StringSliceAdditionalSpecFns;
use crate::types::{Address, ContractError, CONDITION_ABOVE, CONDITION_BELOW};

verus! {

/// The highest price that is taken.
pub const MAX_PRICE: i128 = 1_000_000_000_000_000_000;

/// The highest bet bound that is taken.
pub const MAX_BET_BOUND: i128 = 100_000_000_000_000_000;

/// The most bytes a market description may have.
pub const MAX_DESCRIPTION_LENGTH: u32 = 500;

/// The most bytes an asset symbol may have.
pub const MAX_SYMBOL_LENGTH: u32 = 20;

/// The most bytes the name of a data source may have.
pub const MAX_SOURCE_LENGTH: u32 = 100;

/// The lowest confidence an oracle update may declare.
pub const MIN_UPDATE_CONFIDENCE: u32 = 50;

/// The highest confidence there is.
pub const MAX_CONFIDENCE: u32 = 100;

/// `Ok`, or the error `e`, by whether `ok` holds.
pub open spec fn ok_or(ok: bool, e: ContractError) -> Result<(), ContractError> {
    if ok {
        Ok(())
    } else {
        Err(e)
    }
}

/// The first error of two checks in turn.
pub open spec fn and_then(first: Result<(), ContractError>, second: Result<(), ContractError>) -> Result<
    (),
    ContractError,
> {
    if first.is_err() {
        first
    } else {
        second
    }
}

/// An address is valid unless it is the one that stands for none.
pub open spec fn address_result(address: Address) -> Result<(), ContractError> {
    ok_or(address != Address::none(), ContractError::NotAuthorized)
}

/// An amount is valid where it is above zero, at least `min_amount`, and at
/// most `max_amount` where there is one.
pub open spec fn amount_result(amount: i128, min_amount: i128, max_amount: Option<i128>) -> Result<
    (),
    ContractError,
> {
    ok_or(
        amount > 0 && amount >= min_amount && (max_amount matches Some(max) ==> amount <= max),
        ContractError::InvalidAmount,
    )
}

/// A timestamp is valid where it lies after `now`.
pub open spec fn future_timestamp_result(now: u64, timestamp: u64) -> Result<(), ContractError> {
    ok_or(timestamp > now, ContractError::InvalidTimestamp)
}

/// A text is valid where it is not empty and has at most `max_length` bytes.
pub open spec fn string_result(string: &str, max_length: u32) -> Result<(), ContractError> {
    ok_or(
        string@.len() != 0 && string.spec_bytes().len() <= max_length,
        ContractError::NotAuthorized,
    )
}

/// A confidence is valid within its bounds.
pub open spec fn confidence_result(confidence: u32, min_confidence: u32, max_confidence: u32) -> Result<
    (),
    ContractError,
> {
    ok_or(min_confidence <= confidence <= max_confidence, ContractError::OracleError)
}

/// A market condition is valid where it is one of the two codes.
pub open spec fn market_condition_result(condition: u32) -> Result<(), ContractError> {
    ok_or(
        condition == CONDITION_ABOVE || condition == CONDITION_BELOW,
        ContractError::InvalidOutcome,
    )
}

/// A price is valid where it is above zero and within its bounds.
pub open spec fn price_result(price: i128, min_price: i128, max_price: i128) -> Result<
    (),
    ContractError,
> {
    ok_or(price > 0 && min_price <= price <= max_price, ContractError::InvalidAmount)
}

/// A fee rate is valid up to the maximum.
pub open spec fn fee_rate_result(fee_rate: u32, max_fee_rate: u32) -> Result<(), ContractError> {
    ok_or(fee_rate <= max_fee_rate, ContractError::InvalidAmount)
}

/// The checks on a new market, in their order: the creator, the
/// description, the asset symbol, the target price, the two bet bounds, the
/// condition, and the resolution time.
pub open spec fn market_creation_result(
    now: u64,
    creator: Address,
    description: &str,
    asset_symbol: &str,
    target_price: i128,
    condition: u32,
    resolve_time: u64,
    min_bet_amount: i128,
    max_bet_amount: i128,
) -> Result<(), ContractError> {
    and_then(
        address_result(creator),
        and_then(
            string_result(description, MAX_DESCRIPTION_LENGTH),
            and_then(
                string_result(asset_symbol, MAX_SYMBOL_LENGTH),
                and_then(
                    price_result(target_price, 1, MAX_PRICE),
                    and_then(
                        price_result(min_bet_amount, 1, max_bet_amount),
                        and_then(
                            price_result(max_bet_amount, min_bet_amount, MAX_BET_BOUND),
                            and_then(
                                market_condition_result(condition),
                                future_timestamp_result(now, resolve_time),
                            ),
                        ),
                    ),
                ),
            ),
        ),
    )
}

/// The checks on a stake, in their order: the staker, then the amount.
pub open spec fn staking_result(
    staker: Address,
    amount: i128,
    min_stake_amount: i128,
    max_stake_amount: Option<i128>,
) -> Result<(), ContractError> {
    and_then(address_result(staker), amount_result(amount, min_stake_amount, max_stake_amount))
}

/// The checks on an oracle update, in their order: the node, the asset
/// name, the source, the price, and the confidence.
pub open spec fn oracle_update_result(
    oracle_node: Address,
    asset_name: &str,
    price: i128,
    confidence: u32,
    source: &str,
) -> Result<(), ContractError> {
    and_then(
        address_result(oracle_node),
        and_then(
            string_result(asset_name, MAX_SYMBOL_LENGTH),
            and_then(
                string_result(source, MAX_SOURCE_LENGTH),
                and_then(
                    price_result(price, 1, MAX_PRICE),
                    confidence_result(confidence, MIN_UPDATE_CONFIDENCE, MAX_CONFIDENCE),
                ),
            ),
        ),
    )
}

/// Checks an address; see [`address_result`].
pub fn validate_address(address: &Address) -> (r: Result<(), ContractError>)
    ensures
        r == address_result(*address),
{
    if *address == Address::none() {
        Err(ContractError::NotAuthorized)
    } else {
        Ok(())
    }
}

/// Checks an amount; see [`amount_result`].
pub fn validate_amount(amount: i128, min_amount: i128, max_amount: Option<i128>) -> (r: Result<
    (),
    ContractError,
>)
    ensures
        r == amount_result(amount, min_amount, max_amount),
{
    if amount <= 0 {
        return Err(ContractError::InvalidAmount);
    }
    if amount < min_amount {
        return Err(ContractError::InvalidAmount);
    }
    if let Some(max) = max_amount {
        if amount > max {
            return Err(ContractError::InvalidAmount);
        }
    }
    Ok(())
}

/// Checks that `timestamp` lies after the ledger time `now`; see
/// [`future_timestamp_result`].
pub fn validate_future_timestamp(now: u64, timestamp: u64) -> (r: Result<(), ContractError>)
    ensures
        r == future_timestamp_result(now, timestamp),
{
    if timestamp <= now {
        Err(ContractError::InvalidTimestamp)
    } else {
        Ok(())
    }
}

/// Checks a text; see [`string_result`].
pub fn validate_string(string: &str, max_length: u32) -> (r: Result<(), ContractError>)
    ensures
        r == string_result(string, max_length),
{
    if string.is_empty() {
        return Err(ContractError::NotAuthorized);
    }
    if string.as_bytes().len() > max_length as usize {
        return Err(ContractError::NotAuthorized);
    }
    Ok(())
}

/// Checks a confidence; see [`confidence_result`].
pub fn validate_confidence(confidence: u32, min_confidence: u32, max_confidence: u32) -> (r: Result<
    (),
    ContractError,
>)
    ensures
        r == confidence_result(confidence, min_confidence, max_confidence),
{
    if confidence < min_confidence || confidence > max_confidence {
        Err(ContractError::OracleError)
    } else {
        Ok(())
    }
}

/// Checks a market condition; see [`market_condition_result`].
pub fn validate_market_condition(condition: u32) -> (r: Result<(), ContractError>)
    ensures
        r == market_condition_result(condition),
{
    if condition == CONDITION_ABOVE || condition == CONDITION_BELOW {
        Ok(())
    } else {
        Err(ContractError::InvalidOutcome)
    }
}

/// Checks a price; see [`price_result`].
pub fn validate_price(price: i128, min_price: i128, max_price: i128) -> (r: Result<
    (),
    ContractError,
>)
    ensures
        r == price_result(price, min_price, max_price),
{
    if price <= 0 {
        return Err(ContractError::InvalidAmount);
    }
    if price < min_price || price > max_price {
        return Err(ContractError::InvalidAmount);
    }
    Ok(())
}

/// Checks a fee rate; see [`fee_rate_result`].
pub fn validate_fee_rate(fee_rate: u32, max_fee_rate: u32) -> (r: Result<(), ContractError>)
    ensures
        r == fee_rate_result(fee_rate, max_fee_rate),
{
    if fee_rate > max_fee_rate {
        Err(ContractError::InvalidAmount)
    } else {
        Ok(())
    }
}

/// Checks a new market at the ledger time `now`; see
/// [`market_creation_result`].
pub fn validate_market_creation(
    now: u64,
    creator: &Address,
    description: &str,
    asset_symbol: &str,
    target_price: i128,
    condition: u32,
    resolve_time: u64,
    min_bet_amount: i128,
    max_bet_amount: i128,
) -> (r: Result<(), ContractError>)
    ensures
        r == market_creation_result(
            now,
            *creator,
            description,
            asset_symbol,
            target_price,
            condition,
            resolve_time,
            min_bet_amount,
            max_bet_amount,
        ),
{
    if let Err(e) = validate_address(creator) {
        return Err(e);
    }
    if let Err(e) = validate_string(description, MAX_DESCRIPTION_LENGTH) {
        return Err(e);
    }
    if let Err(e) = validate_string(asset_symbol, MAX_SYMBOL_LENGTH) {
        return Err(e);
    }
    if let Err(e) = validate_price(target_price, 1, MAX_PRICE) {
        return Err(e);
    }
    if let Err(e) = validate_price(min_bet_amount, 1, max_bet_amount) {
        return Err(e);
    }
    if let Err(e) = validate_price(max_bet_amount, min_bet_amount, MAX_BET_BOUND) {
        return Err(e);
    }
    if let Err(e) = validate_market_condition(condition) {
        return Err(e);
    }
    validate_future_timestamp(now, resolve_time)
}

/// Checks a stake; see [`staking_result`].
pub fn validate_staking(
    staker: &Address,
    amount: i128,
    min_stake_amount: i128,
    max_stake_amount: Option<i128>,
) -> (r: Result<(), ContractError>)
    ensures
        r == staking_result(*staker, amount, min_stake_amount, max_stake_amount),
{
    if let Err(e) = validate_address(staker) {
        return Err(e);
    }
    validate_amount(amount, min_stake_amount, max_stake_amount)
}

/// Checks an oracle update; see [`oracle_update_result`].
pub fn validate_oracle_update(
    oracle_node: &Address,
    asset_name: &str,
    price: i128,
    confidence: u32,
    source: &str,
) -> (r: Result<(), ContractError>)
    ensures
        r == oracle_update_result(*oracle_node, asset_name, price, confidence, source),
{
    if let Err(e) = validate_address(oracle_node) {
        return Err(e);
    }
    if let Err(e) = validate_string(asset_name, MAX_SYMBOL_LENGTH) {
        return Err(e);
    }
    if let Err(e) = validate_string(source, MAX_SOURCE_LENGTH) {
        return Err(e);
    }
    if let Err(e) = validate_price(price, 1, MAX_PRICE) {
        return Err(e);
    }
    validate_confidence(confidence, MIN_UPDATE_CONFIDENCE, MAX_CONFIDENCE)
}

} // verus!
