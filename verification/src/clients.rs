//! How one contract of the platform speaks to another: it reads the other's
//! answers as they are, or with every failure turned into the one error
//! that the caller expects.

use vstd::prelude::*;
use crate::types::{Address, ContractError};
use crate::records::{PriceFeed, EventData, StakeInfo, apy_basis_points, apy_computable};
use crate::table::{has_key, named};
use crate::reflector_oracle::ReflectorOracleContract;
use crate::kale_integration::KaleIntegrationContract;
use crate::market_factory::{MarketFactoryContract, EventType};

verus! {

/// The oracle as other contracts see it.
pub struct ReflectorOracleClient;

impl ReflectorOracleClient {
    /// The oracle's answer to a price request at the ledger time `now`.
    pub fn get_price(oracle: &ReflectorOracleContract, asset_name: &String, now: u64) -> (r: Result<
        PriceFeed,
        ContractError,
    >)
        requires
            oracle.wf(),
        ensures
            r == oracle@.price_result(asset_name@, now),
    {
        oracle.get_price(asset_name, now)
    }

    /// The oracle's answer to a price request, with every failure reported
    /// as `OracleError`.
    pub fn try_get_price(oracle: &ReflectorOracleContract, asset_name: &String, now: u64) -> (r:
        Result<PriceFeed, ContractError>)
        requires
            oracle.wf(),
        ensures
            match oracle@.price_result(asset_name@, now) {
                Ok(feed) => r == Ok::<PriceFeed, ContractError>(feed),
                Err(_) => r == Err::<PriceFeed, ContractError>(ContractError::OracleError),
            },
    {
        match oracle.get_price(asset_name, now) {
            Ok(feed) => Ok(feed),
            Err(_) => Err(ContractError::OracleError),
        }
    }

    /// The oracle's answer to a request for an event's outcome.
    pub fn get_event_data(oracle: &ReflectorOracleContract, event_id: &String) -> (r: Result<
        EventData,
        ContractError,
    >)
        requires
            oracle.wf(),
        ensures
            match named(oracle@.events, event_id@) {
                Some(data) => r == Ok::<EventData, ContractError>(data),
                None => r == Err::<EventData, ContractError>(ContractError::OracleError),
            },
    {
        oracle.get_event_data(event_id)
    }

    /// Whether the oracle has a fresh price of an asset at the ledger time
    /// `now`.
    pub fn is_price_available(oracle: &ReflectorOracleContract, asset_name: &String, now: u64) -> (available:
        bool)
        requires
            oracle.wf(),
        ensures
            available == oracle@.price_result(asset_name@, now).is_ok(),
    {
        oracle.is_price_available(asset_name, now)
    }
}

/// The staking ledger as other contracts see it.
pub struct KaleIntegrationClient;

impl KaleIntegrationClient {
    /// The ledger's answer to a request for a staker's record at the ledger
    /// time `now`; see [`KaleIntegrationContract::get_stake_info`].
    pub fn get_stake_info(ledger: &KaleIntegrationContract, staker: Address, now: u64) -> (r: Result<
        StakeInfo,
        ContractError,
    >)
        requires
            ledger.wf(),
            has_key(ledger@.stakes, staker) ==> ledger@.bank_fits(
                ledger@.record_of(staker, now),
                now,
            ),
        ensures
            !has_key(ledger@.stakes, staker) ==> r == Err::<StakeInfo, ContractError>(
                ContractError::StakeNotFound,
            ),
            has_key(ledger@.stakes, staker) ==> r == Ok::<StakeInfo, ContractError>(
                StakeInfo {
                    accumulated_rewards: ledger@.owed(staker, now) as i128,
                    ..ledger@.record_of(staker, now)
                },
            ),
    {
        ledger.get_stake_info(staker, now)
    }

    /// The ledger's answer to a request for a staker's record, with every
    /// failure reported as `StakeNotFound`.
    pub fn try_get_stake_info(ledger: &KaleIntegrationContract, staker: Address, now: u64) -> (r:
        Result<StakeInfo, ContractError>)
        requires
            ledger.wf(),
            has_key(ledger@.stakes, staker) ==> ledger@.bank_fits(
                ledger@.record_of(staker, now),
                now,
            ),
        ensures
            !has_key(ledger@.stakes, staker) ==> r == Err::<StakeInfo, ContractError>(
                ContractError::StakeNotFound,
            ),
            has_key(ledger@.stakes, staker) ==> r == Ok::<StakeInfo, ContractError>(
                StakeInfo {
                    accumulated_rewards: ledger@.owed(staker, now) as i128,
                    ..ledger@.record_of(staker, now)
                },
            ),
    {
        match ledger.get_stake_info(staker, now) {
            Ok(info) => Ok(info),
            Err(_) => Err(ContractError::StakeNotFound),
        }
    }

    /// The total of all principals.
    pub fn get_total_staked(ledger: &KaleIntegrationContract) -> (total: i128)
        ensures
            total == ledger@.total_staked,
    {
        ledger.get_total_staked()
    }

    /// The yearly yield of the pool in basis points.
    pub fn get_current_apy(ledger: &KaleIntegrationContract) -> (apy: u32)
        requires
            ledger.wf(),
            apy_computable(ledger@.rate(), ledger@.total_staked as int),
        ensures
            apy == apy_basis_points(ledger@.rate(), ledger@.total_staked as int),
    {
        ledger.get_current_apy()
    }

    /// Stakes for `staker`; see [`KaleIntegrationContract::stake`].
    pub fn stake(ledger: &mut KaleIntegrationContract, staker: Address, amount: i128, now: u64) -> (r:
        Result<(), ContractError>)
        requires
            old(ledger).wf(),
            old(ledger)@.config.is_some(),
            old(ledger)@.stake_result(amount).is_ok() ==> old(ledger)@.can_stake(
                staker,
                amount,
                now,
            ),
        ensures
            final(ledger).wf(),
            r == old(ledger)@.stake_result(amount),
            r.is_ok() ==> final(ledger)@ == old(ledger)@.after_stake(staker, amount, now),
            r.is_err() ==> final(ledger)@ == old(ledger)@,
    {
        ledger.stake(staker, amount, now)
    }

    /// Unstakes for `staker`; see [`KaleIntegrationContract::unstake`].
    pub fn unstake(ledger: &mut KaleIntegrationContract, staker: Address, amount: i128, now: u64) -> (r:
        Result<(), ContractError>)
        requires
            old(ledger).wf(),
            old(ledger)@.config.is_some(),
            old(ledger)@.unstake_result(staker, amount).is_ok() ==> old(ledger)@.can_unstake(
                staker,
                amount,
                now,
            ),
        ensures
            final(ledger).wf(),
            r == old(ledger)@.unstake_result(staker, amount),
            r.is_ok() ==> final(ledger)@ == old(ledger)@.after_unstake(staker, amount, now),
            r.is_err() ==> final(ledger)@ == old(ledger)@,
    {
        ledger.unstake(staker, amount, now)
    }

    /// Claims the rewards of `staker`; see
    /// [`KaleIntegrationContract::claim_rewards`].
    pub fn claim_rewards(
        ledger: &mut KaleIntegrationContract,
        staker: Address,
        now: u64,
        contract_balance: i128,
    ) -> (r: Result<i128, ContractError>)
        requires
            old(ledger).wf(),
            old(ledger)@.config.is_some(),
            has_key(old(ledger)@.stakes, staker) ==> old(ledger)@.can_claim(staker, now),
        ensures
            final(ledger).wf(),
            match r {
                Ok(paid) => old(ledger)@.claim_result(staker, now, contract_balance) == Ok::<
                    int,
                    ContractError,
                >(paid as int),
                Err(e) => old(ledger)@.claim_result(staker, now, contract_balance) == Err::<
                    int,
                    ContractError,
                >(e),
            },
            final(ledger)@ == old(ledger)@.after_claim(staker, now, contract_balance),
            r matches Ok(paid) ==> 0 <= paid <= old(ledger)@.free_balance(contract_balance),
            r matches Ok(paid) ==> (old(ledger)@.owed(staker, now) != 0 ==> final(ledger)@.record_of(staker, now).accumulated_rewards == old(ledger)@.owed(staker, now)
                - paid),
            final(ledger)@.total_staked == old(ledger)@.total_staked,
    {
        ledger.claim_rewards(staker, now, contract_balance)
    }
}

/// The market factory as other contracts see it.
pub struct MarketFactoryClient;

impl MarketFactoryClient {
    /// Records a new market; see [`MarketFactoryContract::create_market`].
    pub fn create_market(
        factory: &mut MarketFactoryContract,
        creator: Address,
        event_description: String,
        oracle_asset: String,
        target_price: i128,
        condition: u32,
        resolve_time: u64,
        min_bet_amount: i128,
        max_bet_amount: i128,
        creator_fee_rate: u32,
        now: u64,
        market_contract_id: Address,
    ) -> (r: Result<EventType, ContractError>)
        requires
            old(factory).wf(),
            old(factory)@.config.is_some(),
            old(factory)@.terms_result(
                now,
                condition,
                resolve_time,
                min_bet_amount,
                max_bet_amount,
                creator_fee_rate,
            ).is_ok() ==> old(factory)@.market_count < u32::MAX,
        ensures
            final(factory).wf(),
            match old(factory)@.terms_result(
                now,
                condition,
                resolve_time,
                min_bet_amount,
                max_bet_amount,
                creator_fee_rate,
            ) {
                Err(e) => r == Err::<EventType, ContractError>(e) && final(factory)@ == old(factory)@,
                Ok(_) => r == Ok::<EventType, ContractError>(
                    EventType::MarketCreated {
                        market_id: (old(factory)@.market_count + 1) as u32,
                        creator,
                        contract_id: market_contract_id,
                        event_description,
                        oracle_asset,
                        target_price,
                        condition,
                        resolve_time,
                    },
                ) && final(factory)@ == old(factory)@.after_create(market_contract_id),
            },
    {
        factory.create_market(
            creator,
            event_description,
            oracle_asset,
            target_price,
            condition,
            resolve_time,
            min_bet_amount,
            max_bet_amount,
            creator_fee_rate,
            now,
            market_contract_id,
        )
    }
}

} // verus!
