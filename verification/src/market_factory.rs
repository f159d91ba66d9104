//! The market factory: it checks the terms of a new market, keeps the
//! catalogue of the markets it has made, and counts them.

use vstd::prelude::*;
use crate::types::{Address, ContractError, CONDITION_BELOW};
use crate::records::Config;
use crate::prediction_market::{MAX_MARKET_DURATION, MIN_MARKET_DURATION};

verus! {

/// The highest fee a creator may take: ten percent, in basis points.
pub const MAX_CREATOR_FEE_RATE: u32 = 1000;

/// What the factory publishes.
#[derive(Debug, PartialEq, Eq)]
pub enum EventType {
    MarketCreated {
        market_id: u32,
        creator: Address,
        contract_id: Address,
        event_description: String,
        oracle_asset: String,
        target_price: i128,
        condition: u32,
        resolve_time: u64,
    },
}

/// The factory as a mathematical value.
#[verifier::ext_equal]
pub struct FactoryModel {
    /// `None` until the factory is set up.
    pub config: Option<Config>,
    /// The number of markets made.
    pub market_count: u32,
    /// The markets, in the order in which they were made.
    pub markets: Seq<Address>,
    /// The fee rate for creators, in basis points.
    pub creator_fee: u32,
    /// What the making of a market costs.
    pub min_market_fee: i128,
}

impl FactoryModel {
    /// A factory that has not been set up.
    pub open spec fn empty() -> FactoryModel {
        FactoryModel {
            config: None,
            market_count: 0,
            markets: Seq::empty(),
            creator_fee: 0,
            min_market_fee: 0,
        }
    }

    /// What holds of every factory: the counter is the length of the
    /// catalogue.
    pub open spec fn inv(self) -> bool {
        self.market_count == self.markets.len()
    }

    /// The answer to the terms of a new market at `now`: `InvalidTimestamp`
    /// unless the market resolves in the future, no sooner than the
    /// shortest and no later than the longest duration; `InvalidOutcome`
    /// unless the condition is one of the two codes; `InvalidAmount` where
    /// the creator's fee is above the maximum, or unless the bet bounds are
    /// above zero with the upper above the lower.
    pub open spec fn terms_result(
        self,
        now: u64,
        condition: u32,
        resolve_time: u64,
        min_bet_amount: i128,
        max_bet_amount: i128,
        creator_fee_rate: u32,
    ) -> Result<(), ContractError>
        recommends
            self.config.is_some(),
    {
        let config = self.config.unwrap();
        if resolve_time <= now {
            Err(ContractError::InvalidTimestamp)
        } else if resolve_time - now < config.min_market_duration || resolve_time - now
            > config.max_market_duration {
            Err(ContractError::InvalidTimestamp)
        } else if condition > CONDITION_BELOW {
            Err(ContractError::InvalidOutcome)
        } else if creator_fee_rate > MAX_CREATOR_FEE_RATE {
            Err(ContractError::InvalidAmount)
        } else if min_bet_amount <= 0 || max_bet_amount <= min_bet_amount {
            Err(ContractError::InvalidAmount)
        } else {
            Ok(())
        }
    }

    /// The factory after a market was made at `market_contract_id`.
    pub open spec fn after_create(self, market_contract_id: Address) -> FactoryModel {
        FactoryModel {
            market_count: (self.market_count + 1) as u32,
            markets: self.markets.push(market_contract_id),
            ..self
        }
    }
}

/// The market factory.
pub struct MarketFactoryContract {
    /// `None` until the factory is set up.
    pub config: Option<Config>,
    /// The number of markets made.
    pub market_count: u32,
    /// The markets, in the order in which they were made.
    pub markets: Vec<Address>,
    /// The fee rate for creators, in basis points.
    pub creator_fee: u32,
    /// What the making of a market costs.
    pub min_market_fee: i128,
}

impl View for MarketFactoryContract {
    type V = FactoryModel;

    open spec fn view(&self) -> FactoryModel {
        FactoryModel {
            config: self.config,
            market_count: self.market_count,
            markets: self.markets@,
            creator_fee: self.creator_fee,
            min_market_fee: self.min_market_fee,
        }
    }
}

impl MarketFactoryContract {
    /// Whether the factory is in order; see [`FactoryModel::inv`].
    pub open spec fn wf(&self) -> bool {
        self@.inv()
    }

    /// A factory that has not been set up.
    pub fn new() -> (factory: Self)
        ensures
            factory.wf(),
            factory@ == FactoryModel::empty(),
    {
        MarketFactoryContract {
            config: None,
            market_count: 0,
            markets: Vec::new(),
            creator_fee: 0,
            min_market_fee: 0,
        }
    }

    /// Sets the factory up, once: a second call is refused with
    /// `NotAuthorized` and changes nothing. Markets may run from one hour
    /// to thirty days.
    pub fn initialize(
        &mut self,
        admin: Address,
        kale_token: Address,
        reflector_oracle: Address,
        creator_fee_rate: u32,
        min_market_fee: i128,
    ) -> (r: Result<(), ContractError>)
        requires
            old(self).wf(),
        ensures
            final(self).wf(),
            old(self)@.config.is_some() ==> r == Err::<(), ContractError>(
                ContractError::NotAuthorized,
            ) && final(self)@ == old(self)@,
            old(self)@.config.is_none() ==> r.is_ok() && final(self)@ == (FactoryModel {
                config: Some(
                    Config {
                        admin,
                        kale_token,
                        oracle_address: reflector_oracle,
                        platform_fee_rate: creator_fee_rate,
                        min_stake_amount: min_market_fee,
                        reward_rate_per_second: 0,
                        max_market_duration: MAX_MARKET_DURATION,
                        min_market_duration: MIN_MARKET_DURATION,
                    },
                ),
                market_count: 0,
                markets: Seq::empty(),
                creator_fee: creator_fee_rate,
                min_market_fee,
            }),
    {
        if self.config.is_some() {
            return Err(ContractError::NotAuthorized);
        }
        self.config = Some(
            Config {
                admin,
                kale_token,
                oracle_address: reflector_oracle,
                platform_fee_rate: creator_fee_rate,
                min_stake_amount: min_market_fee,
                reward_rate_per_second: 0,
                max_market_duration: MAX_MARKET_DURATION,
                min_market_duration: MIN_MARKET_DURATION,
            },
        );
        self.market_count = 0;
        self.markets = Vec::new();
        self.creator_fee = creator_fee_rate;
        self.min_market_fee = min_market_fee;
        assert(self@.markets =~= Seq::empty());
        Ok(())
    }

    /// Checks whether the factory is in order, as a factory must be that
    /// was put together from its parts; see [`FactoryModel::inv`].
    pub fn validate(&self) -> (ok: bool)
        ensures
            ok == self.wf(),
    {
        self.markets.len() <= 4_294_967_295 && self.market_count as usize == self.markets.len()
    }

    /// Whether the factory has been set up.
    pub fn is_initialized(&self) -> (yes: bool)
        ensures
            yes == self@.config.is_some(),
    {
        self.config.is_some()
    }

    /// Whether one more market can be counted in 32 bits.
    pub fn can_create(&self) -> (yes: bool)
        ensures
            yes == (self@.market_count < u32::MAX),
    {
        self.market_count < u32::MAX
    }

    /// Checks the terms of a new market at the ledger time `now`; see
    /// [`FactoryModel::terms_result`].
    pub fn validate_market_terms(
        &self,
        now: u64,
        condition: u32,
        resolve_time: u64,
        min_bet_amount: i128,
        max_bet_amount: i128,
        creator_fee_rate: u32,
    ) -> (r: Result<(), ContractError>)
        requires
            self@.config.is_some(),
        ensures
            r == self@.terms_result(
                now,
                condition,
                resolve_time,
                min_bet_amount,
                max_bet_amount,
                creator_fee_rate,
            ),
    {
        let config = self.get_config();
        if resolve_time <= now {
            return Err(ContractError::InvalidTimestamp);
        }
        let duration: u64 = resolve_time - now;
        if duration < config.min_market_duration || duration > config.max_market_duration {
            return Err(ContractError::InvalidTimestamp);
        }
        if condition > CONDITION_BELOW {
            return Err(ContractError::InvalidOutcome);
        }
        if creator_fee_rate > MAX_CREATOR_FEE_RATE {
            return Err(ContractError::InvalidAmount);
        }
        if min_bet_amount <= 0 || max_bet_amount <= min_bet_amount {
            return Err(ContractError::InvalidAmount);
        }
        Ok(())
    }

    /// Records a new market at the ledger time `now`. The terms are checked
    /// as by [`Self::validate_market_terms`]; a refused call changes
    /// nothing. Else the market that the caller has deployed at
    /// `market_contract_id` is added to the catalogue, the counter goes up
    /// by one, and the answer is the event that announces the market under
    /// its number. The caller charges [`Self::get_min_market_fee`] and
    /// deploys the market.
    pub fn create_market(
        &mut self,
        creator: Address,
        event_description: String,
        oracle_asset: String,
        target_price: i128,
        condition: u32,
        resolve_time: u64,
        min_bet_amount: i128,
        max_bet_amount: i128,
        creator_fee_rate: u32,
        now: u64,
        market_contract_id: Address,
    ) -> (r: Result<EventType, ContractError>)
        requires
            old(self).wf(),
            old(self)@.config.is_some(),
            old(self)@.terms_result(
                now,
                condition,
                resolve_time,
                min_bet_amount,
                max_bet_amount,
                creator_fee_rate,
            ).is_ok() ==> old(self)@.market_count < u32::MAX,
        ensures
            final(self).wf(),
            match old(self)@.terms_result(
                now,
                condition,
                resolve_time,
                min_bet_amount,
                max_bet_amount,
                creator_fee_rate,
            ) {
                Err(e) => r == Err::<EventType, ContractError>(e) && final(self)@ == old(self)@,
                Ok(_) => r == Ok::<EventType, ContractError>(
                    EventType::MarketCreated {
                        market_id: (old(self)@.market_count + 1) as u32,
                        creator,
                        contract_id: market_contract_id,
                        event_description,
                        oracle_asset,
                        target_price,
                        condition,
                        resolve_time,
                    },
                ) && final(self)@ == old(self)@.after_create(market_contract_id),
            },
    {
        if let Err(e) = self.validate_market_terms(
            now,
            condition,
            resolve_time,
            min_bet_amount,
            max_bet_amount,
            creator_fee_rate,
        ) {
            return Err(e);
        }
        self.market_count = self.market_count + 1;
        self.markets.push(market_contract_id);
        assert(self@ =~= old(self)@.after_create(market_contract_id));
        Ok(
            EventType::MarketCreated {
                market_id: self.market_count,
                creator,
                contract_id: market_contract_id,
                event_description,
                oracle_asset,
                target_price,
                condition,
                resolve_time,
            },
        )
    }

    /// The markets, in the order in which they were made.
    pub fn get_markets(&self) -> (markets: Vec<Address>)
        ensures
            markets@ == self@.markets,
    {
        let mut markets: Vec<Address> = Vec::new();
        let mut i: usize = 0;
        while i < self.markets.len()
            invariant
                i <= self.markets.len(),
                markets@ == self.markets@.take(i as int),
            decreases self.markets.len() - i,
        {
            markets.push(self.markets[i]);
            assert(self.markets@.take(i + 1) =~= self.markets@.take(i as int).push(
                self.markets@[i as int],
            ));
            i += 1;
        }
        assert(self.markets@.take(i as int) =~= self.markets@);
        markets
    }

    /// The number of markets made.
    pub fn get_market_count(&self) -> (count: u32)
        ensures
            count == self@.market_count,
    {
        self.market_count
    }

    /// The settings of the factory.
    pub fn get_config(&self) -> (config: Config)
        requires
            self@.config.is_some(),
        ensures
            config == self@.config.unwrap(),
    {
        self.config.unwrap()
    }

    /// What the making of a market costs.
    pub fn get_min_market_fee(&self) -> (fee: i128)
        ensures
            fee == self@.min_market_fee,
    {
        self.min_market_fee
    }

    /// The fee rate for creators, in basis points.
    pub fn get_creator_fee(&self) -> (rate: u32)
        ensures
            rate == self@.creator_fee,
    {
        self.creator_fee
    }

    /// Whether `caller` is the admin.
    fn is_admin(&self, caller: Address) -> (yes: bool)
        ensures
            yes == (self@.config.is_some() && self@.config.unwrap().admin == caller),
    {
        match self.config {
            Some(config) => config.admin == caller,
            None => false,
        }
    }

    /// Sets the fee rate for creators and the cost of a market. Only the
    /// admin may, else the call is refused with `NotAuthorized`; a rate
    /// above the maximum is refused with `InvalidAmount`. A refused call
    /// changes nothing.
    pub fn update_config(&mut self, admin: Address, creator_fee_rate: u32, min_market_fee: i128) -> (r:
        Result<(), ContractError>)
        requires
            old(self).wf(),
            old(self)@.config.is_some(),
        ensures
            final(self).wf(),
            r == if admin != old(self)@.config.unwrap().admin {
                Err::<(), ContractError>(ContractError::NotAuthorized)
            } else if creator_fee_rate > MAX_CREATOR_FEE_RATE {
                Err::<(), ContractError>(ContractError::InvalidAmount)
            } else {
                Ok::<(), ContractError>(())
            },
            r.is_err() ==> final(self)@ == old(self)@,
            r.is_ok() ==> final(self)@ == (FactoryModel {
                creator_fee: creator_fee_rate,
                min_market_fee,
                ..old(self)@
            }),
    {
        if !self.is_admin(admin) {
            return Err(ContractError::NotAuthorized);
        }
        if creator_fee_rate > MAX_CREATOR_FEE_RATE {
            return Err(ContractError::InvalidAmount);
        }
        self.creator_fee = creator_fee_rate;
        self.min_market_fee = min_market_fee;
        assert(self@ =~= (FactoryModel {
            creator_fee: creator_fee_rate,
            min_market_fee,
            ..old(self)@
        }));
        Ok(())
    }

    /// What the admin may withdraw while the factory holds `balance`
    /// tokens: all of it where it is above zero, else nothing. Only the
    /// admin may ask, else the call is refused with `NotAuthorized`. The
    /// caller moves the tokens.
    pub fn withdraw_fees(&self, admin: Address, balance: i128) -> (r: Result<i128, ContractError>)
        requires
            self@.config.is_some(),
        ensures
            r == if admin != self@.config.unwrap().admin {
                Err::<i128, ContractError>(ContractError::NotAuthorized)
            } else if balance > 0 {
                Ok::<i128, ContractError>(balance)
            } else {
                Ok::<i128, ContractError>(0)
            },
    {
        if !self.is_admin(admin) {
            return Err(ContractError::NotAuthorized);
        }
        if balance > 0 {
            Ok(balance)
        } else {
            Ok(0)
        }
    }
}

} // verus!
