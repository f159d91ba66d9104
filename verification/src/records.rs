//! The records that the contracts keep and exchange.

use vstd::prelude::*;
use crate::types::{
    Address, Bytes32, MarketStatus, MarketOutcome, payout, payout_computable, compute_payout,
    price_meets, price_outcome,
};

verus! {

/// The number of seconds in a year of 365 days.
pub const SECONDS_PER_YEAR: i128 = 31_536_000;

/// A two-sided market and its running pools.
#[derive(Debug, PartialEq, Eq)]
pub struct Market {
    pub id: u32,
    pub creator: Address,
    pub event_name: String,
    pub outcome_a_name: String,
    pub outcome_b_name: String,
    pub end_time: u64,
    pub resolution_time: u64,
    pub status: MarketStatus,
    pub total_pool_a: i128,
    pub total_pool_b: i128,
    pub oracle_address: Address,
    pub min_bet_amount: i128,
    pub max_bet_amount: i128,
    /// In basis points.
    pub creator_fee_rate: u32,
    /// In basis points.
    pub platform_fee_rate: u32,
}

impl Clone for Market {
    fn clone(&self) -> (copy: Self)
        ensures
            copy == *self,
    {
        Market {
            id: self.id,
            creator: self.creator,
            event_name: self.event_name.clone(),
            outcome_a_name: self.outcome_a_name.clone(),
            outcome_b_name: self.outcome_b_name.clone(),
            end_time: self.end_time,
            resolution_time: self.resolution_time,
            status: self.status,
            total_pool_a: self.total_pool_a,
            total_pool_b: self.total_pool_b,
            oracle_address: self.oracle_address,
            min_bet_amount: self.min_bet_amount,
            max_bet_amount: self.max_bet_amount,
            creator_fee_rate: self.creator_fee_rate,
            platform_fee_rate: self.platform_fee_rate,
        }
    }
}

impl Market {
    /// Whether bets are still taken.
    pub fn is_active(&self) -> (active: bool)
        ensures
            active == (self.status == MarketStatus::Active),
    {
        self.status == MarketStatus::Active
    }

    /// Whether the outcome has been decided.
    pub fn is_resolved(&self) -> (resolved: bool)
        ensures
            resolved == (self.status == MarketStatus::Resolved),
    {
        self.status == MarketStatus::Resolved
    }

    /// Both pools together.
    pub fn total_pool(&self) -> (total: i128)
        requires
            i128::MIN <= self.total_pool_a + self.total_pool_b <= i128::MAX,
        ensures
            total == self.total_pool_a + self.total_pool_b,
    {
        self.total_pool_a + self.total_pool_b
    }

    /// Whether the market may be resolved at `current_time`: it is still
    /// active and its resolution time has come.
    pub fn can_resolve(&self, current_time: u64) -> (ready: bool)
        ensures
            ready == (current_time >= self.resolution_time && self.status == MarketStatus::Active),
    {
        current_time >= self.resolution_time && self.is_active()
    }
}

/// One bet as a record of its own.
#[derive(Clone, Copy, Debug, PartialEq, Eq, Structural)]
pub struct Bet {
    pub id: u32,
    pub market_id: u32,
    pub bettor: Address,
    pub outcome: MarketOutcome,
    pub amount: i128,
    pub timestamp: u64,
    /// The odds when the bet was placed, times 10000.
    pub odds_at_bet: u32,
    pub claimed: bool,
}

impl Bet {
    /// What this bet pays when its side wins; see [`payout`].
    pub fn calculate_payout(&self, winning_pool: i128, losing_pool: i128) -> (paid: i128)
        requires
            payout_computable(self.amount as int, winning_pool as int, losing_pool as int),
        ensures
            paid == payout(self.amount as int, winning_pool as int, losing_pool as int),
    {
        compute_payout(self.amount, winning_pool, losing_pool)
    }
}

/// The yearly yield of a pool of `total_staked` that accrues
/// `reward_rate_per_second`, in basis points and rounded down; zero for an
/// empty pool.
pub open spec fn apy_basis_points(reward_rate_per_second: int, total_staked: int) -> int {
    if total_staked == 0 {
        0
    } else {
        (reward_rate_per_second * SECONDS_PER_YEAR * 10000) / total_staked
    }
}

/// The inputs on which [`apy_basis_points`] can be computed: the pool is not
/// negative, the yearly reward times 10000 fits in 128 bits, and the yield
/// fits in 32 bits.
pub open spec fn apy_computable(reward_rate_per_second: int, total_staked: int) -> bool {
    &&& 0 <= total_staked
    &&& total_staked != 0 ==> {
        &&& i128::MIN <= reward_rate_per_second * SECONDS_PER_YEAR * 10000 <= i128::MAX
        &&& 0 <= apy_basis_points(reward_rate_per_second, total_staked) <= u32::MAX
    }
}

/// Computes [`apy_basis_points`] where it can be computed: `None` exactly
/// where [`apy_computable`] does not hold.
pub fn checked_apy(reward_rate_per_second: i128, total_staked: i128) -> (apy: Option<u32>)
    ensures
        apy.is_some() == apy_computable(reward_rate_per_second as int, total_staked as int),
        apy matches Some(value) ==> value == apy_basis_points(
            reward_rate_per_second as int,
            total_staked as int,
        ),
{
    if total_staked == 0 {
        return Some(0);
    }
    if total_staked < 0 {
        return None;
    }
    assert(reward_rate_per_second * SECONDS_PER_YEAR * 10000 == reward_rate_per_second
        * 315_360_000_000) by (nonlinear_arith);
    let scaled = match reward_rate_per_second.checked_mul(315_360_000_000) {
        Some(scaled) => scaled,
        None => {
            return None;
        },
    };
    assert(i128::MIN <= scaled as int / total_staked as int <= i128::MAX) by (nonlinear_arith)
        requires
            total_staked > 0,
            i128::MIN <= scaled <= i128::MAX,
    ;
    let quotient = match scaled.checked_div_euclid(total_staked) {
        Some(quotient) => quotient,
        None => {
            return None;
        },
    };
    if quotient < 0 || quotient > 4_294_967_295 {
        return None;
    }
    Some(quotient as u32)
}

/// Computes [`apy_basis_points`].
pub fn compute_apy(reward_rate_per_second: i128, total_staked: i128) -> (apy: u32)
    requires
        apy_computable(reward_rate_per_second as int, total_staked as int),
    ensures
        apy == apy_basis_points(reward_rate_per_second as int, total_staked as int),
{
    checked_apy(reward_rate_per_second, total_staked).unwrap()
}

/// What one staker holds.
#[derive(Clone, Copy, Debug, PartialEq, Eq, Structural)]
pub struct StakeInfo {
    pub staker: Address,
    /// The principal.
    pub amount: i128,
    pub stake_time: u64,
    pub last_reward_time: u64,
    /// Rewards that were earned and not yet paid.
    pub accumulated_rewards: i128,
}

impl StakeInfo {
    /// Whether the stake holds a principal and was made before `current_time`.
    pub fn is_active(&self, current_time: u64) -> (active: bool)
        ensures
            active == (self.amount > 0 && current_time > self.stake_time),
    {
        self.amount > 0 && current_time > self.stake_time
    }

    /// The yearly yield of the pool as this staker sees it: zero without a
    /// principal, else [`apy_basis_points`].
    pub fn calculate_apy(&self, reward_rate_per_second: i128, total_staked: i128) -> (apy: u32)
        requires
            self.amount != 0 ==> apy_computable(
                reward_rate_per_second as int,
                total_staked as int,
            ),
        ensures
            apy == if self.amount == 0 {
                0
            } else {
                apy_basis_points(reward_rate_per_second as int, total_staked as int)
            },
    {
        if total_staked == 0 || self.amount == 0 {
            return 0;
        }
        compute_apy(reward_rate_per_second, total_staked)
    }
}

/// The latest observation of one asset's price.
#[derive(Debug, PartialEq, Eq)]
pub struct PriceFeed {
    pub asset_name: String,
    /// Fixed point, fourteen decimal places.
    pub price: i128,
    pub timestamp: u64,
    /// From 0 to 100.
    pub confidence: u32,
    pub source: String,
}

impl Clone for PriceFeed {
    fn clone(&self) -> (copy: Self)
        ensures
            copy == *self,
    {
        PriceFeed {
            asset_name: self.asset_name.clone(),
            price: self.price,
            timestamp: self.timestamp,
            confidence: self.confidence,
            source: self.source.clone(),
        }
    }
}

/// The reported outcome of one event.
#[derive(Debug, PartialEq, Eq)]
pub struct EventData {
    pub event_id: String,
    pub outcome: MarketOutcome,
    pub timestamp: u64,
    pub confidence: u32,
    pub data_source: String,
}

impl Clone for EventData {
    fn clone(&self) -> (copy: Self)
        ensures
            copy == *self,
    {
        EventData {
            event_id: self.event_id.clone(),
            outcome: self.outcome,
            timestamp: self.timestamp,
            confidence: self.confidence,
            data_source: self.data_source.clone(),
        }
    }
}

/// A market as the staking side of the platform sees it.
#[derive(Debug, PartialEq, Eq)]
pub struct MarketInfo {
    pub id: Bytes32,
    pub creator: Address,
    pub description: String,
    pub asset_symbol: String,
    pub target_price: i128,
    /// `CONDITION_ABOVE` or `CONDITION_BELOW`.
    pub condition: u32,
    pub resolve_time: u64,
    pub created_at: u64,
    pub resolved: bool,
    pub outcome: Option<bool>,
    pub total_for: i128,
    pub total_against: i128,
    pub market_fee: i128,
}

impl MarketInfo {
    /// Whether the market waits to be resolved at `current_time`.
    pub fn is_ready_for_resolution(&self, current_time: u64) -> (ready: bool)
        ensures
            ready == (current_time >= self.resolve_time && !self.resolved),
    {
        current_time >= self.resolve_time && !self.resolved
    }

    /// Decides the market from the final price; see [`price_meets`].
    pub fn calculate_outcome(&self, final_price: i128) -> (outcome: bool)
        ensures
            outcome == price_meets(self.condition, final_price as int, self.target_price as int),
    {
        price_outcome(self.condition, final_price, self.target_price)
    }
}

/// Fees that a contract has taken.
#[derive(Clone, Copy, Debug, PartialEq, Eq, Structural)]
pub struct FeeInfo {
    pub platform_fees: i128,
    pub collected_fees: i128,
    pub fee_rate: u32,
    pub fee_collector: Address,
}

/// The settings of a contract.
#[derive(Clone, Copy, Debug, PartialEq, Eq, Structural)]
pub struct Config {
    pub admin: Address,
    pub kale_token: Address,
    pub oracle_address: Address,
    pub platform_fee_rate: u32,
    pub min_stake_amount: i128,
    pub reward_rate_per_second: i128,
    pub max_market_duration: u64,
    pub min_market_duration: u64,
}

/// Where the other contracts of the platform live.
#[derive(Clone, Copy, Debug, PartialEq, Eq, Structural)]
pub struct ContractAddresses {
    pub kale_integration: Address,
    pub reflector_oracle: Address,
    pub market_factory: Address,
}

/// The answer of a call that reports failure as a value.
#[derive(Debug, PartialEq, Eq)]
pub struct ContractCallResult<T> {
    pub success: bool,
    pub data: Option<T>,
    pub error: Option<String>,
}

impl<T> ContractCallResult<T> {
    /// Whether this is the plain success that carries `data`.
    pub open spec fn is_ok_with(self, data: T) -> bool {
        self.success && self.data == Some(data) && self.error.is_none()
    }

    /// Whether this is a success that carries `data` and the remark `note`.
    pub open spec fn is_degraded_with(self, data: T, note: Seq<char>) -> bool {
        &&& self.success
        &&& self.data == Some(data)
        &&& self.error.is_some()
        &&& self.error.unwrap()@ == note
    }

    /// Whether this is the failure that says `reason`.
    pub open spec fn is_failure_with(self, reason: Seq<char>) -> bool {
        &&& !self.success
        &&& self.data.is_none()
        &&& self.error.is_some()
        &&& self.error.unwrap()@ == reason
    }

    /// The plain success that carries `data`.
    pub fn ok(data: T) -> (r: Self)
        ensures
            r.is_ok_with(data),
    {
        ContractCallResult { success: true, data: Some(data), error: None }
    }

    /// A success that carries `data` together with a remark.
    pub fn degraded(data: T, note: &str) -> (r: Self)
        ensures
            r.is_degraded_with(data, note@),
    {
        ContractCallResult { success: true, data: Some(data), error: Some(note.to_owned()) }
    }

    /// The failure that says `reason`.
    pub fn failure(reason: &str) -> (r: Self)
        ensures
            r.is_failure_with(reason@),
    {
        ContractCallResult { success: false, data: None, error: Some(reason.to_owned()) }
    }
}

/// What the oracle says of a market that is being resolved.
#[derive(Clone, Copy, Debug, PartialEq, Eq, Structural)]
pub struct MarketResolutionData {
    pub market_id: Bytes32,
    pub final_price: i128,
    pub target_price: i128,
    pub condition: u32,
    pub outcome: bool,
    pub confidence: u32,
    pub timestamp: u64,
}

/// A stake as other contracts see it.
#[derive(Clone, Copy, Debug, PartialEq, Eq, Structural)]
pub struct StakingPosition {
    pub staker: Address,
    pub amount: i128,
    pub apy: u32,
    pub pending_rewards: i128,
    pub last_update: u64,
}

/// A subscription to an asset's price with a threshold.
#[derive(Debug, PartialEq, Eq)]
pub struct OracleSubscription {
    pub subscriber: Address,
    pub asset_name: String,
    pub threshold: i128,
    pub condition: u32,
    pub created_at: u64,
    pub is_active: bool,
}

} // verus!
