//! One two-sided market: bets on YES and NO, resolution against the oracle's
//! final price, and pari-mutuel payout, each winner paid at most once.

use vstd::prelude::*;
use crate::types::{
    Address, ContractError, MarketStatus, payout, payout_computable, compute_payout,
    exact_payout, lemma_payout_bounds, price_meets, price_outcome,
};
use crate::records::{Config, Market, PriceFeed};
use crate::reflector_oracle::ReflectorOracleContract;
use crate::clients::ReflectorOracleClient;
use crate::table::{
    Keyed, Weighted, has_key, position, distinct_keys, find, total_weight, lemma_push_keyed,
    lemma_update_keyed, lemma_total_push, lemma_total_update, lemma_weight_within_total,
    lemma_total_nonnegative, no_negative_weights, keys_are_distinct, checked_total,
};

verus! {

/// The longest time a market may run: thirty days, in seconds.
pub const MAX_MARKET_DURATION: u64 = 2_592_000;

/// The shortest time a market may run: one hour, in seconds.
pub const MIN_MARKET_DURATION: u64 = 3_600;

/// What one bettor has put on one side, all bets together.
#[derive(Clone, Copy, Debug, PartialEq, Eq, Structural)]
pub struct BetEntry {
    pub bettor: Address,
    pub amount: i128,
}

impl Keyed for BetEntry {
    open spec fn key(&self) -> Address {
        self.bettor
    }

    fn key_of(&self) -> (k: Address) {
        self.bettor
    }
}

impl Weighted for BetEntry {
    open spec fn weight(&self) -> int {
        self.amount as int
    }

    fn weight_of(&self) -> (w: i128) {
        self.amount
    }
}

/// What the market publishes.
#[derive(Clone, Copy, Debug, PartialEq, Eq, Structural)]
pub enum EventType {
    BetPlaced { bettor: Address, side: bool, amount: i128, total_for: i128, total_against: i128 },
    MarketResolved { outcome: bool, final_price: i128, total_pool: i128 },
    WinningsClaimed { winner: Address, amount: i128 },
}

/// What a market is given when it is set up, and never changes.
#[derive(Debug, PartialEq, Eq)]
pub struct MarketTerms {
    pub config: Config,
    /// The market as it starts: active, with empty pools.
    pub market: Market,
    pub oracle_asset: String,
    pub target_price: i128,
    pub condition: u32,
}

/// What `bettor` has on a side: the amount of their entry, zero without one.
pub open spec fn stake_of(ledger: Seq<BetEntry>, bettor: Address) -> int {
    if has_key(ledger, bettor) {
        ledger[position(ledger, bettor)].amount as int
    } else {
        0
    }
}

/// The ledger after `amount` more for `bettor`: added to their entry, or a
/// new entry at the end.
pub open spec fn credited(ledger: Seq<BetEntry>, bettor: Address, amount: i128) -> Seq<BetEntry> {
    if has_key(ledger, bettor) {
        let i = position(ledger, bettor);
        ledger.update(i, BetEntry { bettor, amount: (ledger[i].amount + amount) as i128 })
    } else {
        ledger.push(BetEntry { bettor, amount })
    }
}

/// A credit raises the bettor's stake and the ledger's total by the amount,
/// leaves every other stake alone, and keeps the ledger in order.
pub proof fn lemma_credited(ledger: Seq<BetEntry>, bettor: Address, amount: i128)
    requires
        distinct_keys(ledger),
        no_negative_weights(ledger),
        amount >= 0,
        total_weight(ledger) + amount <= i128::MAX,
    ensures
        distinct_keys(credited(ledger, bettor, amount)),
        no_negative_weights(credited(ledger, bettor, amount)),
        total_weight(credited(ledger, bettor, amount)) == total_weight(ledger) + amount,
        stake_of(credited(ledger, bettor, amount), bettor) == stake_of(ledger, bettor) + amount,
        forall|other: Address|
            other != bettor ==> stake_of(credited(ledger, bettor, amount), other) == stake_of(
                ledger,
                other,
            ),
{
    let after = credited(ledger, bettor, amount);
    if has_key(ledger, bettor) {
        let i = position(ledger, bettor);
        lemma_weight_within_total(ledger, i);
        let entry = BetEntry { bettor, amount: (ledger[i].amount + amount) as i128 };
        lemma_update_keyed(ledger, i, entry);
        lemma_total_update(ledger, i, entry);
        assert forall|j: int| 0 <= j < after.len() implies #[trigger] after[j].weight() >= 0 by {
            if j != i {
                assert(after[j] == ledger[j]);
                assert(ledger[j].weight() >= 0);
            }
        }
        assert forall|other: Address| other != bettor implies stake_of(after, other) == stake_of(
            ledger,
            other,
        ) by {
            if has_key(ledger, other) {
                let p = position(ledger, other);
                assert(ledger[p].key() == other);
                assert(p != i);
            }
        }
    } else {
        let entry = BetEntry { bettor, amount };
        lemma_push_keyed(ledger, entry);
        lemma_total_push(ledger, entry);
        assert forall|j: int| 0 <= j < after.len() implies #[trigger] after[j].weight() >= 0 by {
            if j < ledger.len() {
                assert(after[j] == ledger[j]);
                assert(ledger[j].weight() >= 0);
            }
        }
        assert forall|other: Address| other != bettor implies stake_of(after, other) == stake_of(
            ledger,
            other,
        ) by {
            if has_key(ledger, other) {
                let p = position(ledger, other);
                assert(after[p] == ledger[p]);
            }
        }
    }
}

/// What a stake on the winning side is paid: nothing on no stake, else the
/// pari-mutuel [`payout`].
pub open spec fn winnings(user_bet: int, winning_pool: int, losing_pool: int) -> int {
    if user_bet == 0 {
        0
    } else {
        payout(user_bet, winning_pool, losing_pool)
    }
}

/// What the entries of `ledger` whose bettors stand in `claimed` are paid,
/// all together.
pub open spec fn claimed_total(
    ledger: Seq<BetEntry>,
    claimed: Seq<Address>,
    winning_pool: int,
    losing_pool: int,
) -> int
    decreases ledger.len(),
{
    if ledger.len() == 0 {
        0
    } else {
        claimed_total(ledger.drop_last(), claimed, winning_pool, losing_pool) + if has_key(
            claimed,
            ledger.last().bettor,
        ) {
            winnings(ledger.last().amount as int, winning_pool, losing_pool)
        } else {
            0
        }
    }
}

/// The market as a mathematical value.
#[verifier::ext_equal]
pub struct MarketModel {
    /// `None` until the market is set up.
    pub terms: Option<MarketTerms>,
    /// The YES side: one entry per bettor, in the order of their first bets.
    pub bets_for: Seq<BetEntry>,
    /// The NO side.
    pub bets_against: Seq<BetEntry>,
    /// The running total of the YES side.
    pub total_for: i128,
    /// The running total of the NO side.
    pub total_against: i128,
    pub resolved: bool,
    /// `true` where YES has won; meaningful once resolved.
    pub outcome: bool,
    /// Who has been paid, in the order of the claims.
    pub claimed: Seq<Address>,
}

impl MarketModel {
    /// A market that has not been set up.
    pub open spec fn empty() -> MarketModel {
        MarketModel {
            terms: None,
            bets_for: Seq::empty(),
            bets_against: Seq::empty(),
            total_for: 0,
            total_against: 0,
            resolved: false,
            outcome: false,
            claimed: Seq::empty(),
        }
    }

    /// What holds of every market: each side has one entry per bettor and no
    /// negative entry, each running total is the sum of its side, both
    /// totals together fit in 128 bits, nobody is listed as paid twice, and
    /// a market that has not been set up is empty.
    pub open spec fn inv(self) -> bool {
        &&& distinct_keys(self.bets_for)
        &&& distinct_keys(self.bets_against)
        &&& distinct_keys(self.claimed)
        &&& no_negative_weights(self.bets_for)
        &&& no_negative_weights(self.bets_against)
        &&& self.total_for == total_weight(self.bets_for)
        &&& self.total_against == total_weight(self.bets_against)
        &&& self.total_for + self.total_against <= i128::MAX
        &&& self.terms.is_none() ==> self == MarketModel::empty()
    }

    /// The market as it is shown: the terms with the pools and the status
    /// of the moment.
    pub open spec fn shows(self, market: Market) -> bool
        recommends
            self.terms.is_some(),
    {
        let start = self.terms.unwrap().market;
        &&& market.id == start.id
        &&& market.creator == start.creator
        &&& market.event_name == start.event_name
        &&& market.outcome_a_name == start.outcome_a_name
        &&& market.outcome_b_name == start.outcome_b_name
        &&& market.end_time == start.end_time
        &&& market.resolution_time == start.resolution_time
        &&& market.status == if self.resolved {
            MarketStatus::Resolved
        } else {
            MarketStatus::Active
        }
        &&& market.total_pool_a == self.total_for
        &&& market.total_pool_b == self.total_against
        &&& market.oracle_address == start.oracle_address
        &&& market.min_bet_amount == start.min_bet_amount
        &&& market.max_bet_amount == start.max_bet_amount
        &&& market.creator_fee_rate == start.creator_fee_rate
        &&& market.platform_fee_rate == start.platform_fee_rate
    }

    /// Whether a bet of `amount` can be recorded: an amount of tokens is not
    /// negative, and both totals together with it fit in 128 bits.
    pub open spec fn can_take(self, amount: i128) -> bool {
        amount >= 0 && self.total_for + self.total_against + amount <= i128::MAX
    }

    /// The answer to a bet: refused with `MarketClosed` once the market is
    /// resolved or its end time has come, with `InvalidAmount` where the
    /// amount lies outside the market's bounds, else the event that
    /// announces it, with the totals as they then are.
    pub open spec fn bet_result(self, bettor: Address, side: bool, amount: i128, now: u64) -> Result<
        EventType,
        ContractError,
    >
        recommends
            self.terms.is_some(),
    {
        let market = self.terms.unwrap().market;
        if self.resolved || now >= market.end_time {
            Err(ContractError::MarketClosed)
        } else if amount < market.min_bet_amount || amount > market.max_bet_amount {
            Err(ContractError::InvalidAmount)
        } else {
            let next = self.after_bet(bettor, side, amount);
            Ok(
                EventType::BetPlaced {
                    bettor,
                    side,
                    amount,
                    total_for: next.total_for,
                    total_against: next.total_against,
                },
            )
        }
    }

    /// The market after an accepted bet: the amount is added to the bettor's
    /// entry on the chosen side and to that side's total.
    pub open spec fn after_bet(self, bettor: Address, side: bool, amount: i128) -> MarketModel {
        if side {
            MarketModel {
                bets_for: credited(self.bets_for, bettor, amount),
                total_for: (self.total_for + amount) as i128,
                ..self
            }
        } else {
            MarketModel {
                bets_against: credited(self.bets_against, bettor, amount),
                total_against: (self.total_against + amount) as i128,
                ..self
            }
        }
    }

    /// The answer to a resolution with the oracle's `final_price`: refused
    /// with `MarketAlreadyResolved` the second time, with `InvalidTimestamp`
    /// before the resolution time, else the event that announces the outcome.
    pub open spec fn resolve_result(self, now: u64, final_price: i128) -> Result<
        EventType,
        ContractError,
    >
        recommends
            self.terms.is_some(),
    {
        let terms = self.terms.unwrap();
        if self.resolved {
            Err(ContractError::MarketAlreadyResolved)
        } else if now < terms.market.resolution_time {
            Err(ContractError::InvalidTimestamp)
        } else {
            Ok(
                EventType::MarketResolved {
                    outcome: price_meets(
                        terms.condition,
                        final_price as int,
                        terms.target_price as int,
                    ),
                    final_price,
                    total_pool: (self.total_for + self.total_against) as i128,
                },
            )
        }
    }

    /// The answer to a resolution with what the oracle answers for the
    /// market's asset: as [`Self::resolve_result`] with the price of the
    /// oracle's feed, but `OracleError` where the market is due and the
    /// oracle has no answer.
    pub open spec fn oracle_resolve_result(
        self,
        now: u64,
        answer: Result<PriceFeed, ContractError>,
    ) -> Result<EventType, ContractError>
        recommends
            self.terms.is_some(),
    {
        if self.resolved {
            Err(ContractError::MarketAlreadyResolved)
        } else if now < self.terms.unwrap().market.resolution_time {
            Err(ContractError::InvalidTimestamp)
        } else {
            match answer {
                Ok(feed) => self.resolve_result(now, feed.price),
                Err(_) => Err(ContractError::OracleError),
            }
        }
    }

    /// The market after a resolution that was accepted: YES wins exactly
    /// where the final price meets the market's condition.
    pub open spec fn after_resolve(self, final_price: i128) -> MarketModel
        recommends
            self.terms.is_some(),
    {
        let terms = self.terms.unwrap();
        MarketModel {
            resolved: true,
            outcome: price_meets(terms.condition, final_price as int, terms.target_price as int),
            ..self
        }
    }

    /// The side that has won.
    pub open spec fn winning_side(self) -> Seq<BetEntry> {
        if self.outcome {
            self.bets_for
        } else {
            self.bets_against
        }
    }

    /// The total of the side that has won.
    pub open spec fn winning_pool(self) -> int {
        if self.outcome {
            self.total_for as int
        } else {
            self.total_against as int
        }
    }

    /// The total of the side that has lost.
    pub open spec fn losing_pool(self) -> int {
        if self.outcome {
            self.total_against as int
        } else {
            self.total_for as int
        }
    }

    /// What `winner` is owed: their stake on the winning side, paid out
    /// pari-mutuel; nothing without such a stake.
    pub open spec fn owed(self, winner: Address) -> int {
        winnings(stake_of(self.winning_side(), winner), self.winning_pool(), self.losing_pool())
    }

    /// The answer to a claim: refused with `MarketClosed` before the market
    /// is resolved, with `AlreadyClaimed` once `winner` has been paid, else
    /// what `winner` is owed.
    pub open spec fn claim_result(self, winner: Address) -> Result<int, ContractError> {
        if !self.resolved {
            Err(ContractError::MarketClosed)
        } else if has_key(self.claimed, winner) {
            Err(ContractError::AlreadyClaimed)
        } else {
            Ok(self.owed(winner))
        }
    }

    /// The market after a claim: whoever was paid is listed as paid.
    pub open spec fn after_claim(self, winner: Address) -> MarketModel {
        if self.claim_result(winner) matches Ok(paid) && paid > 0 {
            MarketModel { claimed: self.claimed.push(winner), ..self }
        } else {
            self
        }
    }

    /// All that has been paid out so far.
    pub open spec fn paid_out(self) -> int {
        claimed_total(self.winning_side(), self.claimed, self.winning_pool(), self.losing_pool())
    }
}

/// Whether `terms` are those of a market that `factory` sets up for
/// `creator`: the sides are named YES and NO, betting ends when the market
/// resolves, and the pools start empty.
pub open spec fn opening_terms(
    terms: MarketTerms,
    factory: Address,
    creator: Address,
    event_description: String,
    oracle_asset: String,
    target_price: i128,
    condition: u32,
    resolve_time: u64,
    min_bet_amount: i128,
    max_bet_amount: i128,
    creator_fee_rate: u32,
    kale_token: Address,
    reflector_oracle: Address,
) -> bool {
    &&& terms.config == (Config {
        admin: factory,
        kale_token,
        oracle_address: reflector_oracle,
        platform_fee_rate: creator_fee_rate,
        min_stake_amount: min_bet_amount,
        reward_rate_per_second: 0,
        max_market_duration: MAX_MARKET_DURATION,
        min_market_duration: MIN_MARKET_DURATION,
    })
    &&& terms.market.id == 0
    &&& terms.market.creator == creator
    &&& terms.market.event_name == event_description
    &&& terms.market.outcome_a_name@ == "YES"@
    &&& terms.market.outcome_b_name@ == "NO"@
    &&& terms.market.end_time == resolve_time
    &&& terms.market.resolution_time == resolve_time
    &&& terms.market.status == MarketStatus::Active
    &&& terms.market.total_pool_a == 0
    &&& terms.market.total_pool_b == 0
    &&& terms.market.oracle_address == reflector_oracle
    &&& terms.market.min_bet_amount == min_bet_amount
    &&& terms.market.max_bet_amount == max_bet_amount
    &&& terms.market.creator_fee_rate == creator_fee_rate
    &&& terms.market.platform_fee_rate == creator_fee_rate
    &&& terms.oracle_asset == oracle_asset
    &&& terms.target_price == target_price
    &&& terms.condition == condition
}

/// One prediction market.
pub struct PredictionMarketContract {
    /// `None` until the market is set up.
    pub terms: Option<MarketTerms>,
    /// The YES side, one entry per bettor.
    pub bets_for: Vec<BetEntry>,
    /// The NO side, one entry per bettor.
    pub bets_against: Vec<BetEntry>,
    /// The running total of the YES side.
    pub total_for: i128,
    /// The running total of the NO side.
    pub total_against: i128,
    pub resolved: bool,
    /// `true` where YES has won.
    pub outcome: bool,
    /// Who has been paid.
    pub claimed: Vec<Address>,
}

impl View for PredictionMarketContract {
    type V = MarketModel;

    open spec fn view(&self) -> MarketModel {
        MarketModel {
            terms: self.terms,
            bets_for: self.bets_for@,
            bets_against: self.bets_against@,
            total_for: self.total_for,
            total_against: self.total_against,
            resolved: self.resolved,
            outcome: self.outcome,
            claimed: self.claimed@,
        }
    }
}

/// Adds `amount` to the entry of `bettor`, or opens one.
fn credit(ledger: &mut Vec<BetEntry>, bettor: Address, amount: i128)
    requires
        distinct_keys(old(ledger)@),
        no_negative_weights(old(ledger)@),
        amount >= 0,
        total_weight(old(ledger)@) + amount <= i128::MAX,
    ensures
        final(ledger)@ == credited(old(ledger)@, bettor, amount),
{
    match find(ledger, bettor) {
        Some(i) => {
            proof {
                lemma_weight_within_total(ledger@, i as int);
            }
            let entry = BetEntry { bettor, amount: ledger[i].amount + amount };
            ledger.set(i, entry);
        },
        None => {
            ledger.push(BetEntry { bettor, amount });
        },
    }
}

/// Reads what `bettor` has in `ledger`.
fn read_stake(ledger: &Vec<BetEntry>, bettor: Address) -> (amount: i128)
    requires
        distinct_keys(ledger@),
    ensures
        amount == stake_of(ledger@, bettor),
{
    match find(ledger, bettor) {
        Some(i) => ledger[i].amount,
        None => 0,
    }
}

impl PredictionMarketContract {
    /// Whether the market is in order; see [`MarketModel::inv`].
    pub open spec fn wf(&self) -> bool {
        self@.inv()
    }

    /// A market that has not been set up.
    pub fn new() -> (market: Self)
        ensures
            market.wf(),
            market@ == MarketModel::empty(),
    {
        PredictionMarketContract {
            terms: None,
            bets_for: Vec::new(),
            bets_against: Vec::new(),
            total_for: 0,
            total_against: 0,
            resolved: false,
            outcome: false,
            claimed: Vec::new(),
        }
    }

    /// Sets the market up, once: a second call is refused with
    /// `NotAuthorized` and changes nothing.
    pub fn initialize(
        &mut self,
        factory: Address,
        creator: Address,
        event_description: String,
        oracle_asset: String,
        target_price: i128,
        condition: u32,
        resolve_time: u64,
        min_bet_amount: i128,
        max_bet_amount: i128,
        creator_fee_rate: u32,
        kale_token: Address,
        reflector_oracle: Address,
    ) -> (r: Result<(), ContractError>)
        requires
            old(self).wf(),
        ensures
            final(self).wf(),
            old(self)@.terms.is_some() ==> r == Err::<(), ContractError>(
                ContractError::NotAuthorized,
            ) && final(self)@ == old(self)@,
            old(self)@.terms.is_none() ==> r.is_ok() && final(self)@.terms.is_some()
                && opening_terms(
                final(self)@.terms.unwrap(),
                factory,
                creator,
                event_description,
                oracle_asset,
                target_price,
                condition,
                resolve_time,
                min_bet_amount,
                max_bet_amount,
                creator_fee_rate,
                kale_token,
                reflector_oracle,
            ) && final(self)@ == (MarketModel { terms: final(self)@.terms, ..MarketModel::empty() }),
    {
        if self.terms.is_some() {
            return Err(ContractError::NotAuthorized);
        }
        let config = Config {
            admin: factory,
            kale_token,
            oracle_address: reflector_oracle,
            platform_fee_rate: creator_fee_rate,
            min_stake_amount: min_bet_amount,
            reward_rate_per_second: 0,
            max_market_duration: MAX_MARKET_DURATION,
            min_market_duration: MIN_MARKET_DURATION,
        };
        let market = Market {
            id: 0,
            creator,
            event_name: event_description,
            outcome_a_name: "YES".to_owned(),
            outcome_b_name: "NO".to_owned(),
            end_time: resolve_time,
            resolution_time: resolve_time,
            status: MarketStatus::Active,
            total_pool_a: 0,
            total_pool_b: 0,
            oracle_address: reflector_oracle,
            min_bet_amount,
            max_bet_amount,
            creator_fee_rate,
            platform_fee_rate: creator_fee_rate,
        };
        self.terms = Some(MarketTerms { config, market, oracle_asset, target_price, condition });
        assert(self@ =~= (MarketModel { terms: self@.terms, ..MarketModel::empty() }));
        Ok(())
    }

    /// Checks whether the market is in order, as a market must be that was
    /// put together from its parts; see [`MarketModel::inv`].
    pub fn validate(&self) -> (ok: bool)
        ensures
            ok == self.wf(),
    {
        if !keys_are_distinct(&self.bets_for) || !keys_are_distinct(&self.bets_against)
            || !keys_are_distinct(&self.claimed) {
            return false;
        }
        match (checked_total(&self.bets_for), checked_total(&self.bets_against)) {
            (Some(sum_for), Some(sum_against)) => {
                if sum_for != self.total_for || sum_against != self.total_against {
                    return false;
                }
                proof {
                    lemma_total_nonnegative(self.bets_for@);
                    lemma_total_nonnegative(self.bets_against@);
                }
                if sum_for.checked_add(sum_against).is_none() {
                    return false;
                }
            },
            _ => {
                proof {
                    if no_negative_weights(self.bets_for@) && no_negative_weights(
                        self.bets_against@,
                    ) {
                        lemma_total_nonnegative(self.bets_for@);
                        lemma_total_nonnegative(self.bets_against@);
                    }
                }
                return false;
            },
        }
        if self.terms.is_none() {
            let empty = self.bets_for.len() == 0 && self.bets_against.len() == 0
                && self.claimed.len() == 0 && self.total_for == 0 && self.total_against == 0
                && !self.resolved && !self.outcome;
            assert(empty == (self@ =~= MarketModel::empty()));
            return empty;
        }
        true
    }

    /// The terms of a market that has been set up.
    fn terms(&self) -> (terms: &MarketTerms)
        requires
            self@.terms.is_some(),
        ensures
            *terms == self@.terms.unwrap(),
    {
        self.terms.as_ref().unwrap()
    }

    /// Whether the market has been set up.
    pub fn is_initialized(&self) -> (yes: bool)
        ensures
            yes == self@.terms.is_some(),
    {
        self.terms.is_some()
    }

    /// What a bet would be answered with at the ledger time `now`, the market
    /// left as it is; see [`MarketModel::bet_result`].
    pub fn check_bet(&self, bettor: Address, side: bool, amount: i128, now: u64) -> (r: Result<
        (),
        ContractError,
    >)
        requires
            self@.terms.is_some(),
        ensures
            r.is_ok() == self@.bet_result(bettor, side, amount, now).is_ok(),
            r matches Err(e) ==> self@.bet_result(bettor, side, amount, now) == Err::<
                EventType,
                ContractError,
            >(e),
    {
        let market = &self.terms().market;
        if self.resolved || now >= market.end_time {
            return Err(ContractError::MarketClosed);
        }
        if amount < market.min_bet_amount || amount > market.max_bet_amount {
            return Err(ContractError::InvalidAmount);
        }
        Ok(())
    }

    /// What a resolution would be answered with at the ledger time `now`,
    /// whatever the price, the market left as it is: `MarketAlreadyResolved`
    /// the second time, `InvalidTimestamp` before the resolution time.
    pub fn check_resolve(&self, now: u64) -> (r: Result<(), ContractError>)
        requires
            self@.terms.is_some(),
        ensures
            forall|final_price: i128|
                r.is_ok() == (#[trigger] self@.resolve_result(now, final_price)).is_ok(),
            forall|final_price: i128|
                r matches Err(e) ==> #[trigger] self@.resolve_result(now, final_price) == Err::<
                    EventType,
                    ContractError,
                >(e),
    {
        if self.resolved {
            return Err(ContractError::MarketAlreadyResolved);
        }
        if now < self.terms().market.resolution_time {
            return Err(ContractError::InvalidTimestamp);
        }
        Ok(())
    }

    /// The asset whose price decides the market.
    pub fn get_oracle_asset(&self) -> (asset: String)
        requires
            self@.terms.is_some(),
        ensures
            asset == self@.terms.unwrap().oracle_asset,
    {
        self.terms().oracle_asset.clone()
    }

    /// The settings that the market was set up with.
    pub fn get_config(&self) -> (config: Config)
        requires
            self@.terms.is_some(),
        ensures
            config == self@.terms.unwrap().config,
    {
        self.terms().config
    }

    /// What a claim would be answered with, the market left as it is:
    /// `MarketClosed` before the market is resolved, `AlreadyClaimed` once
    /// `winner` has been paid.
    pub fn check_claim(&self, winner: Address) -> (r: Result<(), ContractError>)
        requires
            self.wf(),
        ensures
            r.is_ok() == self@.claim_result(winner).is_ok(),
            r matches Err(e) ==> self@.claim_result(winner) == Err::<int, ContractError>(e),
    {
        if !self.resolved {
            return Err(ContractError::MarketClosed);
        }
        if find(&self.claimed, winner).is_some() {
            return Err(ContractError::AlreadyClaimed);
        }
        Ok(())
    }

    /// Whether a bet of `amount` can be recorded; see
    /// [`MarketModel::can_take`].
    pub fn can_take_bet(&self, amount: i128) -> (yes: bool)
        requires
            self.wf(),
        ensures
            yes == self@.can_take(amount),
    {
        if amount < 0 {
            return false;
        }
        proof {
            lemma_total_nonnegative(self.bets_for@);
            lemma_total_nonnegative(self.bets_against@);
        }
        match self.total_for.checked_add(self.total_against) {
            Some(both) => both.checked_add(amount).is_some(),
            None => false,
        }
    }

    /// Places a bet of `amount` by `bettor` on YES (`side`) or NO at the
    /// ledger time `now`. A refused bet changes nothing. The caller moves
    /// the tokens; a bet that is accepted must be one that can be recorded
    /// (see [`Self::can_take_bet`]).
    pub fn bet(&mut self, bettor: Address, side: bool, amount: i128, now: u64) -> (r: Result<
        EventType,
        ContractError,
    >)
        requires
            old(self).wf(),
            old(self)@.terms.is_some(),
            old(self)@.bet_result(bettor, side, amount, now).is_ok() ==> old(self)@.can_take(
                amount,
            ),
        ensures
            final(self).wf(),
            r == old(self)@.bet_result(bettor, side, amount, now),
            r.is_ok() ==> final(self)@ == old(self)@.after_bet(bettor, side, amount),
            r.is_err() ==> final(self)@ == old(self)@,
    {
        if let Err(e) = self.check_bet(bettor, side, amount, now) {
            return Err(e);
        }
        proof {
            lemma_total_nonnegative(self.bets_for@);
            lemma_total_nonnegative(self.bets_against@);
            lemma_bet_keeps_inv(self@, bettor, side, amount);
        }
        if side {
            credit(&mut self.bets_for, bettor, amount);
            self.total_for = self.total_for + amount;
        } else {
            credit(&mut self.bets_against, bettor, amount);
            self.total_against = self.total_against + amount;
        }
        assert(self@ =~= old(self)@.after_bet(bettor, side, amount));
        Ok(
            EventType::BetPlaced {
                bettor,
                side,
                amount,
                total_for: self.total_for,
                total_against: self.total_against,
            },
        )
    }

    /// Resolves the market at the ledger time `now` with the oracle's
    /// `final_price` for the market's asset: YES wins exactly where the
    /// price meets the market's condition against its target. A refused
    /// resolution changes nothing.
    pub fn resolve(&mut self, now: u64, final_price: i128) -> (r: Result<EventType, ContractError>)
        requires
            old(self).wf(),
            old(self)@.terms.is_some(),
        ensures
            final(self).wf(),
            r == old(self)@.resolve_result(now, final_price),
            r.is_ok() ==> final(self)@ == old(self)@.after_resolve(final_price),
            r.is_err() ==> final(self)@ == old(self)@,
    {
        if let Err(e) = self.check_resolve(now) {
            return Err(e);
        }
        proof {
            lemma_total_nonnegative(self.bets_for@);
            lemma_total_nonnegative(self.bets_against@);
        }
        let outcome = price_outcome(
            self.terms().condition,
            final_price,
            self.terms().target_price,
        );
        self.resolved = true;
        self.outcome = outcome;
        assert(self@ =~= old(self)@.after_resolve(final_price));
        Ok(
            EventType::MarketResolved {
                outcome,
                final_price,
                total_pool: self.total_for + self.total_against,
            },
        )
    }

    /// The price that `oracle` has for an asset at the ledger time `now`:
    /// `OracleError` where it has no fresh price.
    pub fn get_oracle_price(oracle: &ReflectorOracleContract, asset_name: &String, now: u64) -> (r:
        Result<i128, ContractError>)
        requires
            oracle.wf(),
        ensures
            match oracle@.price_result(asset_name@, now) {
                Ok(feed) => r == Ok::<i128, ContractError>(feed.price),
                Err(_) => r == Err::<i128, ContractError>(ContractError::OracleError),
            },
    {
        match ReflectorOracleClient::try_get_price(oracle, asset_name, now) {
            Ok(feed) => Ok(feed.price),
            Err(e) => Err(e),
        }
    }

    /// Resolves the market at the ledger time `now` with the price that
    /// `oracle` has for the market's asset. What holds of
    /// [`Self::resolve`] holds here; beyond it, a market that is due and
    /// whose asset has no fresh price at the oracle is refused with
    /// `OracleError`. A refused resolution changes nothing.
    pub fn resolve_with_oracle(&mut self, oracle: &ReflectorOracleContract, now: u64) -> (r: Result<
        EventType,
        ContractError,
    >)
        requires
            old(self).wf(),
            old(self)@.terms.is_some(),
            oracle.wf(),
        ensures
            final(self).wf(),
            r == old(self)@.oracle_resolve_result(
                now,
                oracle@.price_result(old(self)@.terms.unwrap().oracle_asset@, now),
            ),
            r.is_ok() ==> final(self)@ == old(self)@.after_resolve(
                oracle@.price_result(old(self)@.terms.unwrap().oracle_asset@, now).unwrap().price,
            ),
            r.is_err() ==> final(self)@ == old(self)@,
    {
        if let Err(e) = self.check_resolve(now) {
            return Err(e);
        }
        match Self::get_oracle_price(oracle, &self.terms().oracle_asset, now) {
            Ok(final_price) => self.resolve(now, final_price),
            Err(e) => Err(e),
        }
    }

    /// Pays `winner` what they are owed, once: their stake on the winning
    /// side and their share of the losing pool, whatever the size of the
    /// pools. Whoever has no stake on the winning side gets 0 and is not
    /// listed as paid; whoever has one gets more than zero and is listed
    /// as paid. A claim changes neither the pools nor what anybody has on
    /// either side, and a refused claim changes nothing.
    pub fn claim_winnings(&mut self, winner: Address) -> (r: Result<i128, ContractError>)
        requires
            old(self).wf(),
            old(self)@.terms.is_some(),
        ensures
            final(self).wf(),
            match r {
                Ok(paid) => old(self)@.claim_result(winner) == Ok::<int, ContractError>(paid as int),
                Err(e) => old(self)@.claim_result(winner) == Err::<int, ContractError>(e),
            },
            final(self)@ == old(self)@.after_claim(winner),
            r matches Ok(paid) ==> 0 <= paid && final(self)@.paid_out() == old(self)@.paid_out()
                + paid,
            r matches Ok(paid) ==> (paid > 0) == (stake_of(old(self)@.winning_side(), winner) > 0)
                && (paid > 0) == has_key(final(self)@.claimed, winner),
            final(self)@.bets_for == old(self)@.bets_for,
            final(self)@.bets_against == old(self)@.bets_against,
            final(self)@.total_for == old(self)@.total_for,
            final(self)@.total_against == old(self)@.total_against,
    {
        if !self.resolved {
            return Err(ContractError::MarketClosed);
        }
        if find(&self.claimed, winner).is_some() {
            return Err(ContractError::AlreadyClaimed);
        }
        let user_bet = if self.outcome {
            read_stake(&self.bets_for, winner)
        } else {
            read_stake(&self.bets_against, winner)
        };
        proof {
            lemma_claim_adds(
                self@.winning_side(),
                self@.claimed,
                winner,
                self@.winning_pool(),
                self@.losing_pool(),
            );
        }
        if user_bet == 0 {
            return Ok(0);
        }
        proof {
            lemma_total_nonnegative(self.bets_for@);
            lemma_total_nonnegative(self.bets_against@);
            let side = self@.winning_side();
            let i = position(side, winner);
            lemma_weight_within_total(side, i);
            lemma_payout_bounds(user_bet as int, self@.winning_pool(), self@.losing_pool());
            lemma_push_keyed(self.claimed@, winner);
        }
        let paid = if self.outcome {
            exact_payout(user_bet, self.total_for, self.total_against)
        } else {
            exact_payout(user_bet, self.total_against, self.total_for)
        };
        self.claimed.push(winner);
        assert(self@ =~= old(self)@.after_claim(winner));
        Ok(paid)
    }

    /// The market with its pools and status of the moment.
    pub fn get_market_info(&self) -> (market: Market)
        requires
            self@.terms.is_some(),
        ensures
            self@.shows(market),
    {
        let mut market = self.terms().market.clone();
        market.total_pool_a = self.total_for;
        market.total_pool_b = self.total_against;
        market.status = if self.resolved {
            MarketStatus::Resolved
        } else {
            MarketStatus::Active
        };
        market
    }

    /// What `user` has on YES and on NO.
    pub fn get_user_bets(&self, user: Address) -> (amounts: (i128, i128))
        requires
            self.wf(),
        ensures
            amounts.0 == stake_of(self@.bets_for, user),
            amounts.1 == stake_of(self@.bets_against, user),
    {
        (read_stake(&self.bets_for, user), read_stake(&self.bets_against, user))
    }

    /// The totals of YES and of NO.
    pub fn get_totals(&self) -> (totals: (i128, i128))
        ensures
            totals.0 == self@.total_for,
            totals.1 == self@.total_against,
    {
        (self.total_for, self.total_against)
    }

    /// Whether the outcome has been decided.
    pub fn is_resolved(&self) -> (resolved: bool)
        ensures
            resolved == self@.resolved,
    {
        self.resolved
    }

    /// Whether YES has won; `false` until the market is resolved.
    pub fn get_outcome(&self) -> (outcome: bool)
        ensures
            outcome == self@.outcome,
    {
        self.outcome
    }

    /// The majority rule: YES where more was bet on YES than on NO, whatever
    /// the price. Markets resolve by their condition and not by this rule.
    pub fn determine_outcome(final_price: i128, total_for: i128, total_against: i128) -> (yes: bool)
        ensures
            yes == (total_for > total_against),
    {
        total_for > total_against
    }

    /// What a stake on the winning side is paid; see [`payout`].
    pub fn calculate_winnings(user_bet: i128, winning_pool: i128, losing_pool: i128) -> (paid: i128)
        requires
            payout_computable(user_bet as int, winning_pool as int, losing_pool as int),
        ensures
            paid == payout(user_bet as int, winning_pool as int, losing_pool as int),
    {
        compute_payout(user_bet, winning_pool, losing_pool)
    }
}

/// One call of `bet`.
pub struct BetCall {
    pub bettor: Address,
    pub side: bool,
    pub amount: i128,
    pub now: u64,
}

/// The market after a run of calls of `bet`, each of which is recorded
/// where it is accepted and leaves the market as it is where it is refused
/// or cannot be recorded.
pub open spec fn after_bets(m: MarketModel, calls: Seq<BetCall>) -> MarketModel
    decreases calls.len(),
{
    if calls.len() == 0 {
        m
    } else {
        let before = after_bets(m, calls.drop_last());
        let call = calls.last();
        if before.bet_result(call.bettor, call.side, call.amount, call.now).is_ok()
            && before.can_take(call.amount) {
            before.after_bet(call.bettor, call.side, call.amount)
        } else {
            before
        }
    }
}

/// Pool conservation: after any run of calls of `bet`, the running total
/// of YES is the sum of what the bettors have on YES, and the running
/// total of NO is the sum of what they have on NO.
pub proof fn lemma_pools_conserved(m: MarketModel, calls: Seq<BetCall>)
    requires
        m.inv(),
        m.terms.is_some(),
    ensures
        after_bets(m, calls).inv(),
        after_bets(m, calls).terms == m.terms,
        after_bets(m, calls).total_for == total_weight(after_bets(m, calls).bets_for),
        after_bets(m, calls).total_against == total_weight(after_bets(m, calls).bets_against),
    decreases calls.len(),
{
    if calls.len() > 0 {
        lemma_pools_conserved(m, calls.drop_last());
        let before = after_bets(m, calls.drop_last());
        let call = calls.last();
        if before.bet_result(call.bettor, call.side, call.amount, call.now).is_ok()
            && before.can_take(call.amount) {
            lemma_bet_keeps_inv(before, call.bettor, call.side, call.amount);
        }
    }
}

/// Pool conservation, one bet at a time: a bet that is recorded keeps the
/// market in order, raises the bettor's stake and the total of the chosen
/// side by the amount, and leaves the other side alone.
pub proof fn lemma_bet_keeps_inv(m: MarketModel, bettor: Address, side: bool, amount: i128)
    requires
        m.inv(),
        m.terms.is_some(),
        m.can_take(amount),
    ensures
        m.after_bet(bettor, side, amount).inv(),
        m.after_bet(bettor, side, amount).total_for == total_weight(
            m.after_bet(bettor, side, amount).bets_for,
        ),
        m.after_bet(bettor, side, amount).total_against == total_weight(
            m.after_bet(bettor, side, amount).bets_against,
        ),
        stake_of(m.after_bet(bettor, side, amount).bets_for, bettor) == stake_of(
            m.bets_for,
            bettor,
        ) + if side {
            amount as int
        } else {
            0
        },
        stake_of(m.after_bet(bettor, side, amount).bets_against, bettor) == stake_of(
            m.bets_against,
            bettor,
        ) + if side {
            0
        } else {
            amount as int
        },
{
    lemma_total_nonnegative(m.bets_for);
    lemma_total_nonnegative(m.bets_against);
    if side {
        lemma_credited(m.bets_for, bettor, amount);
    } else {
        lemma_credited(m.bets_against, bettor, amount);
    }
}

/// The first claim: in a resolved market, whoever has a stake on the
/// winning side and has not been paid is paid that stake and its share of
/// the losing pool, rounded down, which is more than zero and no more than
/// the stake and the losing pool together; they are then listed as paid,
/// and neither the pools nor what anybody has on either side changes.
pub proof fn lemma_first_claim_pays(m: MarketModel, winner: Address)
    requires
        m.inv(),
        m.resolved,
        !has_key(m.claimed, winner),
        stake_of(m.winning_side(), winner) > 0,
    ensures
        m.claim_result(winner) == Ok::<int, ContractError>(
            payout(stake_of(m.winning_side(), winner), m.winning_pool(), m.losing_pool()),
        ),
        0 < stake_of(m.winning_side(), winner) <= payout(
            stake_of(m.winning_side(), winner),
            m.winning_pool(),
            m.losing_pool(),
        ) <= stake_of(m.winning_side(), winner) + m.losing_pool() <= i128::MAX,
        m.after_claim(winner).inv(),
        has_key(m.after_claim(winner).claimed, winner),
        m.after_claim(winner) == (MarketModel { claimed: m.claimed.push(winner), ..m }),
        m.after_claim(winner).paid_out() == m.paid_out() + payout(
            stake_of(m.winning_side(), winner),
            m.winning_pool(),
            m.losing_pool(),
        ),
{
    let side = m.winning_side();
    lemma_total_nonnegative(m.bets_for);
    lemma_total_nonnegative(m.bets_against);
    lemma_weight_within_total(side, position(side, winner));
    lemma_payout_bounds(stake_of(side, winner), m.winning_pool(), m.losing_pool());
    lemma_push_keyed(m.claimed, winner);
    lemma_claim_adds(side, m.claimed, winner, m.winning_pool(), m.losing_pool());
}

/// No double payout: once a winner has been paid, their next claim is
/// refused with `AlreadyClaimed`, and so is every claim of theirs after it.
pub proof fn lemma_no_double_payout(m: MarketModel, winner: Address)
    requires
        m.inv(),
        m.claim_result(winner) matches Ok(paid) && paid > 0,
    ensures
        m.after_claim(winner).inv(),
        m.after_claim(winner).claim_result(winner) == Err::<int, ContractError>(
            ContractError::AlreadyClaimed,
        ),
        m.after_claim(winner).after_claim(winner) == m.after_claim(winner),
{
    lemma_push_keyed(m.claimed, winner);
}

/// Listing `winner` as paid adds to what has been paid exactly what their
/// entry in `ledger` is paid.
pub proof fn lemma_claim_adds(
    ledger: Seq<BetEntry>,
    claimed: Seq<Address>,
    winner: Address,
    winning_pool: int,
    losing_pool: int,
)
    requires
        distinct_keys(ledger),
        distinct_keys(claimed),
        !has_key(claimed, winner),
    ensures
        claimed_total(ledger, claimed.push(winner), winning_pool, losing_pool) == claimed_total(
            ledger,
            claimed,
            winning_pool,
            losing_pool,
        ) + winnings(stake_of(ledger, winner), winning_pool, losing_pool),
    decreases ledger.len(),
{
    if ledger.len() > 0 {
        let rest = ledger.drop_last();
        let last = ledger.last();
        assert(ledger =~= rest.push(last));
        assert forall|i: int, j: int| 0 <= i < j < rest.len() implies #[trigger] rest[i].key()
            != #[trigger] rest[j].key() by {
            assert(rest[i] == ledger[i] && rest[j] == ledger[j]);
            assert(ledger[i].key() != ledger[j].key());
        }
        if has_key(rest, last.key()) {
            let p = position(rest, last.key());
            assert(rest[p] == ledger[p]);
            assert(ledger[p].key() != ledger[ledger.len() - 1].key());
        }
        lemma_push_keyed(rest, last);
        lemma_push_keyed(claimed, winner);
        lemma_claim_adds(rest, claimed, winner, winning_pool, losing_pool);
        if last.bettor == winner {
            assert(stake_of(rest, winner) == 0);
            assert(position(ledger, winner) == ledger.len() - 1);
        } else {
            if has_key(rest, winner) {
                let p = position(rest, winner);
                assert(ledger[p] == rest[p]);
            }
            assert(stake_of(ledger, winner) == stake_of(rest, winner));
        }
    } else {
        assert(!has_key(ledger, winner));
    }
}

/// What is paid on the entries of a ledger, times the winning pool, is no
/// more than the ledger's total times both pools together.
proof fn lemma_claimed_total_scaled(
    ledger: Seq<BetEntry>,
    claimed: Seq<Address>,
    winning_pool: int,
    losing_pool: int,
)
    requires
        no_negative_weights(ledger),
        winning_pool > 0,
        losing_pool >= 0,
    ensures
        0 <= claimed_total(ledger, claimed, winning_pool, losing_pool),
        claimed_total(ledger, claimed, winning_pool, losing_pool) * winning_pool <= total_weight(
            ledger,
        ) * (winning_pool + losing_pool),
    decreases ledger.len(),
{
    if ledger.len() > 0 {
        let rest = ledger.drop_last();
        let b = ledger.last().amount as int;
        assert(ledger.last().weight() >= 0);
        assert forall|j: int| 0 <= j < rest.len() implies #[trigger] rest[j].weight() >= 0 by {
            assert(rest[j] == ledger[j]);
            assert(ledger[j].weight() >= 0);
        }
        lemma_claimed_total_scaled(rest, claimed, winning_pool, losing_pool);
        let before = claimed_total(rest, claimed, winning_pool, losing_pool);
        let w = winnings(b, winning_pool, losing_pool);
        assert(0 <= w && w * winning_pool <= b * (winning_pool + losing_pool)) by (nonlinear_arith)
            requires
                b >= 0,
                winning_pool > 0,
                losing_pool >= 0,
                w == if b == 0 {
                    0
                } else if losing_pool == 0 {
                    b
                } else {
                    b + (b * losing_pool) / winning_pool
                },
        ;
        let sum = total_weight(rest);
        assert((before + w) * winning_pool <= (sum + b) * (winning_pool + losing_pool))
            by (nonlinear_arith)
            requires
                before * winning_pool <= sum * (winning_pool + losing_pool),
                w * winning_pool <= b * (winning_pool + losing_pool),
        ;
        assert(before * winning_pool <= (sum + b) * (winning_pool + losing_pool))
            by (nonlinear_arith)
            requires
                before * winning_pool <= sum * (winning_pool + losing_pool),
                b >= 0,
                winning_pool > 0,
                losing_pool >= 0,
        ;
    }
}

/// Nothing is paid on a ledger without stakes.
proof fn lemma_claimed_total_of_nothing(
    ledger: Seq<BetEntry>,
    claimed: Seq<Address>,
    winning_pool: int,
    losing_pool: int,
)
    requires
        forall|j: int| 0 <= j < ledger.len() ==> #[trigger] ledger[j].weight() == 0,
    ensures
        claimed_total(ledger, claimed, winning_pool, losing_pool) == 0,
    decreases ledger.len(),
{
    if ledger.len() > 0 {
        let rest = ledger.drop_last();
        assert(ledger.last().weight() == 0);
        assert forall|j: int| 0 <= j < rest.len() implies #[trigger] rest[j].weight() == 0 by {
            assert(rest[j] == ledger[j]);
            assert(ledger[j].weight() == 0);
        }
        lemma_claimed_total_of_nothing(rest, claimed, winning_pool, losing_pool);
    }
}

/// Payout bound: all that a market has paid to its winners is never more
/// than both pools together.
pub proof fn lemma_paid_out_bounded(m: MarketModel)
    requires
        m.inv(),
    ensures
        0 <= m.paid_out() <= m.total_for + m.total_against,
{
    let side = m.winning_side();
    let won = m.winning_pool();
    let lost = m.losing_pool();
    lemma_total_nonnegative(m.bets_for);
    lemma_total_nonnegative(m.bets_against);
    if won == 0 {
        assert forall|j: int| 0 <= j < side.len() implies #[trigger] side[j].weight() == 0 by {
            lemma_weight_within_total(side, j);
        }
        lemma_claimed_total_of_nothing(side, m.claimed, won, lost);
    } else {
        lemma_claimed_total_scaled(side, m.claimed, won, lost);
        let paid = m.paid_out();
        assert(paid <= won + lost) by (nonlinear_arith)
            requires
                paid * won <= won * (won + lost),
                won > 0,
        ;
    }
}

} // verus!
