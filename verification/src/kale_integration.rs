//! The staking ledger: principals, a reward that accrues at a fixed rate and
//! is shared in proportion to the principals, and its payment out of what
//! the contract holds beyond the principals.

use vstd::prelude::*;
use crate::types::{Address, ContractError};
use crate::records::{
    Config, StakeInfo, apy_basis_points, apy_computable, checked_apy, compute_apy,
};
use crate::table::{
    Keyed, Weighted, has_key, position, distinct_keys, find, total_weight, lemma_push_keyed,
    lemma_update_keyed, lemma_remove_keyed, lemma_total_push, lemma_total_update,
    lemma_total_remove, lemma_weight_within_total, lemma_total_nonnegative, no_negative_weights,
    keys_are_distinct, checked_total,
};

verus! {

impl Keyed for StakeInfo {
    open spec fn key(&self) -> Address {
        self.staker
    }

    fn key_of(&self) -> (k: Address) {
        self.staker
    }
}

impl Weighted for StakeInfo {
    open spec fn weight(&self) -> int {
        self.amount as int
    }

    fn weight_of(&self) -> (w: i128) {
        self.amount
    }
}

/// What a stake has earned since its rewards were last banked: its share,
/// by principal, of what the pool accrued in that time, rounded down.
/// Nothing where no time has passed or nothing is staked.
pub open spec fn pending_rewards(
    reward_rate_per_second: int,
    total_staked: int,
    stake: StakeInfo,
    now: u64,
) -> int {
    if now <= stake.last_reward_time || total_staked == 0 {
        0
    } else {
        (reward_rate_per_second * (now - stake.last_reward_time) * stake.amount) / total_staked
    }
}

/// Whether [`pending_rewards`] can be computed in 128 bits: what the pool
/// accrued, and its product with the principal, can be represented.
pub open spec fn rewards_computable(
    reward_rate_per_second: int,
    total_staked: int,
    stake: StakeInfo,
    now: u64,
) -> bool {
    now > stake.last_reward_time && total_staked != 0 ==> {
        &&& i128::MIN <= reward_rate_per_second * (now - stake.last_reward_time) <= i128::MAX
        &&& i128::MIN <= reward_rate_per_second * (now - stake.last_reward_time) * stake.amount
            <= i128::MAX
    }
}

/// With a rate and a principal that are not negative, nothing negative is
/// earned; and what can be computed can be represented.
pub proof fn lemma_pending_rewards_bounds(
    reward_rate_per_second: int,
    total_staked: int,
    stake: StakeInfo,
    now: u64,
)
    requires
        total_staked >= 0,
    ensures
        reward_rate_per_second >= 0 && stake.amount >= 0 ==> pending_rewards(
            reward_rate_per_second,
            total_staked,
            stake,
            now,
        ) >= 0,
        rewards_computable(reward_rate_per_second, total_staked, stake, now) ==> i128::MIN
            <= pending_rewards(reward_rate_per_second, total_staked, stake, now) <= i128::MAX,
{
    if now > stake.last_reward_time && total_staked != 0 {
        let dt = now - stake.last_reward_time;
        let n = reward_rate_per_second * dt * stake.amount;
        assert(reward_rate_per_second >= 0 && stake.amount >= 0 ==> n >= 0) by (nonlinear_arith)
            requires
                n == reward_rate_per_second * dt * stake.amount,
                dt > 0,
        ;
        assert(n >= 0 ==> 0 <= n / total_staked <= n) by (nonlinear_arith)
            requires
                total_staked > 0,
        ;
        assert(n < 0 ==> n <= n / total_staked <= 0) by (nonlinear_arith)
            requires
                total_staked > 0,
        ;
    }
}

/// Computes [`pending_rewards`] where it can be computed: `None` exactly
/// where [`rewards_computable`] does not hold.
pub fn checked_pending_rewards(
    reward_rate_per_second: i128,
    total_staked: i128,
    stake: &StakeInfo,
    now: u64,
) -> (pending: Option<i128>)
    requires
        total_staked >= 0,
    ensures
        pending.is_some() == rewards_computable(
            reward_rate_per_second as int,
            total_staked as int,
            *stake,
            now,
        ),
        pending matches Some(p) ==> p == pending_rewards(
            reward_rate_per_second as int,
            total_staked as int,
            *stake,
            now,
        ),
{
    if now <= stake.last_reward_time {
        return Some(0);
    }
    let time_diff: u64 = now - stake.last_reward_time;
    if total_staked == 0 {
        return Some(0);
    }
    proof {
        lemma_pending_rewards_bounds(
            reward_rate_per_second as int,
            total_staked as int,
            *stake,
            now,
        );
    }
    let period_pool = match reward_rate_per_second.checked_mul(time_diff as i128) {
        Some(period_pool) => period_pool,
        None => {
            return None;
        },
    };
    let numerator = match period_pool.checked_mul(stake.amount) {
        Some(numerator) => numerator,
        None => {
            return None;
        },
    };
    numerator.checked_div_euclid(total_staked)
}

/// Computes [`pending_rewards`].
pub fn compute_pending_rewards(
    reward_rate_per_second: i128,
    total_staked: i128,
    stake: &StakeInfo,
    now: u64,
) -> (pending: i128)
    requires
        total_staked >= 0,
        rewards_computable(reward_rate_per_second as int, total_staked as int, *stake, now),
    ensures
        pending == pending_rewards(reward_rate_per_second as int, total_staked as int, *stake, now),
{
    checked_pending_rewards(reward_rate_per_second, total_staked, stake, now).unwrap()
}

/// The staking ledger as a mathematical value.
#[verifier::ext_equal]
pub struct StakingModel {
    /// `None` until the ledger is set up.
    pub config: Option<Config>,
    /// One record per staker, in the order of their first stakes.
    pub stakes: Seq<StakeInfo>,
    /// The running total of all principals.
    pub total_staked: i128,
    /// What the admin has added for rewards.
    pub reward_pool: i128,
    /// When a stake was last changed or a reward claimed.
    pub last_reward_update: u64,
}

impl StakingModel {
    /// A ledger that has not been set up.
    pub open spec fn empty() -> StakingModel {
        StakingModel {
            config: None,
            stakes: Seq::empty(),
            total_staked: 0,
            reward_pool: 0,
            last_reward_update: 0,
        }
    }

    /// The reward rate of the ledger; zero before it is set up.
    pub open spec fn rate(self) -> int {
        if self.config.is_some() {
            self.config.unwrap().reward_rate_per_second as int
        } else {
            0
        }
    }

    /// What holds of every ledger: one record per staker, no negative
    /// principal, the running total is the sum of the principals, with a
    /// rate that is not negative no banked reward is negative, and a
    /// ledger that has not been set up is empty.
    pub open spec fn inv(self) -> bool {
        &&& distinct_keys(self.stakes)
        &&& no_negative_weights(self.stakes)
        &&& self.total_staked == total_weight(self.stakes)
        &&& self.rate() >= 0 ==> forall|i: int|
            0 <= i < self.stakes.len() ==> (#[trigger] self.stakes[i]).accumulated_rewards >= 0
        &&& self.config.is_none() ==> self == StakingModel::empty()
    }

    /// The record of `staker`; one that starts at `now` with nothing where
    /// they have none.
    pub open spec fn record_of(self, staker: Address, now: u64) -> StakeInfo {
        if has_key(self.stakes, staker) {
            self.stakes[position(self.stakes, staker)]
        } else {
            StakeInfo {
                staker,
                amount: 0,
                stake_time: now,
                last_reward_time: now,
                accumulated_rewards: 0,
            }
        }
    }

    /// What `stake` has earned and not yet banked at `now`.
    pub open spec fn pending(self, stake: StakeInfo, now: u64) -> int {
        pending_rewards(self.rate(), self.total_staked as int, stake, now)
    }

    /// Whether what `stake` has earned can be computed and banked in 128 bits.
    pub open spec fn bank_fits(self, stake: StakeInfo, now: u64) -> bool {
        &&& rewards_computable(self.rate(), self.total_staked as int, stake, now)
        &&& i128::MIN <= stake.accumulated_rewards + self.pending(stake, now) <= i128::MAX
    }

    /// `stake` with what it has earned banked at `now`.
    pub open spec fn banked(self, stake: StakeInfo, now: u64) -> StakeInfo {
        StakeInfo {
            accumulated_rewards: (stake.accumulated_rewards + self.pending(stake, now)) as i128,
            last_reward_time: now,
            ..stake
        }
    }

    /// The records with that of `record.staker` replaced by `record`, or
    /// with `record` added at the end.
    pub open spec fn with_record(self, record: StakeInfo) -> Seq<StakeInfo> {
        if has_key(self.stakes, record.staker) {
            self.stakes.update(position(self.stakes, record.staker), record)
        } else {
            self.stakes.push(record)
        }
    }

    /// The answer to a stake: refused with `InvalidAmount` below the
    /// minimum.
    pub open spec fn stake_result(self, amount: i128) -> Result<(), ContractError>
        recommends
            self.config.is_some(),
    {
        if amount < self.config.unwrap().min_stake_amount {
            Err(ContractError::InvalidAmount)
        } else {
            Ok(())
        }
    }

    /// Whether an accepted stake can be recorded: an amount of tokens is
    /// not negative, what the staker has earned can be banked, and the
    /// total with the amount fits in 128 bits.
    pub open spec fn can_stake(self, staker: Address, amount: i128, now: u64) -> bool {
        &&& amount >= 0
        &&& self.bank_fits(self.record_of(staker, now), now)
        &&& self.total_staked + amount <= i128::MAX
    }

    /// Whether an accepted unstake can be recorded: an amount of tokens is
    /// not negative, and what the staker has earned can be banked.
    pub open spec fn can_unstake(self, staker: Address, amount: i128, now: u64) -> bool {
        amount >= 0 && self.bank_fits(self.record_of(staker, now), now)
    }

    /// Whether `amount` can be added to the reward pool: an amount of
    /// tokens is not negative, and the pool with it fits in 128 bits.
    pub open spec fn can_add_rewards(self, amount: i128) -> bool {
        amount >= 0 && i128::MIN <= self.reward_pool + amount <= i128::MAX
    }

    /// The ledger after an accepted stake: what the staker had earned is
    /// banked, and the amount is added to their principal and to the total.
    pub open spec fn after_stake(self, staker: Address, amount: i128, now: u64) -> StakingModel {
        let banked = self.banked(self.record_of(staker, now), now);
        StakingModel {
            stakes: self.with_record(
                StakeInfo { amount: (banked.amount + amount) as i128, ..banked },
            ),
            total_staked: (self.total_staked + amount) as i128,
            last_reward_update: now,
            ..self
        }
    }

    /// The answer to an unstake: refused with `StakeNotFound` where the
    /// staker has no record, with `InsufficientStake` where the amount is
    /// more than their principal.
    pub open spec fn unstake_result(self, staker: Address, amount: i128) -> Result<
        (),
        ContractError,
    > {
        if !has_key(self.stakes, staker) {
            Err(ContractError::StakeNotFound)
        } else if amount > self.stakes[position(self.stakes, staker)].amount {
            Err(ContractError::InsufficientStake)
        } else {
            Ok(())
        }
    }

    /// The ledger after an accepted unstake: what the staker had earned is
    /// banked, the amount is taken from their principal and from the total,
    /// and a record left with no principal and no reward is dropped.
    pub open spec fn after_unstake(self, staker: Address, amount: i128, now: u64) -> StakingModel
        recommends
            has_key(self.stakes, staker),
    {
        let at = position(self.stakes, staker);
        let banked = self.banked(self.stakes[at], now);
        let left = StakeInfo { amount: (banked.amount - amount) as i128, ..banked };
        StakingModel {
            stakes: if left.amount == 0 && left.accumulated_rewards == 0 {
                self.stakes.remove(at)
            } else {
                self.stakes.update(at, left)
            },
            total_staked: (self.total_staked - amount) as i128,
            last_reward_update: now,
            ..self
        }
    }

    /// All that is owed to the staker at `now`: banked and pending rewards.
    pub open spec fn owed(self, staker: Address, now: u64) -> int {
        let stake = self.record_of(staker, now);
        stake.accumulated_rewards + self.pending(stake, now)
    }

    /// What a contract that holds `contract_balance` has for rewards: what
    /// it holds beyond the principals, and nothing where it holds no more
    /// than the principals.
    pub open spec fn free_balance(self, contract_balance: i128) -> int {
        if contract_balance > self.total_staked {
            contract_balance - self.total_staked
        } else {
            0
        }
    }

    /// What a claim pays while the contract holds `contract_balance`:
    /// nothing where nothing is owed, else all that is owed, but no more
    /// than the contract has for rewards. It is never negative, and never
    /// taken from the principals.
    pub open spec fn payable(self, staker: Address, now: u64, contract_balance: i128) -> int {
        let owed = self.owed(staker, now);
        let free = self.free_balance(contract_balance);
        if owed <= 0 {
            0
        } else if owed > free {
            free
        } else {
            owed
        }
    }

    /// The answer to a claim: refused with `StakeNotFound` where the staker
    /// has no record, else what is paid.
    pub open spec fn claim_result(self, staker: Address, now: u64, contract_balance: i128) -> Result<
        int,
        ContractError,
    > {
        if !has_key(self.stakes, staker) {
            Err(ContractError::StakeNotFound)
        } else {
            Ok(self.payable(staker, now, contract_balance))
        }
    }

    /// Whether a claim can be computed in 128 bits, whatever the contract
    /// holds: what the staker has earned can be banked.
    pub open spec fn can_claim(self, staker: Address, now: u64) -> bool {
        self.bank_fits(self.record_of(staker, now), now)
    }

    /// The ledger after a claim: unless nothing at all is owed, the
    /// staker's record keeps what is owed and was not paid, banked at
    /// `now`. No principal changes.
    pub open spec fn after_claim(self, staker: Address, now: u64, contract_balance: i128) -> StakingModel {
        if !has_key(self.stakes, staker) {
            self
        } else if self.owed(staker, now) == 0 {
            StakingModel { last_reward_update: now, ..self }
        } else {
            let at = position(self.stakes, staker);
            StakingModel {
                stakes: self.stakes.update(
                    at,
                    StakeInfo {
                        accumulated_rewards: (self.owed(staker, now) - self.payable(
                            staker,
                            now,
                            contract_balance,
                        )) as i128,
                        last_reward_time: now,
                        ..self.stakes[at]
                    },
                ),
                last_reward_update: now,
                ..self
            }
        }
    }

    /// The stakers, in the order of their first stakes.
    pub open spec fn stakers(self) -> Seq<Address> {
        Seq::new(self.stakes.len(), |i: int| self.stakes[i].staker)
    }
}

/// Staking conservation, for a stake: an accepted stake keeps the ledger in
/// order, so that the running total stays the sum of the principals.
pub proof fn lemma_stake_keeps_inv(m: StakingModel, staker: Address, amount: i128, now: u64)
    requires
        m.inv(),
        m.config.is_some(),
        m.can_stake(staker, amount, now),
    ensures
        m.after_stake(staker, amount, now).inv(),
        m.after_stake(staker, amount, now).total_staked == total_weight(
            m.after_stake(staker, amount, now).stakes,
        ),
        m.after_stake(staker, amount, now).total_staked == m.total_staked + amount,
{
    let after = m.after_stake(staker, amount, now);
    let record = m.record_of(staker, now);
    lemma_total_nonnegative(m.stakes);
    if has_key(m.stakes, staker) {
        let at = position(m.stakes, staker);
        assert(m.stakes[at].key() == staker);
        lemma_weight_within_total(m.stakes, at);
    }
    lemma_pending_rewards_bounds(m.rate(), m.total_staked as int, record, now);
    let banked = m.banked(record, now);
    let updated = StakeInfo { amount: (banked.amount + amount) as i128, ..banked };
    lemma_with_record(m, updated);
}

/// Replacing or adding a record keeps the records distinct and changes the
/// sum of the principals by the change of that principal; the other
/// records stay as they are.
proof fn lemma_with_record(m: StakingModel, record: StakeInfo)
    requires
        distinct_keys(m.stakes),
    ensures
        distinct_keys(m.with_record(record)),
        total_weight(m.with_record(record)) == total_weight(m.stakes) - (if has_key(
            m.stakes,
            record.staker,
        ) {
            m.stakes[position(m.stakes, record.staker)].amount as int
        } else {
            0
        }) + record.amount,
        forall|i: int|
            0 <= i < m.with_record(record).len() ==> #[trigger] m.with_record(record)[i] == record
                || (i < m.stakes.len() && m.with_record(record)[i] == m.stakes[i]),
        has_key(m.with_record(record), record.staker),
        m.with_record(record)[position(m.with_record(record), record.staker)] == record,
        forall|k: Address| k != record.staker ==> has_key(m.with_record(record), k) == has_key(m.stakes, k),
        forall|k: Address|
            k != record.staker && has_key(m.stakes, k) ==> m.with_record(record)[position(
                m.with_record(record),
                k,
            )] == m.stakes[position(m.stakes, k)],
{
    let after = m.with_record(record);
    if has_key(m.stakes, record.staker) {
        let at = position(m.stakes, record.staker);
        assert(m.stakes[at].key() == record.staker);
        lemma_update_keyed(m.stakes, at, record);
        lemma_total_update(m.stakes, at, record);
        assert forall|k: Address| k != record.staker && has_key(m.stakes, k) implies after[position(
            after,
            k,
        )] == m.stakes[position(m.stakes, k)] by {
            let p = position(m.stakes, k);
            assert(m.stakes[p].key() == k);
        }
    } else {
        lemma_push_keyed(m.stakes, record);
        lemma_total_push(m.stakes, record);
        assert forall|k: Address| k != record.staker && has_key(m.stakes, k) implies after[position(
            after,
            k,
        )] == m.stakes[position(m.stakes, k)] by {
            let p = position(m.stakes, k);
            assert(m.stakes[p].key() == k);
        }
    }
}

/// Staking conservation, for an unstake: an accepted unstake keeps the
/// ledger in order, so that the running total stays the sum of the
/// principals.
pub proof fn lemma_unstake_keeps_inv(m: StakingModel, staker: Address, amount: i128, now: u64)
    requires
        m.inv(),
        m.config.is_some(),
        m.unstake_result(staker, amount).is_ok(),
        m.can_unstake(staker, amount, now),
    ensures
        m.after_unstake(staker, amount, now).inv(),
        m.after_unstake(staker, amount, now).total_staked == total_weight(
            m.after_unstake(staker, amount, now).stakes,
        ),
        m.after_unstake(staker, amount, now).total_staked == m.total_staked - amount,
{
    let at = position(m.stakes, staker);
    assert(m.stakes[at].key() == staker);
    let record = m.stakes[at];
    lemma_total_nonnegative(m.stakes);
    lemma_weight_within_total(m.stakes, at);
    lemma_pending_rewards_bounds(m.rate(), m.total_staked as int, record, now);
    let banked = m.banked(record, now);
    let left = StakeInfo { amount: (banked.amount - amount) as i128, ..banked };
    let after = m.after_unstake(staker, amount, now);
    if left.amount == 0 && left.accumulated_rewards == 0 {
        lemma_remove_keyed(m.stakes, at);
        lemma_total_remove(m.stakes, at);
        assert forall|i: int| 0 <= i < after.stakes.len() implies #[trigger] after.stakes[i]
            == m.stakes[if i < at {
            i
        } else {
            i + 1
        }] by {}
        assert forall|i: int| 0 <= i < after.stakes.len() implies #[trigger] after.stakes[i].weight()
            >= 0 by {
            let j = if i < at { i } else { i + 1 };
            assert(after.stakes[i] == m.stakes[j]);
            assert(m.stakes[j].weight() >= 0);
        }
    } else {
        lemma_update_keyed(m.stakes, at, left);
        lemma_total_update(m.stakes, at, left);
        assert forall|i: int| 0 <= i < after.stakes.len() implies #[trigger] after.stakes[i].weight()
            >= 0 by {
            if i != at {
                assert(after.stakes[i] == m.stakes[i]);
                assert(m.stakes[i].weight() >= 0);
            }
        }
    }
}

/// Reward bounds: a claim keeps the ledger in order and every principal as
/// it is. What it pays is never negative, never more than is owed, and
/// never more than the contract has for rewards, so that nothing is paid
/// from the principals, whatever the contract holds. What is owed and not
/// paid stays banked, and with a rate that is not negative the staker's
/// banked rewards are not negative after the claim.
pub proof fn lemma_claim_keeps_inv(m: StakingModel, staker: Address, now: u64, contract_balance: i128)
    requires
        m.inv(),
        m.config.is_some(),
        has_key(m.stakes, staker),
        m.can_claim(staker, now),
    ensures
        m.after_claim(staker, now, contract_balance).inv(),
        m.after_claim(staker, now, contract_balance).total_staked == m.total_staked,
        has_key(m.after_claim(staker, now, contract_balance).stakes, staker),
        m.after_claim(staker, now, contract_balance).record_of(staker, now).amount == m.record_of(
            staker,
            now,
        ).amount,
        m.owed(staker, now) != 0 ==> m.after_claim(staker, now, contract_balance).record_of(
            staker,
            now,
        ).accumulated_rewards == m.owed(staker, now) - m.payable(staker, now, contract_balance),
        forall|other: Address|
            other != staker ==> has_key(
                m.after_claim(staker, now, contract_balance).stakes,
                other,
            ) == has_key(m.stakes, other) && m.after_claim(
                staker,
                now,
                contract_balance,
            ).record_of(other, now) == m.record_of(other, now),
        0 <= m.payable(staker, now, contract_balance) <= m.free_balance(contract_balance),
        m.owed(staker, now) >= 0 ==> m.payable(staker, now, contract_balance) <= m.owed(
            staker,
            now,
        ),
        contract_balance >= m.total_staked ==> m.payable(staker, now, contract_balance)
            <= contract_balance - m.total_staked,
        contract_balance <= m.total_staked ==> m.payable(staker, now, contract_balance) == 0,
        m.rate() >= 0 ==> m.owed(staker, now) >= 0 && m.after_claim(
            staker,
            now,
            contract_balance,
        ).record_of(staker, now).accumulated_rewards >= 0,
{
    let at = position(m.stakes, staker);
    assert(m.stakes[at].key() == staker);
    let record = m.stakes[at];
    lemma_total_nonnegative(m.stakes);
    assert(m.stakes[at].weight() >= 0);
    lemma_pending_rewards_bounds(m.rate(), m.total_staked as int, record, now);
    let after = m.after_claim(staker, now, contract_balance);
    if m.rate() >= 0 {
        assert(m.stakes[at].accumulated_rewards >= 0);
    }
    if m.owed(staker, now) != 0 {
        let kept = after.stakes[at];
        lemma_update_keyed(m.stakes, at, kept);
        lemma_total_update(m.stakes, at, kept);
        assert forall|i: int| 0 <= i < after.stakes.len() implies #[trigger] after.stakes[i].weight()
            >= 0 by {
            if i != at {
                assert(after.stakes[i] == m.stakes[i]);
            }
            assert(m.stakes[i].weight() >= 0);
        }
        assert forall|other: Address| other != staker implies has_key(after.stakes, other)
            == has_key(m.stakes, other) && after.record_of(other, now) == m.record_of(
            other,
            now,
        ) by {
            if has_key(m.stakes, other) {
                let p = position(m.stakes, other);
                assert(m.stakes[p].key() == other);
                assert(p != at);
            }
        }
    }
}

/// One call that changes the ledger.
pub enum StakingCall {
    Stake { staker: Address, amount: i128, now: u64 },
    Unstake { staker: Address, amount: i128, now: u64 },
    Claim { staker: Address, now: u64, contract_balance: i128 },
}

/// The ledger after one call, which is recorded where it is accepted and
/// leaves the ledger as it is where it is refused or cannot be recorded.
pub open spec fn after_call(m: StakingModel, call: StakingCall) -> StakingModel {
    match call {
        StakingCall::Stake { staker, amount, now } => if m.stake_result(amount).is_ok()
            && m.can_stake(staker, amount, now) {
            m.after_stake(staker, amount, now)
        } else {
            m
        },
        StakingCall::Unstake { staker, amount, now } => if m.unstake_result(staker, amount).is_ok()
            && m.can_unstake(staker, amount, now) {
            m.after_unstake(staker, amount, now)
        } else {
            m
        },
        StakingCall::Claim { staker, now, contract_balance } => if has_key(m.stakes, staker)
            && m.can_claim(staker, now) {
            m.after_claim(staker, now, contract_balance)
        } else {
            m
        },
    }
}

/// The ledger after a run of calls; see [`after_call`].
pub open spec fn after_calls(m: StakingModel, calls: Seq<StakingCall>) -> StakingModel
    decreases calls.len(),
{
    if calls.len() == 0 {
        m
    } else {
        after_call(after_calls(m, calls.drop_last()), calls.last())
    }
}

/// Staking conservation and reward bounds: after any run of stakes,
/// unstakes and claims, in any order and by any stakers, the running total
/// is the sum of the principals, no principal is negative, and with a rate
/// that is not negative no banked reward is negative.
pub proof fn lemma_staking_conserved(m: StakingModel, calls: Seq<StakingCall>)
    requires
        m.inv(),
        m.config.is_some(),
    ensures
        after_calls(m, calls).inv(),
        after_calls(m, calls).config == m.config,
        after_calls(m, calls).total_staked == total_weight(after_calls(m, calls).stakes),
        forall|i: int|
            0 <= i < after_calls(m, calls).stakes.len() ==> (#[trigger] after_calls(
                m,
                calls,
            ).stakes[i]).amount >= 0,
        m.rate() >= 0 ==> forall|i: int|
            0 <= i < after_calls(m, calls).stakes.len() ==> (#[trigger] after_calls(
                m,
                calls,
            ).stakes[i]).accumulated_rewards >= 0,
    decreases calls.len(),
{
    if calls.len() > 0 {
        lemma_staking_conserved(m, calls.drop_last());
        let before = after_calls(m, calls.drop_last());
        match calls.last() {
            StakingCall::Stake { staker, amount, now } => {
                if before.stake_result(amount).is_ok() && before.can_stake(staker, amount, now) {
                    lemma_stake_keeps_inv(before, staker, amount, now);
                }
            },
            StakingCall::Unstake { staker, amount, now } => {
                if before.unstake_result(staker, amount).is_ok() && before.can_unstake(
                    staker,
                    amount,
                    now,
                ) {
                    lemma_unstake_keeps_inv(before, staker, amount, now);
                }
            },
            StakingCall::Claim { staker, now, contract_balance } => {
                if has_key(before.stakes, staker) && before.can_claim(staker, now) {
                    lemma_claim_keeps_inv(before, staker, now, contract_balance);
                }
            },
        }
    }
    let after = after_calls(m, calls);
    assert forall|i: int| 0 <= i < after.stakes.len() implies (#[trigger] after.stakes[i]).amount
        >= 0 by {
        assert(after.stakes[i].weight() >= 0);
    }
}

/// The staking ledger.
pub struct KaleIntegrationContract {
    /// `None` until the ledger is set up.
    pub config: Option<Config>,
    /// One record per staker.
    pub stakes: Vec<StakeInfo>,
    /// The running total of all principals.
    pub total_staked: i128,
    /// What the admin has added for rewards.
    pub reward_pool: i128,
    /// When a stake was last changed or a reward claimed.
    pub last_reward_update: u64,
}

impl View for KaleIntegrationContract {
    type V = StakingModel;

    open spec fn view(&self) -> StakingModel {
        StakingModel {
            config: self.config,
            stakes: self.stakes@,
            total_staked: self.total_staked,
            reward_pool: self.reward_pool,
            last_reward_update: self.last_reward_update,
        }
    }
}

impl KaleIntegrationContract {
    /// Whether the ledger is in order; see [`StakingModel::inv`].
    pub open spec fn wf(&self) -> bool {
        self@.inv()
    }

    /// A ledger that has not been set up.
    pub fn new() -> (ledger: Self)
        ensures
            ledger.wf(),
            ledger@ == StakingModel::empty(),
    {
        KaleIntegrationContract {
            config: None,
            stakes: Vec::new(),
            total_staked: 0,
            reward_pool: 0,
            last_reward_update: 0,
        }
    }

    /// Sets the ledger up at the ledger time `now`, once: a second call is
    /// refused with `NotAuthorized` and changes nothing.
    pub fn initialize(
        &mut self,
        admin: Address,
        kale_token: Address,
        reward_rate_per_second: i128,
        min_stake_amount: i128,
        now: u64,
    ) -> (r: Result<(), ContractError>)
        requires
            old(self).wf(),
        ensures
            final(self).wf(),
            old(self)@.config.is_some() ==> r == Err::<(), ContractError>(
                ContractError::NotAuthorized,
            ) && final(self)@ == old(self)@,
            old(self)@.config.is_none() ==> r.is_ok() && final(self)@ == (StakingModel {
                config: Some(
                    Config {
                        admin,
                        kale_token,
                        oracle_address: Address::none(),
                        platform_fee_rate: 0,
                        min_stake_amount,
                        reward_rate_per_second,
                        max_market_duration: 0,
                        min_market_duration: 0,
                    },
                ),
                last_reward_update: now,
                ..StakingModel::empty()
            }),
    {
        if self.config.is_some() {
            return Err(ContractError::NotAuthorized);
        }
        self.config = Some(
            Config {
                admin,
                kale_token,
                oracle_address: Address::none(),
                platform_fee_rate: 0,
                min_stake_amount,
                reward_rate_per_second,
                max_market_duration: 0,
                min_market_duration: 0,
            },
        );
        self.last_reward_update = now;
        assert(self@ =~= (StakingModel {
            config: self@.config,
            last_reward_update: now,
            ..StakingModel::empty()
        }));
        Ok(())
    }

    /// The reward rate of the ledger.
    fn rate(&self) -> (rate: i128)
        ensures
            rate == self@.rate(),
    {
        match self.config {
            Some(config) => config.reward_rate_per_second,
            None => 0,
        }
    }

    /// Checks whether the ledger is in order, as a ledger must be that was
    /// put together from its parts; see [`StakingModel::inv`].
    pub fn validate(&self) -> (ok: bool)
        ensures
            ok == self.wf(),
    {
        if !keys_are_distinct(&self.stakes) {
            return false;
        }
        match checked_total(&self.stakes) {
            Some(sum) => {
                if sum != self.total_staked {
                    return false;
                }
            },
            None => {
                return false;
            },
        }
        match self.config {
            Some(config) => {
                if config.reward_rate_per_second >= 0 {
                    let mut i: usize = 0;
                    while i < self.stakes.len()
                        invariant
                            i <= self.stakes.len(),
                            self@.rate() >= 0,
                            forall|j: int|
                                0 <= j < i ==> (#[trigger] self.stakes@[j]).accumulated_rewards
                                    >= 0,
                        decreases self.stakes.len() - i,
                    {
                        if self.stakes[i].accumulated_rewards < 0 {
                            assert(self@.stakes[i as int].accumulated_rewards < 0);
                            return false;
                        }
                        i += 1;
                    }
                }
                true
            },
            None => {
                let empty = self.stakes.len() == 0 && self.total_staked == 0 && self.reward_pool
                    == 0 && self.last_reward_update == 0;
                assert(empty == (self@ =~= StakingModel::empty()));
                empty
            },
        }
    }

    /// Whether the ledger has been set up.
    pub fn is_initialized(&self) -> (yes: bool)
        ensures
            yes == self@.config.is_some(),
    {
        self.config.is_some()
    }

    /// Banks what `stake` has earned where that can be computed: `None`
    /// exactly where [`StakingModel::bank_fits`] does not hold.
    fn checked_bank(&self, stake: StakeInfo, now: u64) -> (banked: Option<StakeInfo>)
        requires
            self.wf(),
        ensures
            banked.is_some() == self@.bank_fits(stake, now),
            banked matches Some(b) ==> b == self@.banked(stake, now),
    {
        proof {
            lemma_total_nonnegative(self.stakes@);
        }
        let pending = match checked_pending_rewards(self.rate(), self.total_staked, &stake, now) {
            Some(pending) => pending,
            None => {
                return None;
            },
        };
        match stake.accumulated_rewards.checked_add(pending) {
            Some(accumulated_rewards) => Some(
                StakeInfo {
                    staker: stake.staker,
                    amount: stake.amount,
                    stake_time: stake.stake_time,
                    last_reward_time: now,
                    accumulated_rewards,
                },
            ),
            None => None,
        }
    }

    /// The record of `staker`, or one that starts at `now` with nothing.
    fn read_record(&self, staker: Address, now: u64) -> (record: StakeInfo)
        requires
            self.wf(),
        ensures
            record == self@.record_of(staker, now),
    {
        match find(&self.stakes, staker) {
            Some(i) => self.stakes[i],
            None => StakeInfo {
                staker,
                amount: 0,
                stake_time: now,
                last_reward_time: now,
                accumulated_rewards: 0,
            },
        }
    }

    /// What a stake would be answered with, the ledger left as it is; see
    /// [`StakingModel::stake_result`].
    pub fn check_stake(&self, amount: i128) -> (r: Result<(), ContractError>)
        requires
            self@.config.is_some(),
        ensures
            r == self@.stake_result(amount),
    {
        if amount < self.get_config().min_stake_amount {
            Err(ContractError::InvalidAmount)
        } else {
            Ok(())
        }
    }

    /// What an unstake would be answered with, the ledger left as it is;
    /// see [`StakingModel::unstake_result`].
    pub fn check_unstake(&self, staker: Address, amount: i128) -> (r: Result<(), ContractError>)
        requires
            self.wf(),
        ensures
            r == self@.unstake_result(staker, amount),
    {
        match find(&self.stakes, staker) {
            Some(at) => if amount > self.stakes[at].amount {
                Err(ContractError::InsufficientStake)
            } else {
                Ok(())
            },
            None => Err(ContractError::StakeNotFound),
        }
    }

    /// The settings that the ledger was set up with.
    pub fn get_config(&self) -> (config: Config)
        requires
            self@.config.is_some(),
        ensures
            config == self@.config.unwrap(),
    {
        self.config.unwrap()
    }

    /// Whether `staker` has a record.
    pub fn has_stake(&self, staker: Address) -> (yes: bool)
        ensures
            yes == has_key(self@.stakes, staker),
    {
        find(&self.stakes, staker).is_some()
    }

    /// Whether `caller` is the admin of a ledger that is set up.
    pub fn is_admin(&self, caller: Address) -> (yes: bool)
        ensures
            yes == (self@.config.is_some() && self@.config.unwrap().admin == caller),
    {
        match self.config {
            Some(config) => config.admin == caller,
            None => false,
        }
    }

    /// Whether a stake can be recorded; see [`StakingModel::can_stake`].
    pub fn can_stake(&self, staker: Address, amount: i128, now: u64) -> (yes: bool)
        requires
            self.wf(),
        ensures
            yes == self@.can_stake(staker, amount, now),
    {
        proof {
            lemma_total_nonnegative(self.stakes@);
        }
        amount >= 0 && self.checked_bank(self.read_record(staker, now), now).is_some()
            && self.total_staked.checked_add(amount).is_some()
    }

    /// Whether an unstake can be recorded; see
    /// [`StakingModel::can_unstake`].
    pub fn can_unstake(&self, staker: Address, amount: i128, now: u64) -> (yes: bool)
        requires
            self.wf(),
        ensures
            yes == self@.can_unstake(staker, amount, now),
    {
        amount >= 0 && self.checked_bank(self.read_record(staker, now), now).is_some()
    }

    /// Whether a claim can be computed; see [`StakingModel::can_claim`].
    pub fn can_claim(&self, staker: Address, now: u64) -> (yes: bool)
        requires
            self.wf(),
        ensures
            yes == self@.can_claim(staker, now),
    {
        self.checked_bank(self.read_record(staker, now), now).is_some()
    }

    /// Whether `amount` can be added to the reward pool; see
    /// [`StakingModel::can_add_rewards`].
    pub fn can_add_rewards(&self, amount: i128) -> (yes: bool)
        ensures
            yes == self@.can_add_rewards(amount),
    {
        amount >= 0 && self.reward_pool.checked_add(amount).is_some()
    }

    /// Whether the yearly yield can be computed; see [`apy_computable`].
    pub fn can_report_apy(&self) -> (yes: bool)
        ensures
            yes == apy_computable(self@.rate(), self@.total_staked as int),
    {
        checked_apy(self.rate(), self.total_staked).is_some()
    }

    /// What `stake_info` has earned and not yet banked at the ledger time
    /// `now`; see [`pending_rewards`].
    pub fn calculate_pending_rewards(&self, stake_info: &StakeInfo, now: u64) -> (pending: i128)
        requires
            self.wf(),
            rewards_computable(self@.rate(), self@.total_staked as int, *stake_info, now),
        ensures
            pending == self@.pending(*stake_info, now),
    {
        proof {
            lemma_total_nonnegative(self.stakes@);
        }
        compute_pending_rewards(self.rate(), self.total_staked, stake_info, now)
    }

    /// Notes the ledger time `now` as the time of the latest change.
    pub fn update_global_rewards(&mut self, now: u64)
        requires
            old(self).wf(),
            old(self)@.config.is_some(),
        ensures
            final(self).wf(),
            final(self)@ == (StakingModel { last_reward_update: now, ..old(self)@ }),
    {
        self.last_reward_update = now;
    }

    /// Banks what `stake` has earned.
    fn bank(&self, stake: StakeInfo, now: u64) -> (banked: StakeInfo)
        requires
            self.wf(),
            self@.bank_fits(stake, now),
        ensures
            banked == self@.banked(stake, now),
    {
        let pending = self.calculate_pending_rewards(&stake, now);
        StakeInfo {
            staker: stake.staker,
            amount: stake.amount,
            stake_time: stake.stake_time,
            last_reward_time: now,
            accumulated_rewards: stake.accumulated_rewards + pending,
        }
    }

    /// Stakes `amount` for `staker` at the ledger time `now`. A refused
    /// stake changes nothing. The caller moves the tokens first; a stake
    /// that is accepted must be one that can be recorded (see
    /// [`Self::can_stake`]).
    pub fn stake(&mut self, staker: Address, amount: i128, now: u64) -> (r: Result<
        (),
        ContractError,
    >)
        requires
            old(self).wf(),
            old(self)@.config.is_some(),
            old(self)@.stake_result(amount).is_ok() ==> old(self)@.can_stake(staker, amount, now),
        ensures
            final(self).wf(),
            r == old(self)@.stake_result(amount),
            r.is_ok() ==> final(self)@ == old(self)@.after_stake(staker, amount, now),
            r.is_err() ==> final(self)@ == old(self)@,
    {
        if let Err(e) = self.check_stake(amount) {
            return Err(e);
        }
        let found = find(&self.stakes, staker);
        let record = match found {
            Some(i) => self.stakes[i],
            None => StakeInfo {
                staker,
                amount: 0,
                stake_time: now,
                last_reward_time: now,
                accumulated_rewards: 0,
            },
        };
        proof {
            lemma_total_nonnegative(self.stakes@);
            if found.is_some() {
                lemma_weight_within_total(self.stakes@, found.unwrap() as int);
            }
            lemma_stake_keeps_inv(self@, staker, amount, now);
        }
        let banked = self.bank(record, now);
        let updated = StakeInfo {
            staker: banked.staker,
            amount: banked.amount + amount,
            stake_time: banked.stake_time,
            last_reward_time: banked.last_reward_time,
            accumulated_rewards: banked.accumulated_rewards,
        };
        match found {
            Some(i) => {
                self.stakes.set(i, updated);
            },
            None => {
                self.stakes.push(updated);
            },
        }
        self.total_staked = self.total_staked + amount;
        self.last_reward_update = now;
        assert(self@ =~= old(self)@.after_stake(staker, amount, now));
        Ok(())
    }

    /// Takes `amount` out of the principal of `staker` at the ledger time
    /// `now`. A refused unstake changes nothing. The caller moves the
    /// tokens; an unstake that is accepted must be one that can be
    /// recorded (see [`Self::can_unstake`]).
    pub fn unstake(&mut self, staker: Address, amount: i128, now: u64) -> (r: Result<
        (),
        ContractError,
    >)
        requires
            old(self).wf(),
            old(self)@.config.is_some(),
            old(self)@.unstake_result(staker, amount).is_ok() ==> old(self)@.can_unstake(
                staker,
                amount,
                now,
            ),
        ensures
            final(self).wf(),
            r == old(self)@.unstake_result(staker, amount),
            r.is_ok() ==> final(self)@ == old(self)@.after_unstake(staker, amount, now),
            r.is_err() ==> final(self)@ == old(self)@,
    {
        let at = match find(&self.stakes, staker) {
            Some(i) => i,
            None => {
                return Err(ContractError::StakeNotFound);
            },
        };
        let record = self.stakes[at];
        if amount > record.amount {
            return Err(ContractError::InsufficientStake);
        }
        proof {
            lemma_total_nonnegative(self.stakes@);
            lemma_weight_within_total(self.stakes@, at as int);
            lemma_unstake_keeps_inv(self@, staker, amount, now);
        }
        let banked = self.bank(record, now);
        let left = StakeInfo {
            staker: banked.staker,
            amount: banked.amount - amount,
            stake_time: banked.stake_time,
            last_reward_time: banked.last_reward_time,
            accumulated_rewards: banked.accumulated_rewards,
        };
        if left.amount == 0 && left.accumulated_rewards == 0 {
            self.stakes.remove(at);
        } else {
            self.stakes.set(at, left);
        }
        self.total_staked = self.total_staked - amount;
        self.last_reward_update = now;
        assert(self@ =~= old(self)@.after_unstake(staker, amount, now));
        Ok(())
    }

    /// Pays `staker` their rewards at the ledger time `now`, while the
    /// contract holds `contract_balance` tokens. The result is what is
    /// paid, and what the caller is to move to the staker: nothing where
    /// nothing is owed, else all that is owed, but no more than the
    /// contract holds beyond the principals, and nothing where it holds no
    /// more than the principals. What is owed and not paid stays banked.
    /// A staker without a record is refused with `StakeNotFound`, and
    /// nothing changes. The claim of a staker must be computable (see
    /// [`Self::can_claim`]).
    pub fn claim_rewards(&mut self, staker: Address, now: u64, contract_balance: i128) -> (r: Result<
        i128,
        ContractError,
    >)
        requires
            old(self).wf(),
            old(self)@.config.is_some(),
            has_key(old(self)@.stakes, staker) ==> old(self)@.can_claim(staker, now),
        ensures
            final(self).wf(),
            match r {
                Ok(paid) => old(self)@.claim_result(staker, now, contract_balance) == Ok::<
                    int,
                    ContractError,
                >(paid as int),
                Err(e) => old(self)@.claim_result(staker, now, contract_balance) == Err::<
                    int,
                    ContractError,
                >(e),
            },
            final(self)@ == old(self)@.after_claim(staker, now, contract_balance),
            r matches Ok(paid) ==> 0 <= paid <= old(self)@.free_balance(contract_balance),
            r matches Ok(paid) ==> (contract_balance >= old(self)@.total_staked ==> paid
                <= contract_balance - old(self)@.total_staked),
            r matches Ok(paid) ==> (old(self)@.owed(staker, now) != 0 ==> final(self)@.record_of(
                staker,
                now,
            ).accumulated_rewards == old(self)@.owed(staker, now) - paid),
            r matches Ok(paid) ==> (old(self)@.rate() >= 0 ==> final(self)@.record_of(
                staker,
                now,
            ).accumulated_rewards >= 0),
            final(self)@.total_staked == old(self)@.total_staked,
            final(self)@.record_of(staker, now).amount == old(self)@.record_of(staker, now).amount,
    {
        let at = match find(&self.stakes, staker) {
            Some(i) => i,
            None => {
                return Err(ContractError::StakeNotFound);
            },
        };
        let record = self.stakes[at];
        proof {
            assert(self.stakes@[at as int].weight() >= 0);
            lemma_total_nonnegative(self.stakes@);
            lemma_claim_keeps_inv(self@, staker, now, contract_balance);
        }
        self.update_global_rewards(now);
        let banked = self.bank(record, now);
        let total_rewards = banked.accumulated_rewards;
        if total_rewards == 0 {
            assert(self@ =~= old(self)@.after_claim(staker, now, contract_balance));
            return Ok(0);
        }
        let available_for_rewards = if contract_balance > self.total_staked {
            contract_balance - self.total_staked
        } else {
            0
        };
        let rewards_to_pay = if total_rewards <= 0 {
            0
        } else if total_rewards > available_for_rewards {
            available_for_rewards
        } else {
            total_rewards
        };
        self.stakes.set(
            at,
            StakeInfo {
                staker: record.staker,
                amount: record.amount,
                stake_time: record.stake_time,
                last_reward_time: now,
                accumulated_rewards: total_rewards - rewards_to_pay,
            },
        );
        assert(self@ =~= old(self)@.after_claim(staker, now, contract_balance));
        Ok(rewards_to_pay)
    }

    /// Adds `amount` to the reward pool; only the admin may. A refused call
    /// changes nothing. The caller moves the tokens first; what the admin
    /// adds must be an amount that can be added (see
    /// [`Self::can_add_rewards`]).
    pub fn add_rewards(&mut self, admin: Address, amount: i128) -> (r: Result<(), ContractError>)
        requires
            old(self).wf(),
            old(self)@.config.is_some(),
            admin == old(self)@.config.unwrap().admin ==> old(self)@.can_add_rewards(amount),
        ensures
            final(self).wf(),
            admin != old(self)@.config.unwrap().admin ==> r == Err::<(), ContractError>(
                ContractError::NotAuthorized,
            ) && final(self)@ == old(self)@,
            admin == old(self)@.config.unwrap().admin ==> r.is_ok() && final(self)@ == (
            StakingModel {
                reward_pool: (old(self)@.reward_pool + amount) as i128,
                ..old(self)@
            }),
    {
        if !self.is_admin(admin) {
            return Err(ContractError::NotAuthorized);
        }
        self.reward_pool = self.reward_pool + amount;
        assert(self@ =~= (StakingModel {
            reward_pool: (old(self)@.reward_pool + amount) as i128,
            ..old(self)@
        }));
        Ok(())
    }

    /// The record of `staker` with what it has earned up to the ledger time
    /// `now` counted in; `StakeNotFound` where they have none.
    pub fn get_stake_info(&self, staker: Address, now: u64) -> (r: Result<StakeInfo, ContractError>)
        requires
            self.wf(),
            has_key(self@.stakes, staker) ==> self@.bank_fits(self@.record_of(staker, now), now),
        ensures
            !has_key(self@.stakes, staker) ==> r == Err::<StakeInfo, ContractError>(
                ContractError::StakeNotFound,
            ),
            has_key(self@.stakes, staker) ==> r == Ok::<StakeInfo, ContractError>(
                StakeInfo {
                    accumulated_rewards: self@.owed(staker, now) as i128,
                    ..self@.record_of(staker, now)
                },
            ),
    {
        match find(&self.stakes, staker) {
            Some(i) => {
                let record = self.stakes[i];
                assert(self.stakes@[i as int].weight() >= 0);
                let pending = self.calculate_pending_rewards(&record, now);
                Ok(
                    StakeInfo {
                        staker: record.staker,
                        amount: record.amount,
                        stake_time: record.stake_time,
                        last_reward_time: record.last_reward_time,
                        accumulated_rewards: record.accumulated_rewards + pending,
                    },
                )
            },
            None => Err(ContractError::StakeNotFound),
        }
    }

    /// The total of all principals.
    pub fn get_total_staked(&self) -> (total: i128)
        ensures
            total == self@.total_staked,
    {
        self.total_staked
    }

    /// What the admin has added for rewards.
    pub fn get_reward_pool(&self) -> (pool: i128)
        ensures
            pool == self@.reward_pool,
    {
        self.reward_pool
    }

    /// The stakers, in the order of their first stakes.
    pub fn get_stakers(&self) -> (stakers: Vec<Address>)
        ensures
            stakers@ == self@.stakers(),
    {
        let mut stakers: Vec<Address> = Vec::new();
        let mut i: usize = 0;
        while i < self.stakes.len()
            invariant
                i <= self.stakes.len(),
                stakers@.len() == i,
                forall|j: int| 0 <= j < i ==> stakers@[j] == self.stakes@[j].staker,
            decreases self.stakes.len() - i,
        {
            stakers.push(self.stakes[i].staker);
            i += 1;
        }
        assert(stakers@ =~= self@.stakers());
        stakers
    }

    /// The yearly yield of the pool in basis points; see
    /// [`apy_basis_points`].
    pub fn get_current_apy(&self) -> (apy: u32)
        requires
            self.wf(),
            apy_computable(self@.rate(), self@.total_staked as int),
        ensures
            apy == apy_basis_points(self@.rate(), self@.total_staked as int),
    {
        if self.total_staked == 0 {
            return 0;
        }
        compute_apy(self.rate(), self.total_staked)
    }
}

} // verus!
