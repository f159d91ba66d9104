//! What every contract of the platform shares: identities, the closed sets
//! of statuses, outcomes and errors, and the rules by which a market is
//! decided and its winners are paid.

use vstd::prelude::*;
use vstd::arithmetic::div_mod::{
    lemma_fundamental_div_mod, lemma_fundamental_div_mod_converse,
};

verus! {

/// A ledger identity: an account or a contract, named by its 256-bit key.
#[derive(Clone, Copy, Debug, PartialEq, Eq, Hash, Structural)]
pub struct Address {
    /// `true` for a contract, `false` for an account.
    pub contract: bool,
    /// The upper half of the key.
    pub hi: u128,
    /// The lower half of the key.
    pub lo: u128,
}

impl Address {
    /// The address that stands where there is none to name: the account
    /// whose key is all zeros.
    pub open spec fn none_spec() -> Address {
        Address { contract: false, hi: 0, lo: 0 }
    }

    /// The address that stands where there is none to name.
    #[verifier::when_used_as_spec(none_spec)]
    pub fn none() -> (a: Address)
        ensures
            a == Address::none_spec(),
    {
        Address { contract: false, hi: 0, lo: 0 }
    }

    /// The account whose key is `hi` followed by `lo`.
    pub fn account(hi: u128, lo: u128) -> (a: Address)
        ensures
            a == (Address { contract: false, hi, lo }),
    {
        Address { contract: false, hi, lo }
    }

    /// The contract whose key is `hi` followed by `lo`.
    pub fn contract(hi: u128, lo: u128) -> (a: Address)
        ensures
            a == (Address { contract: true, hi, lo }),
    {
        Address { contract: true, hi, lo }
    }
}

/// A 32-byte identifier, such as a market id or a token id.
#[derive(Clone, Copy, Debug, PartialEq, Eq, Hash, Structural)]
pub struct Bytes32 {
    /// The upper sixteen bytes.
    pub hi: u128,
    /// The lower sixteen bytes.
    pub lo: u128,
}

/// Where a market stands in its life.
#[derive(Clone, Copy, Debug, PartialEq, Eq, Structural)]
pub enum MarketStatus {
    Active,
    Closed,
    Resolved,
    Cancelled,
}

/// What an event turned out to be.
#[derive(Clone, Copy, Debug, PartialEq, Eq, Structural)]
pub enum MarketOutcome {
    OutcomeA,
    OutcomeB,
    Draw,
    Invalid,
}

/// Why a call was refused. Every refusal leaves the contract as it was,
/// unless the function says otherwise.
#[derive(Clone, Copy, Debug, PartialEq, Eq, Structural)]
pub enum ContractError {
    NotAuthorized,
    MarketNotFound,
    MarketClosed,
    MarketAlreadyResolved,
    InsufficientBalance,
    InvalidAmount,
    InvalidOutcome,
    BetNotFound,
    AlreadyClaimed,
    OracleError,
    InvalidTimestamp,
    StakeNotFound,
    InsufficientStake,
}

/// Failures of calls between contracts.
#[derive(Clone, Copy, Debug, PartialEq, Eq, Structural)]
pub enum InteropError {
    ContractNotFound,
    InvalidContractCall,
    InsufficientPermissions,
    DataMismatch,
    OracleUnavailable,
    MarketNotReady,
    StakingInactive,
    InvalidCrossCall,
    Timeout,
    NetworkError,
}

/// The condition code of a market that pays when the price ends above the target.
pub const CONDITION_ABOVE: u32 = 0;

/// The condition code of a market that pays when the price ends below the target.
pub const CONDITION_BELOW: u32 = 1;

/// Whether a final price meets a market's condition against its target:
/// strictly above it for `CONDITION_ABOVE`, strictly below it for
/// `CONDITION_BELOW`, never for any other code.
pub open spec fn price_meets(condition: u32, final_price: int, target_price: int) -> bool {
    if condition == CONDITION_ABOVE {
        final_price > target_price
    } else if condition == CONDITION_BELOW {
        final_price < target_price
    } else {
        false
    }
}

/// Decides a market from the final price; see [`price_meets`].
pub fn price_outcome(condition: u32, final_price: i128, target_price: i128) -> (outcome: bool)
    ensures
        outcome == price_meets(condition, final_price as int, target_price as int),
{
    if condition == CONDITION_ABOVE {
        final_price > target_price
    } else if condition == CONDITION_BELOW {
        final_price < target_price
    } else {
        false
    }
}

/// The pari-mutuel payout of a stake of `user_bet` on the winning side:
/// the stake itself, plus its share of the losing pool in proportion to the
/// winning pool, rounded down. With nothing on the losing side the stake is
/// returned as it is.
pub open spec fn payout(user_bet: int, winning_pool: int, losing_pool: int) -> int {
    if losing_pool == 0 {
        user_bet
    } else {
        user_bet + (user_bet * losing_pool) / winning_pool
    }
}

/// The inputs on which [`payout`] can be computed in 128 bits: a losing
/// pool comes with a winning pool above zero, and the product of stake and
/// losing pool as well as the payout itself can be represented.
pub open spec fn payout_computable(user_bet: int, winning_pool: int, losing_pool: int) -> bool {
    losing_pool != 0 ==> {
        &&& winning_pool > 0
        &&& i128::MIN <= user_bet * losing_pool <= i128::MAX
        &&& i128::MIN <= payout(user_bet, winning_pool, losing_pool) <= i128::MAX
    }
}

/// A payout is never less than the stake, nothing is paid on no stake, and
/// a stake that is part of the winning pool earns no more than the whole
/// losing pool.
pub proof fn lemma_payout_bounds(user_bet: int, winning_pool: int, losing_pool: int)
    requires
        0 <= user_bet,
        0 <= losing_pool,
        losing_pool != 0 ==> winning_pool > 0,
    ensures
        user_bet <= payout(user_bet, winning_pool, losing_pool),
        user_bet == 0 ==> payout(user_bet, winning_pool, losing_pool) == 0,
        user_bet <= winning_pool ==> payout(user_bet, winning_pool, losing_pool) <= user_bet
            + losing_pool,
{
    if losing_pool != 0 {
        assert(0 <= (user_bet * losing_pool) / winning_pool) by (nonlinear_arith)
            requires
                0 <= user_bet,
                0 < losing_pool,
                winning_pool > 0,
        ;
        assert(user_bet <= winning_pool ==> (user_bet * losing_pool) / winning_pool
            <= losing_pool) by (nonlinear_arith)
            requires
                0 <= user_bet,
                0 < losing_pool,
                winning_pool > 0,
        ;
        assert(user_bet == 0 ==> (user_bet * losing_pool) / winning_pool == 0) by (nonlinear_arith)
            requires
                winning_pool > 0,
        ;
    }
}

/// Computes [`payout`] where it can be computed: `None` exactly where
/// [`payout_computable`] does not hold.
pub fn checked_payout(user_bet: i128, winning_pool: i128, losing_pool: i128) -> (paid: Option<i128>)
    ensures
        paid.is_some() == payout_computable(
            user_bet as int,
            winning_pool as int,
            losing_pool as int,
        ),
        paid matches Some(p) ==> p == payout(user_bet as int, winning_pool as int, losing_pool as int),
{
    if losing_pool == 0 {
        return Some(user_bet);
    }
    if winning_pool <= 0 {
        return None;
    }
    let product = match user_bet.checked_mul(losing_pool) {
        Some(product) => product,
        None => {
            return None;
        },
    };
    assert(i128::MIN <= product as int / winning_pool as int <= i128::MAX) by (nonlinear_arith)
        requires
            winning_pool > 0,
            i128::MIN <= product <= i128::MAX,
    ;
    let share = match product.checked_div_euclid(winning_pool) {
        Some(share) => share,
        None => {
            return None;
        },
    };
    user_bet.checked_add(share)
}

/// Computes [`payout`].
pub fn compute_payout(user_bet: i128, winning_pool: i128, losing_pool: i128) -> (paid: i128)
    requires
        payout_computable(user_bet as int, winning_pool as int, losing_pool as int),
    ensures
        paid == payout(user_bet as int, winning_pool as int, losing_pool as int),
{
    checked_payout(user_bet, winning_pool, losing_pool).unwrap()
}

/// The share of `amount` that falls to `part` of `whole`, rounded down:
/// `part * amount / whole`, computed bit by bit so that no product has to
/// fit in 128 bits.
pub fn proportion(amount: u128, part: u128, whole: u128) -> (share: u128)
    requires
        0 < whole <= i128::MAX,
        part <= whole,
        amount <= i128::MAX,
    ensures
        share == (part * amount) / (whole as int),
        share <= amount,
{
    let mut rest: u128 = amount;
    let mut share: u128 = 0;
    let mut left: u128 = 0;
    let mut step_share: u128 = part / whole;
    let mut step_left: u128 = part % whole;
    let ghost mut scale: int = 1;
    let ghost mut low: int = 0;
    proof {
        lemma_fundamental_div_mod(part as int, whole as int);
        assert(part / whole <= 1) by (nonlinear_arith)
            requires
                part <= whole,
                0 < whole,
        ;
    }
    while rest > 0
        invariant
            0 < whole <= i128::MAX,
            part <= whole,
            amount <= i128::MAX,
            scale >= 1,
            0 <= low < scale,
            amount == rest * scale + low,
            low * part == share * whole + left,
            left < whole,
            share <= low,
            scale * part == step_share * whole + step_left,
            step_left < whole,
            step_share <= scale,
        decreases rest,
    {
        let bit: u128 = rest % 2;
        let half: u128 = rest / 2;
        let ghost before_low: int = low;
        let ghost before_scale: int = scale;
        let ghost before_share: int = share as int;
        let ghost before_left: int = left as int;
        let ghost before_step_share: int = step_share as int;
        let ghost before_step_left: int = step_left as int;
        proof {
            assert(scale + low <= amount) by (nonlinear_arith)
                requires
                    amount == rest * scale + low,
                    rest >= 1,
                    scale >= 1,
            ;
        }
        if bit == 1 {
            let sum: u128 = left + step_left;
            if sum >= whole {
                left = sum - whole;
                share = share + step_share + 1;
            } else {
                left = sum;
                share = share + step_share;
            }
            proof {
                low = low + scale;
                let carry: int = if before_left + before_step_left >= whole {
                    1
                } else {
                    0
                };
                assert(low * part == share * whole + left) by (nonlinear_arith)
                    requires
                        low == before_low + before_scale,
                        before_low * part == before_share * whole + before_left,
                        before_scale * part == before_step_share * whole + before_step_left,
                        share == before_share + before_step_share + carry,
                        left == before_left + before_step_left - carry * whole,
                ;
            }
        }
        proof {
            assert(share <= low) by (nonlinear_arith)
                requires
                    low * part == share * whole + left,
                    part <= whole,
                    0 < whole,
                    0 <= low,
            ;
            assert(amount == half * (2 * before_scale) + low) by (nonlinear_arith)
                requires
                    amount == rest * before_scale + before_low,
                    rest == 2 * half + bit,
                    low == before_low + bit * before_scale,
            ;
        }
        let twice: u128 = step_left + step_left;
        if twice >= whole {
            step_left = twice - whole;
            step_share = step_share + step_share + 1;
        } else {
            step_left = twice;
            step_share = step_share + step_share;
        }
        proof {
            scale = 2 * scale;
            let carry: int = if 2 * before_step_left >= whole {
                1
            } else {
                0
            };
            assert(scale * part == step_share * whole + step_left) by (nonlinear_arith)
                requires
                    scale == 2 * before_scale,
                    before_scale * part == before_step_share * whole + before_step_left,
                    step_share == 2 * before_step_share + carry,
                    step_left == 2 * before_step_left - carry * whole,
            ;
            assert(step_share <= scale) by (nonlinear_arith)
                requires
                    scale * part == step_share * whole + step_left,
                    part <= whole,
                    0 < whole,
                    0 < scale,
            ;
        }
        rest = half;
    }
    proof {
        assert(low == amount);
        assert(part * amount == share * whole + left) by (nonlinear_arith)
            requires
                low * part == share * whole + left,
                low == amount,
        ;
        lemma_fundamental_div_mod_converse(
            part * amount,
            whole as int,
            share as int,
            left as int,
        );
    }
    share
}

/// The inputs on which a bettor's stake in a market is paid out: the stake
/// is part of the winning pool, nothing is negative, and both pools
/// together fit in 128 bits.
pub open spec fn payout_owed(user_bet: int, winning_pool: int, losing_pool: int) -> bool {
    &&& 0 <= user_bet <= winning_pool
    &&& 0 <= losing_pool
    &&& winning_pool + losing_pool <= i128::MAX
    &&& losing_pool != 0 ==> winning_pool > 0
}

/// Computes [`payout`] for a stake that is part of the winning pool,
/// whatever the size of the pools.
pub fn exact_payout(user_bet: i128, winning_pool: i128, losing_pool: i128) -> (paid: i128)
    requires
        payout_owed(user_bet as int, winning_pool as int, losing_pool as int),
    ensures
        paid == payout(user_bet as int, winning_pool as int, losing_pool as int),
        user_bet <= paid <= user_bet + losing_pool,
{
    if losing_pool == 0 {
        return user_bet;
    }
    let share: u128 = proportion(losing_pool as u128, user_bet as u128, winning_pool as u128);
    proof {
        assert(user_bet * losing_pool == (user_bet as u128) * (losing_pool as u128));
    }
    user_bet + (share as i128)
}

} // verus!
