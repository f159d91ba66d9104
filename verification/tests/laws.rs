use prediction_markets::enterprise_oracle::EnterpriseOracleContract;
use prediction_markets::kale_integration::KaleIntegrationContract;
use prediction_markets::prediction_market::PredictionMarketContract;
use prediction_markets::types::{Address, ContractError};

/// A small generator of numbers that look random and are the same on every run.
struct Numbers(u64);

impl Numbers {
    fn next(&mut self, below: u64) -> u64 {
        self.0 = self.0.wrapping_mul(6364136223846793005).wrapping_add(1442695040888963407);
        (self.0 >> 33) % below
    }
}

fn someone(n: u64) -> Address {
    Address::account(0, 100 + n as u128)
}

fn admin() -> Address {
    Address::account(0, 1)
}

fn market() -> PredictionMarketContract {
    let mut market = PredictionMarketContract::new();
    let set_up = market.initialize(
        admin(),
        admin(),
        "event".to_string(),
        "BTC".to_string(),
        50,
        0,
        10_000,
        1,
        1000,
        0,
        admin(),
        admin(),
    );
    assert_eq!(set_up, Ok(()));
    market
}

#[test]
fn pools_stay_sums_under_many_bets() {
    let mut numbers = Numbers(7);
    let mut market = market();
    let mut on_yes = [0i128; 8];
    let mut on_no = [0i128; 8];
    for step in 0..300u64 {
        let who = numbers.next(8);
        let side = numbers.next(2) == 0;
        // some amounts are out of bounds and some bets come too late
        let amount = numbers.next(1100) as i128;
        let now = if numbers.next(10) == 0 { 10_000 } else { step };
        let accepted = now < 10_000 && (1..=1000).contains(&amount);
        assert_eq!(market.bet(someone(who), side, amount, now).is_ok(), accepted);
        if accepted {
            if side {
                on_yes[who as usize] += amount;
            } else {
                on_no[who as usize] += amount;
            }
        }
        let (total_for, total_against) = market.get_totals();
        assert_eq!(total_for, on_yes.iter().sum::<i128>());
        assert_eq!(total_against, on_no.iter().sum::<i128>());
        let mut seen_for = 0;
        let mut seen_against = 0;
        for n in 0..8 {
            let (yes, no) = market.get_user_bets(someone(n));
            assert_eq!((yes, no), (on_yes[n as usize], on_no[n as usize]));
            seen_for += yes;
            seen_against += no;
        }
        assert_eq!((seen_for, seen_against), (total_for, total_against));
        assert!(market.validate());
    }
}

#[test]
fn claimed_payouts_never_exceed_both_pools() {
    for seed in 0..20u64 {
        let mut numbers = Numbers(seed);
        let mut market = market();
        for step in 0..40u64 {
            let amount = 1 + numbers.next(1000) as i128;
            assert!(market.bet(someone(numbers.next(6)), numbers.next(2) == 0, amount, step).is_ok());
        }
        let (total_for, total_against) = market.get_totals();
        assert!(market.resolve(10_000, 40 + numbers.next(20) as i128).is_ok());
        let mut paid = 0;
        for n in 0..6 {
            let (yes, no) = market.get_user_bets(someone(n));
            let stake = if market.get_outcome() { yes } else { no };
            let (won, lost) = if market.get_outcome() {
                (total_for, total_against)
            } else {
                (total_against, total_for)
            };
            let owed = if stake == 0 {
                0
            } else if lost == 0 {
                stake
            } else {
                stake + stake * lost / won
            };
            assert_eq!(market.claim_winnings(someone(n)), Ok(owed));
            paid += owed;
            assert!(paid <= total_for + total_against);
            if owed > 0 {
                assert_eq!(market.claim_winnings(someone(n)), Err(ContractError::AlreadyClaimed));
            }
        }
        assert!(market.validate());
    }
}

#[test]
fn total_staked_stays_the_sum_under_any_interleaving() {
    let mut numbers = Numbers(11);
    let mut ledger = KaleIntegrationContract::new();
    assert_eq!(ledger.initialize(admin(), admin(), 3, 5, 0), Ok(()));
    let mut principal = [0i128; 6];
    let mut balance: i128 = 0;
    for step in 0..400u64 {
        let who = numbers.next(6);
        let amount = numbers.next(200) as i128;
        match numbers.next(3) {
            0 => {
                let accepted = amount >= 5;
                assert_eq!(ledger.stake(someone(who), amount, step).is_ok(), accepted);
                if accepted {
                    principal[who as usize] += amount;
                    balance += amount;
                }
            }
            1 => {
                let answer = ledger.unstake(someone(who), amount, step);
                if !ledger.has_stake(someone(who)) && answer.is_err() {
                    assert!(matches!(
                        answer,
                        Err(ContractError::StakeNotFound) | Err(ContractError::InsufficientStake)
                    ));
                }
                if answer.is_ok() {
                    principal[who as usize] -= amount;
                    balance -= amount;
                    assert!(principal[who as usize] >= 0);
                }
            }
            _ => {
                // what the contract holds may be short of the principals
                let held = balance + numbers.next(100) as i128 - 50;
                let owed = ledger.get_stake_info(someone(who), step).map(|info| info.accumulated_rewards);
                if let Ok(paid) = ledger.claim_rewards(someone(who), step, held) {
                    let free = (held - ledger.get_total_staked()).max(0);
                    assert!(paid >= 0);
                    assert!(paid <= free);
                    assert_eq!(paid, owed.unwrap().min(free));
                    let kept = ledger.get_stake_info(someone(who), step).unwrap();
                    assert_eq!(kept.accumulated_rewards, owed.unwrap() - paid);
                }
            }
        }
        assert_eq!(ledger.get_total_staked(), principal.iter().sum::<i128>());
        for n in 0..6 {
            match ledger.get_stake_info(someone(n), step) {
                Ok(info) => {
                    assert_eq!(info.amount, principal[n as usize]);
                    assert!(info.accumulated_rewards >= 0);
                }
                Err(error) => {
                    assert_eq!(error, ContractError::StakeNotFound);
                    assert_eq!(principal[n as usize], 0);
                }
            }
        }
        assert!(ledger.validate());
    }
}

#[test]
fn requests_are_limited_hour_by_hour() {
    for limit in 0..6u32 {
        let mut gateway = EnterpriseOracleContract::new();
        assert_eq!(gateway.initialize(admin(), 0, 3600, 0), Ok(()));
        assert_eq!(
            gateway.register_enterprise_client(admin(), someone(0), "x".to_string(), 1, limit, 0),
            Ok(())
        );
        for hour in 0..4u64 {
            for request in 0..8u64 {
                let now = hour * 3600 + request * 400;
                let answer = gateway.check_rate_limit(someone(0), now);
                if request < limit as u64 {
                    assert_eq!(answer, Ok(()));
                } else {
                    assert_eq!(answer, Err(ContractError::OracleError));
                }
            }
        }
        assert!(gateway.validate());
    }
}
