//! The events that the contracts of the platform publish, their kinds with
//! the canonical name of each, and the filters by which they are queried.

use vstd::prelude::*;
use crate::types::{Address, Bytes32};

verus! {

/// What happened, with its particulars.
#[derive(Debug, PartialEq, Eq)]
pub enum ContractEvent {
    MarketCreated {
        market_id: Bytes32,
        creator: Address,
        asset_symbol: String,
        target_price: i128,
        resolve_time: u64,
    },
    MarketResolved { market_id: Bytes32, outcome: bool, final_price: i128, confidence: u32 },
    BetPlaced { market_id: Bytes32, bettor: Address, side: bool, amount: i128, odds: u32 },
    WinningsClaimed { market_id: Bytes32, winner: Address, amount: i128 },
    TokensStaked { staker: Address, amount: i128, total_staked: i128, apy: u32 },
    TokensUnstaked { staker: Address, amount: i128, remaining_staked: i128 },
    RewardsClaimed { staker: Address, amount: i128, new_balance: i128 },
    PriceUpdated { asset_name: String, price: i128, confidence: u32, source: String, timestamp: u64 },
    OracleNodeAdded { node_address: Address, reputation_score: u32 },
    OracleNodeRemoved { node_address: Address, reason: String },
    CrossContractCall {
        from_contract: Address,
        to_contract: Address,
        function_name: String,
        success: bool,
        error_message: Option<String>,
    },
    ContractValidationFailed { contract_address: Address, validation_type: String, reason: String },
    FeeCollected { collector: Address, amount: i128, fee_type: String },
    ConfigurationUpdated {
        contract_address: Address,
        parameter: String,
        old_value: String,
        new_value: String,
    },
}

impl Clone for ContractEvent {
    fn clone(&self) -> (copy: Self)
        ensures
            copy == *self,
    {
        match self {
            ContractEvent::MarketCreated {
                market_id,
                creator,
                asset_symbol,
                target_price,
                resolve_time,
            } => ContractEvent::MarketCreated {
                market_id: *market_id,
                creator: *creator,
                asset_symbol: asset_symbol.clone(),
                target_price: *target_price,
                resolve_time: *resolve_time,
            },
            ContractEvent::MarketResolved {
                market_id,
                outcome,
                final_price,
                confidence,
            } => ContractEvent::MarketResolved {
                market_id: *market_id,
                outcome: *outcome,
                final_price: *final_price,
                confidence: *confidence,
            },
            ContractEvent::BetPlaced {
                market_id,
                bettor,
                side,
                amount,
                odds,
            } => ContractEvent::BetPlaced {
                market_id: *market_id,
                bettor: *bettor,
                side: *side,
                amount: *amount,
                odds: *odds,
            },
            ContractEvent::WinningsClaimed {
                market_id,
                winner,
                amount,
            } => ContractEvent::WinningsClaimed {
                market_id: *market_id,
                winner: *winner,
                amount: *amount,
            },
            ContractEvent::TokensStaked {
                staker,
                amount,
                total_staked,
                apy,
            } => ContractEvent::TokensStaked {
                staker: *staker,
                amount: *amount,
                total_staked: *total_staked,
                apy: *apy,
            },
            ContractEvent::TokensUnstaked {
                staker,
                amount,
                remaining_staked,
            } => ContractEvent::TokensUnstaked {
                staker: *staker,
                amount: *amount,
                remaining_staked: *remaining_staked,
            },
            ContractEvent::RewardsClaimed {
                staker,
                amount,
                new_balance,
            } => ContractEvent::RewardsClaimed {
                staker: *staker,
                amount: *amount,
                new_balance: *new_balance,
            },
            ContractEvent::PriceUpdated {
                asset_name,
                price,
                confidence,
                source,
                timestamp,
            } => ContractEvent::PriceUpdated {
                asset_name: asset_name.clone(),
                price: *price,
                confidence: *confidence,
                source: source.clone(),
                timestamp: *timestamp,
            },
            ContractEvent::OracleNodeAdded {
                node_address,
                reputation_score,
            } => ContractEvent::OracleNodeAdded {
                node_address: *node_address,
                reputation_score: *reputation_score,
            },
            ContractEvent::OracleNodeRemoved {
                node_address,
                reason,
            } => ContractEvent::OracleNodeRemoved {
                node_address: *node_address,
                reason: reason.clone(),
            },
            ContractEvent::CrossContractCall {
                from_contract,
                to_contract,
                function_name,
                success,
                error_message,
            } => ContractEvent::CrossContractCall {
                from_contract: *from_contract,
                to_contract: *to_contract,
                function_name: function_name.clone(),
                success: *success,
                error_message: match error_message {
                    Some(message) => Some(message.clone()),
                    None => None,
                },
            },
            ContractEvent::ContractValidationFailed {
                contract_address,
                validation_type,
                reason,
            } => ContractEvent::ContractValidationFailed {
                contract_address: *contract_address,
                validation_type: validation_type.clone(),
                reason: reason.clone(),
            },
            ContractEvent::FeeCollected {
                collector,
                amount,
                fee_type,
            } => ContractEvent::FeeCollected {
                collector: *collector,
                amount: *amount,
                fee_type: fee_type.clone(),
            },
            ContractEvent::ConfigurationUpdated {
                contract_address,
                parameter,
                old_value,
                new_value,
            } => ContractEvent::ConfigurationUpdated {
                contract_address: *contract_address,
                parameter: parameter.clone(),
                old_value: old_value.clone(),
                new_value: new_value.clone(),
            },
        }
    }
}

/// The kinds of events, in the order of their names.
#[derive(Clone, Copy, Debug, PartialEq, Eq, Structural)]
pub enum EventKind {
    BetPlaced,
    ConfigurationUpdated,
    ContractValidationFailed,
    CrossContractCall,
    FeeCollected,
    MarketCreated,
    MarketResolved,
    OracleNodeAdded,
    OracleNodeRemoved,
    PriceUpdated,
    RewardsClaimed,
    TokensStaked,
    TokensUnstaked,
    WinningsClaimed,
}

/// The number of kinds of events.
pub const EVENT_KINDS: usize = 14;

/// The kind of an event.
pub open spec fn kind_of(event: ContractEvent) -> EventKind {
    match event {
        ContractEvent::MarketCreated { .. } => EventKind::MarketCreated,
        ContractEvent::MarketResolved { .. } => EventKind::MarketResolved,
        ContractEvent::BetPlaced { .. } => EventKind::BetPlaced,
        ContractEvent::WinningsClaimed { .. } => EventKind::WinningsClaimed,
        ContractEvent::TokensStaked { .. } => EventKind::TokensStaked,
        ContractEvent::TokensUnstaked { .. } => EventKind::TokensUnstaked,
        ContractEvent::RewardsClaimed { .. } => EventKind::RewardsClaimed,
        ContractEvent::PriceUpdated { .. } => EventKind::PriceUpdated,
        ContractEvent::OracleNodeAdded { .. } => EventKind::OracleNodeAdded,
        ContractEvent::OracleNodeRemoved { .. } => EventKind::OracleNodeRemoved,
        ContractEvent::CrossContractCall { .. } => EventKind::CrossContractCall,
        ContractEvent::ContractValidationFailed { .. } => EventKind::ContractValidationFailed,
        ContractEvent::FeeCollected { .. } => EventKind::FeeCollected,
        ContractEvent::ConfigurationUpdated { .. } => EventKind::ConfigurationUpdated,
    }
}

/// The canonical name of a kind of event.
pub open spec fn kind_name(kind: EventKind) -> Seq<char> {
    match kind {
        EventKind::BetPlaced => "BetPlaced"@,
        EventKind::ConfigurationUpdated => "ConfigurationUpdated"@,
        EventKind::ContractValidationFailed => "ContractValidationFailed"@,
        EventKind::CrossContractCall => "CrossContractCall"@,
        EventKind::FeeCollected => "FeeCollected"@,
        EventKind::MarketCreated => "MarketCreated"@,
        EventKind::MarketResolved => "MarketResolved"@,
        EventKind::OracleNodeAdded => "OracleNodeAdded"@,
        EventKind::OracleNodeRemoved => "OracleNodeRemoved"@,
        EventKind::PriceUpdated => "PriceUpdated"@,
        EventKind::RewardsClaimed => "RewardsClaimed"@,
        EventKind::TokensStaked => "TokensStaked"@,
        EventKind::TokensUnstaked => "TokensUnstaked"@,
        EventKind::WinningsClaimed => "WinningsClaimed"@,
    }
}

/// The kind at place `i` of the order of the kinds.
pub open spec fn kind_at(i: int) -> EventKind {
    if i == 0 {
        EventKind::BetPlaced
    } else if i == 1 {
        EventKind::ConfigurationUpdated
    } else if i == 2 {
        EventKind::ContractValidationFailed
    } else if i == 3 {
        EventKind::CrossContractCall
    } else if i == 4 {
        EventKind::FeeCollected
    } else if i == 5 {
        EventKind::MarketCreated
    } else if i == 6 {
        EventKind::MarketResolved
    } else if i == 7 {
        EventKind::OracleNodeAdded
    } else if i == 8 {
        EventKind::OracleNodeRemoved
    } else if i == 9 {
        EventKind::PriceUpdated
    } else if i == 10 {
        EventKind::RewardsClaimed
    } else if i == 11 {
        EventKind::TokensStaked
    } else if i == 12 {
        EventKind::TokensUnstaked
    } else {
        EventKind::WinningsClaimed
    }
}

impl EventKind {
    /// The kind of an event; see [`kind_of`].
    pub fn of(event: &ContractEvent) -> (kind: EventKind)
        ensures
            kind == kind_of(*event),
    {
        match event {
            ContractEvent::MarketCreated { .. } => EventKind::MarketCreated,
            ContractEvent::MarketResolved { .. } => EventKind::MarketResolved,
            ContractEvent::BetPlaced { .. } => EventKind::BetPlaced,
            ContractEvent::WinningsClaimed { .. } => EventKind::WinningsClaimed,
            ContractEvent::TokensStaked { .. } => EventKind::TokensStaked,
            ContractEvent::TokensUnstaked { .. } => EventKind::TokensUnstaked,
            ContractEvent::RewardsClaimed { .. } => EventKind::RewardsClaimed,
            ContractEvent::PriceUpdated { .. } => EventKind::PriceUpdated,
            ContractEvent::OracleNodeAdded { .. } => EventKind::OracleNodeAdded,
            ContractEvent::OracleNodeRemoved { .. } => EventKind::OracleNodeRemoved,
            ContractEvent::CrossContractCall { .. } => EventKind::CrossContractCall,
            ContractEvent::ContractValidationFailed { .. } => EventKind::ContractValidationFailed,
            ContractEvent::FeeCollected { .. } => EventKind::FeeCollected,
            ContractEvent::ConfigurationUpdated { .. } => EventKind::ConfigurationUpdated,
        }
    }

    /// The canonical name of the kind; see [`kind_name`].
    pub fn name(&self) -> (name: &'static str)
        ensures
            name@ == kind_name(*self),
    {
        match self {
            EventKind::BetPlaced => "BetPlaced",
            EventKind::ConfigurationUpdated => "ConfigurationUpdated",
            EventKind::ContractValidationFailed => "ContractValidationFailed",
            EventKind::CrossContractCall => "CrossContractCall",
            EventKind::FeeCollected => "FeeCollected",
            EventKind::MarketCreated => "MarketCreated",
            EventKind::MarketResolved => "MarketResolved",
            EventKind::OracleNodeAdded => "OracleNodeAdded",
            EventKind::OracleNodeRemoved => "OracleNodeRemoved",
            EventKind::PriceUpdated => "PriceUpdated",
            EventKind::RewardsClaimed => "RewardsClaimed",
            EventKind::TokensStaked => "TokensStaked",
            EventKind::TokensUnstaked => "TokensUnstaked",
            EventKind::WinningsClaimed => "WinningsClaimed",
        }
    }

    /// The kind at place `i` of the order of the kinds; see [`kind_at`].
    pub fn at(i: usize) -> (kind: EventKind)
        ensures
            kind == kind_at(i as int),
    {
        if i == 0 {
            EventKind::BetPlaced
        } else if i == 1 {
            EventKind::ConfigurationUpdated
        } else if i == 2 {
            EventKind::ContractValidationFailed
        } else if i == 3 {
            EventKind::CrossContractCall
        } else if i == 4 {
            EventKind::FeeCollected
        } else if i == 5 {
            EventKind::MarketCreated
        } else if i == 6 {
            EventKind::MarketResolved
        } else if i == 7 {
            EventKind::OracleNodeAdded
        } else if i == 8 {
            EventKind::OracleNodeRemoved
        } else if i == 9 {
            EventKind::PriceUpdated
        } else if i == 10 {
            EventKind::RewardsClaimed
        } else if i == 11 {
            EventKind::TokensStaked
        } else if i == 12 {
            EventKind::TokensUnstaked
        } else {
            EventKind::WinningsClaimed
        }
    }
}

/// What a subscriber wants to hear of.
#[derive(Debug, PartialEq, Eq)]
pub struct EventSubscription {
    pub subscriber: Address,
    /// The names of the kinds of events.
    pub event_types: Vec<String>,
    /// The contracts whose events are wanted.
    pub contract_addresses: Vec<Address>,
    pub created_at: u64,
    pub is_active: bool,
}

/// Which events a query asks for. A dimension that is `None` takes every
/// event.
#[derive(Debug, PartialEq, Eq)]
pub struct EventFilter {
    /// The names of the kinds of events.
    pub event_types: Option<Vec<String>>,
    /// The contracts that emitted the events.
    pub contract_addresses: Option<Vec<Address>>,
    /// The earliest time of an event.
    pub from_timestamp: Option<u64>,
    /// The latest time of an event.
    pub to_timestamp: Option<u64>,
    /// Kept for callers; no event is left out by it.
    pub user_addresses: Option<Vec<Address>>,
}

} // verus!
