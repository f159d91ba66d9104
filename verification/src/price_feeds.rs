//! What both oracles share: the table of the latest price per asset with
//! its staleness gate, and the rule by which a node's reputation follows
//! the confidence of what it submits.

use vstd::prelude::*;
use crate::types::ContractError;
use crate::records::{PriceFeed, EventData};
use crate::table::{Named, has_name, name_position, distinct_names, find_named};

verus! {

/// The confidence from which a submission raises its node's reputation.
pub const HIGH_CONFIDENCE: u32 = 95;

/// The confidence below which a submission lowers its node's reputation.
pub const LOW_CONFIDENCE: u32 = 80;

/// The highest reputation, which every new node starts with.
pub const MAX_REPUTATION: u32 = 100;

/// The least confidence that is taken where none was configured.
pub const DEFAULT_MIN_CONFIDENCE: u32 = 80;

/// The age in seconds up to which a price is fresh where none was configured.
pub const DEFAULT_MAX_PRICE_AGE: u64 = 3600;

impl Named for PriceFeed {
    open spec fn name(&self) -> Seq<char> {
        self.asset_name@
    }

    fn name_of(&self) -> (n: &String) {
        &self.asset_name
    }
}

impl Named for EventData {
    open spec fn name(&self) -> Seq<char> {
        self.event_id@
    }

    fn name_of(&self) -> (n: &String) {
        &self.event_id
    }
}

/// A node's reputation after a submission of the given confidence: one
/// more, up to the maximum, from `HIGH_CONFIDENCE` on; one less, down to
/// zero, below `LOW_CONFIDENCE`; else as it was.
pub open spec fn reputation_after(score: u32, confidence: u32) -> u32 {
    if confidence >= HIGH_CONFIDENCE {
        if score >= MAX_REPUTATION {
            MAX_REPUTATION
        } else {
            (score + 1) as u32
        }
    } else if confidence < LOW_CONFIDENCE {
        if score == 0 {
            0
        } else {
            (score - 1) as u32
        }
    } else {
        score
    }
}

/// Computes [`reputation_after`].
pub fn update_reputation(score: u32, confidence: u32) -> (next: u32)
    ensures
        next == reputation_after(score, confidence),
        score <= MAX_REPUTATION ==> next <= MAX_REPUTATION,
{
    if confidence >= HIGH_CONFIDENCE {
        if score >= MAX_REPUTATION {
            MAX_REPUTATION
        } else {
            score + 1
        }
    } else if confidence < LOW_CONFIDENCE {
        if score == 0 {
            0
        } else {
            score - 1
        }
    } else {
        score
    }
}

/// Reputation bounds: whatever is submitted, in whatever order, a
/// reputation that lies within 0 and 100 stays there.
pub proof fn lemma_reputation_bounded(score: u32, confidence: u32)
    requires
        score <= MAX_REPUTATION,
    ensures
        0 <= reputation_after(score, confidence) <= MAX_REPUTATION,
{
}

/// A reputation after a run of submissions, one confidence each.
pub open spec fn reputation_after_all(score: u32, confidences: Seq<u32>) -> u32
    decreases confidences.len(),
{
    if confidences.len() == 0 {
        score
    } else {
        reputation_after(reputation_after_all(score, confidences.drop_last()), confidences.last())
    }
}

/// Reputation bounds, for any run of submissions.
pub proof fn lemma_reputation_bounded_always(score: u32, confidences: Seq<u32>)
    requires
        score <= MAX_REPUTATION,
    ensures
        0 <= reputation_after_all(score, confidences) <= MAX_REPUTATION,
    decreases confidences.len(),
{
    if confidences.len() > 0 {
        lemma_reputation_bounded_always(score, confidences.drop_last());
    }
}

/// Whether a feed is too old at `now`: its age is above `max_age`.
pub open spec fn is_stale(feed: PriceFeed, now: u64, max_age: u64) -> bool {
    now - feed.timestamp > max_age
}

/// The answer to a price request at `now`: the asset's feed, or
/// `OracleError` where there is none or it is too old.
pub open spec fn price_lookup(feeds: Seq<PriceFeed>, asset: Seq<char>, now: u64, max_age: u64) -> Result<
    PriceFeed,
    ContractError,
> {
    if !has_name(feeds, asset) {
        Err(ContractError::OracleError)
    } else if is_stale(feeds[name_position(feeds, asset)], now, max_age) {
        Err(ContractError::OracleError)
    } else {
        Ok(feeds[name_position(feeds, asset)])
    }
}

/// Whether `feed` is too old at `now`; see [`is_stale`].
pub fn feed_is_stale(feed: &PriceFeed, now: u64, max_age: u64) -> (stale: bool)
    ensures
        stale == is_stale(*feed, now, max_age),
{
    now > feed.timestamp && now - feed.timestamp > max_age
}

/// Answers a price request; see [`price_lookup`].
pub fn read_price(feeds: &Vec<PriceFeed>, asset_name: &String, now: u64, max_age: u64) -> (r: Result<
    PriceFeed,
    ContractError,
>)
    requires
        distinct_names(feeds@),
    ensures
        r == price_lookup(feeds@, asset_name@, now, max_age),
{
    match find_named(feeds, asset_name) {
        Some(i) => {
            if feed_is_stale(&feeds[i], now, max_age) {
                Err(ContractError::OracleError)
            } else {
                Ok(feeds[i].clone())
            }
        },
        None => Err(ContractError::OracleError),
    }
}

/// Oracle staleness: with a fixed greatest age, the request for an asset
/// that has a feed fails, with `OracleError`, exactly where the feed is
/// older than that; else it returns the feed.
pub proof fn lemma_price_fails_iff_stale(feeds: Seq<PriceFeed>, asset: Seq<char>, now: u64, max_age: u64)
    requires
        has_name(feeds, asset),
    ensures
        price_lookup(feeds, asset, now, max_age).is_err() <==> now - feeds[name_position(
            feeds,
            asset,
        )].timestamp > max_age,
        price_lookup(feeds, asset, now, max_age) matches Err(e) ==> e == ContractError::OracleError,
        price_lookup(feeds, asset, now, max_age) matches Ok(feed) ==> feed == feeds[name_position(
            feeds,
            asset,
        )],
{
}

} // verus!
