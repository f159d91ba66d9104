//! The enterprise gateway to the oracle: registered clients, an hourly
//! limit on each client's requests, counters of what was served and what
//! was refused, and price answers with a breakdown by source.

use vstd::prelude::*;
use crate::types::{Address, ContractError};
use crate::records::PriceFeed;
use crate::table::{
    Keyed, Named, has_key, position, distinct_keys, find, has_name, name_position,
    distinct_names, named, with_named, store_named, lemma_with_named, lemma_push_keyed,
    lemma_update_keyed, lemma_remove_keyed, keys_are_distinct, names_are_distinct,
};
use crate::subscriptions::{
    Subscription, is_subscribed, distinct_pairs, with_subscription, add_subscription,
    pairs_are_distinct,
};
use crate::price_feeds::{
    MAX_REPUTATION, DEFAULT_MIN_CONFIDENCE, DEFAULT_MAX_PRICE_AGE, reputation_after,
    update_reputation, is_stale, feed_is_stale, price_lookup, read_price,
};

verus! {

/// The length of the window of the request limit, in seconds.
pub const SECONDS_PER_HOUR: u64 = 3600;

/// The requests per hour of a caller that is no registered client.
pub const DEFAULT_RATE_LIMIT: u32 = 1000;

/// The greatest age in seconds of a price that a batch request takes.
pub const BATCH_MAX_AGE: u64 = 300;

/// An institution that may ask the gateway for prices.
#[derive(Debug, PartialEq, Eq)]
pub struct EnterpriseClient {
    pub address: Address,
    pub institution_id: String,
    /// 1 for professional, 2 for enterprise, 3 for institutional.
    pub tier: u32,
    pub is_active: bool,
    /// Requests per hour.
    pub rate_limit: u32,
    pub created_at: u64,
    pub last_activity: u64,
}

impl Clone for EnterpriseClient {
    fn clone(&self) -> (copy: Self)
        ensures
            copy == *self,
    {
        EnterpriseClient {
            address: self.address,
            institution_id: self.institution_id.clone(),
            tier: self.tier,
            is_active: self.is_active,
            rate_limit: self.rate_limit,
            created_at: self.created_at,
            last_activity: self.last_activity,
        }
    }
}

impl Keyed for EnterpriseClient {
    open spec fn key(&self) -> Address {
        self.address
    }

    fn key_of(&self) -> (k: Address) {
        self.address
    }
}

/// A node that may report to the gateway's oracle.
#[derive(Clone, Copy, Debug, PartialEq, Eq, Structural)]
pub struct OracleNode {
    pub address: Address,
    pub is_active: bool,
    /// From 0 to 100.
    pub reputation_score: u32,
    pub last_update: u64,
    /// 1 for community, 2 for professional, 3 for enterprise.
    pub tier: u32,
    /// In percent.
    pub uptime: u32,
    /// In milliseconds.
    pub latency_avg: u32,
}

impl Keyed for OracleNode {
    open spec fn key(&self) -> Address {
        self.address
    }

    fn key_of(&self) -> (k: Address) {
        self.address
    }
}

/// One source of a price.
#[derive(Debug, PartialEq, Eq)]
pub struct PriceSource {
    pub name: String,
    pub price: i128,
    pub weight: u32,
    pub latency: u32,
    pub volume: Option<i128>,
    pub spread: Option<i128>,
}

/// What is known of an asset's market beside its price.
#[derive(Clone, Copy, Debug, PartialEq, Eq, Structural)]
pub struct PriceMetadata {
    pub volume_24h: i128,
    pub spread: i128,
    pub volatility: u32,
    pub market_cap: Option<i128>,
    pub last_update: u64,
    pub update_count: u32,
}

/// The metadata that a node has submitted for one asset.
#[derive(Debug, PartialEq, Eq)]
pub struct AssetMetadata {
    pub asset_name: String,
    pub metadata: PriceMetadata,
}

impl Named for AssetMetadata {
    open spec fn name(&self) -> Seq<char> {
        self.asset_name@
    }

    fn name_of(&self) -> (n: &String) {
        &self.asset_name
    }
}

/// A price as the gateway answers it.
#[derive(Debug, PartialEq, Eq)]
pub struct EnterprisePriceFeed {
    pub asset_name: String,
    pub price: i128,
    pub timestamp: u64,
    pub confidence: u32,
    pub sources: Vec<PriceSource>,
    pub metadata: PriceMetadata,
    /// The average latency that the active nodes report, in milliseconds.
    pub latency: u32,
}

/// The gateway's counters.
#[derive(Clone, Copy, Debug, PartialEq, Eq, Structural)]
pub struct EnterpriseMetrics {
    pub total_requests: u64,
    pub successful_requests: u64,
    pub failed_requests: u64,
    pub average_latency: u32,
    /// The successful requests in percent of all requests.
    pub uptime_percentage: u32,
    pub data_quality_score: u32,
    pub last_updated: u64,
}

/// One client's requests in the current hour.
#[derive(Clone, Copy, Debug, PartialEq, Eq, Structural)]
pub struct RateLimit {
    pub client_address: Address,
    pub requests_this_hour: u32,
    /// The start of the hour that is counted.
    pub hour_start: u64,
    pub limit: u32,
}

impl Keyed for RateLimit {
    open spec fn key(&self) -> Address {
        self.client_address
    }

    fn key_of(&self) -> (k: Address) {
        self.client_address
    }
}

/// The start of the hour in which `now` lies.
pub open spec fn hour_bucket(now: u64) -> u64 {
    (now - now % SECONDS_PER_HOUR) as u64
}

/// The number of active nodes.
pub open spec fn active_count(nodes: Seq<OracleNode>) -> nat
    decreases nodes.len(),
{
    if nodes.len() == 0 {
        0
    } else {
        active_count(nodes.drop_last()) + if nodes.last().is_active {
            1nat
        } else {
            0nat
        }
    }
}

/// The latencies of the active nodes together.
pub open spec fn active_latency(nodes: Seq<OracleNode>) -> nat
    decreases nodes.len(),
{
    if nodes.len() == 0 {
        0
    } else {
        active_latency(nodes.drop_last()) + if nodes.last().is_active {
            nodes.last().latency_avg as nat
        } else {
            0nat
        }
    }
}

/// The reputations of the active nodes together.
pub open spec fn active_reputation(nodes: Seq<OracleNode>) -> nat
    decreases nodes.len(),
{
    if nodes.len() == 0 {
        0
    } else {
        active_reputation(nodes.drop_last()) + if nodes.last().is_active {
            nodes.last().reputation_score as nat
        } else {
            0nat
        }
    }
}

/// The average of `sum` over `count`, rounded down; zero over nothing.
pub open spec fn average(sum: nat, count: nat) -> nat {
    if count == 0 {
        0
    } else {
        sum / count
    }
}

/// The sums over the active nodes are bounded by their number.
pub proof fn lemma_active_sums(nodes: Seq<OracleNode>)
    ensures
        active_count(nodes) <= nodes.len(),
        active_latency(nodes) <= active_count(nodes) * u32::MAX,
        active_reputation(nodes) <= active_count(nodes) * u32::MAX,
        average(active_latency(nodes), active_count(nodes)) <= u32::MAX,
        average(active_reputation(nodes), active_count(nodes)) <= u32::MAX,
    decreases nodes.len(),
{
    if nodes.len() > 0 {
        lemma_active_sums(nodes.drop_last());
        let c = active_count(nodes.drop_last());
        assert((c + 1) * u32::MAX == c * u32::MAX + u32::MAX) by (nonlinear_arith);
    }
    let count = active_count(nodes);
    let latency = active_latency(nodes);
    let reputation = active_reputation(nodes);
    if count > 0 {
        assert(latency / count <= u32::MAX) by (nonlinear_arith)
            requires
                latency <= count * u32::MAX,
                count > 0,
        ;
        assert(reputation / count <= u32::MAX) by (nonlinear_arith)
            requires
                reputation <= count * u32::MAX,
                count > 0,
        ;
    }
}

/// The counters after one more request, served or refused, at `now`.
pub open spec fn counted(metrics: EnterpriseMetrics, success: bool, now: u64) -> EnterpriseMetrics {
    let total = metrics.total_requests + 1;
    let served = metrics.successful_requests + if success {
        1int
    } else {
        0int
    };
    EnterpriseMetrics {
        total_requests: total as u64,
        successful_requests: served as u64,
        failed_requests: (metrics.failed_requests + if success {
            0int
        } else {
            1int
        }) as u64,
        uptime_percentage: ((served * 100) / total) as u32,
        last_updated: now,
        ..metrics
    }
}

/// Whether `source` is the source of the given name and figures.
pub open spec fn is_source(
    source: PriceSource,
    name: Seq<char>,
    price: i128,
    weight: u32,
    latency: u32,
    volume: i128,
    spread: i128,
) -> bool {
    &&& source.name@ == name
    &&& source.price == price
    &&& source.weight == weight
    &&& source.latency == latency
    &&& source.volume == Some(volume)
    &&& source.spread == Some(spread)
}

/// Whether `sources` is the breakdown that every answer carries.
pub open spec fn is_reference_breakdown(sources: Seq<PriceSource>) -> bool {
    &&& sources.len() == 2
    &&& is_source(sources[0], "coinbase"@, 65000, 30, 45, 1000000, 5)
    &&& is_source(sources[1], "binance"@, 65001, 40, 52, 2000000, 3)
}

/// The metadata that every answer carries, as of `now`.
pub open spec fn reference_metadata(now: u64) -> PriceMetadata {
    PriceMetadata {
        volume_24h: 2500000000,
        spread: 5,
        volatility: 15,
        market_cap: Some(1200000000000i128),
        last_update: now,
        update_count: 1000,
    }
}

/// Whether `answer` is the gateway's answer for `asset` at `now`, made
/// from the oracle's feed `base` and the average latency `latency`.
pub open spec fn is_answer(
    answer: EnterprisePriceFeed,
    asset: Seq<char>,
    base: PriceFeed,
    latency: nat,
    now: u64,
) -> bool {
    &&& answer.asset_name@ == asset
    &&& answer.price == base.price
    &&& answer.timestamp == base.timestamp
    &&& answer.confidence == base.confidence
    &&& is_reference_breakdown(answer.sources@)
    &&& answer.metadata == reference_metadata(now)
    &&& answer.latency == latency
}

/// Whether `answer` is the gateway's answer for `asset` at `now`, made
/// from the feed that `feeds` holds for it.
pub open spec fn is_answer_from(
    answer: EnterprisePriceFeed,
    asset: Seq<char>,
    feeds: Seq<PriceFeed>,
    latency: nat,
    now: u64,
) -> bool {
    has_name(feeds, asset) && is_answer(
        answer,
        asset,
        feeds[name_position(feeds, asset)],
        latency,
        now,
    )
}

/// The gateway as a mathematical value.
#[verifier::ext_equal]
pub struct GatewayModel {
    /// `None` until the gateway is set up.
    pub admin: Option<Address>,
    /// The clients, one per address, in the order of their registration.
    pub clients: Seq<EnterpriseClient>,
    /// The nodes, one per address, in the order in which they were added.
    pub nodes: Seq<OracleNode>,
    /// The latest price of each asset.
    pub feeds: Seq<PriceFeed>,
    /// The latest metadata of each asset.
    pub metadata: Seq<AssetMetadata>,
    /// Who is subscribed to which asset.
    pub subscriptions: Seq<Subscription>,
    pub min_confidence: u32,
    pub max_price_age: u64,
    /// The counters; `None` until the gateway is set up.
    pub metrics: Option<EnterpriseMetrics>,
    /// The request windows, one per caller that has asked.
    pub rate_limits: Seq<RateLimit>,
}

impl GatewayModel {
    /// A gateway that has not been set up.
    pub open spec fn empty() -> GatewayModel {
        GatewayModel {
            admin: None,
            clients: Seq::empty(),
            nodes: Seq::empty(),
            feeds: Seq::empty(),
            metadata: Seq::empty(),
            subscriptions: Seq::empty(),
            min_confidence: DEFAULT_MIN_CONFIDENCE,
            max_price_age: DEFAULT_MAX_PRICE_AGE,
            metrics: None,
            rate_limits: Seq::empty(),
        }
    }

    /// What holds of every gateway: one client, node and request window per
    /// address, one feed and one metadata record per asset, nobody
    /// subscribed twice to an asset, every reputation within 0 and 100,
    /// served and refused requests add up to all requests, and a gateway
    /// that has not been set up has no counters, clients or nodes.
    pub open spec fn inv(self) -> bool {
        &&& distinct_keys(self.clients)
        &&& distinct_keys(self.nodes)
        &&& distinct_keys(self.rate_limits)
        &&& distinct_names(self.feeds)
        &&& distinct_names(self.metadata)
        &&& distinct_pairs(self.subscriptions)
        &&& forall|i: int|
            0 <= i < self.nodes.len() ==> (#[trigger] self.nodes[i]).reputation_score
                <= MAX_REPUTATION
        &&& self.metrics matches Some(m) ==> m.successful_requests + m.failed_requests
            == m.total_requests
        &&& self.admin.is_some() == self.metrics.is_some()
        &&& self.admin.is_none() ==> self.clients.len() == 0 && self.nodes.len() == 0
    }

    /// Whether `address` is a client that may ask: registered and active.
    pub open spec fn is_client(self, address: Address) -> bool {
        has_key(self.clients, address) && self.clients[position(self.clients, address)].is_active
    }

    /// Whether `address` is a node that may submit: registered and active.
    pub open spec fn authorized(self, address: Address) -> bool {
        has_key(self.nodes, address) && self.nodes[position(self.nodes, address)].is_active
    }

    /// The request window of `client` at `now`: their own record, or a new
    /// one; counted from zero where the hour has changed; with the limit of
    /// the client's registration, where they are registered.
    pub open spec fn window(self, client: Address, now: u64) -> RateLimit {
        let stored = if has_key(self.rate_limits, client) {
            self.rate_limits[position(self.rate_limits, client)]
        } else {
            RateLimit {
                client_address: client,
                requests_this_hour: 0,
                hour_start: hour_bucket(now),
                limit: DEFAULT_RATE_LIMIT,
            }
        };
        RateLimit {
            client_address: client,
            requests_this_hour: if stored.hour_start != hour_bucket(now) {
                0
            } else {
                stored.requests_this_hour
            },
            hour_start: hour_bucket(now),
            limit: if has_key(self.clients, client) {
                self.clients[position(self.clients, client)].rate_limit
            } else {
                stored.limit
            },
        }
    }

    /// Whether `client` has used up the hour's requests at `now`.
    pub open spec fn rate_limited(self, client: Address, now: u64) -> bool {
        self.window(client, now).requests_this_hour >= self.window(client, now).limit
    }

    /// The gateway after one more request of `client` was counted at `now`.
    pub open spec fn after_charge(self, client: Address, now: u64) -> GatewayModel {
        let window = self.window(client, now);
        let charged = RateLimit {
            requests_this_hour: (window.requests_this_hour + 1) as u32,
            ..window
        };
        GatewayModel {
            rate_limits: if has_key(self.rate_limits, client) {
                self.rate_limits.update(position(self.rate_limits, client), charged)
            } else {
                self.rate_limits.push(charged)
            },
            ..self
        }
    }

    /// The gateway after the client of `client`, if there is one, was seen
    /// at `now`.
    pub open spec fn with_activity(self, client: Address, now: u64) -> GatewayModel {
        if has_key(self.clients, client) {
            let at = position(self.clients, client);
            GatewayModel {
                clients: self.clients.update(
                    at,
                    EnterpriseClient { last_activity: now, ..self.clients[at] },
                ),
                ..self
            }
        } else {
            self
        }
    }

    /// The gateway after one more request, served or refused, was counted.
    pub open spec fn with_metrics(self, success: bool, now: u64) -> GatewayModel
        recommends
            self.metrics.is_some(),
    {
        GatewayModel { metrics: Some(counted(self.metrics.unwrap(), success, now)), ..self }
    }

    /// Whether `n` more requests can be counted in 64 bits.
    pub open spec fn can_count(self, n: nat) -> bool {
        self.metrics.is_some() && self.metrics.unwrap().total_requests + n <= u64::MAX
    }

    /// The answer of the oracle beneath the gateway, under the caller's own
    /// bounds on confidence and age beside the oracle's.
    pub open spec fn base_result(self, asset: Seq<char>, min_confidence: u32, max_age: u64, now: u64) -> Result<
        PriceFeed,
        ContractError,
    > {
        match price_lookup(self.feeds, asset, now, self.max_price_age) {
            Err(e) => Err(e),
            Ok(feed) => if feed.confidence < min_confidence || is_stale(feed, now, max_age) {
                Err(ContractError::OracleError)
            } else {
                Ok(feed)
            },
        }
    }

    /// The answer to a price request: `NotAuthorized` unless the caller is
    /// an active client; `OracleError` where the caller has used up the
    /// hour's requests, the asset has no fresh price, or the price misses
    /// the caller's bounds; else the oracle's feed.
    pub open spec fn request_result(
        self,
        client: Address,
        asset: Seq<char>,
        min_confidence: u32,
        max_age: u64,
        now: u64,
    ) -> Result<PriceFeed, ContractError> {
        if !self.is_client(client) {
            Err(ContractError::NotAuthorized)
        } else if self.rate_limited(client, now) {
            Err(ContractError::OracleError)
        } else {
            self.base_result(asset, min_confidence, max_age, now)
        }
    }

    /// The gateway after a price request. A caller that is no active client
    /// changes nothing. A request over the limit is counted as refused. Any
    /// other request is charged to the caller's hour; it is counted as
    /// refused where the oracle has no answer, else as served, with the
    /// client marked as seen.
    pub open spec fn after_request(
        self,
        client: Address,
        asset: Seq<char>,
        min_confidence: u32,
        max_age: u64,
        now: u64,
    ) -> GatewayModel {
        if !self.is_client(client) {
            self
        } else if self.rate_limited(client, now) {
            self.with_metrics(false, now)
        } else if self.base_result(asset, min_confidence, max_age, now).is_err() {
            self.after_charge(client, now).with_metrics(false, now)
        } else {
            self.after_charge(client, now).with_activity(client, now).with_metrics(true, now)
        }
    }

    /// The gateway and the first error, if any, after the first `n`
    /// requests of a batch: one request per asset, in turn, each charged
    /// and counted as a request of its own, up to the first that fails.
    pub open spec fn batch_progress(
        self,
        client: Address,
        assets: Seq<String>,
        min_confidence: u32,
        now: u64,
        n: nat,
    ) -> (GatewayModel, Option<ContractError>)
        decreases n,
    {
        if n == 0 {
            (self, None)
        } else {
            let (before, failed) = self.batch_progress(
                client,
                assets,
                min_confidence,
                now,
                (n - 1) as nat,
            );
            if failed.is_some() {
                (before, failed)
            } else {
                (
                    before.after_request(client, assets[n - 1]@, min_confidence, BATCH_MAX_AGE, now),
                    match before.request_result(
                        client,
                        assets[n - 1]@,
                        min_confidence,
                        BATCH_MAX_AGE,
                        now,
                    ) {
                        Err(e) => Some(e),
                        Ok(_) => None,
                    },
                )
            }
        }
    }

    /// The gateway after the node of `address`, if there is one, was seen at
    /// `now`.
    pub open spec fn with_node_seen(self, address: Address, now: u64) -> GatewayModel {
        if has_key(self.nodes, address) {
            let at = position(self.nodes, address);
            GatewayModel {
                nodes: self.nodes.update(at, OracleNode { last_update: now, ..self.nodes[at] }),
                ..self
            }
        } else {
            self
        }
    }

    /// The gateway after the reputation of the node of `address`, if there
    /// is one, followed a submission of the given confidence; see
    /// [`reputation_after`].
    pub open spec fn with_reputation(self, address: Address, confidence: u32) -> GatewayModel {
        if has_key(self.nodes, address) {
            let at = position(self.nodes, address);
            GatewayModel {
                nodes: self.nodes.update(
                    at,
                    OracleNode {
                        reputation_score: reputation_after(
                            self.nodes[at].reputation_score,
                            confidence,
                        ),
                        ..self.nodes[at]
                    },
                ),
                ..self
            }
        } else {
            self
        }
    }

    /// The gateway after `feed` and `metadata` replaced what was stored for
    /// the feed's asset.
    pub open spec fn with_feed(self, feed: PriceFeed, metadata: PriceMetadata) -> GatewayModel {
        GatewayModel {
            feeds: with_named(self.feeds, feed),
            metadata: with_named(
                self.metadata,
                AssetMetadata { asset_name: feed.asset_name, metadata },
            ),
            ..self
        }
    }

    /// The gateway after an accepted price with its metadata: both replace
    /// what was stored for the asset, the node's reputation follows the
    /// confidence, and the node is marked as seen at the feed's time.
    pub open spec fn after_price(
        self,
        oracle_node: Address,
        feed: PriceFeed,
        metadata: PriceMetadata,
    ) -> GatewayModel
        recommends
            has_key(self.nodes, oracle_node),
    {
        let at = position(self.nodes, oracle_node);
        GatewayModel {
            feeds: with_named(self.feeds, feed),
            metadata: with_named(
                self.metadata,
                AssetMetadata { asset_name: feed.asset_name, metadata },
            ),
            nodes: self.nodes.update(
                at,
                OracleNode {
                    reputation_score: reputation_after(
                        self.nodes[at].reputation_score,
                        feed.confidence,
                    ),
                    last_update: feed.timestamp,
                    ..self.nodes[at]
                },
            ),
            ..self
        }
    }
}

/// Counting a request keeps served and refused requests adding up, and the
/// percentage of served requests within 0 and 100.
pub proof fn lemma_counted(metrics: EnterpriseMetrics, success: bool, now: u64)
    requires
        metrics.successful_requests + metrics.failed_requests == metrics.total_requests,
        metrics.total_requests < u64::MAX,
    ensures
        counted(metrics, success, now).total_requests == metrics.total_requests + 1,
        counted(metrics, success, now).successful_requests + counted(
            metrics,
            success,
            now,
        ).failed_requests == counted(metrics, success, now).total_requests,
        counted(metrics, success, now).successful_requests == metrics.successful_requests + if success {
            1int
        } else {
            0int
        },
        counted(metrics, success, now).uptime_percentage == (counted(
            metrics,
            success,
            now,
        ).successful_requests * 100) / (counted(metrics, success, now).total_requests as int),
        counted(metrics, success, now).uptime_percentage <= 100,
{
    let total = metrics.total_requests + 1;
    let served = metrics.successful_requests + if success { 1int } else { 0int };
    assert(0 <= (served * 100) / total <= 100) by (nonlinear_arith)
        requires
            0 <= served <= total,
            total > 0,
    ;
}

/// A charge keeps the gateway in order and changes nothing but the
/// caller's request window.
pub proof fn lemma_charge_keeps_inv(m: GatewayModel, client: Address, now: u64)
    requires
        m.inv(),
    ensures
        m.after_charge(client, now).inv(),
        has_key(m.after_charge(client, now).rate_limits, client),
        m.after_charge(client, now).rate_limits[position(
            m.after_charge(client, now).rate_limits,
            client,
        )] == (RateLimit {
            requests_this_hour: (m.window(client, now).requests_this_hour + 1) as u32,
            ..m.window(client, now)
        }),
{
    let window = m.window(client, now);
    let charged = RateLimit { requests_this_hour: (window.requests_this_hour + 1) as u32, ..window };
    let after = m.after_charge(client, now);
    if has_key(m.rate_limits, client) {
        let at = position(m.rate_limits, client);
        assert(m.rate_limits[at].key() == client);
        lemma_update_keyed(m.rate_limits, at, charged);
        assert(after.rate_limits[at] == charged);
    } else {
        lemma_push_keyed(m.rate_limits, charged);
        assert(after.rate_limits[m.rate_limits.len() as int] == charged);
    }
}

/// Rate limiting, within an hour: a request that is charged raises the
/// caller's count for every later moment of the same hour by one and
/// leaves their limit alone; so once as many requests were charged as the
/// limit allows, the next in that hour is refused.
pub proof fn lemma_charge_counts(m: GatewayModel, client: Address, now: u64, later: u64)
    requires
        m.inv(),
        !m.rate_limited(client, now),
        hour_bucket(later) == hour_bucket(now),
    ensures
        m.after_charge(client, now).window(client, later).requests_this_hour == m.window(
            client,
            now,
        ).requests_this_hour + 1,
        m.after_charge(client, now).window(client, later).limit == m.window(client, now).limit,
        m.after_charge(client, now).rate_limited(client, later) == (m.window(
            client,
            now,
        ).requests_this_hour + 1 >= m.window(client, now).limit),
{
    lemma_charge_keeps_inv(m, client, now);
}

/// The gateway after one request of `client` was charged at each of
/// `times`, in turn.
pub open spec fn after_charges(m: GatewayModel, client: Address, times: Seq<u64>) -> GatewayModel
    decreases times.len(),
{
    if times.len() == 0 {
        m
    } else {
        after_charges(m, client, times.drop_last()).after_charge(client, times.last())
    }
}

/// Rate limiting, up to the limit: where a client's requests are charged
/// at moments of one hour, as many as the limit still allows, the count of
/// that hour has grown by their number and the limit is as it was; so the
/// next request in that hour is refused exactly where the limit is then
/// reached.
pub proof fn lemma_limit_is_reached(
    m: GatewayModel,
    client: Address,
    times: Seq<u64>,
    later: u64,
)
    requires
        m.inv(),
        forall|i: int| 0 <= i < times.len() ==> hour_bucket(#[trigger] times[i]) == hour_bucket(later),
        m.window(client, later).requests_this_hour + times.len() <= m.window(client, later).limit,
    ensures
        after_charges(m, client, times).inv(),
        after_charges(m, client, times).window(client, later).requests_this_hour == m.window(
            client,
            later,
        ).requests_this_hour + times.len(),
        after_charges(m, client, times).window(client, later).limit == m.window(
            client,
            later,
        ).limit,
        after_charges(m, client, times).rate_limited(client, later) == (m.window(
            client,
            later,
        ).requests_this_hour + times.len() == m.window(client, later).limit),
        after_charges(m, client, times).clients == m.clients,
    decreases times.len(),
{
    if times.len() > 0 {
        let earlier = times.drop_last();
        assert forall|i: int| 0 <= i < earlier.len() implies hour_bucket(#[trigger] earlier[i])
            == hour_bucket(later) by {
            assert(earlier[i] == times[i]);
        }
        lemma_limit_is_reached(m, client, earlier, later);
        let before = after_charges(m, client, earlier);
        let at = times.last();
        assert(hour_bucket(times[times.len() - 1]) == hour_bucket(later));
        assert(before.window(client, at) == before.window(client, later));
        lemma_charge_keeps_inv(before, client, at);
        lemma_charge_counts(before, client, at, later);
    }
}

/// Rate limiting, across hours: in any other hour the caller's count
/// starts from zero again, so that a request is refused only under a limit
/// of zero.
pub proof fn lemma_new_hour_resets(m: GatewayModel, client: Address, now: u64, later: u64)
    requires
        m.inv(),
        hour_bucket(later) != hour_bucket(now),
    ensures
        m.after_charge(client, now).window(client, later).requests_this_hour == 0,
        m.after_charge(client, now).rate_limited(client, later) == (m.window(client, now).limit
            == 0),
{
    lemma_charge_keeps_inv(m, client, now);
}

/// Marking a client as seen keeps the gateway in order and the client as
/// active and as limited as before.
pub proof fn lemma_activity_keeps_inv(m: GatewayModel, client: Address, now: u64)
    requires
        m.inv(),
    ensures
        m.with_activity(client, now).inv(),
        forall|a: Address| m.with_activity(client, now).is_client(a) == m.is_client(a),
        forall|a: Address, t: u64| m.with_activity(client, now).window(a, t) == m.window(a, t),
{
    if has_key(m.clients, client) {
        let at = position(m.clients, client);
        assert(m.clients[at].key() == client);
        let seen = EnterpriseClient { last_activity: now, ..m.clients[at] };
        let after = m.with_activity(client, now);
        lemma_update_keyed(m.clients, at, seen);
        assert forall|a: Address| after.is_client(a) == m.is_client(a) by {
            if has_key(m.clients, a) {
                let p = position(m.clients, a);
                assert(m.clients[p].key() == a);
            }
        }
        assert forall|a: Address, t: u64| after.window(a, t) == m.window(a, t) by {
            if has_key(m.clients, a) {
                let p = position(m.clients, a);
                assert(m.clients[p].key() == a);
            }
        }
    }
}

/// A price request keeps the gateway in order, and changes neither the
/// prices nor the nodes nor who is a client.
pub proof fn lemma_request_keeps_inv(
    m: GatewayModel,
    client: Address,
    asset: Seq<char>,
    min_confidence: u32,
    max_age: u64,
    now: u64,
)
    requires
        m.inv(),
        m.is_client(client) ==> m.can_count(1),
    ensures
        m.after_request(client, asset, min_confidence, max_age, now).inv(),
        m.after_request(client, asset, min_confidence, max_age, now).feeds == m.feeds,
        m.after_request(client, asset, min_confidence, max_age, now).nodes == m.nodes,
        m.after_request(client, asset, min_confidence, max_age, now).max_price_age
            == m.max_price_age,
        m.after_request(client, asset, min_confidence, max_age, now).is_client(client)
            == m.is_client(client),
        m.is_client(client) ==> m.after_request(
            client,
            asset,
            min_confidence,
            max_age,
            now,
        ).metrics.unwrap().total_requests == m.metrics.unwrap().total_requests + 1,
        !m.is_client(client) ==> m.after_request(client, asset, min_confidence, max_age, now) == m,
{
    if m.is_client(client) {
        lemma_counted(m.metrics.unwrap(), false, now);
        lemma_counted(m.metrics.unwrap(), true, now);
        if !m.rate_limited(client, now) {
            lemma_charge_keeps_inv(m, client, now);
            let charged = m.after_charge(client, now);
            if m.base_result(asset, min_confidence, max_age, now).is_ok() {
                lemma_activity_keeps_inv(charged, client, now);
                assert(charged.with_activity(client, now).is_client(client) == charged.is_client(
                    client,
                ));
            }
        }
    }
}

/// Once a request of a batch has failed, the batch has stopped.
pub proof fn lemma_batch_stops(
    m: GatewayModel,
    client: Address,
    assets: Seq<String>,
    min_confidence: u32,
    now: u64,
    failed_at: nat,
    n: nat,
)
    requires
        failed_at <= n,
        m.batch_progress(client, assets, min_confidence, now, failed_at).1.is_some(),
    ensures
        m.batch_progress(client, assets, min_confidence, now, n) == m.batch_progress(
            client,
            assets,
            min_confidence,
            now,
            failed_at,
        ),
    decreases n,
{
    if n > failed_at {
        lemma_batch_stops(m, client, assets, min_confidence, now, failed_at, (n - 1) as nat);
    }
}

/// Marking a node as seen, or letting its reputation follow a submission,
/// keeps the gateway in order and every node where it was.
pub proof fn lemma_node_update_keeps_inv(m: GatewayModel, address: Address, now: u64, confidence: u32)
    requires
        m.inv(),
    ensures
        m.with_node_seen(address, now).inv(),
        m.with_reputation(address, confidence).inv(),
        forall|a: Address|
            has_key(m.with_node_seen(address, now).nodes, a) == has_key(m.nodes, a) && has_key(
                m.with_reputation(address, confidence).nodes,
                a,
            ) == has_key(m.nodes, a),
        forall|a: Address|
            has_key(m.nodes, a) ==> position(m.with_node_seen(address, now).nodes, a) == position(
                m.nodes,
                a,
            ) && position(m.with_reputation(address, confidence).nodes, a) == position(m.nodes, a),
{
    if has_key(m.nodes, address) {
        let at = position(m.nodes, address);
        assert(m.nodes[at].key() == address);
        let seen = m.with_node_seen(address, now);
        let rated = m.with_reputation(address, confidence);
        lemma_update_keyed(m.nodes, at, seen.nodes[at]);
        lemma_update_keyed(m.nodes, at, rated.nodes[at]);
        assert forall|i: int| 0 <= i < seen.nodes.len() implies (#[trigger] seen.nodes[i]).reputation_score
            <= MAX_REPUTATION by {
            assert(m.nodes[i].reputation_score <= MAX_REPUTATION);
        }
        assert forall|i: int| 0 <= i < rated.nodes.len() implies (#[trigger] rated.nodes[i]).reputation_score
            <= MAX_REPUTATION by {
            assert(m.nodes[i].reputation_score <= MAX_REPUTATION);
        }
    }
}

/// An accepted price keeps the gateway in order.
pub proof fn lemma_price_keeps_inv(
    m: GatewayModel,
    oracle_node: Address,
    feed: PriceFeed,
    metadata: PriceMetadata,
)
    requires
        m.inv(),
        m.authorized(oracle_node),
    ensures
        m.after_price(oracle_node, feed, metadata).inv(),
        named(m.after_price(oracle_node, feed, metadata).feeds, feed.name()) == Some(feed),
{
    let at = position(m.nodes, oracle_node);
    assert(m.nodes[at].key() == oracle_node);
    let after = m.after_price(oracle_node, feed, metadata);
    lemma_update_keyed(m.nodes, at, after.nodes[at]);
    lemma_with_named(m.feeds, feed);
    lemma_with_named(m.metadata, AssetMetadata { asset_name: feed.asset_name, metadata });
    assert forall|i: int| 0 <= i < after.nodes.len() implies (#[trigger] after.nodes[i]).reputation_score
        <= MAX_REPUTATION by {
        assert(m.nodes[i].reputation_score <= MAX_REPUTATION);
    }
}

/// The breakdown by source that every answer carries.
pub fn get_price_sources() -> (sources: Vec<PriceSource>)
    ensures
        is_reference_breakdown(sources@),
{
    let mut sources: Vec<PriceSource> = Vec::new();
    sources.push(
        PriceSource {
            name: "coinbase".to_owned(),
            price: 65000,
            weight: 30,
            latency: 45,
            volume: Some(1000000),
            spread: Some(5),
        },
    );
    sources.push(
        PriceSource {
            name: "binance".to_owned(),
            price: 65001,
            weight: 40,
            latency: 52,
            volume: Some(2000000),
            spread: Some(3),
        },
    );
    sources
}

/// The metadata that every answer carries, as of the ledger time `now`.
pub fn get_price_metadata(now: u64) -> (metadata: PriceMetadata)
    ensures
        metadata == reference_metadata(now),
{
    PriceMetadata {
        volume_24h: 2500000000,
        spread: 5,
        volatility: 15,
        market_cap: Some(1200000000000),
        last_update: now,
        update_count: 1000,
    }
}

/// The gateway.
pub struct EnterpriseOracleContract {
    /// `None` until the gateway is set up.
    pub admin: Option<Address>,
    /// The clients, one per address.
    pub clients: Vec<EnterpriseClient>,
    /// The nodes, one per address.
    pub nodes: Vec<OracleNode>,
    /// The latest price of each asset.
    pub feeds: Vec<PriceFeed>,
    /// The latest metadata of each asset.
    pub metadata: Vec<AssetMetadata>,
    /// Who is subscribed to which asset.
    pub subscriptions: Vec<Subscription>,
    pub min_confidence: u32,
    pub max_price_age: u64,
    /// The counters; `None` until the gateway is set up.
    pub metrics: Option<EnterpriseMetrics>,
    /// The request windows, one per caller that has asked.
    pub rate_limits: Vec<RateLimit>,
}

impl View for EnterpriseOracleContract {
    type V = GatewayModel;

    open spec fn view(&self) -> GatewayModel {
        GatewayModel {
            admin: self.admin,
            clients: self.clients@,
            nodes: self.nodes@,
            feeds: self.feeds@,
            metadata: self.metadata@,
            subscriptions: self.subscriptions@,
            min_confidence: self.min_confidence,
            max_price_age: self.max_price_age,
            metrics: self.metrics,
            rate_limits: self.rate_limits@,
        }
    }
}

impl EnterpriseOracleContract {
    /// Whether the gateway is in order; see [`GatewayModel::inv`].
    pub open spec fn wf(&self) -> bool {
        self@.inv()
    }

    /// A gateway that has not been set up.
    pub fn new() -> (gateway: Self)
        ensures
            gateway.wf(),
            gateway@ == GatewayModel::empty(),
    {
        EnterpriseOracleContract {
            admin: None,
            clients: Vec::new(),
            nodes: Vec::new(),
            feeds: Vec::new(),
            metadata: Vec::new(),
            subscriptions: Vec::new(),
            min_confidence: DEFAULT_MIN_CONFIDENCE,
            max_price_age: DEFAULT_MAX_PRICE_AGE,
            metrics: None,
            rate_limits: Vec::new(),
        }
    }

    /// Checks whether the gateway is in order, as a gateway must be that
    /// was put together from its parts; see [`GatewayModel::inv`].
    pub fn validate(&self) -> (ok: bool)
        ensures
            ok == self.wf(),
    {
        if !keys_are_distinct(&self.clients) || !keys_are_distinct(&self.nodes)
            || !keys_are_distinct(&self.rate_limits) || !names_are_distinct(&self.feeds)
            || !names_are_distinct(&self.metadata) || !pairs_are_distinct(&self.subscriptions) {
            return false;
        }
        let mut i: usize = 0;
        while i < self.nodes.len()
            invariant
                i <= self.nodes.len(),
                forall|j: int|
                    0 <= j < i ==> (#[trigger] self.nodes@[j]).reputation_score <= MAX_REPUTATION,
            decreases self.nodes.len() - i,
        {
            if self.nodes[i].reputation_score > MAX_REPUTATION {
                return false;
            }
            i += 1;
        }
        if let Some(metrics) = self.metrics {
            if metrics.successful_requests as u128 + metrics.failed_requests as u128
                != metrics.total_requests as u128 {
                return false;
            }
        }
        if self.admin.is_some() != self.metrics.is_some() {
            return false;
        }
        if self.admin.is_none() && (self.clients.len() != 0 || self.nodes.len() != 0) {
            return false;
        }
        true
    }

    /// Sets the gateway up at the ledger time `now`, once: a second call is
    /// refused with `NotAuthorized` and changes nothing. The gateway starts
    /// without clients and nodes, with all counters at zero.
    pub fn initialize(&mut self, admin: Address, min_confidence: u32, max_price_age: u64, now: u64) -> (r:
        Result<(), ContractError>)
        requires
            old(self).wf(),
        ensures
            final(self).wf(),
            old(self)@.admin.is_some() ==> r == Err::<(), ContractError>(
                ContractError::NotAuthorized,
            ) && final(self)@ == old(self)@,
            old(self)@.admin.is_none() ==> r.is_ok() && final(self)@ == (GatewayModel {
                admin: Some(admin),
                min_confidence,
                max_price_age,
                metrics: Some(
                    EnterpriseMetrics {
                        total_requests: 0,
                        successful_requests: 0,
                        failed_requests: 0,
                        average_latency: 0,
                        uptime_percentage: 100,
                        data_quality_score: 100,
                        last_updated: now,
                    },
                ),
                ..old(self)@
            }),
    {
        if self.admin.is_some() {
            return Err(ContractError::NotAuthorized);
        }
        self.admin = Some(admin);
        self.min_confidence = min_confidence;
        self.max_price_age = max_price_age;
        self.metrics = Some(
            EnterpriseMetrics {
                total_requests: 0,
                successful_requests: 0,
                failed_requests: 0,
                average_latency: 0,
                uptime_percentage: 100,
                data_quality_score: 100,
                last_updated: now,
            },
        );
        assert(self@ =~= (GatewayModel {
            admin: Some(admin),
            min_confidence,
            max_price_age,
            metrics: self@.metrics,
            ..old(self)@
        }));
        Ok(())
    }

    /// Whether `n` more requests can be counted; see
    /// [`GatewayModel::can_count`].
    pub fn can_count(&self, n: usize) -> (yes: bool)
        ensures
            yes == self@.can_count(n as nat),
    {
        match self.metrics {
            Some(metrics) => n as u128 <= (u64::MAX - metrics.total_requests) as u128,
            None => false,
        }
    }

    /// Whether `caller` is the admin.
    pub fn require_admin(&self, caller: Address) -> (r: Result<(), ContractError>)
        ensures
            r.is_ok() == (self@.admin == Some(caller)),
            r.is_err() ==> r == Err::<(), ContractError>(ContractError::NotAuthorized),
    {
        match self.admin {
            Some(stored) => if stored == caller {
                Ok(())
            } else {
                Err(ContractError::NotAuthorized)
            },
            None => Err(ContractError::NotAuthorized),
        }
    }

    /// Registers a client at the ledger time `now`: active, with the given
    /// tier and requests per hour. Only the admin may, and only a client
    /// that is new; else the call is refused with `NotAuthorized` and
    /// changes nothing.
    pub fn register_enterprise_client(
        &mut self,
        admin: Address,
        client_address: Address,
        institution_id: String,
        tier: u32,
        rate_limit: u32,
        now: u64,
    ) -> (r: Result<(), ContractError>)
        requires
            old(self).wf(),
        ensures
            final(self).wf(),
            r.is_ok() == (old(self)@.admin == Some(admin) && !has_key(
                old(self)@.clients,
                client_address,
            )),
            r.is_err() ==> r == Err::<(), ContractError>(ContractError::NotAuthorized)
                && final(self)@ == old(self)@,
            r.is_ok() ==> final(self)@ == (GatewayModel {
                clients: old(self)@.clients.push(
                    EnterpriseClient {
                        address: client_address,
                        institution_id,
                        tier,
                        is_active: true,
                        rate_limit,
                        created_at: now,
                        last_activity: now,
                    },
                ),
                ..old(self)@
            }),
    {
        if self.require_admin(admin).is_err() {
            return Err(ContractError::NotAuthorized);
        }
        if find(&self.clients, client_address).is_some() {
            return Err(ContractError::NotAuthorized);
        }
        let client = EnterpriseClient {
            address: client_address,
            institution_id,
            tier,
            is_active: true,
            rate_limit,
            created_at: now,
            last_activity: now,
        };
        proof {
            lemma_push_keyed(self.clients@, client);
        }
        self.clients.push(client);
        assert(self@ =~= (GatewayModel { clients: old(self)@.clients.push(client), ..old(self)@ }));
        Ok(())
    }

    /// Adds a node at the ledger time `now`: active, with the highest
    /// reputation and full uptime. Only the admin may, and only a node that
    /// is new; else the call is refused with `NotAuthorized` and changes
    /// nothing.
    pub fn add_oracle_node(
        &mut self,
        admin: Address,
        node_address: Address,
        tier: u32,
        latency_avg: u32,
        now: u64,
    ) -> (r: Result<(), ContractError>)
        requires
            old(self).wf(),
        ensures
            final(self).wf(),
            r.is_ok() == (old(self)@.admin == Some(admin) && !has_key(
                old(self)@.nodes,
                node_address,
            )),
            r.is_err() ==> r == Err::<(), ContractError>(ContractError::NotAuthorized)
                && final(self)@ == old(self)@,
            r.is_ok() ==> final(self)@ == (GatewayModel {
                nodes: old(self)@.nodes.push(
                    OracleNode {
                        address: node_address,
                        is_active: true,
                        reputation_score: MAX_REPUTATION,
                        last_update: now,
                        tier,
                        uptime: 100,
                        latency_avg,
                    },
                ),
                ..old(self)@
            }),
    {
        if self.require_admin(admin).is_err() {
            return Err(ContractError::NotAuthorized);
        }
        if find(&self.nodes, node_address).is_some() {
            return Err(ContractError::NotAuthorized);
        }
        let node = OracleNode {
            address: node_address,
            is_active: true,
            reputation_score: MAX_REPUTATION,
            last_update: now,
            tier,
            uptime: 100,
            latency_avg,
        };
        proof {
            lemma_push_keyed(self.nodes@, node);
        }
        self.nodes.push(node);
        assert(self@ =~= (GatewayModel { nodes: old(self)@.nodes.push(node), ..old(self)@ }));
        Ok(())
    }

    /// Removes a node. Only the admin may, and only a node that exists;
    /// else the call is refused with `NotAuthorized` and changes nothing.
    pub fn remove_oracle_node(&mut self, admin: Address, node_address: Address) -> (r: Result<
        (),
        ContractError,
    >)
        requires
            old(self).wf(),
        ensures
            final(self).wf(),
            r.is_ok() == (old(self)@.admin == Some(admin) && has_key(
                old(self)@.nodes,
                node_address,
            )),
            r.is_err() ==> r == Err::<(), ContractError>(ContractError::NotAuthorized)
                && final(self)@ == old(self)@,
            r.is_ok() ==> final(self)@ == (GatewayModel {
                nodes: old(self)@.nodes.remove(position(old(self)@.nodes, node_address)),
                ..old(self)@
            }) && !has_key(final(self)@.nodes, node_address),
    {
        if self.require_admin(admin).is_err() {
            return Err(ContractError::NotAuthorized);
        }
        match find(&self.nodes, node_address) {
            Some(at) => {
                proof {
                    lemma_remove_keyed(self.nodes@, at as int);
                    assert forall|i: int| 0 <= i < self.nodes@.remove(at as int).len() implies (
                    #[trigger] self.nodes@.remove(at as int)[i]).reputation_score
                        <= MAX_REPUTATION by {
                        let j = if i < at { i } else { i + 1 };
                        assert(self.nodes@.remove(at as int)[i] == self.nodes@[j]);
                    }
                }
                self.nodes.remove(at);
                assert(self@ =~= (GatewayModel {
                    nodes: old(self)@.nodes.remove(at as int),
                    ..old(self)@
                }));
                Ok(())
            },
            None => Err(ContractError::NotAuthorized),
        }
    }

    /// Whether `client_address` is a client that may ask.
    pub fn is_enterprise_client(&self, client_address: Address) -> (yes: bool)
        requires
            self.wf(),
        ensures
            yes == self@.is_client(client_address),
    {
        match find(&self.clients, client_address) {
            Some(at) => self.clients[at].is_active,
            None => false,
        }
    }

    /// Whether `oracle_address` is a node that may submit.
    pub fn is_authorized_oracle(&self, oracle_address: Address) -> (yes: bool)
        requires
            self.wf(),
        ensures
            yes == self@.authorized(oracle_address),
    {
        match find(&self.nodes, oracle_address) {
            Some(at) => self.nodes[at].is_active,
            None => false,
        }
    }

    /// Marks the node of `oracle_address` as seen at the ledger time `now`;
    /// nothing changes where there is no such node.
    pub fn update_oracle_node_activity(&mut self, oracle_address: Address, now: u64)
        requires
            old(self).wf(),
        ensures
            final(self).wf(),
            final(self)@ == old(self)@.with_node_seen(oracle_address, now),
    {
        proof {
            lemma_node_update_keeps_inv(self@, oracle_address, now, 0);
        }
        if let Some(at) = find(&self.nodes, oracle_address) {
            let node = self.nodes[at];
            self.nodes.set(
                at,
                OracleNode {
                    address: node.address,
                    is_active: node.is_active,
                    reputation_score: node.reputation_score,
                    last_update: now,
                    tier: node.tier,
                    uptime: node.uptime,
                    latency_avg: node.latency_avg,
                },
            );
        }
        assert(self@ =~= old(self)@.with_node_seen(oracle_address, now));
    }

    /// Lets the reputation of the node of `oracle_address` follow a
    /// submission of the given confidence; nothing changes where there is
    /// no such node.
    pub fn update_oracle_reputation(&mut self, oracle_address: Address, confidence: u32)
        requires
            old(self).wf(),
        ensures
            final(self).wf(),
            final(self)@ == old(self)@.with_reputation(oracle_address, confidence),
    {
        proof {
            lemma_node_update_keeps_inv(self@, oracle_address, 0, confidence);
        }
        if let Some(at) = find(&self.nodes, oracle_address) {
            let node = self.nodes[at];
            self.nodes.set(
                at,
                OracleNode {
                    address: node.address,
                    is_active: node.is_active,
                    reputation_score: update_reputation(node.reputation_score, confidence),
                    last_update: node.last_update,
                    tier: node.tier,
                    uptime: node.uptime,
                    latency_avg: node.latency_avg,
                },
            );
        }
        assert(self@ =~= old(self)@.with_reputation(oracle_address, confidence));
    }

    /// Counts one more request of `client_address` in the hour of the
    /// ledger time `now`, or refuses it with `OracleError`, changing
    /// nothing, where the hour's requests are used up.
    pub fn check_rate_limit(&mut self, client_address: Address, now: u64) -> (r: Result<
        (),
        ContractError,
    >)
        requires
            old(self).wf(),
        ensures
            final(self).wf(),
            old(self)@.rate_limited(client_address, now) ==> r == Err::<(), ContractError>(
                ContractError::OracleError,
            ) && final(self)@ == old(self)@,
            !old(self)@.rate_limited(client_address, now) ==> r.is_ok() && final(self)@ == old(
                self,
            )@.after_charge(client_address, now),
    {
        let hour_start: u64 = now - now % SECONDS_PER_HOUR;
        let found = find(&self.rate_limits, client_address);
        let stored = match found {
            Some(i) => self.rate_limits[i],
            None => RateLimit {
                client_address,
                requests_this_hour: 0,
                hour_start,
                limit: DEFAULT_RATE_LIMIT,
            },
        };
        let requests: u32 = if stored.hour_start != hour_start {
            0
        } else {
            stored.requests_this_hour
        };
        let limit: u32 = match find(&self.clients, client_address) {
            Some(i) => self.clients[i].rate_limit,
            None => stored.limit,
        };
        if requests >= limit {
            return Err(ContractError::OracleError);
        }
        let charged = RateLimit {
            client_address,
            requests_this_hour: requests + 1,
            hour_start,
            limit,
        };
        proof {
            lemma_charge_keeps_inv(self@, client_address, now);
        }
        match found {
            Some(i) => {
                self.rate_limits.set(i, charged);
            },
            None => {
                self.rate_limits.push(charged);
            },
        }
        assert(self@ =~= old(self)@.after_charge(client_address, now));
        Ok(())
    }

    /// Marks the client of `client_address` as seen at the ledger time
    /// `now`; nothing changes where there is no such client.
    pub fn update_client_activity(&mut self, client_address: Address, now: u64)
        requires
            old(self).wf(),
        ensures
            final(self).wf(),
            final(self)@ == old(self)@.with_activity(client_address, now),
    {
        proof {
            lemma_activity_keeps_inv(self@, client_address, now);
        }
        if let Some(at) = find(&self.clients, client_address) {
            let mut seen = self.clients[at].clone();
            seen.last_activity = now;
            self.clients.set(at, seen);
        }
        assert(self@ =~= old(self)@.with_activity(client_address, now));
    }

    /// Counts one more request, served or refused, at the ledger time `now`.
    pub fn update_metrics(&mut self, success: bool, now: u64)
        requires
            old(self).wf(),
            old(self)@.can_count(1),
        ensures
            final(self).wf(),
            final(self)@ == old(self)@.with_metrics(success, now),
    {
        if let Some(metrics) = self.metrics {
            proof {
                lemma_counted(metrics, success, now);
            }
            let total: u64 = metrics.total_requests + 1;
            let served: u64 = if success {
                metrics.successful_requests + 1
            } else {
                metrics.successful_requests
            };
            let refused: u64 = if success {
                metrics.failed_requests
            } else {
                metrics.failed_requests + 1
            };
            let scaled: u128 = (served as u128) * 100;
            let uptime: u128 = scaled / (total as u128);
            self.metrics = Some(
                EnterpriseMetrics {
                    total_requests: total,
                    successful_requests: served,
                    failed_requests: refused,
                    average_latency: metrics.average_latency,
                    uptime_percentage: uptime as u32,
                    data_quality_score: metrics.data_quality_score,
                    last_updated: now,
                },
            );
        }
        assert(self@ =~= old(self)@.with_metrics(success, now));
    }

    /// The number of active nodes with their latencies and reputations
    /// added up.
    fn sum_active(&self) -> (sums: (usize, u128, u128))
        ensures
            sums.0 == active_count(self@.nodes),
            sums.1 == active_latency(self@.nodes),
            sums.2 == active_reputation(self@.nodes),
            average(sums.1 as nat, sums.0 as nat) <= u32::MAX,
            average(sums.2 as nat, sums.0 as nat) <= u32::MAX,
    {
        let mut count: usize = 0;
        let mut latency: u128 = 0;
        let mut reputation: u128 = 0;
        let mut i: usize = 0;
        while i < self.nodes.len()
            invariant
                i <= self.nodes.len(),
                count == active_count(self.nodes@.take(i as int)),
                latency == active_latency(self.nodes@.take(i as int)),
                reputation == active_reputation(self.nodes@.take(i as int)),
            decreases self.nodes.len() - i,
        {
            proof {
                assert(self.nodes@.take(i + 1).drop_last() =~= self.nodes@.take(i as int));
                lemma_active_sums(self.nodes@.take(i as int));
                assert(count * u32::MAX <= usize::MAX * u32::MAX) by (nonlinear_arith)
                    requires
                        count <= usize::MAX,
                ;
            }
            if self.nodes[i].is_active {
                count += 1;
                latency += self.nodes[i].latency_avg as u128;
                reputation += self.nodes[i].reputation_score as u128;
            }
            i += 1;
        }
        proof {
            assert(self.nodes@.take(i as int) =~= self.nodes@);
            lemma_active_sums(self.nodes@);
        }
        (count, latency, reputation)
    }

    /// The average latency that the active nodes report, rounded down; zero
    /// without an active node.
    pub fn calculate_average_latency(&self) -> (latency: u32)
        ensures
            latency == average(active_latency(self@.nodes), active_count(self@.nodes)),
    {
        let (count, latency, _) = self.sum_active();
        if count > 0 {
            (latency / (count as u128)) as u32
        } else {
            0
        }
    }

    /// The health of the node network: the number of nodes, the number of
    /// active nodes, and the average reputation and latency of the active
    /// nodes, rounded down.
    pub fn get_oracle_health(&self) -> (health: (usize, usize, u32, u32))
        ensures
            health.0 == self@.nodes.len(),
            health.1 == active_count(self@.nodes),
            health.2 == average(active_reputation(self@.nodes), active_count(self@.nodes)),
            health.3 == average(active_latency(self@.nodes), active_count(self@.nodes)),
    {
        let (count, latency, reputation) = self.sum_active();
        if count > 0 {
            (
                self.nodes.len(),
                count,
                (reputation / (count as u128)) as u32,
                (latency / (count as u128)) as u32,
            )
        } else {
            (self.nodes.len(), 0, 0, 0)
        }
    }

    /// The latest price of an asset at the ledger time `now`: `OracleError`
    /// where there is none or it is older than the configured age.
    pub fn get_price(&self, asset_name: &String, now: u64) -> (r: Result<PriceFeed, ContractError>)
        requires
            self.wf(),
        ensures
            r == price_lookup(self@.feeds, asset_name@, now, self@.max_price_age),
    {
        read_price(&self.feeds, asset_name, now, self.max_price_age)
    }

    /// Answers a client's request for an asset's price at the ledger time
    /// `now`, under the client's own bounds `min_confidence` and `max_age`.
    /// A caller that is no active client is refused with `NotAuthorized`
    /// and changes nothing. Every other request is counted: as refused,
    /// with `OracleError`, where the client has used up the hour's
    /// requests, the asset has no fresh price, or the price misses the
    /// bounds; else as served.
    pub fn get_enterprise_price(
        &mut self,
        client_address: Address,
        asset_name: &String,
        min_confidence: u32,
        max_age: u64,
        now: u64,
    ) -> (r: Result<EnterprisePriceFeed, ContractError>)
        requires
            old(self).wf(),
            old(self)@.is_client(client_address) ==> old(self)@.can_count(1),
        ensures
            final(self).wf(),
            final(self)@ == old(self)@.after_request(
                client_address,
                asset_name@,
                min_confidence,
                max_age,
                now,
            ),
            match old(self)@.request_result(
                client_address,
                asset_name@,
                min_confidence,
                max_age,
                now,
            ) {
                Err(e) => r.is_err() && r.unwrap_err() == e,
                Ok(base) => r.is_ok() && is_answer(
                    r.unwrap(),
                    asset_name@,
                    base,
                    average(active_latency(old(self)@.nodes), active_count(old(self)@.nodes)),
                    now,
                ),
            },
    {
        if !self.is_enterprise_client(client_address) {
            return Err(ContractError::NotAuthorized);
        }
        proof {
            lemma_request_keeps_inv(
                self@,
                client_address,
                asset_name@,
                min_confidence,
                max_age,
                now,
            );
        }
        if let Err(e) = self.check_rate_limit(client_address, now) {
            self.update_metrics(false, now);
            return Err(e);
        }
        let base = match self.get_price(asset_name, now) {
            Ok(feed) => feed,
            Err(e) => {
                self.update_metrics(false, now);
                return Err(e);
            },
        };
        if base.confidence < min_confidence || feed_is_stale(&base, now, max_age) {
            self.update_metrics(false, now);
            return Err(ContractError::OracleError);
        }
        let answer = EnterprisePriceFeed {
            asset_name: asset_name.clone(),
            price: base.price,
            timestamp: base.timestamp,
            confidence: base.confidence,
            sources: get_price_sources(),
            metadata: get_price_metadata(now),
            latency: self.calculate_average_latency(),
        };
        proof {
            lemma_activity_keeps_inv(self@, client_address, now);
        }
        self.update_client_activity(client_address, now);
        self.update_metrics(true, now);
        Ok(answer)
    }

    /// Answers a client's request for the prices of several assets at the
    /// ledger time `now`. A caller that is no active client is refused with
    /// `NotAuthorized`. Else the assets are asked for one by one, each a
    /// request of its own as by [`Self::get_enterprise_price`], no older
    /// than `BATCH_MAX_AGE`, charged to the client's hour and counted. The
    /// first request that fails ends the batch with its error; what was
    /// charged and counted until then stays.
    pub fn get_batch_prices(
        &mut self,
        client_address: Address,
        assets: &Vec<String>,
        min_confidence: u32,
        now: u64,
    ) -> (r: Result<Vec<EnterprisePriceFeed>, ContractError>)
        requires
            old(self).wf(),
            old(self)@.is_client(client_address) ==> old(self)@.can_count(assets.len() as nat),
        ensures
            final(self).wf(),
            !old(self)@.is_client(client_address) ==> r.is_err() && r.unwrap_err()
                == ContractError::NotAuthorized && final(self)@ == old(self)@,
            old(self)@.is_client(client_address) ==> final(self)@ == old(self)@.batch_progress(
                client_address,
                assets@,
                min_confidence,
                now,
                assets.len() as nat,
            ).0 && match old(self)@.batch_progress(
                client_address,
                assets@,
                min_confidence,
                now,
                assets.len() as nat,
            ).1 {
                Some(e) => r.is_err() && r.unwrap_err() == e,
                None => r.is_ok() && r.unwrap()@.len() == assets.len() && forall|i: int|
                    0 <= i < assets.len() ==> #[trigger] is_answer_from(
                        r.unwrap()@[i],
                        assets@[i]@,
                        old(self)@.feeds,
                        average(active_latency(old(self)@.nodes), active_count(old(self)@.nodes)),
                        now,
                    ),
            },
    {
        if !self.is_enterprise_client(client_address) {
            return Err(ContractError::NotAuthorized);
        }
        let ghost start = self@;
        let mut feeds: Vec<EnterprisePriceFeed> = Vec::new();
        let mut i: usize = 0;
        while i < assets.len()
            invariant
                i <= assets.len(),
                self.wf(),
                start == old(self)@,
                start.inv(),
                start.is_client(client_address),
                self@.is_client(client_address),
                self@.feeds == start.feeds,
                self@.nodes == start.nodes,
                self@.max_price_age == start.max_price_age,
                start.can_count(assets.len() as nat),
                self@.metrics.is_some(),
                self@.metrics.unwrap().total_requests == start.metrics.unwrap().total_requests + i,
                start.batch_progress(client_address, assets@, min_confidence, now, i as nat) == (
                    self@,
                    None::<ContractError>,
                ),
                feeds@.len() == i,
                forall|j: int|
                    0 <= j < i ==> #[trigger] is_answer_from(
                        feeds@[j],
                        assets@[j]@,
                        start.feeds,
                        average(active_latency(start.nodes), active_count(start.nodes)),
                        now,
                    ),
            decreases assets.len() - i,
        {
            let ghost before = self@;
            proof {
                lemma_request_keeps_inv(
                    before,
                    client_address,
                    assets@[i as int]@,
                    min_confidence,
                    BATCH_MAX_AGE,
                    now,
                );
            }
            let answer = self.get_enterprise_price(
                client_address,
                &assets[i],
                min_confidence,
                BATCH_MAX_AGE,
                now,
            );
            proof {
                let outcome = before.request_result(
                    client_address,
                    assets@[i as int]@,
                    min_confidence,
                    BATCH_MAX_AGE,
                    now,
                );
                assert(start.batch_progress(
                    client_address,
                    assets@,
                    min_confidence,
                    now,
                    (i + 1) as nat,
                ) == (
                    self@,
                    match outcome {
                        Err(e) => Some(e),
                        Ok(_) => None,
                    },
                ));
                if outcome.is_ok() {
                    assert(has_name(start.feeds, assets@[i as int]@));
                    assert(outcome.unwrap() == start.feeds[name_position(
                        start.feeds,
                        assets@[i as int]@,
                    )]);
                }
            }
            match answer {
                Ok(feed) => {
                    let ghost earlier = feeds@;
                    let ghost taken = feed;
                    feeds.push(feed);
                    proof {
                        assert forall|j: int| 0 <= j < i + 1 implies #[trigger] is_answer_from(
                            feeds@[j],
                            assets@[j]@,
                            start.feeds,
                            average(active_latency(start.nodes), active_count(start.nodes)),
                            now,
                        ) by {
                            if j < i {
                                assert(feeds@[j] == earlier[j]);
                                assert(is_answer_from(
                                    earlier[j],
                                    assets@[j]@,
                                    start.feeds,
                                    average(active_latency(start.nodes), active_count(start.nodes)),
                                    now,
                                ));
                            } else {
                                assert(feeds@[j] == taken);
                            }
                        }
                    }
                },
                Err(e) => {
                    proof {
                        lemma_batch_stops(
                            start,
                            client_address,
                            assets@,
                            min_confidence,
                            now,
                            (i + 1) as nat,
                            assets.len() as nat,
                        );
                    }
                    return Err(e);
                },
            }
            i += 1;
        }
        Ok(feeds)
    }

    /// Submits the price of an asset with its metadata at the ledger time
    /// `now`. The node must be registered and active, else the call is
    /// refused with `NotAuthorized`; the confidence must be at least the
    /// configured one, else it is refused with `OracleError`. A refused
    /// call changes nothing.
    pub fn update_price_enterprise(
        &mut self,
        oracle_node: Address,
        asset_name: String,
        price: i128,
        confidence: u32,
        source: String,
        metadata: PriceMetadata,
        now: u64,
    ) -> (r: Result<(), ContractError>)
        requires
            old(self).wf(),
        ensures
            final(self).wf(),
            !old(self)@.authorized(oracle_node) ==> r == Err::<(), ContractError>(
                ContractError::NotAuthorized,
            ),
            old(self)@.authorized(oracle_node) && confidence < old(self)@.min_confidence ==> r
                == Err::<(), ContractError>(ContractError::OracleError),
            old(self)@.authorized(oracle_node) && confidence >= old(self)@.min_confidence
                ==> r.is_ok(),
            r.is_ok() ==> final(self)@ == old(self)@.after_price(
                oracle_node,
                PriceFeed { asset_name, price, timestamp: now, confidence, source },
                metadata,
            ),
            r.is_err() ==> final(self)@ == old(self)@,
    {
        if !self.is_authorized_oracle(oracle_node) {
            return Err(ContractError::NotAuthorized);
        }
        if confidence < self.min_confidence {
            return Err(ContractError::OracleError);
        }
        let record = AssetMetadata { asset_name: asset_name.clone(), metadata };
        let feed = PriceFeed { asset_name, price, timestamp: now, confidence, source };
        proof {
            lemma_price_keeps_inv(self@, oracle_node, feed, metadata);
            lemma_node_update_keeps_inv(
                self@.with_feed(feed, metadata),
                oracle_node,
                now,
                confidence,
            );
        }
        store_named(&mut self.feeds, feed);
        store_named(&mut self.metadata, record);
        assert(self@ =~= old(self)@.with_feed(feed, metadata));
        self.update_oracle_node_activity(oracle_node, now);
        self.update_oracle_reputation(oracle_node, confidence);
        assert(self@ =~= old(self)@.after_price(oracle_node, feed, metadata));
        Ok(())
    }

    /// The counters: `OracleError` before the gateway is set up.
    pub fn get_enterprise_metrics(&self) -> (r: Result<EnterpriseMetrics, ContractError>)
        ensures
            match self@.metrics {
                Some(metrics) => r == Ok::<EnterpriseMetrics, ContractError>(metrics),
                None => r == Err::<EnterpriseMetrics, ContractError>(ContractError::OracleError),
            },
    {
        match self.metrics {
            Some(metrics) => Ok(metrics),
            None => Err(ContractError::OracleError),
        }
    }

    /// Subscribes a client to an asset's price: refused with
    /// `NotAuthorized`, changing nothing, unless the caller is an active
    /// client; nothing changes either where they are subscribed already.
    pub fn subscribe_enterprise(&mut self, client_address: Address, asset_name: String) -> (r: Result<
        (),
        ContractError,
    >)
        requires
            old(self).wf(),
        ensures
            final(self).wf(),
            !old(self)@.is_client(client_address) ==> r == Err::<(), ContractError>(
                ContractError::NotAuthorized,
            ) && final(self)@ == old(self)@,
            old(self)@.is_client(client_address) ==> r.is_ok() && final(self)@ == (GatewayModel {
                subscriptions: with_subscription(
                    old(self)@.subscriptions,
                    client_address,
                    asset_name,
                ),
                ..old(self)@
            }) && is_subscribed(final(self)@.subscriptions, asset_name@, client_address),
    {
        if !self.is_enterprise_client(client_address) {
            return Err(ContractError::NotAuthorized);
        }
        add_subscription(&mut self.subscriptions, client_address, asset_name);
        assert(self@ =~= (GatewayModel {
            subscriptions: with_subscription(old(self)@.subscriptions, client_address, asset_name),
            ..old(self)@
        }));
        Ok(())
    }

    /// The registration of a client: `NotAuthorized` where there is none.
    pub fn get_enterprise_client(&self, client_address: Address) -> (r: Result<
        EnterpriseClient,
        ContractError,
    >)
        requires
            self.wf(),
        ensures
            has_key(self@.clients, client_address) ==> r == Ok::<EnterpriseClient, ContractError>(
                self@.clients[position(self@.clients, client_address)],
            ),
            !has_key(self@.clients, client_address) ==> r == Err::<
                EnterpriseClient,
                ContractError,
            >(ContractError::NotAuthorized),
    {
        match find(&self.clients, client_address) {
            Some(at) => Ok(self.clients[at].clone()),
            None => Err(ContractError::NotAuthorized),
        }
    }

    /// Sets the least confidence and the greatest age. Only the admin may;
    /// else the call is refused with `NotAuthorized` and changes nothing.
    pub fn update_enterprise_config(&mut self, admin: Address, min_confidence: u32, max_price_age: u64) -> (r:
        Result<(), ContractError>)
        requires
            old(self).wf(),
        ensures
            final(self).wf(),
            old(self)@.admin != Some(admin) ==> r == Err::<(), ContractError>(
                ContractError::NotAuthorized,
            ) && final(self)@ == old(self)@,
            old(self)@.admin == Some(admin) ==> r.is_ok() && final(self)@ == (GatewayModel {
                min_confidence,
                max_price_age,
                ..old(self)@
            }),
    {
        if self.require_admin(admin).is_err() {
            return Err(ContractError::NotAuthorized);
        }
        self.min_confidence = min_confidence;
        self.max_price_age = max_price_age;
        assert(self@ =~= (GatewayModel { min_confidence, max_price_age, ..old(self)@ }));
        Ok(())
    }
}

} // verus!
