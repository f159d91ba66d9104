//! The price and event oracle: a registry of trusted nodes with a
//! reputation each, the latest price per asset and outcome per event, and
//! the gates of confidence and staleness on what is submitted and read.

use vstd::prelude::*;
use crate::types::{Address, ContractError, MarketOutcome, price_meets, price_outcome};
use crate::records::{PriceFeed, EventData, ContractCallResult, OracleSubscription};
use crate::table::{
    Keyed, Named, has_key, position, distinct_keys, find, distinct_names, find_named, named,
    with_named, store_named, lemma_with_named, lemma_push_keyed, lemma_update_keyed,
    lemma_remove_keyed, keys_are_distinct, names_are_distinct,
};
use crate::subscriptions::{
    Subscription, is_subscribed, distinct_pairs, subscribers_of, with_subscription,
    without_subscription, add_subscription, remove_subscription, list_subscribers,
    pairs_are_distinct,
};
use crate::price_feeds::{
    MAX_REPUTATION, DEFAULT_MIN_CONFIDENCE, DEFAULT_MAX_PRICE_AGE, reputation_after,
    update_reputation, is_stale, feed_is_stale, price_lookup, read_price,
};

verus! {

/// A node that may report to the oracle.
#[derive(Clone, Copy, Debug, PartialEq, Eq, Structural)]
pub struct OracleNode {
    pub address: Address,
    pub is_active: bool,
    /// From 0 to 100.
    pub reputation_score: u32,
    /// When the node last submitted anything.
    pub last_update: u64,
}

impl Keyed for OracleNode {
    open spec fn key(&self) -> Address {
        self.address
    }

    fn key_of(&self) -> (k: Address) {
        self.address
    }
}

/// The oracle as a mathematical value.
#[verifier::ext_equal]
pub struct OracleModel {
    /// `None` until the oracle is set up.
    pub admin: Option<Address>,
    /// The nodes, one per address, in the order in which they were added.
    pub nodes: Seq<OracleNode>,
    /// The latest price of each asset, one feed per asset.
    pub feeds: Seq<PriceFeed>,
    /// The latest outcome of each event, one record per event.
    pub events: Seq<EventData>,
    /// Who is subscribed to which asset, in the order of the subscriptions.
    pub subscriptions: Seq<Subscription>,
    /// The least confidence that a submission needs.
    pub min_confidence: u32,
    /// The age in seconds up to which a price is fresh.
    pub max_price_age: u64,
}

impl OracleModel {
    /// An oracle that has not been set up.
    pub open spec fn empty() -> OracleModel {
        OracleModel {
            admin: None,
            nodes: Seq::empty(),
            feeds: Seq::empty(),
            events: Seq::empty(),
            subscriptions: Seq::empty(),
            min_confidence: DEFAULT_MIN_CONFIDENCE,
            max_price_age: DEFAULT_MAX_PRICE_AGE,
        }
    }

    /// What holds of every oracle: one node per address, one feed per
    /// asset, one record per event, nobody subscribed twice to an asset,
    /// and every reputation within 0 and 100.
    pub open spec fn inv(self) -> bool {
        &&& distinct_keys(self.nodes)
        &&& distinct_names(self.feeds)
        &&& distinct_names(self.events)
        &&& distinct_pairs(self.subscriptions)
        &&& forall|i: int|
            0 <= i < self.nodes.len() ==> (#[trigger] self.nodes[i]).reputation_score
                <= MAX_REPUTATION
    }

    /// The node of `address`, where there is one.
    pub open spec fn node(self, address: Address) -> OracleNode
        recommends
            has_key(self.nodes, address),
    {
        self.nodes[position(self.nodes, address)]
    }

    /// Whether `address` is a node that may submit: registered and active.
    pub open spec fn authorized(self, address: Address) -> bool {
        has_key(self.nodes, address) && self.node(address).is_active
    }

    /// The answer to the admin's adding a node: `NotAuthorized` unless the
    /// caller is the admin and the node is new.
    pub open spec fn add_node_result(self, admin: Address, node_address: Address) -> Result<
        (),
        ContractError,
    > {
        if self.admin != Some(admin) || has_key(self.nodes, node_address) {
            Err(ContractError::NotAuthorized)
        } else {
            Ok(())
        }
    }

    /// The oracle after a node was added at `now`: active, with the highest
    /// reputation.
    pub open spec fn after_add_node(self, node_address: Address, now: u64) -> OracleModel {
        OracleModel {
            nodes: self.nodes.push(
                OracleNode {
                    address: node_address,
                    is_active: true,
                    reputation_score: MAX_REPUTATION,
                    last_update: now,
                },
            ),
            ..self
        }
    }

    /// The answer to the admin's removing a node: `NotAuthorized` unless the
    /// caller is the admin and the node exists.
    pub open spec fn remove_node_result(self, admin: Address, node_address: Address) -> Result<
        (),
        ContractError,
    > {
        if self.admin != Some(admin) || !has_key(self.nodes, node_address) {
            Err(ContractError::NotAuthorized)
        } else {
            Ok(())
        }
    }

    /// The oracle after a node was removed.
    pub open spec fn after_remove_node(self, node_address: Address) -> OracleModel {
        OracleModel { nodes: self.nodes.remove(position(self.nodes, node_address)), ..self }
    }

    /// The oracle after the node of `address`, if there is one, was seen at
    /// `now`.
    pub open spec fn with_node_seen(self, address: Address, now: u64) -> OracleModel {
        if has_key(self.nodes, address) {
            OracleModel {
                nodes: self.nodes.update(
                    position(self.nodes, address),
                    OracleNode { last_update: now, ..self.node(address) },
                ),
                ..self
            }
        } else {
            self
        }
    }

    /// The oracle after the reputation of the node of `address`, if there
    /// is one, followed a submission of the given confidence; see
    /// [`reputation_after`].
    pub open spec fn with_reputation(self, address: Address, confidence: u32) -> OracleModel {
        if has_key(self.nodes, address) {
            OracleModel {
                nodes: self.nodes.update(
                    position(self.nodes, address),
                    OracleNode {
                        reputation_score: reputation_after(
                            self.node(address).reputation_score,
                            confidence,
                        ),
                        ..self.node(address)
                    },
                ),
                ..self
            }
        } else {
            self
        }
    }

    /// The answer to a submission: `NotAuthorized` unless the node may
    /// submit, `OracleError` below the least confidence.
    pub open spec fn submit_result(self, oracle_node: Address, confidence: u32) -> Result<
        (),
        ContractError,
    > {
        if !self.authorized(oracle_node) {
            Err(ContractError::NotAuthorized)
        } else if confidence < self.min_confidence {
            Err(ContractError::OracleError)
        } else {
            Ok(())
        }
    }

    /// The oracle after `feed` replaced the feed of its asset.
    pub open spec fn with_feed(self, feed: PriceFeed) -> OracleModel {
        OracleModel { feeds: with_named(self.feeds, feed), ..self }
    }

    /// The oracle after `data` replaced the record of its event.
    pub open spec fn with_event(self, data: EventData) -> OracleModel {
        OracleModel { events: with_named(self.events, data), ..self }
    }

    /// The oracle after an accepted price: the feed replaces the asset's
    /// feed, the node's reputation follows the confidence, and the node is
    /// marked as seen at the feed's time.
    pub open spec fn after_price(self, oracle_node: Address, feed: PriceFeed) -> OracleModel
        recommends
            has_key(self.nodes, oracle_node),
    {
        OracleModel {
            feeds: with_named(self.feeds, feed),
            nodes: self.nodes.update(
                position(self.nodes, oracle_node),
                OracleNode {
                    reputation_score: reputation_after(
                        self.node(oracle_node).reputation_score,
                        feed.confidence,
                    ),
                    last_update: feed.timestamp,
                    ..self.node(oracle_node)
                },
            ),
            ..self
        }
    }

    /// The oracle after an accepted event outcome: the record replaces the
    /// event's record, and the node is marked as seen at the record's time.
    pub open spec fn after_event(self, oracle_node: Address, data: EventData) -> OracleModel
        recommends
            has_key(self.nodes, oracle_node),
    {
        OracleModel {
            events: with_named(self.events, data),
            nodes: self.nodes.update(
                position(self.nodes, oracle_node),
                OracleNode { last_update: data.timestamp, ..self.node(oracle_node) },
            ),
            ..self
        }
    }

    /// The answer to a price request at `now`; see [`price_lookup`].
    pub open spec fn price_result(self, asset: Seq<char>, now: u64) -> Result<
        PriceFeed,
        ContractError,
    > {
        price_lookup(self.feeds, asset, now, self.max_price_age)
    }

    /// The oracle after `subscriber` subscribed to `asset_name`: listed
    /// last, unless listed already.
    pub open spec fn after_subscribe(self, subscriber: Address, asset_name: String) -> OracleModel {
        OracleModel {
            subscriptions: with_subscription(self.subscriptions, subscriber, asset_name),
            ..self
        }
    }

    /// The oracle after `subscriber` unsubscribed from `asset`.
    pub open spec fn after_unsubscribe(self, subscriber: Address, asset: Seq<char>) -> OracleModel {
        OracleModel {
            subscriptions: without_subscription(self.subscriptions, subscriber, asset),
            ..self
        }
    }

    /// The oracle after the first `n` prices of a batch: each one that has
    /// the least confidence is taken as a submission of its own, in turn.
    pub open spec fn after_batch(
        self,
        oracle_node: Address,
        assets: Seq<String>,
        prices: Seq<i128>,
        confidences: Seq<u32>,
        source: String,
        now: u64,
        n: nat,
    ) -> OracleModel
        decreases n,
    {
        if n == 0 {
            self
        } else {
            let before = self.after_batch(
                oracle_node,
                assets,
                prices,
                confidences,
                source,
                now,
                (n - 1) as nat,
            );
            if confidences[n - 1] >= self.min_confidence {
                before.after_price(
                    oracle_node,
                    PriceFeed {
                        asset_name: assets[n - 1],
                        price: prices[n - 1],
                        timestamp: now,
                        confidence: confidences[n - 1],
                        source,
                    },
                )
            } else {
                before
            }
        }
    }
}

/// The assets among the first `n` of a batch whose prices have the least
/// confidence, in their order.
pub open spec fn batch_accepted(
    assets: Seq<String>,
    confidences: Seq<u32>,
    min_confidence: u32,
    n: nat,
) -> Seq<String>
    decreases n,
{
    if n == 0 {
        Seq::empty()
    } else if confidences[n - 1] >= min_confidence {
        batch_accepted(assets, confidences, min_confidence, (n - 1) as nat).push(assets[n - 1])
    } else {
        batch_accepted(assets, confidences, min_confidence, (n - 1) as nat)
    }
}

/// An accepted price keeps the oracle in order, the node registered and
/// active, and the settings as they are.
pub proof fn lemma_price_keeps_inv(m: OracleModel, oracle_node: Address, feed: PriceFeed)
    requires
        m.inv(),
        m.authorized(oracle_node),
    ensures
        m.after_price(oracle_node, feed).inv(),
        m.after_price(oracle_node, feed).authorized(oracle_node),
        m.after_price(oracle_node, feed).min_confidence == m.min_confidence,
        m.after_price(oracle_node, feed).max_price_age == m.max_price_age,
        named(m.after_price(oracle_node, feed).feeds, feed.name()) == Some(feed),
        m.after_price(oracle_node, feed).node(oracle_node).reputation_score == reputation_after(
            m.node(oracle_node).reputation_score,
            feed.confidence,
        ),
{
    let at = position(m.nodes, oracle_node);
    assert(m.nodes[at].key() == oracle_node);
    let after = m.after_price(oracle_node, feed);
    lemma_update_keyed(m.nodes, at, after.nodes[at]);
    lemma_with_named(m.feeds, feed);
    assert forall|i: int| 0 <= i < after.nodes.len() implies (#[trigger] after.nodes[i]).reputation_score
        <= MAX_REPUTATION by {
        assert(m.nodes[i].reputation_score <= MAX_REPUTATION);
    }
}

/// Marking a node as seen, or letting its reputation follow a submission,
/// keeps the oracle in order and every node where it was, as active as it
/// was.
pub proof fn lemma_node_update_keeps_inv(m: OracleModel, address: Address, now: u64, confidence: u32)
    requires
        m.inv(),
    ensures
        m.with_node_seen(address, now).inv(),
        m.with_reputation(address, confidence).inv(),
        forall|a: Address|
            has_key(m.with_node_seen(address, now).nodes, a) == has_key(m.nodes, a) && has_key(
                m.with_reputation(address, confidence).nodes,
                a,
            ) == has_key(m.nodes, a),
        forall|a: Address|
            has_key(m.nodes, a) ==> position(m.with_node_seen(address, now).nodes, a) == position(
                m.nodes,
                a,
            ) && position(m.with_reputation(address, confidence).nodes, a) == position(m.nodes, a),
{
    if has_key(m.nodes, address) {
        let at = position(m.nodes, address);
        assert(m.nodes[at].key() == address);
        let seen = m.with_node_seen(address, now);
        let rated = m.with_reputation(address, confidence);
        lemma_update_keyed(m.nodes, at, seen.nodes[at]);
        lemma_update_keyed(m.nodes, at, rated.nodes[at]);
        assert forall|i: int| 0 <= i < seen.nodes.len() implies (#[trigger] seen.nodes[i]).reputation_score
            <= MAX_REPUTATION by {
            assert(m.nodes[i].reputation_score <= MAX_REPUTATION);
        }
        assert forall|i: int| 0 <= i < rated.nodes.len() implies (#[trigger] rated.nodes[i]).reputation_score
            <= MAX_REPUTATION by {
            assert(m.nodes[i].reputation_score <= MAX_REPUTATION);
        }
    }
}

/// An accepted event outcome keeps the oracle in order.
pub proof fn lemma_event_keeps_inv(m: OracleModel, oracle_node: Address, data: EventData)
    requires
        m.inv(),
        m.authorized(oracle_node),
    ensures
        m.after_event(oracle_node, data).inv(),
        named(m.after_event(oracle_node, data).events, data.name()) == Some(data),
{
    let at = position(m.nodes, oracle_node);
    assert(m.nodes[at].key() == oracle_node);
    let after = m.after_event(oracle_node, data);
    lemma_update_keyed(m.nodes, at, after.nodes[at]);
    lemma_with_named(m.events, data);
    assert forall|i: int| 0 <= i < after.nodes.len() implies (#[trigger] after.nodes[i]).reputation_score
        <= MAX_REPUTATION by {
        assert(m.nodes[i].reputation_score <= MAX_REPUTATION);
    }
}

/// The oracle.
pub struct ReflectorOracleContract {
    /// `None` until the oracle is set up.
    pub admin: Option<Address>,
    /// The nodes, one per address.
    pub nodes: Vec<OracleNode>,
    /// The latest price of each asset.
    pub feeds: Vec<PriceFeed>,
    /// The latest outcome of each event.
    pub events: Vec<EventData>,
    /// Who is subscribed to which asset.
    pub subscriptions: Vec<Subscription>,
    /// The least confidence that a submission needs.
    pub min_confidence: u32,
    /// The age in seconds up to which a price is fresh.
    pub max_price_age: u64,
}

impl View for ReflectorOracleContract {
    type V = OracleModel;

    open spec fn view(&self) -> OracleModel {
        OracleModel {
            admin: self.admin,
            nodes: self.nodes@,
            feeds: self.feeds@,
            events: self.events@,
            subscriptions: self.subscriptions@,
            min_confidence: self.min_confidence,
            max_price_age: self.max_price_age,
        }
    }
}

impl ReflectorOracleContract {
    /// Whether the oracle is in order; see [`OracleModel::inv`].
    pub open spec fn wf(&self) -> bool {
        self@.inv()
    }

    /// An oracle that has not been set up.
    pub fn new() -> (oracle: Self)
        ensures
            oracle.wf(),
            oracle@ == OracleModel::empty(),
    {
        ReflectorOracleContract {
            admin: None,
            nodes: Vec::new(),
            feeds: Vec::new(),
            events: Vec::new(),
            subscriptions: Vec::new(),
            min_confidence: DEFAULT_MIN_CONFIDENCE,
            max_price_age: DEFAULT_MAX_PRICE_AGE,
        }
    }

    /// Checks whether the oracle is in order, as an oracle must be that was
    /// put together from its parts; see [`OracleModel::inv`].
    pub fn validate(&self) -> (ok: bool)
        ensures
            ok == self.wf(),
    {
        if !keys_are_distinct(&self.nodes) || !names_are_distinct(&self.feeds)
            || !names_are_distinct(&self.events) || !pairs_are_distinct(&self.subscriptions) {
            return false;
        }
        let mut i: usize = 0;
        while i < self.nodes.len()
            invariant
                i <= self.nodes.len(),
                forall|j: int|
                    0 <= j < i ==> (#[trigger] self.nodes@[j]).reputation_score <= MAX_REPUTATION,
            decreases self.nodes.len() - i,
        {
            if self.nodes[i].reputation_score > MAX_REPUTATION {
                return false;
            }
            i += 1;
        }
        true
    }

    /// Sets the oracle up, once: a second call is refused with
    /// `NotAuthorized` and changes nothing. The oracle starts without nodes.
    pub fn initialize(&mut self, admin: Address, min_confidence: u32, max_price_age: u64) -> (r:
        Result<(), ContractError>)
        requires
            old(self).wf(),
        ensures
            final(self).wf(),
            old(self)@.admin.is_some() ==> r == Err::<(), ContractError>(
                ContractError::NotAuthorized,
            ) && final(self)@ == old(self)@,
            old(self)@.admin.is_none() ==> r.is_ok() && final(self)@ == (OracleModel {
                admin: Some(admin),
                nodes: Seq::empty(),
                min_confidence,
                max_price_age,
                ..old(self)@
            }),
    {
        if self.admin.is_some() {
            return Err(ContractError::NotAuthorized);
        }
        self.admin = Some(admin);
        self.nodes = Vec::new();
        self.min_confidence = min_confidence;
        self.max_price_age = max_price_age;
        assert(self@ =~= (OracleModel {
            admin: Some(admin),
            nodes: Seq::empty(),
            min_confidence,
            max_price_age,
            ..old(self)@
        }));
        Ok(())
    }

    /// Whether `caller` is the admin.
    fn is_admin(&self, caller: Address) -> (yes: bool)
        ensures
            yes == (self@.admin == Some(caller)),
    {
        match self.admin {
            Some(stored) => stored == caller,
            None => false,
        }
    }

    /// Adds a node at the ledger time `now`: active, with the highest
    /// reputation. Only the admin may, and only a node that is new. A
    /// refused call changes nothing.
    pub fn add_oracle_node(&mut self, admin: Address, node_address: Address, now: u64) -> (r: Result<
        (),
        ContractError,
    >)
        requires
            old(self).wf(),
        ensures
            final(self).wf(),
            r == old(self)@.add_node_result(admin, node_address),
            r.is_ok() ==> final(self)@ == old(self)@.after_add_node(node_address, now),
            r.is_err() ==> final(self)@ == old(self)@,
    {
        if !self.is_admin(admin) {
            return Err(ContractError::NotAuthorized);
        }
        if find(&self.nodes, node_address).is_some() {
            return Err(ContractError::NotAuthorized);
        }
        let node = OracleNode {
            address: node_address,
            is_active: true,
            reputation_score: MAX_REPUTATION,
            last_update: now,
        };
        proof {
            lemma_push_keyed(self.nodes@, node);
        }
        self.nodes.push(node);
        assert(self@ =~= old(self)@.after_add_node(node_address, now));
        Ok(())
    }

    /// Removes a node. Only the admin may, and only a node that exists. A
    /// refused call changes nothing.
    pub fn remove_oracle_node(&mut self, admin: Address, node_address: Address) -> (r: Result<
        (),
        ContractError,
    >)
        requires
            old(self).wf(),
        ensures
            final(self).wf(),
            r == old(self)@.remove_node_result(admin, node_address),
            r.is_ok() ==> final(self)@ == old(self)@.after_remove_node(node_address)
                && !has_key(final(self)@.nodes, node_address),
            r.is_err() ==> final(self)@ == old(self)@,
    {
        if !self.is_admin(admin) {
            return Err(ContractError::NotAuthorized);
        }
        match find(&self.nodes, node_address) {
            Some(at) => {
                proof {
                    lemma_remove_keyed(self.nodes@, at as int);
                    assert forall|i: int| 0 <= i < self.nodes@.remove(at as int).len() implies (
                    #[trigger] self.nodes@.remove(at as int)[i]).reputation_score
                        <= MAX_REPUTATION by {
                        let j = if i < at { i } else { i + 1 };
                        assert(self.nodes@.remove(at as int)[i] == self.nodes@[j]);
                    }
                }
                self.nodes.remove(at);
                assert(self@ =~= old(self)@.after_remove_node(node_address));
                Ok(())
            },
            None => Err(ContractError::NotAuthorized),
        }
    }

    /// Whether `oracle_address` is a node that may submit.
    pub fn is_authorized_oracle(&self, oracle_address: Address) -> (yes: bool)
        requires
            self.wf(),
        ensures
            yes == self@.authorized(oracle_address),
    {
        match find(&self.nodes, oracle_address) {
            Some(at) => self.nodes[at].is_active,
            None => false,
        }
    }

    /// Marks the node of `oracle_address` as seen at the ledger time `now`;
    /// nothing changes where there is no such node.
    pub fn update_oracle_node_activity(&mut self, oracle_address: Address, now: u64)
        requires
            old(self).wf(),
        ensures
            final(self).wf(),
            final(self)@ == old(self)@.with_node_seen(oracle_address, now),
    {
        proof {
            lemma_node_update_keeps_inv(self@, oracle_address, now, 0);
        }
        if let Some(at) = find(&self.nodes, oracle_address) {
            let node = self.nodes[at];
            self.nodes.set(
                at,
                OracleNode {
                    address: node.address,
                    is_active: node.is_active,
                    reputation_score: node.reputation_score,
                    last_update: now,
                },
            );
        }
        assert(self@ =~= old(self)@.with_node_seen(oracle_address, now));
    }

    /// Lets the reputation of the node of `oracle_address` follow a
    /// submission of the given confidence; nothing changes where there is
    /// no such node.
    pub fn update_oracle_reputation(&mut self, oracle_address: Address, confidence: u32)
        requires
            old(self).wf(),
        ensures
            final(self).wf(),
            final(self)@ == old(self)@.with_reputation(oracle_address, confidence),
    {
        proof {
            lemma_node_update_keeps_inv(self@, oracle_address, 0, confidence);
        }
        if let Some(at) = find(&self.nodes, oracle_address) {
            let node = self.nodes[at];
            self.nodes.set(
                at,
                OracleNode {
                    address: node.address,
                    is_active: node.is_active,
                    reputation_score: update_reputation(node.reputation_score, confidence),
                    last_update: node.last_update,
                },
            );
        }
        assert(self@ =~= old(self)@.with_reputation(oracle_address, confidence));
    }

    /// Takes a price that has passed the gates.
    fn apply_price(&mut self, oracle_node: Address, feed: PriceFeed)
        requires
            old(self).wf(),
            old(self)@.authorized(oracle_node),
        ensures
            final(self).wf(),
            final(self)@ == old(self)@.after_price(oracle_node, feed),
    {
        let confidence = feed.confidence;
        let time = feed.timestamp;
        proof {
            lemma_price_keeps_inv(self@, oracle_node, feed);
            lemma_node_update_keeps_inv(self@.with_feed(feed), oracle_node, time, confidence);
        }
        store_named(&mut self.feeds, feed);
        assert(self@ =~= old(self)@.with_feed(feed));
        self.update_oracle_reputation(oracle_node, confidence);
        self.update_oracle_node_activity(oracle_node, time);
        assert(self@ =~= old(self)@.after_price(oracle_node, feed));
    }

    /// Submits the price of an asset at the ledger time `now`. The node
    /// must be registered and active and the confidence at least the
    /// configured one. The price replaces the asset's feed; the node's
    /// reputation follows the confidence. A refused call changes nothing.
    pub fn update_price(
        &mut self,
        oracle_node: Address,
        asset_name: String,
        price: i128,
        confidence: u32,
        source: String,
        now: u64,
    ) -> (r: Result<(), ContractError>)
        requires
            old(self).wf(),
        ensures
            final(self).wf(),
            r == old(self)@.submit_result(oracle_node, confidence),
            r.is_ok() ==> final(self)@ == old(self)@.after_price(
                oracle_node,
                PriceFeed { asset_name, price, timestamp: now, confidence, source },
            ),
            r.is_err() ==> final(self)@ == old(self)@,
    {
        if !self.is_authorized_oracle(oracle_node) {
            return Err(ContractError::NotAuthorized);
        }
        if confidence < self.min_confidence {
            return Err(ContractError::OracleError);
        }
        self.apply_price(
            oracle_node,
            PriceFeed { asset_name, price, timestamp: now, confidence, source },
        );
        Ok(())
    }

    /// Submits the outcome of an event at the ledger time `now`, under the
    /// gates of a price submission. The record replaces the event's record.
    /// A refused call changes nothing.
    pub fn submit_event_data(
        &mut self,
        oracle_node: Address,
        event_id: String,
        outcome: MarketOutcome,
        confidence: u32,
        data_source: String,
        now: u64,
    ) -> (r: Result<(), ContractError>)
        requires
            old(self).wf(),
        ensures
            final(self).wf(),
            r == old(self)@.submit_result(oracle_node, confidence),
            r.is_ok() ==> final(self)@ == old(self)@.after_event(
                oracle_node,
                EventData { event_id, outcome, timestamp: now, confidence, data_source },
            ),
            r.is_err() ==> final(self)@ == old(self)@,
    {
        if !self.is_authorized_oracle(oracle_node) {
            return Err(ContractError::NotAuthorized);
        }
        if confidence < self.min_confidence {
            return Err(ContractError::OracleError);
        }
        let data = EventData { event_id, outcome, timestamp: now, confidence, data_source };
        proof {
            lemma_event_keeps_inv(self@, oracle_node, data);
        }
        store_named(&mut self.events, data);
        assert(self@ =~= old(self)@.with_event(data));
        self.update_oracle_node_activity(oracle_node, now);
        assert(self@ =~= old(self)@.after_event(oracle_node, data));
        Ok(())
    }

    /// The latest price of an asset at the ledger time `now`: `OracleError`
    /// where there is none or it is older than the configured age.
    pub fn get_price(&self, asset_name: &String, now: u64) -> (r: Result<PriceFeed, ContractError>)
        requires
            self.wf(),
        ensures
            r == self@.price_result(asset_name@, now),
    {
        read_price(&self.feeds, asset_name, now, self.max_price_age)
    }

    /// The latest outcome of an event: `OracleError` where there is none.
    pub fn get_event_data(&self, event_id: &String) -> (r: Result<EventData, ContractError>)
        requires
            self.wf(),
        ensures
            match named(self@.events, event_id@) {
                Some(data) => r == Ok::<EventData, ContractError>(data),
                None => r == Err::<EventData, ContractError>(ContractError::OracleError),
            },
    {
        match find_named(&self.events, event_id) {
            Some(i) => Ok(self.events[i].clone()),
            None => Err(ContractError::OracleError),
        }
    }

    /// Subscribes `subscriber` to an asset's price; nothing changes where
    /// they are subscribed already.
    pub fn subscribe(&mut self, subscriber: Address, asset_name: String)
        requires
            old(self).wf(),
        ensures
            final(self).wf(),
            final(self)@ == old(self)@.after_subscribe(subscriber, asset_name),
            is_subscribed(final(self)@.subscriptions, asset_name@, subscriber),
    {
        add_subscription(&mut self.subscriptions, subscriber, asset_name);
        assert(self@ =~= old(self)@.after_subscribe(subscriber, asset_name));
    }

    /// Takes `subscriber` off an asset's price; nothing changes where they
    /// are not subscribed.
    pub fn unsubscribe(&mut self, subscriber: Address, asset_name: &String)
        requires
            old(self).wf(),
        ensures
            final(self).wf(),
            final(self)@ == old(self)@.after_unsubscribe(subscriber, asset_name@),
            !is_subscribed(final(self)@.subscriptions, asset_name@, subscriber),
    {
        remove_subscription(&mut self.subscriptions, subscriber, asset_name);
        assert(self@ =~= old(self)@.after_unsubscribe(subscriber, asset_name@));
    }

    /// The nodes, in the order in which they were added.
    pub fn get_oracle_nodes(&self) -> (nodes: Vec<OracleNode>)
        ensures
            nodes@ == self@.nodes,
    {
        let mut nodes: Vec<OracleNode> = Vec::new();
        let mut i: usize = 0;
        while i < self.nodes.len()
            invariant
                i <= self.nodes.len(),
                nodes@ == self.nodes@.take(i as int),
            decreases self.nodes.len() - i,
        {
            nodes.push(self.nodes[i]);
            assert(self.nodes@.take(i + 1) =~= self.nodes@.take(i as int).push(self.nodes@[i as int]));
            i += 1;
        }
        assert(self.nodes@.take(i as int) =~= self.nodes@);
        nodes
    }

    /// The subscribers of an asset, in the order in which they subscribed.
    pub fn get_subscribers(&self, asset_name: &String) -> (subscribers: Vec<Address>)
        ensures
            subscribers@ == subscribers_of(self@.subscriptions, asset_name@),
    {
        list_subscribers(&self.subscriptions, asset_name)
    }

    /// Whether an asset has a price that is fresh at the ledger time `now`.
    pub fn is_price_available(&self, asset_name: &String, now: u64) -> (available: bool)
        requires
            self.wf(),
        ensures
            available == self@.price_result(asset_name@, now).is_ok(),
    {
        match find_named(&self.feeds, asset_name) {
            Some(i) => !feed_is_stale(&self.feeds[i], now, self.max_price_age),
            None => false,
        }
    }

    /// Sets the least confidence and the greatest age. Only the admin may.
    /// A refused call changes nothing.
    pub fn update_config(&mut self, admin: Address, min_confidence: u32, max_price_age: u64) -> (r:
        Result<(), ContractError>)
        requires
            old(self).wf(),
        ensures
            final(self).wf(),
            old(self)@.admin != Some(admin) ==> r == Err::<(), ContractError>(
                ContractError::NotAuthorized,
            ) && final(self)@ == old(self)@,
            old(self)@.admin == Some(admin) ==> r.is_ok() && final(self)@ == (OracleModel {
                min_confidence,
                max_price_age,
                ..old(self)@
            }),
    {
        if !self.is_admin(admin) {
            return Err(ContractError::NotAuthorized);
        }
        self.min_confidence = min_confidence;
        self.max_price_age = max_price_age;
        assert(self@ =~= (OracleModel { min_confidence, max_price_age, ..old(self)@ }));
        Ok(())
    }

    /// Subscribes `subscriber` to an asset's price with a threshold, at the
    /// ledger time `now`. Where the asset has no fresh price, the answer is
    /// a failure and nothing changes.
    pub fn subscribe_with_threshold(
        &mut self,
        subscriber: Address,
        asset_name: String,
        threshold: i128,
        condition: u32,
        now: u64,
    ) -> (r: ContractCallResult<OracleSubscription>)
        requires
            old(self).wf(),
        ensures
            final(self).wf(),
            old(self)@.price_result(asset_name@, now).is_err() ==> r.is_failure_with(
                "Price not available for asset"@,
            ) && final(self)@ == old(self)@,
            old(self)@.price_result(asset_name@, now).is_ok() ==> r.is_ok_with(
                OracleSubscription {
                    subscriber,
                    asset_name,
                    threshold,
                    condition,
                    created_at: now,
                    is_active: true,
                },
            ) && final(self)@ == old(self)@.after_subscribe(subscriber, asset_name),
    {
        if !self.is_price_available(&asset_name, now) {
            return ContractCallResult::failure("Price not available for asset");
        }
        let subscription = OracleSubscription {
            subscriber,
            asset_name: asset_name.clone(),
            threshold,
            condition,
            created_at: now,
            is_active: true,
        };
        self.subscribe(subscriber, asset_name);
        ContractCallResult::ok(subscription)
    }

    /// Submits the prices of several assets at once, at the ledger time
    /// `now`. The answer is a failure, and nothing changes, where the node
    /// may not submit or the three lists differ in length. Else each price
    /// that has the least confidence is taken as by [`Self::update_price`],
    /// the others are passed over, and the answer lists the assets taken.
    pub fn batch_update_prices(
        &mut self,
        oracle_node: Address,
        assets: Vec<String>,
        prices: Vec<i128>,
        confidences: Vec<u32>,
        source: String,
        now: u64,
    ) -> (r: ContractCallResult<Vec<String>>)
        requires
            old(self).wf(),
        ensures
            final(self).wf(),
            !old(self)@.authorized(oracle_node) ==> r.is_failure_with("Unauthorized oracle node"@)
                && final(self)@ == old(self)@,
            old(self)@.authorized(oracle_node) && !(assets.len() == prices.len() && assets.len()
                == confidences.len()) ==> r.is_failure_with("Mismatched array lengths"@)
                && final(self)@ == old(self)@,
            old(self)@.authorized(oracle_node) && assets.len() == prices.len() && assets.len()
                == confidences.len() ==> r.success && r.error.is_none() && r.data.is_some()
                && r.data.unwrap()@ == batch_accepted(
                assets@,
                confidences@,
                old(self)@.min_confidence,
                assets.len() as nat,
            ) && final(self)@ == old(self)@.after_batch(
                oracle_node,
                assets@,
                prices@,
                confidences@,
                source,
                now,
                assets.len() as nat,
            ),
    {
        if !self.is_authorized_oracle(oracle_node) {
            return ContractCallResult::failure("Unauthorized oracle node");
        }
        if assets.len() != prices.len() || assets.len() != confidences.len() {
            return ContractCallResult::failure("Mismatched array lengths");
        }
        let ghost start = self@;
        let mut updated_assets: Vec<String> = Vec::new();
        let mut i: usize = 0;
        while i < assets.len()
            invariant
                i <= assets.len(),
                assets.len() == prices.len(),
                assets.len() == confidences.len(),
                self.wf(),
                self@.authorized(oracle_node),
                self@.min_confidence == start.min_confidence,
                self@ == start.after_batch(
                    oracle_node,
                    assets@,
                    prices@,
                    confidences@,
                    source,
                    now,
                    i as nat,
                ),
                updated_assets@ == batch_accepted(
                    assets@,
                    confidences@,
                    start.min_confidence,
                    i as nat,
                ),
            decreases assets.len() - i,
        {
            if confidences[i] >= self.min_confidence {
                let feed = PriceFeed {
                    asset_name: assets[i].clone(),
                    price: prices[i],
                    timestamp: now,
                    confidence: confidences[i],
                    source: source.clone(),
                };
                proof {
                    lemma_price_keeps_inv(self@, oracle_node, feed);
                }
                self.apply_price(oracle_node, feed);
                updated_assets.push(assets[i].clone());
            }
            i += 1;
        }
        ContractCallResult { success: true, data: Some(updated_assets), error: None }
    }

    /// The latest price of an asset at the ledger time `now`, or
    /// `fallback_price` with a remark where there is no price or it is too
    /// old. Never a failure.
    pub fn get_price_with_fallback(&self, asset_name: &String, fallback_price: i128, now: u64) -> (r:
        ContractCallResult<i128>)
        requires
            self.wf(),
        ensures
            match named(self@.feeds, asset_name@) {
                None => r.is_degraded_with(fallback_price, "No price data, using fallback"@),
                Some(feed) => if is_stale(feed, now, self@.max_price_age) {
                    r.is_degraded_with(fallback_price, "Price too old, using fallback"@)
                } else {
                    r.is_ok_with(feed.price)
                },
            },
    {
        match find_named(&self.feeds, asset_name) {
            Some(i) => {
                if feed_is_stale(&self.feeds[i], now, self.max_price_age) {
                    ContractCallResult::degraded(fallback_price, "Price too old, using fallback")
                } else {
                    ContractCallResult::ok(self.feeds[i].price)
                }
            },
            None => ContractCallResult::degraded(fallback_price, "No price data, using fallback"),
        }
    }

    /// Decides a market from the latest price of its asset at the ledger
    /// time `now`: `OracleError` where there is no fresh price; a failure
    /// where the price's confidence is below the required one; else
    /// whether the price meets the condition against the target.
    pub fn validate_market_resolution(
        &self,
        asset_name: &String,
        target_price: i128,
        condition: u32,
        required_confidence: u32,
        now: u64,
    ) -> (r: Result<ContractCallResult<bool>, ContractError>)
        requires
            self.wf(),
        ensures
            match self@.price_result(asset_name@, now) {
                Err(e) => r.is_err() && r.unwrap_err() == e,
                Ok(feed) => r.is_ok() && if feed.confidence < required_confidence {
                    r.unwrap().is_failure_with("Insufficient confidence for resolution"@)
                } else {
                    r.unwrap().is_ok_with(
                        price_meets(condition, feed.price as int, target_price as int),
                    )
                },
            },
    {
        let feed = match self.get_price(asset_name, now) {
            Ok(feed) => feed,
            Err(e) => {
                return Err(e);
            },
        };
        if feed.confidence < required_confidence {
            return Ok(ContractCallResult::failure("Insufficient confidence for resolution"));
        }
        Ok(ContractCallResult::ok(price_outcome(condition, feed.price, target_price)))
    }
}

} // verus!
