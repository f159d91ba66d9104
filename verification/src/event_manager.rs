//! The event bus: a registry of the platform's four contracts, a bounded
//! history of what they have emitted, subscriptions, and queries by filter.

use vstd::prelude::*;
use crate::types::{Address, ContractError};
use crate::records::ContractCallResult;
use crate::events::{
    ContractEvent, EventKind, EventSubscription, EventFilter, EVENT_KINDS, kind_of, kind_name,
    kind_at,
};
use crate::table::{
    Keyed, has_key, position, distinct_keys, find, with_keyed, store_keyed, lemma_update_keyed,
    keys_are_distinct,
};

verus! {

/// The most events that the history keeps.
pub const MAX_EVENT_HISTORY: usize = 1000;

/// Where the four contracts of the platform live.
#[derive(Clone, Copy, Debug, PartialEq, Eq, Structural)]
pub struct ContractRegistry {
    pub kale_integration: Address,
    pub reflector_oracle: Address,
    pub market_factory: Address,
    pub prediction_market: Address,
}

/// An event as the history keeps it: with the contract that emitted it and
/// the ledger time at which it did.
#[derive(Debug, PartialEq, Eq)]
pub struct EventRecord {
    pub emitter: Address,
    pub emitted_at: u64,
    pub event: ContractEvent,
}

/// How many events of one kind the history holds.
#[derive(Debug, PartialEq, Eq)]
pub struct EventTypeCount {
    /// The canonical name of the kind.
    pub event_type: String,
    pub count: u32,
}

impl Keyed for EventSubscription {
    open spec fn key(&self) -> Address {
        self.subscriber
    }

    fn key_of(&self) -> (k: Address) {
        self.subscriber
    }
}

/// Whether `address` is one of the four registered contracts.
pub open spec fn is_registered(registry: ContractRegistry, address: Address) -> bool {
    ||| address == registry.kale_integration
    ||| address == registry.reflector_oracle
    ||| address == registry.market_factory
    ||| address == registry.prediction_market
}

/// Whether every address of `addresses` is a registered contract.
pub open spec fn all_registered(registry: ContractRegistry, addresses: Seq<Address>) -> bool {
    forall|i: int| 0 <= i < addresses.len() ==> is_registered(registry, #[trigger] addresses[i])
}

/// The time of an event: the time that a price update carries, else the
/// time at which the event was emitted.
pub open spec fn event_time(record: EventRecord) -> u64 {
    match record.event {
        ContractEvent::PriceUpdated { timestamp, .. } => timestamp,
        _ => record.emitted_at,
    }
}

/// Whether the canonical name of `kind` is among `names`.
pub open spec fn names_kind(names: Seq<String>, kind: EventKind) -> bool {
    exists|i: int| 0 <= i < names.len() && (#[trigger] names[i])@ == kind_name(kind)
}

/// Whether a filter takes an event: in every dimension that the filter
/// has, the event's kind is among the names, its emitter among the
/// contracts, and its time within the bounds.
pub open spec fn filter_matches(record: EventRecord, filter: EventFilter) -> bool {
    &&& filter.event_types matches Some(names) ==> names_kind(names@, kind_of(record.event))
    &&& filter.contract_addresses matches Some(contracts) ==> contracts@.contains(record.emitter)
    &&& filter.from_timestamp matches Some(from) ==> event_time(record) >= from
    &&& filter.to_timestamp matches Some(to) ==> event_time(record) <= to
}

/// The events of `records` that `filter` takes, in their order.
pub open spec fn matching(records: Seq<EventRecord>, filter: EventFilter) -> Seq<ContractEvent>
    decreases records.len(),
{
    if records.len() == 0 {
        Seq::empty()
    } else if filter_matches(records.last(), filter) {
        matching(records.drop_last(), filter).push(records.last().event)
    } else {
        matching(records.drop_last(), filter)
    }
}

/// The history after one more event: it comes last, and where the history
/// was full its oldest event has gone.
pub open spec fn stored(history: Seq<EventRecord>, record: EventRecord) -> Seq<EventRecord> {
    if history.len() >= MAX_EVENT_HISTORY {
        history.remove(0).push(record)
    } else {
        history.push(record)
    }
}

/// The number of events of `kind` among `records`.
pub open spec fn count_kind(records: Seq<EventRecord>, kind: EventKind) -> nat
    decreases records.len(),
{
    if records.len() == 0 {
        0
    } else {
        count_kind(records.drop_last(), kind) + if kind_of(records.last().event) == kind {
            1nat
        } else {
            0nat
        }
    }
}

/// The first `n` kinds that occur among `records`, in the order of the
/// kinds, each with the number of its events.
pub open spec fn stats_upto(records: Seq<EventRecord>, n: nat) -> Seq<(EventKind, nat)>
    decreases n,
{
    if n == 0 {
        Seq::empty()
    } else if count_kind(records, kind_at(n - 1)) > 0 {
        stats_upto(records, (n - 1) as nat).push(
            (kind_at(n - 1), count_kind(records, kind_at(n - 1))),
        )
    } else {
        stats_upto(records, (n - 1) as nat)
    }
}

/// Whether `entries` name the kinds of `stats` with their counts.
pub open spec fn names_stats(entries: Seq<EventTypeCount>, stats: Seq<(EventKind, nat)>) -> bool {
    &&& entries.len() == stats.len()
    &&& forall|i: int|
        0 <= i < entries.len() ==> (#[trigger] entries[i]).event_type@ == kind_name(stats[i].0)
            && entries[i].count == stats[i].1
}

/// Whether two subscriptions say the same.
pub open spec fn same_subscription(a: EventSubscription, b: EventSubscription) -> bool {
    &&& a.subscriber == b.subscriber
    &&& a.event_types@ == b.event_types@
    &&& a.contract_addresses@ == b.contract_addresses@
    &&& a.created_at == b.created_at
    &&& a.is_active == b.is_active
}

/// The event bus as a mathematical value.
#[verifier::ext_equal]
pub struct EventBusModel {
    /// `None` until the bus is set up.
    pub admin: Option<Address>,
    /// `None` until the bus is set up.
    pub registry: Option<ContractRegistry>,
    /// The subscriptions, one per subscriber.
    pub subscriptions: Seq<EventSubscription>,
    /// The latest events, oldest first.
    pub history: Seq<EventRecord>,
}

impl EventBusModel {
    /// A bus that has not been set up.
    pub open spec fn empty() -> EventBusModel {
        EventBusModel {
            admin: None,
            registry: None,
            subscriptions: Seq::empty(),
            history: Seq::empty(),
        }
    }

    /// What holds of every bus: one subscription per subscriber, a history
    /// within its bound, and a registry exactly where there is an admin.
    pub open spec fn inv(self) -> bool {
        &&& distinct_keys(self.subscriptions)
        &&& self.history.len() <= MAX_EVENT_HISTORY
        &&& self.admin.is_some() == self.registry.is_some()
    }

    /// Whether `address` may emit: it is one of the registered contracts.
    pub open spec fn may_emit(self, address: Address) -> bool {
        self.registry.is_some() && is_registered(self.registry.unwrap(), address)
    }

    /// The answer to a registration: `NotAuthorized` unless the caller is
    /// the admin and the tag names one of the four slots; else the
    /// registry with the address in that slot.
    pub open spec fn register_result(
        self,
        admin: Address,
        contract_address: Address,
        contract_type: Seq<char>,
    ) -> Result<ContractRegistry, ContractError> {
        if self.admin != Some(admin) || self.registry.is_none() {
            Err(ContractError::NotAuthorized)
        } else {
            let registry = self.registry.unwrap();
            if contract_type == "kale_integration"@ {
                Ok(ContractRegistry { kale_integration: contract_address, ..registry })
            } else if contract_type == "reflector_oracle"@ {
                Ok(ContractRegistry { reflector_oracle: contract_address, ..registry })
            } else if contract_type == "market_factory"@ {
                Ok(ContractRegistry { market_factory: contract_address, ..registry })
            } else if contract_type == "prediction_market"@ {
                Ok(ContractRegistry { prediction_market: contract_address, ..registry })
            } else {
                Err(ContractError::NotAuthorized)
            }
        }
    }
}

/// The bounded history: after one more event the history is still within
/// its bound, the event is the latest, and where the history was full
/// exactly the oldest event has gone.
pub proof fn lemma_stored(history: Seq<EventRecord>, record: EventRecord)
    requires
        history.len() <= MAX_EVENT_HISTORY,
    ensures
        stored(history, record).len() <= MAX_EVENT_HISTORY,
        stored(history, record).last() == record,
        history.len() < MAX_EVENT_HISTORY ==> stored(history, record).drop_last() == history,
        history.len() == MAX_EVENT_HISTORY ==> stored(history, record).drop_last()
            == history.subrange(1, history.len() as int),
{
    if history.len() < MAX_EVENT_HISTORY {
        assert(stored(history, record).drop_last() =~= history);
    } else {
        assert(stored(history, record).drop_last() =~= history.subrange(1, history.len() as int));
    }
}

/// A copy of a list of names.
fn copy_names(names: &Vec<String>) -> (copy: Vec<String>)
    ensures
        copy@ == names@,
{
    let mut copy: Vec<String> = Vec::new();
    let mut i: usize = 0;
    while i < names.len()
        invariant
            i <= names.len(),
            copy@ == names@.take(i as int),
        decreases names.len() - i,
    {
        copy.push(names[i].clone());
        assert(names@.take(i + 1) =~= names@.take(i as int).push(names@[i as int]));
        i += 1;
    }
    assert(names@.take(i as int) =~= names@);
    copy
}

/// A copy of a list of addresses.
fn copy_addresses(addresses: &Vec<Address>) -> (copy: Vec<Address>)
    ensures
        copy@ == addresses@,
{
    let mut copy: Vec<Address> = Vec::new();
    let mut i: usize = 0;
    while i < addresses.len()
        invariant
            i <= addresses.len(),
            copy@ == addresses@.take(i as int),
        decreases addresses.len() - i,
    {
        copy.push(addresses[i]);
        assert(addresses@.take(i + 1) =~= addresses@.take(i as int).push(addresses@[i as int]));
        i += 1;
    }
    assert(addresses@.take(i as int) =~= addresses@);
    copy
}

/// Whether the canonical name of `kind` is among `names`; see [`names_kind`].
fn names_hold(names: &Vec<String>, kind: EventKind) -> (yes: bool)
    ensures
        yes == names_kind(names@, kind),
{
    let wanted: String = kind.name().to_owned();
    let mut i: usize = 0;
    while i < names.len()
        invariant
            i <= names.len(),
            wanted@ == kind_name(kind),
            forall|j: int| 0 <= j < i ==> (#[trigger] names@[j])@ != kind_name(kind),
        decreases names.len() - i,
    {
        if names[i] == wanted {
            assert(names@[i as int]@ == kind_name(kind));
            return true;
        }
        i += 1;
    }
    false
}

/// Whether `address` is among `addresses`.
fn holds_address(addresses: &Vec<Address>, address: Address) -> (yes: bool)
    ensures
        yes == addresses@.contains(address),
{
    let mut i: usize = 0;
    while i < addresses.len()
        invariant
            i <= addresses.len(),
            forall|j: int| 0 <= j < i ==> addresses@[j] != address,
        decreases addresses.len() - i,
    {
        if addresses[i] == address {
            assert(addresses@[i as int] == address);
            return true;
        }
        i += 1;
    }
    false
}

/// Whether `registry` holds `address`; see [`is_registered`].
fn registry_holds(registry: &ContractRegistry, address: Address) -> (yes: bool)
    ensures
        yes == is_registered(*registry, address),
{
    address == registry.kale_integration || address == registry.reflector_oracle || address
        == registry.market_factory || address == registry.prediction_market
}

/// The event bus.
pub struct EventManagerContract {
    /// `None` until the bus is set up.
    pub admin: Option<Address>,
    /// `None` until the bus is set up.
    pub registry: Option<ContractRegistry>,
    /// The subscriptions, one per subscriber.
    pub subscriptions: Vec<EventSubscription>,
    /// The latest events, oldest first.
    pub history: Vec<EventRecord>,
}

impl View for EventManagerContract {
    type V = EventBusModel;

    open spec fn view(&self) -> EventBusModel {
        EventBusModel {
            admin: self.admin,
            registry: self.registry,
            subscriptions: self.subscriptions@,
            history: self.history@,
        }
    }
}

impl EventManagerContract {
    /// Whether the bus is in order; see [`EventBusModel::inv`].
    pub open spec fn wf(&self) -> bool {
        self@.inv()
    }

    /// A bus that has not been set up.
    pub fn new() -> (bus: Self)
        ensures
            bus.wf(),
            bus@ == EventBusModel::empty(),
    {
        EventManagerContract {
            admin: None,
            registry: None,
            subscriptions: Vec::new(),
            history: Vec::new(),
        }
    }

    /// Checks whether the bus is in order, as a bus must be that was put
    /// together from its parts; see [`EventBusModel::inv`].
    pub fn validate(&self) -> (ok: bool)
        ensures
            ok == self.wf(),
    {
        keys_are_distinct(&self.subscriptions) && self.history.len() <= MAX_EVENT_HISTORY
            && self.admin.is_some() == self.registry.is_some()
    }

    /// Sets the bus up with the four contracts of the platform, once: a
    /// second call is refused with `NotAuthorized` and changes nothing.
    pub fn initialize(
        &mut self,
        admin: Address,
        kale_integration: Address,
        reflector_oracle: Address,
        market_factory: Address,
        prediction_market: Address,
    ) -> (r: Result<(), ContractError>)
        requires
            old(self).wf(),
        ensures
            final(self).wf(),
            old(self)@.admin.is_some() ==> r == Err::<(), ContractError>(
                ContractError::NotAuthorized,
            ) && final(self)@ == old(self)@,
            old(self)@.admin.is_none() ==> r.is_ok() && final(self)@ == (EventBusModel {
                admin: Some(admin),
                registry: Some(
                    ContractRegistry {
                        kale_integration,
                        reflector_oracle,
                        market_factory,
                        prediction_market,
                    },
                ),
                ..old(self)@
            }),
    {
        if self.admin.is_some() {
            return Err(ContractError::NotAuthorized);
        }
        self.admin = Some(admin);
        self.registry = Some(
            ContractRegistry {
                kale_integration,
                reflector_oracle,
                market_factory,
                prediction_market,
            },
        );
        assert(self@ =~= (EventBusModel {
            admin: Some(admin),
            registry: self@.registry,
            ..old(self)@
        }));
        Ok(())
    }

    /// Whether `contract_address` is one of the four registered contracts:
    /// `NotAuthorized` before the bus is set up.
    pub fn is_registered_contract(&self, contract_address: Address) -> (r: Result<
        bool,
        ContractError,
    >)
        ensures
            match self@.registry {
                Some(registry) => r == Ok::<bool, ContractError>(
                    is_registered(registry, contract_address),
                ),
                None => r == Err::<bool, ContractError>(ContractError::NotAuthorized),
            },
    {
        match &self.registry {
            Some(registry) => Ok(registry_holds(registry, contract_address)),
            None => Err(ContractError::NotAuthorized),
        }
    }

    /// Adds an event to the history, dropping the oldest where the history
    /// is full.
    pub fn store_event(&mut self, record: EventRecord)
        requires
            old(self).wf(),
        ensures
            final(self).wf(),
            final(self)@ == (EventBusModel {
                history: stored(old(self)@.history, record),
                ..old(self)@
            }),
    {
        if self.history.len() >= MAX_EVENT_HISTORY {
            self.history.remove(0);
        }
        self.history.push(record);
        assert(self@ =~= (EventBusModel {
            history: stored(old(self)@.history, record),
            ..old(self)@
        }));
    }

    /// Takes an event that `emitter` emits at the ledger time `now` into
    /// the history. Only the four registered contracts may emit; any other
    /// caller is refused with `NotAuthorized`, and nothing changes.
    pub fn emit_event(&mut self, emitter: Address, event: ContractEvent, now: u64) -> (r: Result<
        (),
        ContractError,
    >)
        requires
            old(self).wf(),
        ensures
            final(self).wf(),
            !old(self)@.may_emit(emitter) ==> r == Err::<(), ContractError>(
                ContractError::NotAuthorized,
            ) && final(self)@ == old(self)@,
            old(self)@.may_emit(emitter) ==> r.is_ok() && final(self)@ == (EventBusModel {
                history: stored(
                    old(self)@.history,
                    EventRecord { emitter, emitted_at: now, event },
                ),
                ..old(self)@
            }),
    {
        match self.is_registered_contract(emitter) {
            Ok(true) => {},
            _ => {
                return Err(ContractError::NotAuthorized);
            },
        }
        self.store_event(EventRecord { emitter, emitted_at: now, event });
        Ok(())
    }

    /// Records what `subscriber` wants to hear of, at the ledger time
    /// `now`, in place of what they wanted before. Every contract named
    /// must be registered: else the answer is a failure, and before the
    /// bus is set up the call is refused with `NotAuthorized`; nothing
    /// changes either way.
    pub fn subscribe_to_events(
        &mut self,
        subscriber: Address,
        event_types: Vec<String>,
        contract_addresses: Vec<Address>,
        now: u64,
    ) -> (r: Result<ContractCallResult<EventSubscription>, ContractError>)
        requires
            old(self).wf(),
        ensures
            final(self).wf(),
            contract_addresses.len() > 0 && old(self)@.registry.is_none() ==> r.is_err()
                && r.unwrap_err() == ContractError::NotAuthorized && final(self)@ == old(self)@,
            old(self)@.registry.is_some() && !all_registered(
                old(self)@.registry.unwrap(),
                contract_addresses@,
            ) ==> r.is_ok() && r.unwrap().is_failure_with("Invalid contract address"@) && final(self)@ == old(self)@,
            contract_addresses.len() == 0 || (old(self)@.registry.is_some() && all_registered(
                old(self)@.registry.unwrap(),
                contract_addresses@,
            )) ==> r.is_ok() && r.unwrap().success && r.unwrap().error.is_none()
                && r.unwrap().data.is_some() && same_subscription(
                r.unwrap().data.unwrap(),
                EventSubscription {
                    subscriber,
                    event_types,
                    contract_addresses,
                    created_at: now,
                    is_active: true,
                },
            ) && final(self)@ == (EventBusModel {
                subscriptions: with_keyed(
                    old(self)@.subscriptions,
                    EventSubscription {
                        subscriber,
                        event_types,
                        contract_addresses,
                        created_at: now,
                        is_active: true,
                    },
                ),
                ..old(self)@
            }),
    {
        let mut i: usize = 0;
        while i < contract_addresses.len()
            invariant
                i <= contract_addresses.len(),
                self@ == old(self)@,
                self.wf(),
                i > 0 ==> self@.registry.is_some(),
                self@.registry.is_some() ==> all_registered(
                    self@.registry.unwrap(),
                    contract_addresses@.take(i as int),
                ),
            decreases contract_addresses.len() - i,
        {
            match self.is_registered_contract(contract_addresses[i]) {
                Err(e) => {
                    return Err(e);
                },
                Ok(false) => {
                    return Ok(ContractCallResult::failure("Invalid contract address"));
                },
                Ok(true) => {},
            }
            proof {
                let registry = self@.registry.unwrap();
                assert forall|j: int| 0 <= j < i + 1 implies is_registered(
                    registry,
                    #[trigger] contract_addresses@.take(i + 1)[j],
                ) by {
                    if j < i {
                        assert(contract_addresses@.take(i as int)[j] == contract_addresses@[j]);
                    }
                }
            }
            i += 1;
        }
        assert(contract_addresses@.take(i as int) =~= contract_addresses@);
        let copy = EventSubscription {
            subscriber,
            event_types: copy_names(&event_types),
            contract_addresses: copy_addresses(&contract_addresses),
            created_at: now,
            is_active: true,
        };
        let subscription = EventSubscription {
            subscriber,
            event_types,
            contract_addresses,
            created_at: now,
            is_active: true,
        };
        store_keyed(&mut self.subscriptions, subscription);
        assert(self@ =~= (EventBusModel {
            subscriptions: with_keyed(old(self)@.subscriptions, subscription),
            ..old(self)@
        }));
        Ok(ContractCallResult { success: true, data: Some(copy), error: None })
    }

    /// Marks the subscription of `subscriber` as no longer active; nothing
    /// changes where they have none.
    pub fn unsubscribe_from_events(&mut self, subscriber: Address)
        requires
            old(self).wf(),
        ensures
            final(self).wf(),
            !has_key(old(self)@.subscriptions, subscriber) ==> final(self)@ == old(self)@,
            has_key(old(self)@.subscriptions, subscriber) ==> final(self)@ == (EventBusModel {
                subscriptions: old(self)@.subscriptions.update(
                    position(old(self)@.subscriptions, subscriber),
                    EventSubscription {
                        is_active: false,
                        ..old(self)@.subscriptions[position(old(self)@.subscriptions, subscriber)]
                    },
                ),
                ..old(self)@
            }),
    {
        if let Some(at) = find(&self.subscriptions, subscriber) {
            let mut subscription = self.subscriptions.remove(at);
            subscription.is_active = false;
            proof {
                lemma_update_keyed(old(self)@.subscriptions, at as int, subscription);
            }
            self.subscriptions.insert(at, subscription);
            assert(self@.subscriptions =~= old(self)@.subscriptions.update(
                at as int,
                subscription,
            ));
        }
    }

    /// The canonical name of an event's kind.
    pub fn get_event_type_name(event: &ContractEvent) -> (name: &'static str)
        ensures
            name@ == kind_name(kind_of(*event)),
    {
        EventKind::of(event).name()
    }

    /// The contract that emitted an event.
    pub fn get_event_contract_address(record: &EventRecord) -> (emitter: Address)
        ensures
            emitter == record.emitter,
    {
        record.emitter
    }

    /// The time of an event; see [`event_time`].
    pub fn get_event_timestamp(record: &EventRecord) -> (time: u64)
        ensures
            time == event_time(*record),
    {
        match &record.event {
            ContractEvent::PriceUpdated { timestamp, .. } => *timestamp,
            _ => record.emitted_at,
        }
    }

    /// Whether a filter takes an event; see [`filter_matches`].
    pub fn matches_filter(record: &EventRecord, filter: &EventFilter) -> (matches: bool)
        ensures
            matches == filter_matches(*record, *filter),
    {
        if let Some(names) = &filter.event_types {
            if !names_hold(names, EventKind::of(&record.event)) {
                return false;
            }
        }
        if let Some(contracts) = &filter.contract_addresses {
            if !holds_address(contracts, record.emitter) {
                return false;
            }
        }
        let time = Self::get_event_timestamp(record);
        if let Some(from) = filter.from_timestamp {
            if time < from {
                return false;
            }
        }
        if let Some(to) = filter.to_timestamp {
            if time > to {
                return false;
            }
        }
        true
    }

    /// The events of the history that `filter` takes, oldest first.
    pub fn query_events(&self, filter: &EventFilter) -> (r: ContractCallResult<Vec<ContractEvent>>)
        ensures
            r.success,
            r.error.is_none(),
            r.data.is_some(),
            r.data.unwrap()@ == matching(self@.history, *filter),
    {
        let mut filtered: Vec<ContractEvent> = Vec::new();
        let mut i: usize = 0;
        while i < self.history.len()
            invariant
                i <= self.history.len(),
                filtered@ == matching(self.history@.take(i as int), *filter),
            decreases self.history.len() - i,
        {
            assert(self.history@.take(i + 1).drop_last() =~= self.history@.take(i as int));
            if Self::matches_filter(&self.history[i], filter) {
                filtered.push(self.history[i].event.clone());
            }
            i += 1;
        }
        assert(self.history@.take(i as int) =~= self.history@);
        ContractCallResult { success: true, data: Some(filtered), error: None }
    }

    /// The registry: `NotAuthorized` before the bus is set up.
    pub fn get_contract_registry(&self) -> (r: Result<ContractRegistry, ContractError>)
        ensures
            match self@.registry {
                Some(registry) => r == Ok::<ContractRegistry, ContractError>(registry),
                None => r == Err::<ContractRegistry, ContractError>(ContractError::NotAuthorized),
            },
    {
        match self.registry {
            Some(registry) => Ok(registry),
            None => Err(ContractError::NotAuthorized),
        }
    }

    /// Puts `contract_address` into the slot of the registry that
    /// `contract_type` names: `kale_integration`, `reflector_oracle`,
    /// `market_factory` or `prediction_market`. Only the admin may; any
    /// other caller and any other tag is refused with `NotAuthorized`, and
    /// nothing changes.
    pub fn register_contract(&mut self, admin: Address, contract_address: Address, contract_type: &String) -> (r:
        Result<(), ContractError>)
        requires
            old(self).wf(),
        ensures
            final(self).wf(),
            match old(self)@.register_result(admin, contract_address, contract_type@) {
                Err(e) => r == Err::<(), ContractError>(e) && final(self)@ == old(self)@,
                Ok(registry) => r.is_ok() && final(self)@ == (EventBusModel {
                    registry: Some(registry),
                    ..old(self)@
                }),
            },
    {
        match self.admin {
            Some(stored) => {
                if stored != admin {
                    return Err(ContractError::NotAuthorized);
                }
            },
            None => {
                return Err(ContractError::NotAuthorized);
            },
        }
        let registry = match self.registry {
            Some(registry) => registry,
            None => {
                return Err(ContractError::NotAuthorized);
            },
        };
        let updated = if *contract_type == "kale_integration".to_owned() {
            ContractRegistry {
                kale_integration: contract_address,
                reflector_oracle: registry.reflector_oracle,
                market_factory: registry.market_factory,
                prediction_market: registry.prediction_market,
            }
        } else if *contract_type == "reflector_oracle".to_owned() {
            ContractRegistry {
                kale_integration: registry.kale_integration,
                reflector_oracle: contract_address,
                market_factory: registry.market_factory,
                prediction_market: registry.prediction_market,
            }
        } else if *contract_type == "market_factory".to_owned() {
            ContractRegistry {
                kale_integration: registry.kale_integration,
                reflector_oracle: registry.reflector_oracle,
                market_factory: contract_address,
                prediction_market: registry.prediction_market,
            }
        } else if *contract_type == "prediction_market".to_owned() {
            ContractRegistry {
                kale_integration: registry.kale_integration,
                reflector_oracle: registry.reflector_oracle,
                market_factory: registry.market_factory,
                prediction_market: contract_address,
            }
        } else {
            return Err(ContractError::NotAuthorized);
        };
        self.registry = Some(updated);
        assert(self@ =~= (EventBusModel { registry: Some(updated), ..old(self)@ }));
        Ok(())
    }

    /// Takes the report of a call between contracts, made by
    /// `from_contract` at the ledger time `now`, into the history; see
    /// [`Self::emit_event`].
    pub fn emit_cross_contract_event(
        &mut self,
        from_contract: Address,
        to_contract: Address,
        function_name: String,
        success: bool,
        error_message: Option<String>,
        now: u64,
    ) -> (r: Result<(), ContractError>)
        requires
            old(self).wf(),
        ensures
            final(self).wf(),
            !old(self)@.may_emit(from_contract) ==> r == Err::<(), ContractError>(
                ContractError::NotAuthorized,
            ) && final(self)@ == old(self)@,
            old(self)@.may_emit(from_contract) ==> r.is_ok() && final(self)@ == (EventBusModel {
                history: stored(
                    old(self)@.history,
                    EventRecord {
                        emitter: from_contract,
                        emitted_at: now,
                        event: ContractEvent::CrossContractCall {
                            from_contract,
                            to_contract,
                            function_name,
                            success,
                            error_message,
                        },
                    },
                ),
                ..old(self)@
            }),
    {
        self.emit_event(
            from_contract,
            ContractEvent::CrossContractCall {
                from_contract,
                to_contract,
                function_name,
                success,
                error_message,
            },
            now,
        )
    }

    /// The number of events of `kind` in the history.
    fn count_events(&self, kind: EventKind) -> (count: u32)
        requires
            self.wf(),
        ensures
            count == count_kind(self@.history, kind),
    {
        let mut count: u32 = 0;
        let mut i: usize = 0;
        while i < self.history.len()
            invariant
                i <= self.history.len(),
                self.history.len() <= MAX_EVENT_HISTORY,
                count == count_kind(self.history@.take(i as int), kind),
                count <= i,
            decreases self.history.len() - i,
        {
            assert(self.history@.take(i + 1).drop_last() =~= self.history@.take(i as int));
            if EventKind::of(&self.history[i].event) == kind {
                count += 1;
            }
            i += 1;
        }
        assert(self.history@.take(i as int) =~= self.history@);
        count
    }

    /// The kinds of events that the history holds, in the order of their
    /// names, each with the number of its events.
    pub fn get_event_stats(&self) -> (r: ContractCallResult<Vec<EventTypeCount>>)
        requires
            self.wf(),
        ensures
            r.success,
            r.error.is_none(),
            r.data.is_some(),
            names_stats(r.data.unwrap()@, stats_upto(self@.history, EVENT_KINDS as nat)),
    {
        let mut stats: Vec<EventTypeCount> = Vec::new();
        let mut k: usize = 0;
        while k < EVENT_KINDS
            invariant
                k <= EVENT_KINDS,
                self.wf(),
                names_stats(stats@, stats_upto(self@.history, k as nat)),
            decreases EVENT_KINDS - k,
        {
            let kind = EventKind::at(k);
            let count = self.count_events(kind);
            if count > 0 {
                let ghost earlier = stats@;
                stats.push(EventTypeCount { event_type: kind.name().to_owned(), count });
                proof {
                    let target = stats_upto(self@.history, (k + 1) as nat);
                    assert forall|i: int| 0 <= i < stats@.len() implies (#[trigger] stats@[i]).event_type@
                        == kind_name(target[i].0) && stats@[i].count == target[i].1 by {
                        if i < earlier.len() {
                            assert(stats@[i] == earlier[i]);
                        }
                    }
                }
            }
            k += 1;
        }
        ContractCallResult { success: true, data: Some(stats), error: None }
    }
}

} // verus!
