//! Who is subscribed to which asset's price: a list in the order of the
//! subscriptions, with nobody subscribed twice to the same asset.

use vstd::prelude::*;
use crate::types::Address;

verus! {

/// One subscriber of one asset's price.
#[derive(Debug, PartialEq, Eq)]
pub struct Subscription {
    pub asset_name: String,
    pub subscriber: Address,
}

/// Whether `entry` is the subscription of `subscriber` to `asset`.
pub open spec fn is_pair(entry: Subscription, asset: Seq<char>, subscriber: Address) -> bool {
    entry.asset_name@ == asset && entry.subscriber == subscriber
}

/// Whether `subscriber` is subscribed to `asset`.
pub open spec fn is_subscribed(subs: Seq<Subscription>, asset: Seq<char>, subscriber: Address) -> bool {
    exists|i: int| 0 <= i < subs.len() && #[trigger] is_pair(subs[i], asset, subscriber)
}

/// The place of the subscription of `subscriber` to `asset`, where there is one.
pub open spec fn pair_position(subs: Seq<Subscription>, asset: Seq<char>, subscriber: Address) -> int {
    choose|i: int| 0 <= i < subs.len() && #[trigger] is_pair(subs[i], asset, subscriber)
}

/// Whether nobody is subscribed twice to the same asset.
pub open spec fn distinct_pairs(subs: Seq<Subscription>) -> bool {
    forall|i: int, j: int|
        0 <= i < j < subs.len() ==> !is_pair(
            #[trigger] subs[i],
            (#[trigger] subs[j]).asset_name@,
            subs[j].subscriber,
        )
}

/// The subscribers of `asset`, in the order in which they subscribed.
pub open spec fn subscribers_of(subs: Seq<Subscription>, asset: Seq<char>) -> Seq<Address>
    decreases subs.len(),
{
    if subs.len() == 0 {
        Seq::empty()
    } else if subs.last().asset_name@ == asset {
        subscribers_of(subs.drop_last(), asset).push(subs.last().subscriber)
    } else {
        subscribers_of(subs.drop_last(), asset)
    }
}

/// Looks for the subscription of `subscriber` to `asset_name`.
pub fn find_pair(subs: &Vec<Subscription>, asset_name: &String, subscriber: Address) -> (found: Option<
    usize,
>)
    ensures
        found.is_some() == is_subscribed(subs@, asset_name@, subscriber),
        found matches Some(i) ==> i < subs.len() && is_pair(
            subs@[i as int],
            asset_name@,
            subscriber,
        ),
        found matches Some(i) ==> (distinct_pairs(subs@) ==> i == pair_position(
            subs@,
            asset_name@,
            subscriber,
        )),
{
    let mut i: usize = 0;
    while i < subs.len()
        invariant
            i <= subs.len(),
            forall|j: int| 0 <= j < i ==> !#[trigger] is_pair(subs@[j], asset_name@, subscriber),
        decreases subs.len() - i,
    {
        if subs[i].subscriber == subscriber && subs[i].asset_name == *asset_name {
            proof {
                assert(is_pair(subs@[i as int], asset_name@, subscriber));
                if distinct_pairs(subs@) {
                    let p = pair_position(subs@, asset_name@, subscriber);
                    assert(is_pair(subs@[p], asset_name@, subscriber));
                    if p < i {
                        assert(!is_pair(subs@[p], subs@[i as int].asset_name@, subs@[i as int].subscriber));
                    } else if i < p {
                        assert(!is_pair(subs@[i as int], subs@[p].asset_name@, subs@[p].subscriber));
                    }
                }
            }
            return Some(i);
        }
        i += 1;
    }
    None
}

/// The list after `subscriber` subscribed to `asset_name`: listed last,
/// unless listed already.
pub open spec fn with_subscription(
    subs: Seq<Subscription>,
    subscriber: Address,
    asset_name: String,
) -> Seq<Subscription> {
    if is_subscribed(subs, asset_name@, subscriber) {
        subs
    } else {
        subs.push(Subscription { asset_name, subscriber })
    }
}

/// The list after `subscriber` unsubscribed from `asset`.
pub open spec fn without_subscription(
    subs: Seq<Subscription>,
    subscriber: Address,
    asset: Seq<char>,
) -> Seq<Subscription> {
    if is_subscribed(subs, asset, subscriber) {
        subs.remove(pair_position(subs, asset, subscriber))
    } else {
        subs
    }
}

/// The subscribers of an asset are those that are subscribed to it.
pub proof fn lemma_subscribers_are_subscribed(subs: Seq<Subscription>, asset: Seq<char>, subscriber: Address)
    ensures
        subscribers_of(subs, asset).contains(subscriber) == is_subscribed(subs, asset, subscriber),
    decreases subs.len(),
{
    if subs.len() > 0 {
        let rest = subs.drop_last();
        let last = subs.last();
        lemma_subscribers_are_subscribed(rest, asset, subscriber);
        let listed = subscribers_of(rest, asset);
        if is_subscribed(subs, asset, subscriber) {
            let at = pair_position(subs, asset, subscriber);
            if at < rest.len() {
                assert(is_pair(rest[at], asset, subscriber));
                assert(listed.contains(subscriber));
                if last.asset_name@ == asset {
                    assert(listed.push(last.subscriber)[listed.index_of(subscriber)]
                        == subscriber);
                }
            } else {
                assert(listed.push(subscriber)[listed.len() as int] == subscriber);
            }
        }
        if subscribers_of(subs, asset).contains(subscriber) {
            if last.asset_name@ == asset && last.subscriber == subscriber {
                assert(is_pair(subs[subs.len() - 1], asset, subscriber));
            } else {
                let shown = subscribers_of(subs, asset);
                let at = shown.index_of(subscriber);
                if last.asset_name@ == asset {
                    assert(at < listed.len());
                    assert(listed[at] == subscriber);
                }
                assert(listed.contains(subscriber));
                let found = pair_position(rest, asset, subscriber);
                assert(is_pair(subs[found], asset, subscriber));
            }
        }
    }
}

/// Subscribing is idempotent: whoever subscribes is subscribed, joins the
/// asset's subscribers at the end unless they are among them already,
/// changes the subscribers of no other asset, and changes nothing by
/// subscribing again.
pub proof fn lemma_subscribe_settles(subs: Seq<Subscription>, subscriber: Address, asset_name: String)
    ensures
        is_subscribed(with_subscription(subs, subscriber, asset_name), asset_name@, subscriber),
        with_subscription(
            with_subscription(subs, subscriber, asset_name),
            subscriber,
            asset_name,
        ) == with_subscription(subs, subscriber, asset_name),
        subscribers_of(with_subscription(subs, subscriber, asset_name), asset_name@) == if is_subscribed(
            subs,
            asset_name@,
            subscriber,
        ) {
            subscribers_of(subs, asset_name@)
        } else {
            subscribers_of(subs, asset_name@).push(subscriber)
        },
        forall|other: Seq<char>|
            other != asset_name@ ==> subscribers_of(
                with_subscription(subs, subscriber, asset_name),
                other,
            ) == subscribers_of(subs, other),
{
    let after = with_subscription(subs, subscriber, asset_name);
    if !is_subscribed(subs, asset_name@, subscriber) {
        let entry = Subscription { asset_name, subscriber };
        assert(after.drop_last() =~= subs);
        assert(is_pair(after[subs.len() as int], asset_name@, subscriber));
    }
}

/// Unsubscribing is idempotent: whoever unsubscribes is no longer among
/// the asset's subscribers, and changes nothing by unsubscribing again.
pub proof fn lemma_unsubscribe_settles(subs: Seq<Subscription>, subscriber: Address, asset: Seq<char>)
    requires
        distinct_pairs(subs),
    ensures
        !is_subscribed(without_subscription(subs, subscriber, asset), asset, subscriber),
        !subscribers_of(without_subscription(subs, subscriber, asset), asset).contains(subscriber),
        without_subscription(without_subscription(subs, subscriber, asset), subscriber, asset)
            == without_subscription(subs, subscriber, asset),
{
    let after = without_subscription(subs, subscriber, asset);
    if is_subscribed(subs, asset, subscriber) {
        let at = pair_position(subs, asset, subscriber);
        assert(is_pair(subs[at], asset, subscriber));
        if is_subscribed(after, asset, subscriber) {
            let p = pair_position(after, asset, subscriber);
            let shifted = if p < at { p } else { p + 1 };
            assert(after[p] == subs[shifted]);
            if shifted < at {
                assert(!is_pair(subs[shifted], subs[at].asset_name@, subs[at].subscriber));
            } else {
                assert(!is_pair(subs[at], subs[shifted].asset_name@, subs[shifted].subscriber));
            }
        }
    }
    lemma_subscribers_are_subscribed(after, asset, subscriber);
}

/// Subscribes `subscriber` to `asset_name`; nothing changes where they are
/// subscribed already.
pub fn add_subscription(subs: &mut Vec<Subscription>, subscriber: Address, asset_name: String)
    requires
        distinct_pairs(old(subs)@),
    ensures
        distinct_pairs(final(subs)@),
        final(subs)@ == with_subscription(old(subs)@, subscriber, asset_name),
        is_subscribed(final(subs)@, asset_name@, subscriber),
{
    if find_pair(subs, &asset_name, subscriber).is_some() {
        return ;
    }
    let entry = Subscription { asset_name, subscriber };
    proof {
        let before = subs@;
        let after = before.push(entry);
        assert(is_pair(after[before.len() as int], asset_name@, subscriber));
        assert forall|i: int, j: int| 0 <= i < j < after.len() implies !is_pair(
            #[trigger] after[i],
            (#[trigger] after[j]).asset_name@,
            after[j].subscriber,
        ) by {
            if j == before.len() {
                assert(after[i] == before[i]);
                assert(!is_pair(before[i], asset_name@, subscriber));
            } else {
                assert(after[i] == before[i] && after[j] == before[j]);
            }
        }
    }
    subs.push(entry);
}

/// Takes `subscriber` off `asset_name`; nothing changes where they are not
/// subscribed.
pub fn remove_subscription(subs: &mut Vec<Subscription>, subscriber: Address, asset_name: &String)
    requires
        distinct_pairs(old(subs)@),
    ensures
        distinct_pairs(final(subs)@),
        final(subs)@ == without_subscription(old(subs)@, subscriber, asset_name@),
        !is_subscribed(final(subs)@, asset_name@, subscriber),
{
    if let Some(at) = find_pair(subs, asset_name, subscriber) {
        proof {
            let before = subs@;
            let after = before.remove(at as int);
            assert forall|i: int| 0 <= i < after.len() implies #[trigger] after[i] == before[if i
                < at {
                i
            } else {
                i + 1
            }] by {}
            assert forall|i: int, j: int| 0 <= i < j < after.len() implies !is_pair(
                #[trigger] after[i],
                (#[trigger] after[j]).asset_name@,
                after[j].subscriber,
            ) by {
                let i0 = if i < at { i } else { i + 1 };
                let j0 = if j < at { j } else { j + 1 };
                assert(after[i] == before[i0] && after[j] == before[j0]);
                assert(!is_pair(before[i0], before[j0].asset_name@, before[j0].subscriber));
            }
            if is_subscribed(after, asset_name@, subscriber) {
                let p = pair_position(after, asset_name@, subscriber);
                let shifted = if p < at { p } else { p + 1 };
                assert(after[p] == before[shifted]);
                assert(is_pair(before[shifted], asset_name@, subscriber));
                assert(is_pair(before[at as int], asset_name@, subscriber));
                if shifted < at {
                    assert(!is_pair(
                        before[shifted],
                        before[at as int].asset_name@,
                        before[at as int].subscriber,
                    ));
                } else {
                    assert(!is_pair(
                        before[at as int],
                        before[shifted].asset_name@,
                        before[shifted].subscriber,
                    ));
                }
            }
        }
        subs.remove(at);
    }
}

/// The subscribers of an asset, in the order in which they subscribed.
pub fn list_subscribers(subs: &Vec<Subscription>, asset_name: &String) -> (subscribers: Vec<Address>)
    ensures
        subscribers@ == subscribers_of(subs@, asset_name@),
{
    let mut subscribers: Vec<Address> = Vec::new();
    let mut i: usize = 0;
    while i < subs.len()
        invariant
            i <= subs.len(),
            subscribers@ == subscribers_of(subs@.take(i as int), asset_name@),
        decreases subs.len() - i,
    {
        assert(subs@.take(i + 1).drop_last() =~= subs@.take(i as int));
        if subs[i].asset_name == *asset_name {
            subscribers.push(subs[i].subscriber);
        }
        i += 1;
    }
    assert(subs@.take(i as int) =~= subs@);
    subscribers
}

/// Checks whether nobody is subscribed twice to the same asset; see
/// [`distinct_pairs`].
pub fn pairs_are_distinct(subs: &Vec<Subscription>) -> (yes: bool)
    ensures
        yes == distinct_pairs(subs@),
{
    let mut j: usize = 0;
    while j < subs.len()
        invariant
            j <= subs.len(),
            forall|a: int, b: int|
                0 <= a < b < j ==> !is_pair(
                    #[trigger] subs@[a],
                    (#[trigger] subs@[b]).asset_name@,
                    subs@[b].subscriber,
                ),
        decreases subs.len() - j,
    {
        let mut i: usize = 0;
        while i < j
            invariant
                i <= j < subs.len(),
                forall|a: int|
                    0 <= a < i ==> !is_pair(
                        #[trigger] subs@[a],
                        subs@[j as int].asset_name@,
                        subs@[j as int].subscriber,
                    ),
            decreases j - i,
        {
            if subs[i].subscriber == subs[j].subscriber && subs[i].asset_name
                == subs[j].asset_name {
                assert(is_pair(
                    subs@[i as int],
                    subs@[j as int].asset_name@,
                    subs@[j as int].subscriber,
                ));
                return false;
            }
            i += 1;
        }
        j += 1;
    }
    true
}

} // verus!
