//! The subscription table: which subscriber endpoints want which identifier.
//!
//! One multiplexer task owns the table and mutates it only through
//! register/unregister messages; on each newly indexed event it fans the
//! locator out to `subscribers_of` the event's keys.  Subscribers are named
//! by opaque endpoint numbers; the embedding program maps them to outgoing
//! channels and unregisters an endpoint when its channel closes.

use vstd::prelude::*;

use crate::shared::{key_eq, Key};

verus! {

/// The registrations that survive dropping one subscriber.
pub open spec fn spec_without_subscriber(entries: Seq<(Key, u64)>, subscriber: u64) -> Seq<
    (Key, u64),
>
    decreases entries.len(),
{
    if entries.len() == 0 {
        Seq::empty()
    } else {
        let rest = spec_without_subscriber(entries.drop_last(), subscriber);
        if entries.last().1 == subscriber {
            rest
        } else {
            rest.push(entries.last())
        }
    }
}

/// The subscribers registered for a key, in registration order.
pub open spec fn spec_subscribers_of(entries: Seq<(Key, u64)>, key: Key) -> Seq<u64>
    decreases entries.len(),
{
    if entries.len() == 0 {
        Seq::empty()
    } else {
        let rest = spec_subscribers_of(entries.drop_last(), key);
        if entries.last().0 == key {
            rest.push(entries.last().1)
        } else {
            rest
        }
    }
}

/// The subscription table, a registry of `(identifier key, subscriber)`
/// pairs.
pub struct SubscriptionTable {
    pub entries: Vec<(Key, u64)>,
}

impl View for SubscriptionTable {
    type V = Seq<(Key, u64)>;

    open spec fn view(&self) -> Seq<(Key, u64)> {
        self.entries@
    }
}

impl SubscriptionTable {
    /// An empty table: nobody is subscribed.
    pub fn new() -> (r: SubscriptionTable)
        ensures
            r@ == Seq::<(Key, u64)>::empty(),
    {
        SubscriptionTable { entries: Vec::new() }
    }

    /// Registers a subscriber's interest in a key; registering the same pair
    /// twice is a no-op.
    pub fn register(&mut self, key: Key, subscriber: u64)
        ensures
            final(self)@ == if old(self)@.contains((key, subscriber)) {
                old(self)@
            } else {
                old(self)@.push((key, subscriber))
            },
    {
        let mut i: usize = 0;
        while i < self.entries.len()
            invariant
                i <= self@.len(),
                forall|j: int| 0 <= j < i ==> self@[j] != (key, subscriber),
                self@ == old(self)@,
            decreases self@.len() - i,
        {
            if self.entries[i].1 == subscriber && key_eq(&self.entries[i].0, &key) {
                assert(self@[i as int] == (key, subscriber));
                return ;
            }
            i = i + 1;
        }
        assert(!self@.contains((key, subscriber)));
        self.entries.push((key, subscriber));
    }

    /// Drops every registration of a disconnected subscriber.
    pub fn unregister_subscriber(&mut self, subscriber: u64)
        ensures
            final(self)@ == spec_without_subscriber(old(self)@, subscriber),
    {
        let ghost orig: Seq<(Key, u64)> = self@;
        let mut kept: Vec<(Key, u64)> = Vec::new();
        let mut i: usize = 0;
        while i < self.entries.len()
            invariant
                i <= orig.len(),
                self@ == orig,
                kept@ == spec_without_subscriber(orig.take(i as int), subscriber),
            decreases orig.len() - i,
        {
            let entry = self.entries[i];
            proof {
                assert(orig.take(i as int + 1).drop_last() =~= orig.take(i as int));
                assert(orig.take(i as int + 1).last() == orig[i as int]);
            }
            if entry.1 != subscriber {
                kept.push(entry);
            }
            i = i + 1;
        }
        proof {
            assert(orig.take(orig.len() as int) =~= orig);
        }
        self.entries = kept;
    }

    /// The subscribers to deliver a `key` event to, in registration order.
    pub fn subscribers_of(&self, key: &Key) -> (r: Vec<u64>)
        ensures
            r@ == spec_subscribers_of(self@, *key),
    {
        let mut out: Vec<u64> = Vec::new();
        let mut i: usize = 0;
        while i < self.entries.len()
            invariant
                i <= self@.len(),
                out@ == spec_subscribers_of(self@.take(i as int), *key),
            decreases self@.len() - i,
        {
            proof {
                assert(self@.take(i as int + 1).drop_last() =~= self@.take(i as int));
                assert(self@.take(i as int + 1).last() == self@[i as int]);
            }
            if key_eq(&self.entries[i].0, key) {
                out.push(self.entries[i].1);
            }
            i = i + 1;
        }
        proof {
            assert(self@.take(self@.len() as int) =~= self@);
        }
        out
    }
}

/// Fan-out completeness: a subscriber receives a key's events exactly when a
/// registration for that pair stands in the table.
pub proof fn lemma_subscribers_complete(entries: Seq<(Key, u64)>, key: Key, subscriber: u64)
    ensures
        entries.contains((key, subscriber)) <==> spec_subscribers_of(entries, key).contains(
            subscriber,
        ),
    decreases entries.len(),
{
    if entries.len() > 0 {
        lemma_subscribers_complete(entries.drop_last(), key, subscriber);
        let rest = spec_subscribers_of(entries.drop_last(), key);
        let cur = spec_subscribers_of(entries, key);
        if entries.contains((key, subscriber)) {
            let i = choose|i: int| 0 <= i < entries.len() && entries[i] == (key, subscriber);
            if i == entries.len() - 1 {
                assert(cur == rest.push(subscriber));
                assert(cur[cur.len() - 1] == subscriber);
            } else {
                assert(entries.drop_last()[i] == entries[i]);
                assert(entries.drop_last().contains((key, subscriber)));
                let t = choose|t: int| 0 <= t < rest.len() && rest[t] == subscriber;
                if entries.last().0 == key {
                    assert(cur[t] == rest[t]);
                } else {
                    assert(cur == rest);
                }
            }
        }
        if cur.contains(subscriber) && !entries.contains((key, subscriber)) {
            let t = choose|t: int| 0 <= t < cur.len() && cur[t] == subscriber;
            if entries.last().0 == key && entries.last().1 == subscriber {
                assert(entries[entries.len() - 1] == (key, subscriber));
            } else if entries.last().0 == key {
                if t == cur.len() - 1 {
                    assert(cur[t] == entries.last().1);
                    assert(false);
                } else {
                    assert(cur[t] == rest[t]);
                    assert(rest.contains(subscriber));
                    let j = choose|j: int|
                        0 <= j < entries.drop_last().len() && entries.drop_last()[j] == (
                        key,
                        subscriber,
                        );
                    assert(entries[j] == (key, subscriber));
                }
            } else {
                assert(cur == rest);
                assert(rest.contains(subscriber));
                let j = choose|j: int|
                    0 <= j < entries.drop_last().len() && entries.drop_last()[j] == (
                    key,
                    subscriber,
                    );
                assert(entries[j] == (key, subscriber));
            }
        }
    }
}

} // verus!
