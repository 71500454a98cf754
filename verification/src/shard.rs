//! One shard: an independent partition of the keyspace.
//!
//! A shard owns a mapping from key to the key's current entry and an expiry
//! queue. The mapping alone decides what `get` returns. The queue only tells
//! the eviction pass which keys to examine, and it is brought up to date by
//! that pass, never by `get` or `set`.

use crate::clock::ttl_nanos;
use crate::clock::ttl_to_nanos;
use crate::clock::Clock;
use crate::queue::expiry_view;
use crate::queue::is_due;
use crate::queue::Expiry;
use crate::queue::ExpiryQueue;
use crate::queue::QueueRecord;
use std::time::Duration;
use vstd::hash_map::StringHashMap;
use vstd::prelude::*;

verus! {

/// What an entry holds, in contracts.
pub struct ItemView {
    pub key: Seq<char>,
    pub value: Seq<char>,
    pub expires_at: Expiry,
}

/// The state of a shard, in contracts.
#[verifier::ext_equal]
pub struct ShardState {
    /// The current entry of each key: the truth for readers.
    pub items: Map<Seq<char>, ItemView>,
    /// The expiry under which each key is queued for examination. It may
    /// differ from the expiry of the key's current entry.
    pub schedule: Map<Seq<char>, Expiry>,
}

/// The expiry of an entry written at `now` with the given time-to-live.
pub open spec fn deadline(ttl: Option<nat>, now: nat) -> Expiry {
    match ttl {
        Some(d) => Some(now + d),
        None => None,
    }
}

/// An entry with this expiry is visible to a reader at `now`: it never
/// expires, or its expiry is still ahead.
pub open spec fn is_live(expires_at: Expiry, now: nat) -> bool {
    match expires_at {
        Some(t) => now < t,
        None => true,
    }
}

impl ShardState {
    /// The state of a new shard.
    pub open spec fn empty() -> ShardState {
        ShardState { items: Map::empty(), schedule: Map::empty() }
    }

    /// What every reachable state satisfies: exactly the keys of the mapping
    /// are queued, and each entry is stored under its own key.
    pub open spec fn wf(self) -> bool {
        &&& forall|k: Seq<char>| self.items.contains_key(k) <==> self.schedule.contains_key(k)
        &&& forall|k: Seq<char>| self.items.contains_key(k) ==> (#[trigger] self.items[k]).key == k
    }

    /// The state after `set`: the mapping holds the new entry in place of any
    /// earlier one, and the key is queued under the new expiry only if it was
    /// not in the mapping before.
    pub open spec fn set(self, key: Seq<char>, value: Seq<char>, ttl: Option<nat>, now: nat) -> ShardState {
        ShardState {
            items: self.items.insert(key, ItemView { key, value, expires_at: deadline(ttl, now) }),
            schedule: if self.items.contains_key(key) {
                self.schedule
            } else {
                self.schedule.insert(key, deadline(ttl, now))
            },
        }
    }

    /// What `get` returns at `now`: the value of the key's entry if there is
    /// one and it is live.
    pub open spec fn get(self, key: Seq<char>, now: nat) -> Option<Seq<char>> {
        if self.items.contains_key(key) && is_live(self.items[key].expires_at, now) {
            Some(self.items[key].value)
        } else {
            None
        }
    }

    /// `after` is this state after an eviction pass at some time.
    pub open spec fn sweeps_to(self, after: ShardState) -> bool {
        exists|now: nat| after == #[trigger] self.sweep(now)
    }

    /// The eviction pass at `now` removes this key: its queued expiry is due
    /// and so is the expiry of its current entry.
    pub open spec fn evicts(self, key: Seq<char>, now: nat) -> bool {
        &&& self.items.contains_key(key)
        &&& self.schedule.contains_key(key)
        &&& is_due(self.schedule[key], now)
        &&& is_due(self.items[key].expires_at, now)
    }

    /// The state after an eviction pass at `now`. Keys whose queued expiry is
    /// not due are left alone. Of the others, those whose entry is due leave
    /// the mapping and the queue; the rest stay and are queued again under the
    /// expiry of their current entry.
    pub open spec fn sweep(self, now: nat) -> ShardState {
        ShardState {
            items: Map::new(
                |k: Seq<char>| self.items.contains_key(k) && !self.evicts(k, now),
                |k: Seq<char>| self.items[k],
            ),
            schedule: Map::new(
                |k: Seq<char>| self.schedule.contains_key(k) && !self.evicts(k, now),
                |k: Seq<char>|
                    if is_due(self.schedule[k], now) {
                        self.items[k].expires_at
                    } else {
                        self.schedule[k]
                    },
            ),
        }
    }
}

/// The keys whose queued expiry is due at `now`.
spec fn due_keys(schedule: Map<Seq<char>, Expiry>, now: nat) -> Set<Seq<char>> {
    Set::new(|k: Seq<char>| schedule.contains_key(k) && is_due(schedule[k], now))
}

/// How far an eviction pass at `now` that started in `start` has come in
/// `current`: each key is either as it was at the start, or its queued expiry
/// was due and it is now as the finished pass leaves it.
spec fn sweep_progress(start: ShardState, current: ShardState, now: nat) -> bool {
    forall|k: Seq<char>|
        if #[trigger] start.items.contains_key(k) {
            ||| {
                &&& current.items.contains_key(k)
                &&& current.items[k] == start.items[k]
                &&& current.schedule[k] == start.schedule[k]
            }
            ||| {
                &&& is_due(start.schedule[k], now)
                &&& current.items.contains_key(k) == !start.evicts(k, now)
                &&& current.items.contains_key(k) ==> {
                    &&& current.items[k] == start.items[k]
                    &&& current.schedule[k] == start.items[k].expires_at
                }
            }
        } else {
            !current.items.contains_key(k)
        }
}

/// An entry: a key, its value, and the nanosecond at which it expires, if
/// any. An entry is never changed; `set` puts a new one in its place.
#[derive(Debug)]
pub struct CacheItem {
    pub key: String,
    pub value: String,
    pub expiration_time: Option<u128>,
}

impl View for CacheItem {
    type V = ItemView;

    open spec fn view(&self) -> ItemView {
        ItemView {
            key: self.key@,
            value: self.value@,
            expires_at: expiry_view(self.expiration_time),
        }
    }
}

/// The optional time-to-live that an executable value stands for.
pub open spec fn ttl_view(ttl: Option<u128>) -> Option<nat> {
    match ttl {
        Some(d) => Some(d as nat),
        None => None,
    }
}

/// The text of an optional string.
pub open spec fn text_of(value: Option<String>) -> Option<Seq<char>> {
    match value {
        Some(v) => Some(v@),
        None => None,
    }
}

/// One partition of the cache.
pub struct Shard {
    clock: Clock,
    items: StringHashMap<CacheItem>,
    queue: ExpiryQueue,
}

impl View for Shard {
    type V = ShardState;

    closed spec fn view(&self) -> ShardState {
        ShardState { items: self.items@.map_values(|item: CacheItem| item@), schedule: self.queue@ }
    }
}

impl Shard {
    /// The shard's invariant.
    pub closed spec fn wf(&self) -> bool {
        self.queue.wf() && self@.wf()
    }

    /// The state of a well-formed shard is well-formed.
    pub proof fn lemma_state_wf(&self)
        requires
            self.wf(),
        ensures
            self@.wf(),
    {
    }

    /// An empty shard, with a clock of its own started now.
    pub fn new() -> (shard: Shard)
        ensures
            shard.wf(),
            shard@ == ShardState::empty(),
    {
        let shard = Shard { clock: Clock::start(), items: StringHashMap::new(), queue: ExpiryQueue::new() };
        assert(shard@.items =~= Map::empty());
        shard
    }

    /// The number of entries in the mapping, expired ones that no sweep has
    /// removed yet included.
    pub fn len(&self) -> (n: usize)
        requires
            self.wf(),
        ensures
            n == self@.items.dom().len(),
    {
        assert(self@.items.dom() =~= self.items@.dom());
        self.items.len()
    }

    /// The number of records in the expiry queue. It equals the number of
    /// entries: a key is queued once for as long as it is in the mapping.
    pub fn queued(&self) -> (n: usize)
        requires
            self.wf(),
        ensures
            n == self@.schedule.dom().len(),
            n == self@.items.dom().len(),
    {
        assert(self@.items.dom() =~= self@.schedule.dom());
        self.queue.len()
    }

    /// Stores `value` under `key`, to expire `ttl` from now or, without a
    /// `ttl`, never. The time is read from the shard's clock, so the contract
    /// holds for some reading `now`.
    pub fn set(&mut self, key: &str, value: &str, ttl: Option<Duration>)
        requires
            old(self).wf(),
        ensures
            final(self).wf(),
            exists|now: nat|
                final(self)@ == #[trigger] old(self)@.set(key@, value@, ttl_nanos(ttl), now),
    {
        let now: u128 = self.clock.now();
        let nanos: Option<u128> = ttl_to_nanos(ttl);
        self.set_at(key, value, nanos, now);
        assert(self@ == old(self)@.set(key@, value@, ttl_nanos(ttl), now as nat));
    }

    /// The value stored under `key` as a reader sees it now. The time is read
    /// from the shard's clock, so the contract holds for some reading `now`.
    pub fn get(&self, key: &str) -> (value: Option<String>)
        requires
            self.wf(),
        ensures
            exists|now: nat| text_of(value) == #[trigger] self@.get(key@, now),
    {
        let now: u128 = self.clock.now();
        let value = self.get_at(key, now);
        assert(text_of(value) == self@.get(key@, now as nat));
        value
    }

    /// One eviction pass now. The time is read from the shard's clock, so the
    /// contract holds for some reading `now`.
    pub fn sweep(&mut self)
        requires
            old(self).wf(),
        ensures
            final(self).wf(),
            exists|now: nat| final(self)@ == #[trigger] old(self)@.sweep(now),
    {
        let now: u128 = self.clock.now();
        self.sweep_at(now);
        assert(self@ == old(self)@.sweep(now as nat));
    }

    /// Stores `value` under `key` at time `now`, to expire `ttl` nanoseconds
    /// later or, without a `ttl`, never.
    pub fn set_at(&mut self, key: &str, value: &str, ttl: Option<u128>, now: u128)
        requires
            old(self).wf(),
            ttl matches Some(d) ==> now + d <= u128::MAX,
        ensures
            final(self).wf(),
            final(self)@ == old(self)@.set(key@, value@, ttl_view(ttl), now as nat),
    {
        let expiration_time: Option<u128> = match ttl {
            Some(d) => Some(now + d),
            None => None,
        };
        if !self.items.contains_key(key) {
            assert(!self@.items.contains_key(key@));
            assert(!self@.schedule.contains_key(key@));
            self.queue.push(QueueRecord { key: key.to_owned(), expires_at: expiration_time });
        }
        self.items.insert(
            key.to_owned(),
            CacheItem { key: key.to_owned(), value: value.to_owned(), expiration_time },
        );
        proof {
            let after = old(self)@.set(key@, value@, ttl_view(ttl), now as nat);
            assert(self@.items =~= after.items);
            assert(self@.schedule =~= after.schedule);
        }
    }

    /// One eviction pass at time `now`. While the record that expires first is
    /// due, it is taken from the queue and its key is looked up: an entry that
    /// is due as well is removed; an entry that has been refreshed stays, and
    /// the key is queued again under the entry's expiry.
    pub fn sweep_at(&mut self, now: u128)
        requires
            old(self).wf(),
        ensures
            final(self).wf(),
            final(self)@ == old(self)@.sweep(now as nat),
    {
        loop
            invariant
                self.wf(),
                old(self)@.wf(),
                sweep_progress(old(self)@, self@, now as nat),
            decreases due_keys(self@.schedule, now as nat).len(),
        {
            let due: bool = match self.queue.peek() {
                Some(first) => match first.expires_at {
                    Some(expiry) => expiry < now,
                    None => false,
                },
                None => false,
            };
            if !due {
                proof {
                    let start = old(self)@;
                    let swept = start.sweep(now as nat);
                    assert forall|k: Seq<char>| self@.schedule.contains_key(k) implies !is_due(
                        self@.schedule[k],
                        now as nat,
                    ) by {}
                    assert(self@.items =~= swept.items);
                    assert(self@.schedule =~= swept.schedule);
                }
                return ;
            }
            let ghost before = self@;
            proof {
                self.queue.lemma_finite();
            }
            match self.queue.pop() {
                Some(record) => {
                    let fresh: Option<Option<u128>> = match self.items.get(record.key.as_str()) {
                        Some(item) => Some(item.expiration_time),
                        None => None,
                    };
                    match fresh {
                        Some(expiration_time) => {
                            let expired: bool = match expiration_time {
                                Some(expiry) => expiry < now,
                                None => false,
                            };
                            if expired {
                                self.items.remove(record.key.as_str());
                                assert(self@.items =~= before.items.remove(record@.key));
                            } else {
                                assert(self@.items =~= before.items);
                                self.queue.push(
                                    QueueRecord { key: record.key, expires_at: expiration_time },
                                );
                            }
                        },
                        None => {},
                    }
                    proof {
                        let k0 = record@.key;
                        assert(before.items.contains_key(k0));
                        assert(due_keys(before.schedule, now as nat).contains(k0));
                        assert(due_keys(self@.schedule, now as nat) =~= due_keys(
                            before.schedule,
                            now as nat,
                        ).remove(k0));
                        vstd::set_lib::lemma_set_subset_finite(
                            before.schedule.dom(),
                            due_keys(before.schedule, now as nat),
                        );
                    }
                },
                None => {
                    return ;
                },
            }
        }
    }

    /// The value stored under `key` as a reader sees it at time `now`. The
    /// shard is not changed: an entry that has expired stays until a sweep.
    pub fn get_at(&self, key: &str, now: u128) -> (value: Option<String>)
        requires
            self.wf(),
        ensures
            text_of(value) == self@.get(key@, now as nat),
    {
        match self.items.get(key) {
            Some(item) => {
                let live: bool = match item.expiration_time {
                    Some(expiry) => expiry > now,
                    None => true,
                };
                if live {
                    Some(item.value.clone())
                } else {
                    None
                }
            },
            None => None,
        }
    }
}

} // verus!
