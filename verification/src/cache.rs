//! The cache: a fixed number of shards behind one `get` / `set` interface.
//!
//! Every operation on a key goes to the shard that the key is routed to and
//! touches no other shard.

use crate::clock::ttl_nanos;
use crate::router::shard_from_key;
use crate::router::shard_index;
use crate::shard::text_of;
use crate::shard::ttl_view;
use crate::shard::Shard;
use crate::shard::ShardState;
use std::time::Duration;
use vstd::prelude::*;

verus! {

/// The state of a cache, in contracts: the states of its shards, in order.
#[verifier::ext_equal]
pub struct CacheState {
    pub shards: Seq<ShardState>,
}

impl CacheState {
    /// The state of a new cache of `count` shards.
    pub open spec fn empty(count: nat) -> CacheState {
        CacheState { shards: Seq::new(count, |i: int| ShardState::empty()) }
    }

    /// What every reachable state satisfies: there is at least one shard, and
    /// each shard's state is well-formed.
    pub open spec fn wf(self) -> bool {
        &&& self.shards.len() >= 1
        &&& forall|i: int| 0 <= i < self.shards.len() ==> (#[trigger] self.shards[i]).wf()
    }

    /// The index of the shard that holds `key`.
    pub open spec fn route(self, key: Seq<char>) -> int {
        shard_index(key, self.shards.len()) as int
    }

    /// The state after `set`: the key's shard takes the entry, the others stay.
    pub open spec fn set(self, key: Seq<char>, value: Seq<char>, ttl: Option<nat>, now: nat) -> CacheState {
        CacheState {
            shards: self.shards.update(
                self.route(key),
                self.shards[self.route(key)].set(key, value, ttl, now),
            ),
        }
    }

    /// What `get` returns at `now`: what the key's shard returns.
    pub open spec fn get(self, key: Seq<char>, now: nat) -> Option<Seq<char>> {
        self.shards[self.route(key)].get(key, now)
    }

    /// The state after every shard has run an eviction pass at `now`.
    pub open spec fn sweep(self, now: nat) -> CacheState {
        CacheState { shards: Seq::new(self.shards.len(), |i: int| self.shards[i].sweep(now)) }
    }
}

/// A cache of a fixed number of shards.
pub struct Cache {
    shards: Vec<Shard>,
}

impl View for Cache {
    type V = CacheState;

    closed spec fn view(&self) -> CacheState {
        CacheState { shards: self.shards@.map_values(|shard: Shard| shard@) }
    }
}

impl Cache {
    /// The cache's invariant.
    pub closed spec fn wf(&self) -> bool {
        &&& self@.wf()
        &&& forall|i: int| 0 <= i < self.shards@.len() ==> (#[trigger] self.shards@[i]).wf()
    }

    /// The state of a well-formed cache is well-formed.
    pub proof fn lemma_state_wf(&self)
        requires
            self.wf(),
        ensures
            self@.wf(),
    {
    }

    /// A cache of `number_of_shards` empty shards. There must be at least one
    /// shard, and no more than can be indexed.
    pub fn new(number_of_shards: u64) -> (cache: Cache)
        requires
            1 <= number_of_shards <= usize::MAX,
        ensures
            cache.wf(),
            cache@ == CacheState::empty(number_of_shards as nat),
    {
        let mut shards: Vec<Shard> = Vec::new();
        let mut built: u64 = 0;
        while built < number_of_shards
            invariant
                built <= number_of_shards,
                shards@.len() == built,
                forall|i: int| 0 <= i < shards@.len() ==> (#[trigger] shards@[i]).wf(),
                forall|i: int| 0 <= i < shards@.len() ==> (#[trigger] shards@[i])@ == ShardState::empty(),
            decreases number_of_shards - built,
        {
            shards.push(Shard::new());
            built = built + 1;
        }
        let cache = Cache { shards };
        assert(cache@.shards =~= CacheState::empty(number_of_shards as nat).shards);
        cache
    }

    /// The number of shards, fixed when the cache was made.
    pub fn shard_count(&self) -> (count: usize)
        requires
            self.wf(),
        ensures
            count == self@.shards.len(),
            count >= 1,
    {
        self.shards.len()
    }

    /// The index of the shard that `key` is routed to.
    fn route(&self, key: &str) -> (index: usize)
        requires
            self.wf(),
        ensures
            index == self@.route(key@),
            index < self.shards@.len(),
    {
        shard_from_key(key, self.shards.len() as u64) as usize
    }

    /// Stores `value` under `key` in the key's shard, to expire `ttl` from now
    /// or, without a `ttl`, never. The time is read from the shard's clock, so
    /// the contract holds for some reading `now`.
    pub fn set(&mut self, key: &str, value: &str, ttl: Option<Duration>)
        requires
            old(self).wf(),
        ensures
            final(self).wf(),
            exists|now: nat|
                final(self)@ == #[trigger] old(self)@.set(key@, value@, ttl_nanos(ttl), now),
    {
        let index: usize = self.route(key);
        let ghost before = self.shards@[index as int]@;
        self.shards[index].set(key, value, ttl);
        proof {
            let after = self.shards@[index as int]@;
            let now = choose|now: nat| after == #[trigger] before.set(key@, value@, ttl_nanos(ttl), now);
            assert(self@.shards =~= old(self)@.set(key@, value@, ttl_nanos(ttl), now).shards);
            assert(self@ == old(self)@.set(key@, value@, ttl_nanos(ttl), now));
        }
    }

    /// The value stored under `key` as a reader sees it now. The time is read
    /// from the shard's clock, so the contract holds for some reading `now`.
    pub fn get(&self, key: &str) -> (value: Option<String>)
        requires
            self.wf(),
        ensures
            exists|now: nat| text_of(value) == #[trigger] self@.get(key@, now),
    {
        let index: usize = self.route(key);
        let value = self.shards[index].get(key);
        proof {
            let shard = self.shards@[index as int]@;
            let now = choose|now: nat| text_of(value) == #[trigger] shard.get(key@, now);
            assert(text_of(value) == self@.get(key@, now));
        }
        value
    }

    /// One eviction pass now on every shard. Each shard reads its own clock,
    /// so the contract holds for some reading `now` per shard.
    pub fn sweep(&mut self)
        requires
            old(self).wf(),
        ensures
            final(self).wf(),
            final(self)@.shards.len() == old(self)@.shards.len(),
            forall|i: int|
                0 <= i < old(self)@.shards.len() ==> old(self)@.shards[i].sweeps_to(
                    #[trigger] final(self)@.shards[i],
                ),
    {
        let count: usize = self.shards.len();
        let mut index: usize = 0;
        while index < count
            invariant
                index <= count,
                count == self.shards@.len(),
                count == old(self).shards@.len(),
                old(self).wf(),
                forall|i: int| 0 <= i < count ==> (#[trigger] self.shards@[i]).wf(),
                forall|i: int|
                    0 <= i < index ==> old(self).shards@[i]@.sweeps_to((#[trigger] self.shards@[i])@),
                forall|i: int| index <= i < count ==> (#[trigger] self.shards@[i])@ == old(self).shards@[i]@,
            decreases count - index,
        {
            self.shards[index].sweep();
            index = index + 1;
        }
        assert forall|i: int| 0 <= i < self@.shards.len() implies (#[trigger] self@.shards[i]).wf() by {
            assert(old(self).shards@[i]@.sweeps_to(self.shards@[i]@));
            assert(old(self)@.shards[i].wf());
        }
        assert forall|i: int| 0 <= i < old(self)@.shards.len() implies old(self)@.shards[i].sweeps_to(
            #[trigger] self@.shards[i],
        ) by {
            assert(old(self).shards@[i]@.sweeps_to(self.shards@[i]@));
        }
    }

    /// Stores `value` under `key` at time `now` in the key's shard, to expire
    /// `ttl` nanoseconds later or, without a `ttl`, never.
    pub fn set_at(&mut self, key: &str, value: &str, ttl: Option<u128>, now: u128)
        requires
            old(self).wf(),
            ttl matches Some(d) ==> now + d <= u128::MAX,
        ensures
            final(self).wf(),
            final(self)@ == old(self)@.set(key@, value@, ttl_view(ttl), now as nat),
    {
        let index: usize = self.route(key);
        self.shards[index].set_at(key, value, ttl, now);
        assert(self@.shards =~= old(self)@.set(key@, value@, ttl_view(ttl), now as nat).shards);
    }

    /// The value stored under `key` as a reader sees it at time `now`.
    pub fn get_at(&self, key: &str, now: u128) -> (value: Option<String>)
        requires
            self.wf(),
        ensures
            text_of(value) == self@.get(key@, now as nat),
    {
        let index: usize = self.route(key);
        self.shards[index].get_at(key, now)
    }

    /// One eviction pass at time `now` on every shard.
    pub fn sweep_at(&mut self, now: u128)
        requires
            old(self).wf(),
        ensures
            final(self).wf(),
            final(self)@ == old(self)@.sweep(now as nat),
    {
        let count: usize = self.shards.len();
        let mut index: usize = 0;
        while index < count
            invariant
                index <= count,
                count == self.shards@.len(),
                count == old(self).shards@.len(),
                old(self).wf(),
                forall|i: int| 0 <= i < count ==> (#[trigger] self.shards@[i]).wf(),
                forall|i: int|
                    0 <= i < index ==> (#[trigger] self.shards@[i])@ == old(self).shards@[i]@.sweep(now as nat),
                forall|i: int| index <= i < count ==> (#[trigger] self.shards@[i])@ == old(self).shards@[i]@,
            decreases count - index,
        {
            self.shards[index].sweep_at(now);
            index = index + 1;
        }
        assert(self@.shards =~= old(self)@.sweep(now as nat).shards);
        assert(self@.wf()) by {
            assert forall|i: int| 0 <= i < self@.shards.len() implies (#[trigger] self@.shards[i]).wf() by {
                assert(self.shards@[i].wf());
            }
        }
    }
}

} // verus!
