//! What holds of every shard and every cache, stated over their states and
//! proved once for all inputs.
//!
//! Times are readings of one monotonic clock, in nanoseconds.

use crate::cache::CacheState;
use crate::queue::is_due;
use crate::queue::no_later;
use crate::queue::Expiry;
use crate::shard::deadline;
use crate::shard::is_live;
use crate::shard::ShardState;
use vstd::prelude::*;

verus! {

/// The order of the expiry queue is a total preorder in which "never" comes
/// last: any two expiries compare, the order is reflexive and transitive, and
/// every expiry is no later than `None`. What is due at some time comes
/// before what is not, so a heap whose first record is not due holds none
/// that is.
pub proof fn law_expiry_order(a: Expiry, b: Expiry, c: Expiry, now: nat)
    ensures
        no_later(a, a),
        no_later(a, b) || no_later(b, a),
        no_later(a, b) && no_later(b, c) ==> no_later(a, c),
        no_later(a, None),
        no_later(a, b) && is_due(b, now) ==> is_due(a, now),
{
}

/// The empty state is well-formed, and `set` and the eviction pass keep a
/// state well-formed: the queue holds one record for each key of the mapping
/// and none for any other key, so it never outgrows the mapping.
pub proof fn law_well_formed_is_kept(
    s: ShardState,
    key: Seq<char>,
    value: Seq<char>,
    ttl: Option<nat>,
    now: nat,
)
    requires
        s.wf(),
    ensures
        ShardState::empty().wf(),
        s.set(key, value, ttl, now).wf(),
        s.sweep(now).wf(),
{
}

/// A `get` after a `set` of the same key sees the value written for as long
/// as the entry is live, and nothing from then on: with no time-to-live the
/// value is seen at every time, with a time-to-live `d` it is seen at the
/// times before `now + d` and at no time from `now + d` on.
pub proof fn law_get_after_set(
    s: ShardState,
    key: Seq<char>,
    value: Seq<char>,
    ttl: Option<nat>,
    now: nat,
    at: nat,
)
    ensures
        s.set(key, value, ttl, now).get(key, at) == (match ttl {
            None => Some(value),
            Some(d) => if at < now + d {
                Some(value)
            } else {
                None
            },
        }),
{
}

/// A `set` of one key changes what `get` returns for no other key.
pub proof fn law_set_leaves_other_keys(
    s: ShardState,
    key: Seq<char>,
    value: Seq<char>,
    ttl: Option<nat>,
    now: nat,
    other: Seq<char>,
    at: nat,
)
    requires
        other != key,
    ensures
        s.set(key, value, ttl, now).get(other, at) == s.get(other, at),
{
}

/// An eviction pass is invisible to readers: at the time of the pass and at
/// any later time, `get` returns for every key what it would have returned
/// had the pass not run.
pub proof fn law_sweep_is_invisible(s: ShardState, swept_at: nat, key: Seq<char>, at: nat)
    requires
        swept_at <= at,
    ensures
        s.sweep(swept_at).get(key, at) == s.get(key, at),
{
}

/// An eviction pass never removes an entry that is still live at the time of
/// the pass, and never changes an entry that it leaves in the mapping.
pub proof fn law_sweep_keeps_live_entries(s: ShardState, now: nat, key: Seq<char>)
    requires
        s.items.contains_key(key),
    ensures
        is_live(s.items[key].expires_at, now) ==> s.sweep(now).items.contains_key(key),
        s.sweep(now).items.contains_key(key) ==> s.sweep(now).items[key] == s.items[key],
{
}

/// After an eviction pass no queued expiry is due any more, so a second pass
/// at the same time changes nothing.
pub proof fn law_sweep_leaves_nothing_due(s: ShardState, now: nat)
    requires
        s.wf(),
    ensures
        forall|k: Seq<char>| #[trigger]
            s.sweep(now).schedule.contains_key(k) ==> !is_due(s.sweep(now).schedule[k], now),
        s.sweep(now).sweep(now) == s.sweep(now),
{
    let once = s.sweep(now);
    let twice = once.sweep(now);
    assert(twice.items =~= once.items);
    assert(twice.schedule =~= once.schedule);
}

/// A key set without a time-to-live keeps its value across an eviction pass
/// at any time: `get` returns it before the pass and after.
pub proof fn law_no_expiry_survives_sweep(
    s: ShardState,
    key: Seq<char>,
    value: Seq<char>,
    now: nat,
    swept_at: nat,
    at: nat,
)
    ensures
        s.set(key, value, None, now).get(key, at) == Some(value),
        s.set(key, value, None, now).sweep(swept_at).get(key, at) == Some(value),
        s.set(key, value, None, now).sweep(swept_at).items.contains_key(key),
{
}

/// A key set with time-to-live `d` at `now` is visible before `now + d` and
/// invisible from `now + d` on, whether or not an eviction pass has run in
/// between.
pub proof fn law_expiry_visibility(
    s: ShardState,
    key: Seq<char>,
    value: Seq<char>,
    d: nat,
    now: nat,
    swept_at: nat,
    at: nat,
)
    requires
        swept_at <= at,
    ensures
        at < now + d ==> s.set(key, value, Some(d), now).get(key, at) == Some(value),
        at >= now + d ==> s.set(key, value, Some(d), now).get(key, at) is None,
        s.set(key, value, Some(d), now).sweep(swept_at).get(key, at) == s.set(
            key,
            value,
            Some(d),
            now,
        ).get(key, at),
{
}

/// A refreshed key survives the eviction pass that finds its old record. The
/// key is set with a time-to-live and set again with another; a pass that
/// runs before the second expiry, even after the first has passed, leaves the
/// refreshed value visible until the second expiry. Where the key was new at
/// the first `set`, so that it is queued under the first expiry, and that
/// expiry is due at the pass, the pass queues the key again under the second.
pub proof fn law_refresh_survives_sweep(
    s: ShardState,
    key: Seq<char>,
    first_value: Seq<char>,
    first_ttl: nat,
    first_at: nat,
    value: Seq<char>,
    ttl: nat,
    refreshed_at: nat,
    swept_at: nat,
    at: nat,
)
    requires
        s.wf(),
        swept_at <= at < refreshed_at + ttl,
    ensures
        ({
            let refreshed = s.set(key, first_value, Some(first_ttl), first_at).set(
                key,
                value,
                Some(ttl),
                refreshed_at,
            );
            &&& refreshed.sweep(swept_at).get(key, at) == Some(value)
            &&& !s.items.contains_key(key) && first_at + first_ttl < swept_at
                ==> refreshed.schedule[key] == Some(first_at + first_ttl)
                && refreshed.sweep(swept_at).schedule[key] == Some(refreshed_at + ttl)
        }),
{
}

/// One step in the life of a shard: a `set`, or an eviction pass.
pub enum ShardOp {
    Write { key: Seq<char>, value: Seq<char>, ttl: Option<nat>, now: nat },
    Sweep { now: nat },
}

/// The state after one step.
pub open spec fn apply(s: ShardState, op: ShardOp) -> ShardState {
    match op {
        ShardOp::Write { key, value, ttl, now } => s.set(key, value, ttl, now),
        ShardOp::Sweep { now } => s.sweep(now),
    }
}

/// The state after the steps of `ops`, in order.
pub open spec fn run(s: ShardState, ops: Seq<ShardOp>) -> ShardState
    decreases ops.len(),
{
    if ops.len() == 0 {
        s
    } else {
        apply(run(s, ops.drop_last()), ops.last())
    }
}

/// The step may change what a reader of `key` sees at `at`: it writes the
/// key, or it is an eviction pass at a time after `at`.
pub open spec fn may_change(op: ShardOp, key: Seq<char>, at: nat) -> bool {
    match op {
        ShardOp::Write { key: written, .. } => written == key,
        ShardOp::Sweep { now } => at < now,
    }
}

/// Only a `set` of the key changes what its readers see. After any number of
/// steps, none of which writes the key, and with every eviction pass run no
/// later than the time of reading, `get` returns what it would have returned
/// before the steps.
pub proof fn law_only_set_changes_reads(s: ShardState, ops: Seq<ShardOp>, key: Seq<char>, at: nat)
    requires
        forall|i: int| 0 <= i < ops.len() ==> !may_change(#[trigger] ops[i], key, at),
    ensures
        run(s, ops).get(key, at) == s.get(key, at),
    decreases ops.len(),
{
    if ops.len() > 0 {
        let earlier = ops.drop_last();
        assert forall|i: int| 0 <= i < earlier.len() implies !may_change(
            #[trigger] earlier[i],
            key,
            at,
        ) by {
            assert(earlier[i] == ops[i]);
        }
        law_only_set_changes_reads(s, earlier, key, at);
        assert(!may_change(ops[ops.len() - 1], key, at));
    }
}

/// A key set without a time-to-live keeps its value indefinitely. After any
/// number of later steps, eviction passes at any time among them, `get`
/// returns the value at every time, until the key is written again.
pub proof fn law_no_expiry_persists(
    s: ShardState,
    key: Seq<char>,
    value: Seq<char>,
    now: nat,
    ops: Seq<ShardOp>,
    at: nat,
)
    requires
        forall|i: int| 0 <= i < ops.len() ==> !(#[trigger] ops[i] matches ShardOp::Write {
            key: written,
            ..
        } && written == key),
    ensures
        run(s.set(key, value, None, now), ops).items.contains_key(key),
        run(s.set(key, value, None, now), ops).items[key] == s.set(key, value, None, now).items[key],
        run(s.set(key, value, None, now), ops).get(key, at) == Some(value),
    decreases ops.len(),
{
    if ops.len() > 0 {
        let earlier = ops.drop_last();
        assert forall|i: int| 0 <= i < earlier.len() implies !(#[trigger] earlier[i] matches ShardOp::Write {
            key: written,
            ..
        } && written == key) by {
            assert(earlier[i] == ops[i]);
        }
        law_no_expiry_persists(s, key, value, now, earlier, at);
        let last = ops[ops.len() - 1];
        assert(!(last matches ShardOp::Write { key: written, .. } && written == key));
    }
}

/// Every state reached from a well-formed one by any steps is well-formed.
pub proof fn law_run_keeps_well_formed(s: ShardState, ops: Seq<ShardOp>)
    requires
        s.wf(),
    ensures
        run(s, ops).wf(),
    decreases ops.len(),
{
    if ops.len() > 0 {
        law_run_keeps_well_formed(s, ops.drop_last());
    }
}

/// The state after `set` has been applied once for each time in `times`, in
/// order, with the same key, value and time-to-live.
pub open spec fn set_repeatedly(
    s: ShardState,
    key: Seq<char>,
    value: Seq<char>,
    ttl: Option<nat>,
    times: Seq<nat>,
) -> ShardState
    decreases times.len(),
{
    if times.len() == 0 {
        s
    } else {
        set_repeatedly(s, key, value, ttl, times.drop_last()).set(key, value, ttl, times.last())
    }
}

/// Overwriting is idempotent. However often a `set` is repeated with the same
/// key, value and time-to-live, the queue is as the first `set` left it, and
/// `get` returns the value while the entry written last is live.
pub proof fn law_repeated_set(
    s: ShardState,
    key: Seq<char>,
    value: Seq<char>,
    ttl: Option<nat>,
    times: Seq<nat>,
    at: nat,
)
    requires
        times.len() >= 1,
    ensures
        set_repeatedly(s, key, value, ttl, times).schedule == s.set(
            key,
            value,
            ttl,
            times[0],
        ).schedule,
        set_repeatedly(s, key, value, ttl, times).items == s.items.insert(
            key,
            s.set(key, value, ttl, times.last()).items[key],
        ),
        is_live(deadline(ttl, times.last()), at) ==> set_repeatedly(s, key, value, ttl, times).get(
            key,
            at,
        ) == Some(value),
    decreases times.len(),
{
    if times.len() == 1 {
        assert(times.drop_last().len() == 0);
        assert(set_repeatedly(s, key, value, ttl, times.drop_last()) == s);
    } else {
        let earlier = times.drop_last();
        law_repeated_set(s, key, value, ttl, earlier, at);
        assert(earlier[0] == times[0]);
        let before = set_repeatedly(s, key, value, ttl, earlier);
        assert(before.items.contains_key(key));
        assert(before.set(key, value, ttl, times.last()).items =~= s.items.insert(
            key,
            s.set(key, value, ttl, times.last()).items[key],
        ));
    }
}

/// Eviction reclaims the entry. A key is set with time-to-live `d` at `now`;
/// an eviction pass after `now + d` removes it from the mapping and from the
/// queue. This needs the key's queued expiry to be due at the pass, which
/// holds where the key was new at the `set`: a key that is already in the
/// mapping stays queued under its older expiry.
pub proof fn law_eviction_reclaims(
    s: ShardState,
    key: Seq<char>,
    value: Seq<char>,
    d: nat,
    now: nat,
    swept_at: nat,
)
    requires
        s.wf(),
        now + d < swept_at,
        s.items.contains_key(key) ==> is_due(s.schedule[key], swept_at),
    ensures
        !s.set(key, value, Some(d), now).sweep(swept_at).items.contains_key(key),
        !s.set(key, value, Some(d), now).sweep(swept_at).schedule.contains_key(key),
{
}

/// The empty cache is well-formed, and `set` and the eviction pass keep a
/// cache well-formed and leave the number of shards as it is.
pub proof fn law_cache_well_formed_is_kept(
    c: CacheState,
    count: nat,
    key: Seq<char>,
    value: Seq<char>,
    ttl: Option<nat>,
    now: nat,
)
    requires
        c.wf(),
        count >= 1,
    ensures
        CacheState::empty(count).wf(),
        CacheState::empty(count).shards.len() == count,
        c.set(key, value, ttl, now).wf(),
        c.set(key, value, ttl, now).shards.len() == c.shards.len(),
        c.sweep(now).wf(),
        c.sweep(now).shards.len() == c.shards.len(),
{
    assert forall|i: int| 0 <= i < c.sweep(now).shards.len() implies (#[trigger] c.sweep(
        now,
    ).shards[i]).wf() by {
        assert(c.shards[i].wf());
    }
    assert forall|i: int| 0 <= i < c.set(key, value, ttl, now).shards.len() implies (#[trigger] c.set(
        key,
        value,
        ttl,
        now,
    ).shards[i]).wf() by {
        assert(c.shards[i].wf());
    }
}

/// The cache does for a key what the key's shard does. A `set` acts on the
/// shard that the key is routed to, `get` reads from it, and the eviction
/// pass runs on each shard by itself.
pub proof fn law_cache_acts_on_the_keys_shard(
    c: CacheState,
    key: Seq<char>,
    value: Seq<char>,
    ttl: Option<nat>,
    now: nat,
    at: nat,
    index: int,
)
    requires
        c.wf(),
        0 <= index < c.shards.len(),
    ensures
        0 <= c.route(key) < c.shards.len(),
        c.set(key, value, ttl, now).shards[c.route(key)] == c.shards[c.route(key)].set(
            key,
            value,
            ttl,
            now,
        ),
        c.get(key, at) == c.shards[c.route(key)].get(key, at),
        c.sweep(now).shards[index] == c.shards[index].sweep(now),
{
}

/// Shards are independent. A `set` changes no shard but the one that its key
/// is routed to, so it changes what `get` returns for no key of another
/// shard; nor does it for another key of the same shard.
pub proof fn law_cache_shards_are_independent(
    c: CacheState,
    key: Seq<char>,
    value: Seq<char>,
    ttl: Option<nat>,
    now: nat,
    index: int,
    other: Seq<char>,
    at: nat,
)
    requires
        c.wf(),
        0 <= index < c.shards.len(),
    ensures
        index != c.route(key) ==> c.set(key, value, ttl, now).shards[index] == c.shards[index],
        other != key ==> c.set(key, value, ttl, now).get(other, at) == c.get(other, at),
{
}

/// A `get` after a `set` of the same key sees the value written for as long
/// as the entry is live, and nothing from then on.
pub proof fn law_cache_get_after_set(
    c: CacheState,
    key: Seq<char>,
    value: Seq<char>,
    ttl: Option<nat>,
    now: nat,
    at: nat,
)
    requires
        c.wf(),
    ensures
        c.set(key, value, ttl, now).get(key, at) == (match ttl {
            None => Some(value),
            Some(d) => if at < now + d {
                Some(value)
            } else {
                None
            },
        }),
{
}

/// An eviction pass over the cache is invisible to readers at the time of the
/// pass and at any later time.
pub proof fn law_cache_sweep_is_invisible(c: CacheState, swept_at: nat, key: Seq<char>, at: nat)
    requires
        c.wf(),
        swept_at <= at,
    ensures
        c.sweep(swept_at).get(key, at) == c.get(key, at),
{
}

/// A key set without a time-to-live keeps its value across an eviction pass
/// at any time.
pub proof fn law_cache_no_expiry_survives_sweep(
    c: CacheState,
    key: Seq<char>,
    value: Seq<char>,
    now: nat,
    swept_at: nat,
    at: nat,
)
    requires
        c.wf(),
    ensures
        c.set(key, value, None, now).get(key, at) == Some(value),
        c.set(key, value, None, now).sweep(swept_at).get(key, at) == Some(value),
{
}

/// A key set with time-to-live `d` at `now` is visible before `now + d` and
/// invisible from `now + d` on, whether or not an eviction pass has run in
/// between.
pub proof fn law_cache_expiry_visibility(
    c: CacheState,
    key: Seq<char>,
    value: Seq<char>,
    d: nat,
    now: nat,
    swept_at: nat,
    at: nat,
)
    requires
        c.wf(),
        swept_at <= at,
    ensures
        at < now + d ==> c.set(key, value, Some(d), now).get(key, at) == Some(value),
        at >= now + d ==> c.set(key, value, Some(d), now).get(key, at) is None,
        c.set(key, value, Some(d), now).sweep(swept_at).get(key, at) == c.set(
            key,
            value,
            Some(d),
            now,
        ).get(key, at),
{
}

/// A refreshed key survives the eviction pass that finds its old record: the
/// refreshed value stays visible until the second expiry.
pub proof fn law_cache_refresh_survives_sweep(
    c: CacheState,
    key: Seq<char>,
    first_value: Seq<char>,
    first_ttl: nat,
    first_at: nat,
    value: Seq<char>,
    ttl: nat,
    refreshed_at: nat,
    swept_at: nat,
    at: nat,
)
    requires
        c.wf(),
        swept_at <= at < refreshed_at + ttl,
    ensures
        c.set(key, first_value, Some(first_ttl), first_at).set(
            key,
            value,
            Some(ttl),
            refreshed_at,
        ).sweep(swept_at).get(key, at) == Some(value),
{
}

/// Overwriting is idempotent. A `set` repeated with the same key, value and
/// time-to-live leaves every queue as the first `set` left it, and `get`
/// returns the value while the entry written last is live.
pub proof fn law_cache_repeated_set(
    c: CacheState,
    key: Seq<char>,
    value: Seq<char>,
    ttl: Option<nat>,
    first_at: nat,
    again_at: nat,
    at: nat,
    index: int,
)
    requires
        c.wf(),
        0 <= index < c.shards.len(),
    ensures
        c.set(key, value, ttl, first_at).set(key, value, ttl, again_at).shards[index].schedule
            == c.set(key, value, ttl, first_at).shards[index].schedule,
        is_live(deadline(ttl, again_at), at) ==> c.set(key, value, ttl, first_at).set(
            key,
            value,
            ttl,
            again_at,
        ).get(key, at) == Some(value),
{
}

/// Eviction reclaims the entry. A key is set with time-to-live `d` at `now`;
/// an eviction pass after `now + d` removes it from its shard's mapping and
/// queue, provided that the key's queued expiry is due at the pass, as it is
/// where the key was new at the `set`.
pub proof fn law_cache_eviction_reclaims(
    c: CacheState,
    key: Seq<char>,
    value: Seq<char>,
    d: nat,
    now: nat,
    swept_at: nat,
)
    requires
        c.wf(),
        now + d < swept_at,
        c.shards[c.route(key)].items.contains_key(key) ==> is_due(
            c.shards[c.route(key)].schedule[key],
            swept_at,
        ),
    ensures
        !c.set(key, value, Some(d), now).sweep(swept_at).shards[c.route(key)].items.contains_key(key),
        !c.set(key, value, Some(d), now).sweep(swept_at).shards[c.route(key)].schedule.contains_key(
            key,
        ),
{
    let shard = c.shards[c.route(key)];
    assert(shard.wf());
    law_eviction_reclaims(shard, key, value, d, now, swept_at);
}

} // verus!
