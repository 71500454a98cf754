//! The expiry queue: a binary min-heap of `(key, expiry)` records, at most one
//! per key, ordered by expiry with "never expires" last.
//!
//! The queue is a schedule of keys to examine, not a statement of what is
//! valid: a record may be older than the entry that the key now has.

use vstd::prelude::*;

verus! {

/// An expiry in contracts: `Some(t)` is the nanosecond at which an entry stops
/// being visible, `None` means that it never does.
pub type Expiry = Option<nat>;

/// The expiry that an executable value stands for.
pub open spec fn expiry_view(e: Option<u128>) -> Expiry {
    match e {
        Some(t) => Some(t as nat),
        None => None,
    }
}

/// `a` expires no later than `b`. An expiry of `None` is later than every
/// `Some`, so records that never expire sink to the bottom of the heap.
pub open spec fn no_later(a: Expiry, b: Expiry) -> bool {
    match (a, b) {
        (_, None) => true,
        (None, Some(_)) => false,
        (Some(x), Some(y)) => x <= y,
    }
}

/// An expiry is due for eviction at `now`: it is a time strictly before `now`.
/// An expiry equal to `now`, or `None`, is not yet due.
pub open spec fn is_due(e: Expiry, now: nat) -> bool {
    e matches Some(t) && t < now
}

/// What a record of the queue says: examine `key` once `expires_at` is due.
pub struct RecordView {
    pub key: Seq<char>,
    pub expires_at: Expiry,
}

/// No two records of the sequence have the same key.
spec fn distinct_keys(s: Seq<RecordView>) -> bool {
    forall|i: int, j: int| 0 <= i < j < s.len() ==> s[i].key != s[j].key
}

/// The position of the parent of position `i` in the heap's array.
spec fn parent(i: int) -> int {
    (i - 1) / 2
}

/// The binary-heap order: no record expires before its parent.
spec fn heap_ordered(s: Seq<RecordView>) -> bool {
    forall|i: int| 0 < i < s.len() ==> no_later(s[parent(i)].expires_at, (#[trigger] s[i]).expires_at)
}

/// Some record of the sequence has this key.
spec fn has_key(s: Seq<RecordView>, key: Seq<char>) -> bool {
    exists|i: int| 0 <= i < s.len() && #[trigger] s[i].key == key
}

/// The position of a record with this key, where there is one.
spec fn index_of(s: Seq<RecordView>, key: Seq<char>) -> int {
    choose|i: int| 0 <= i < s.len() && #[trigger] s[i].key == key
}

/// The schedule that a sequence of records stands for: each key that has a
/// record, with the expiry of that record.
spec fn schedule_of(s: Seq<RecordView>) -> Map<Seq<char>, Expiry> {
    Map::new(|k: Seq<char>| has_key(s, k), |k: Seq<char>| s[index_of(s, k)].expires_at)
}

/// The sequence with the records at `i` and `j` exchanged.
spec fn swapped(s: Seq<RecordView>, i: int, j: int) -> Seq<RecordView> {
    s.update(i, s[j]).update(j, s[i])
}

/// In a heap the first record expires no later than any other.
proof fn lemma_root_is_least(s: Seq<RecordView>, i: int)
    requires
        heap_ordered(s),
        0 <= i < s.len(),
    ensures
        no_later(s[0].expires_at, s[i].expires_at),
    decreases i,
{
    if i > 0 {
        lemma_root_is_least(s, parent(i));
        assert(no_later(s[parent(i)].expires_at, s[i].expires_at));
    }
}

/// With distinct keys, the schedule maps the key of each record to that
/// record's expiry.
proof fn lemma_schedule_entry(s: Seq<RecordView>, i: int)
    requires
        distinct_keys(s),
        0 <= i < s.len(),
    ensures
        schedule_of(s).contains_key(s[i].key),
        schedule_of(s)[s[i].key] == s[i].expires_at,
{
    let k = s[i].key;
    assert(has_key(s, k));
    let j = index_of(s, k);
    assert(0 <= j < s.len() && s[j].key == k);
    assert(j == i);
}

/// Exchanging two records changes neither the distinctness of the keys nor
/// the schedule.
proof fn lemma_swapped(s: Seq<RecordView>, i: int, j: int)
    requires
        distinct_keys(s),
        0 <= i < s.len(),
        0 <= j < s.len(),
    ensures
        distinct_keys(swapped(s, i, j)),
        schedule_of(swapped(s, i, j)) == schedule_of(s),
{
    let t = swapped(s, i, j);
    let to = |a: int| if a == i { j } else if a == j { i } else { a };
    assert forall|a: int| 0 <= a < s.len() implies #[trigger] t[a] == s[to(a)] && s[a] == t[to(a)] by {}
    assert forall|a: int, b: int| 0 <= a < b < t.len() implies t[a].key != t[b].key by {
        assert(t[a] == s[to(a)] && t[b] == s[to(b)]);
        if to(a) < to(b) {
            assert(s[to(a)].key != s[to(b)].key);
        } else {
            assert(s[to(b)].key != s[to(a)].key);
        }
    }
    assert forall|k: Seq<char>| has_key(s, k) == has_key(t, k) by {
        if has_key(s, k) {
            let a = index_of(s, k);
            assert(t[to(a)].key == k);
        }
        if has_key(t, k) {
            let a = index_of(t, k);
            assert(t[a] == s[to(a)]);
            assert(s[to(a)].key == k);
        }
    }
    assert forall|k: Seq<char>| has_key(s, k) implies schedule_of(s)[k] == schedule_of(t)[k] by {
        let a = index_of(s, k);
        lemma_schedule_entry(s, a);
        lemma_schedule_entry(t, to(a));
    }
    assert(schedule_of(t) =~= schedule_of(s));
}

/// Appending a record with a new key keeps the keys distinct and adds the
/// record's key and expiry to the schedule.
proof fn lemma_pushed(s: Seq<RecordView>, r: RecordView)
    requires
        distinct_keys(s),
        !has_key(s, r.key),
    ensures
        distinct_keys(s.push(r)),
        schedule_of(s.push(r)) == schedule_of(s).insert(r.key, r.expires_at),
{
    let t = s.push(r);
    assert forall|a: int, b: int| 0 <= a < b < t.len() implies t[a].key != t[b].key by {
        if b == s.len() {
            assert(s[a].key != r.key);
        } else {
            assert(s[a].key != s[b].key);
        }
    }
    let m = schedule_of(s).insert(r.key, r.expires_at);
    assert forall|k: Seq<char>| has_key(t, k) == m.contains_key(k) by {
        if has_key(t, k) {
            let a = index_of(t, k);
            if a < s.len() {
                assert(s[a].key == k);
            }
        }
        if m.contains_key(k) {
            if k == r.key {
                assert(t[s.len() as int].key == k);
            } else {
                let a = index_of(s, k);
                assert(t[a].key == k);
            }
        }
    }
    assert forall|k: Seq<char>| has_key(t, k) implies schedule_of(t)[k] == m[k] by {
        let a = index_of(t, k);
        lemma_schedule_entry(t, a);
        if a < s.len() {
            assert(s[a].key == k);
            lemma_schedule_entry(s, a);
        }
    }
    assert(schedule_of(t) =~= m);
}

/// Dropping the last record keeps the keys distinct and removes the record's
/// key from the schedule.
proof fn lemma_dropped_last(s: Seq<RecordView>)
    requires
        distinct_keys(s),
        s.len() > 0,
    ensures
        distinct_keys(s.drop_last()),
        schedule_of(s.drop_last()) == schedule_of(s).remove(s.last().key),
{
    let t = s.drop_last();
    let last = s.len() - 1;
    assert forall|a: int, b: int| 0 <= a < b < t.len() implies t[a].key != t[b].key by {
        assert(s[a].key != s[b].key);
    }
    let m = schedule_of(s).remove(s.last().key);
    assert forall|k: Seq<char>| has_key(t, k) == m.contains_key(k) by {
        if has_key(t, k) {
            let a = index_of(t, k);
            assert(s[a].key == k);
            assert(s[a].key != s[last].key);
        }
        if m.contains_key(k) {
            let a = index_of(s, k);
            assert(a != last);
            assert(t[a].key == k);
        }
    }
    assert forall|k: Seq<char>| has_key(t, k) implies schedule_of(t)[k] == m[k] by {
        let a = index_of(t, k);
        lemma_schedule_entry(t, a);
        assert(s[a].key == k);
        lemma_schedule_entry(s, a);
    }
    assert(schedule_of(t) =~= m);
}

/// The keys of a schedule are finitely many.
proof fn lemma_schedule_finite(s: Seq<RecordView>)
    ensures
        schedule_of(s).dom().finite(),
{
    let keys = s.map_values(|r: RecordView| r.key);
    vstd::seq_lib::seq_to_set_is_finite(keys);
    assert forall|k: Seq<char>| keys.to_set().contains(k) == schedule_of(s).dom().contains(k) by {
        if keys.contains(k) {
            let a = choose|a: int| 0 <= a < keys.len() && keys[a] == k;
            assert(s[a].key == k);
        }
        if has_key(s, k) {
            let a = index_of(s, k);
            assert(keys[a] == k);
        }
    }
    assert(keys.to_set() =~= schedule_of(s).dom());
}

/// With distinct keys there are as many keys in the schedule as records.
proof fn lemma_schedule_len(s: Seq<RecordView>)
    requires
        distinct_keys(s),
    ensures
        schedule_of(s).dom().finite(),
        schedule_of(s).dom().len() == s.len(),
    decreases s.len(),
{
    lemma_schedule_finite(s);
    if s.len() == 0 {
        assert(schedule_of(s).dom() =~= Set::<Seq<char>>::empty());
    } else {
        let t = s.drop_last();
        let r = s.last();
        lemma_dropped_last(s);
        lemma_schedule_len(t);
        assert(!has_key(t, r.key)) by {
            if has_key(t, r.key) {
                let a = index_of(t, r.key);
                assert(s[a].key != s[s.len() - 1].key);
            }
        }
        lemma_pushed(t, r);
        assert(t.push(r) =~= s);
        assert(schedule_of(s).dom() =~= schedule_of(t).dom().insert(r.key));
    }
}

/// The heap order but for the record at `hole`, which may expire before its
/// parent; the records below `hole` respect the parent of `hole`.
spec fn ordered_but_above(s: Seq<RecordView>, hole: int) -> bool {
    &&& forall|i: int|
        0 < i < s.len() && i != hole ==> no_later(
            s[parent(i)].expires_at,
            (#[trigger] s[i]).expires_at,
        )
    &&& forall|i: int|
        0 < i < s.len() && parent(i) == hole && hole > 0 ==> no_later(
            s[parent(hole)].expires_at,
            (#[trigger] s[i]).expires_at,
        )
}

/// The heap order but for the record at `hole`, which may expire after its
/// children; the records below `hole` respect the parent of `hole`.
spec fn ordered_but_below(s: Seq<RecordView>, hole: int) -> bool {
    &&& forall|i: int|
        0 < i < s.len() && parent(i) != hole ==> no_later(
            s[parent(i)].expires_at,
            (#[trigger] s[i]).expires_at,
        )
    &&& forall|i: int|
        0 < i < s.len() && parent(i) == hole && hole > 0 ==> no_later(
            s[parent(hole)].expires_at,
            (#[trigger] s[i]).expires_at,
        )
}

/// One record of the queue: a key and the expiry at which to examine it.
#[derive(Debug)]
pub struct QueueRecord {
    pub key: String,
    pub expires_at: Option<u128>,
}

impl View for QueueRecord {
    type V = RecordView;

    open spec fn view(&self) -> RecordView {
        RecordView { key: self.key@, expires_at: expiry_view(self.expires_at) }
    }
}

/// Whether `a` expires no later than `b`, with "never" last.
pub fn expires_no_later(a: Option<u128>, b: Option<u128>) -> (r: bool)
    ensures
        r == no_later(expiry_view(a), expiry_view(b)),
{
    match b {
        None => true,
        Some(y) => match a {
            None => false,
            Some(x) => x <= y,
        },
    }
}

/// `<[T]>::swap` on the vector's elements. Trusted: the elements at `i` and
/// `j` change places and every other element stays where it is. The call
/// panics on an index out of bounds, which `requires` leaves out.
#[verifier::external_body]
fn exchange(v: &mut Vec<QueueRecord>, i: usize, j: usize)
    requires
        i < old(v)@.len(),
        j < old(v)@.len(),
    ensures
        final(v)@ == old(v)@.update(i as int, old(v)@[j as int]).update(j as int, old(v)@[i as int]),
{
    v.swap(i, j);
}

/// A min-heap of expiry records with at most one record per key.
#[derive(Debug)]
pub struct ExpiryQueue {
    heap: Vec<QueueRecord>,
}

impl View for ExpiryQueue {
    type V = Map<Seq<char>, Expiry>;

    /// The schedule: each key in the queue with the expiry of its record.
    closed spec fn view(&self) -> Map<Seq<char>, Expiry> {
        schedule_of(self.records())
    }
}

impl ExpiryQueue {
    /// The records in the order of the heap's array.
    spec fn records(&self) -> Seq<RecordView> {
        self.heap@.map_values(|r: QueueRecord| r@)
    }

    /// The queue's invariant: keys are distinct and the array is heap-ordered.
    pub closed spec fn wf(&self) -> bool {
        distinct_keys(self.records()) && heap_ordered(self.records())
    }

    /// The schedule of a queue has finitely many keys.
    pub proof fn lemma_finite(&self)
        ensures
            self@.dom().finite(),
    {
        lemma_schedule_finite(self.records());
    }

    /// An empty queue.
    pub fn new() -> (queue: ExpiryQueue)
        ensures
            queue.wf(),
            queue@ == Map::<Seq<char>, Expiry>::empty(),
    {
        let queue = ExpiryQueue { heap: Vec::new() };
        assert(queue@ =~= Map::<Seq<char>, Expiry>::empty());
        queue
    }

    /// The number of records, which is the number of keys in the schedule.
    pub fn len(&self) -> (n: usize)
        requires
            self.wf(),
        ensures
            self@.dom().finite(),
            n == self@.dom().len(),
    {
        proof {
            lemma_schedule_len(self.records());
        }
        self.heap.len()
    }

    /// The record that expires first, if there is any: no key in the schedule
    /// has an earlier expiry than the record returned.
    pub fn peek(&self) -> (first: Option<&QueueRecord>)
        requires
            self.wf(),
        ensures
            first is None <==> self@.dom().is_empty(),
            first matches Some(r) ==> {
                &&& self@.contains_key(r@.key)
                &&& self@[r@.key] == r@.expires_at
                &&& forall|k: Seq<char>| #[trigger]
                    self@.contains_key(k) ==> no_later(r@.expires_at, self@[k])
            },
    {
        if self.heap.len() == 0 {
            assert(self@.dom() =~= Set::<Seq<char>>::empty());
            None
        } else {
            proof {
                self.lemma_first_is_least();
            }
            Some(&self.heap[0])
        }
    }

    /// The first record of a non-empty queue is in the schedule, and nothing
    /// in the schedule expires before it.
    proof fn lemma_first_is_least(&self)
        requires
            self.wf(),
            self.heap@.len() > 0,
        ensures
            self@.contains_key(self.heap@[0]@.key),
            self@[self.heap@[0]@.key] == self.heap@[0]@.expires_at,
            forall|k: Seq<char>| #[trigger]
                self@.contains_key(k) ==> no_later(self.heap@[0]@.expires_at, self@[k]),
    {
        let s = self.records();
        lemma_schedule_entry(s, 0);
        assert forall|k: Seq<char>| #[trigger] self@.contains_key(k) implies no_later(
            s[0].expires_at,
            self@[k],
        ) by {
            let a = index_of(s, k);
            lemma_schedule_entry(s, a);
            lemma_root_is_least(s, a);
        }
    }

    /// Moves the record at `start` up until its parent expires no later.
    fn sift_up(&mut self, start: usize)
        requires
            start < old(self).heap@.len(),
            distinct_keys(old(self).records()),
            ordered_but_above(old(self).records(), start as int),
        ensures
            final(self).wf(),
            final(self)@ == old(self)@,
    {
        let mut i: usize = start;
        while i > 0
            invariant
                i < self.heap@.len(),
                distinct_keys(self.records()),
                ordered_but_above(self.records(), i as int),
                self@ == old(self)@,
            decreases i,
        {
            let p: usize = (i - 1) / 2;
            if expires_no_later(self.heap[p].expires_at, self.heap[i].expires_at) {
                return ;
            }
            let ghost before = self.records();
            exchange(&mut self.heap, p, i);
            proof {
                let after = self.records();
                assert(after =~= swapped(before, p as int, i as int));
                lemma_swapped(before, p as int, i as int);
                assert forall|j: int| 0 < j < after.len() && j != p implies no_later(
                    after[parent(j)].expires_at,
                    (#[trigger] after[j]).expires_at,
                ) by {
                    if j == i {
                    } else if parent(j) == p {
                        assert(no_later(before[p as int].expires_at, before[j].expires_at));
                    } else if parent(j) == i {
                        assert(no_later(before[parent(i as int)].expires_at, before[j].expires_at));
                    } else {
                        assert(no_later(before[parent(j)].expires_at, before[j].expires_at));
                    }
                }
                assert forall|j: int| 0 < j < after.len() && parent(j) == p && p > 0 implies no_later(
                    after[parent(p as int)].expires_at,
                    (#[trigger] after[j]).expires_at,
                ) by {
                    assert(no_later(before[parent(p as int)].expires_at, before[p as int].expires_at));
                    if j != i {
                        assert(no_later(before[p as int].expires_at, before[j].expires_at));
                    }
                }
            }
            i = p;
        }
    }

    /// Adds a record for a key that has none in the queue.
    pub fn push(&mut self, record: QueueRecord)
        requires
            old(self).wf(),
            !old(self)@.contains_key(record@.key),
        ensures
            final(self).wf(),
            final(self)@ == old(self)@.insert(record@.key, record@.expires_at),
    {
        let n: usize = self.heap.len();
        let ghost before = self.records();
        let ghost r = record@;
        self.heap.push(record);
        proof {
            assert(self.records() =~= before.push(r));
            lemma_pushed(before, r);
        }
        self.sift_up(n);
    }

    /// Moves the record at `start` down until neither child expires before it.
    fn sift_down(&mut self, start: usize)
        requires
            start < old(self).heap@.len(),
            distinct_keys(old(self).records()),
            ordered_but_below(old(self).records(), start as int),
        ensures
            final(self).wf(),
            final(self)@ == old(self)@,
    {
        let n: usize = self.heap.len();
        let mut i: usize = start;
        loop
            invariant
                n == self.heap@.len(),
                i < n,
                distinct_keys(self.records()),
                ordered_but_below(self.records(), i as int),
                self@ == old(self)@,
            decreases n - i,
        {
            if n - 1 - i < i + 1 {
                return ;
            }
            let left: usize = 2 * i + 1;
            let mut child: usize = left;
            if left + 1 < n && !expires_no_later(
                self.heap[left].expires_at,
                self.heap[left + 1].expires_at,
            ) {
                child = left + 1;
            }
            if expires_no_later(self.heap[i].expires_at, self.heap[child].expires_at) {
                proof {
                    let s = self.records();
                    assert forall|j: int| 0 < j < s.len() implies no_later(
                        s[parent(j)].expires_at,
                        (#[trigger] s[j]).expires_at,
                    ) by {
                        if parent(j) == i {
                            assert(j == left || j == left + 1);
                        }
                    }
                }
                return ;
            }
            let ghost before = self.records();
            exchange(&mut self.heap, i, child);
            proof {
                let after = self.records();
                assert(after =~= swapped(before, i as int, child as int));
                lemma_swapped(before, i as int, child as int);
                assert forall|j: int| 0 < j < after.len() && parent(j) != child implies no_later(
                    after[parent(j)].expires_at,
                    (#[trigger] after[j]).expires_at,
                ) by {
                    if j == child {
                    } else if parent(j) == i {
                        assert(j == left || j == left + 1);
                    } else if j == i {
                        assert(no_later(
                            before[parent(i as int)].expires_at,
                            before[child as int].expires_at,
                        ));
                    } else {
                        assert(no_later(before[parent(j)].expires_at, before[j].expires_at));
                    }
                }
                assert forall|j: int|
                    0 < j < after.len() && parent(j) == child && child > 0 implies no_later(
                    after[parent(child as int)].expires_at,
                    (#[trigger] after[j]).expires_at,
                ) by {
                    assert(no_later(before[child as int].expires_at, before[j].expires_at));
                }
            }
            i = child;
        }
    }

    /// Removes and returns the record that expires first, if there is any: no
    /// key in the schedule had an earlier expiry than the record returned.
    /// Among records with the same least expiry, any one may be returned.
    pub fn pop(&mut self) -> (first: Option<QueueRecord>)
        requires
            old(self).wf(),
        ensures
            final(self).wf(),
            first is None <==> old(self)@.dom().is_empty(),
            first is None ==> final(self)@ == old(self)@,
            first matches Some(r) ==> {
                &&& old(self)@.contains_key(r@.key)
                &&& old(self)@[r@.key] == r@.expires_at
                &&& final(self)@ == old(self)@.remove(r@.key)
                &&& forall|k: Seq<char>| #[trigger]
                    old(self)@.contains_key(k) ==> no_later(r@.expires_at, old(self)@[k])
            },
    {
        if self.heap.len() == 0 {
            assert(self@.dom() =~= Set::<Seq<char>>::empty());
            return None;
        }
        let ghost before = self.records();
        proof {
            self.lemma_first_is_least();
        }
        let record = self.heap.swap_remove(0);
        proof {
            let last = before.len() - 1;
            let after = self.records();
            assert(after =~= swapped(before, 0, last).drop_last());
            lemma_swapped(before, 0, last);
            lemma_dropped_last(swapped(before, 0, last));
            assert forall|j: int| 0 < j < after.len() && parent(j) != 0 implies no_later(
                after[parent(j)].expires_at,
                (#[trigger] after[j]).expires_at,
            ) by {
                assert(no_later(before[parent(j)].expires_at, before[j].expires_at));
            }
        }
        if self.heap.len() > 0 {
            self.sift_down(0);
        } else {
            assert(heap_ordered(self.records()));
        }
        Some(record)
    }
}

} // verus!
