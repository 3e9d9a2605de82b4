//! Bundles that wait for their time.

use vstd::prelude::*;
use sorted_vec::SortedVec;
use std::cmp::Reverse;
use crate::packet::{BundleModel, OscBundle};
use crate::queue::{descending, queue_drain_from, queue_items, queue_new, queue_push, queue_split};

verus! {

/// Names a bundle that was put off, so that its later application can be told.
#[derive(Clone, Copy, Debug, PartialEq, Eq, Structural)]
pub struct CorrelationId(pub u128);

/// A value filed under a key, with a name by which it can be told later.
#[derive(Debug)]
pub struct KeyValue<K, V> {
    pub key: K,
    pub value: V,
    pub uuid: CorrelationId,
}

impl<K, V> KeyValue<K, V> {
    /// The value `value` filed under `key`, with the name `uuid`.
    pub fn new(key: K, value: V, uuid: CorrelationId) -> (entry: KeyValue<K, V>)
        ensures
            entry.key == key,
            entry.value == value,
            entry.uuid == uuid,
    {
        KeyValue { key, value, uuid }
    }
}

/// A bundle that waits, filed under the instant at which it is due, in
/// nanoseconds since 1970.
pub type Delayed = KeyValue<i128, OscBundle>;

/// What a waiting bundle holds.
pub struct DelayedModel {
    pub release: int,
    pub id: CorrelationId,
    pub bundle: BundleModel,
}

impl View for KeyValue<i128, OscBundle> {
    type V = DelayedModel;

    open spec fn view(&self) -> DelayedModel {
        DelayedModel { release: self.key as int, id: self.uuid, bundle: self.value@ }
    }
}

/// What each of `entries` holds, in order.
pub open spec fn delayed_models(entries: Seq<Delayed>) -> Seq<DelayedModel> {
    Seq::new(entries.len(), |i: int| entries[i]@)
}

/// The release time of each of `entries`, in order.
pub open spec fn releases(entries: Seq<Delayed>) -> Seq<i128> {
    Seq::new(entries.len(), |i: int| entries[i].key)
}

/// No entry is due later than one before it.
pub open spec fn latest_first(entries: Seq<DelayedModel>) -> bool {
    forall|i: int, j: int| 0 <= i <= j < entries.len() ==> entries[i].release >= entries[j].release
}

/// No entry is due earlier than one before it.
pub open spec fn earliest_first(entries: Seq<DelayedModel>) -> bool {
    forall|i: int, j: int| 0 <= i <= j < entries.len() ==> entries[i].release <= entries[j].release
}

/// The number of entries at the front of `entries` that are due after `now`.
pub open spec fn future_count(entries: Seq<DelayedModel>, now: int) -> nat
    decreases entries.len(),
{
    if entries.len() == 0 || entries[0].release <= now {
        0
    } else {
        1 + future_count(entries.drop_first(), now)
    }
}

/// The entries of `entries` from the place `from` on, last one first.
pub open spec fn tail_reversed(entries: Seq<DelayedModel>, from: int) -> Seq<DelayedModel> {
    Seq::new((entries.len() - from) as nat, |i: int| entries[entries.len() - 1 - i])
}

/// The end of entries that are ordered latest first, taken last one first, is
/// ordered earliest first.
pub proof fn lemma_tail_reversed_earliest_first(entries: Seq<DelayedModel>, from: int)
    requires
        latest_first(entries),
        0 <= from <= entries.len(),
    ensures
        earliest_first(tail_reversed(entries, from)),
{
    let tail = tail_reversed(entries, from);
    assert forall|i: int, j: int| 0 <= i <= j < tail.len() implies tail[i].release <= tail[j].release by {
        assert(tail[i] == entries[entries.len() - 1 - i]);
        assert(tail[j] == entries[entries.len() - 1 - j]);
    }
}

/// In entries that are ordered latest first, those due after `now` are
/// exactly the first `future_count` ones.
pub proof fn lemma_future_count(entries: Seq<DelayedModel>, now: int)
    requires
        latest_first(entries),
    ensures
        future_count(entries, now) <= entries.len(),
        forall|i: int| 0 <= i < future_count(entries, now) ==> entries[i].release > now,
        forall|i: int| future_count(entries, now) <= i < entries.len() ==> entries[i].release <= now,
    decreases entries.len(),
{
    if entries.len() > 0 && entries[0].release > now {
        let rest = entries.drop_first();
        assert(latest_first(rest)) by {
            assert forall|i: int, j: int| 0 <= i <= j < rest.len() implies rest[i].release >= rest[j].release by {
                assert(rest[i] == entries[i + 1] && rest[j] == entries[j + 1]);
            }
        }
        lemma_future_count(rest, now);
        assert forall|i: int| 0 <= i < future_count(entries, now) implies entries[i].release > now by {
            if i > 0 {
                assert(entries[i] == rest[i - 1]);
            }
        }
        assert forall|i: int| future_count(entries, now) <= i < entries.len() implies entries[i].release <= now by {
            assert(entries[i] == rest[i - 1]);
        }
    } else if entries.len() > 0 {
        assert forall|i: int| 0 <= i < entries.len() implies entries[i].release <= now by {
            assert(entries[0].release >= entries[i].release);
        }
    }
}

/// A place that parts the entries due after `now` from the others is
/// `future_count`.
pub proof fn lemma_future_count_is(entries: Seq<DelayedModel>, now: int, at: int)
    requires
        0 <= at <= entries.len(),
        forall|i: int| 0 <= i < at ==> entries[i].release > now,
        forall|i: int| at <= i < entries.len() ==> entries[i].release <= now,
    ensures
        future_count(entries, now) == at,
    decreases entries.len(),
{
    if entries.len() > 0 && entries[0].release > now {
        let rest = entries.drop_first();
        assert(at > 0);
        assert forall|i: int| 0 <= i < at - 1 implies rest[i].release > now by {
            assert(rest[i] == entries[i + 1]);
        }
        assert forall|i: int| at - 1 <= i < rest.len() implies rest[i].release <= now by {
            assert(rest[i] == entries[i + 1]);
        }
        lemma_future_count_is(rest, now, at - 1);
    }
}

/// Putting an item into a sequence adds it to the sequence's multiset.
pub proof fn lemma_insert_multiset<A>(s: Seq<A>, at: int, item: A)
    requires
        0 <= at <= s.len(),
    ensures
        s.insert(at, item).to_multiset() == s.to_multiset().insert(item),
{
    let t = s.insert(at, item);
    t.to_multiset_ensures();
    assert(t.remove(at) =~= s);
    assert(t[at] == item);
    assert(t.to_multiset().remove(item) =~= s.to_multiset());
    assert(t.contains(item));
    assert(t.to_multiset() =~= s.to_multiset().insert(item));
}

/// Calls `uuid::Uuid::new_v4`: a name drawn at random, of which nothing is
/// known beforehand.
#[verifier::external_body]
fn random_id() -> (id: CorrelationId)
{
    CorrelationId(uuid::Uuid::new_v4().as_u128())
}

/// A name for a bundle that is put off, drawn at random.
pub fn fresh_id() -> (id: CorrelationId)
{
    random_id()
}

/// Entries whose release times descend are ordered latest first.
pub proof fn lemma_releases_latest_first(entries: Seq<Delayed>)
    requires
        descending(releases(entries)),
    ensures
        latest_first(delayed_models(entries)),
{
    assert forall|i: int, j: int| 0 <= i <= j < entries.len() implies delayed_models(entries)[i].release
        >= delayed_models(entries)[j].release by {
        assert(releases(entries)[i] == entries[i].key);
        assert(releases(entries)[j] == entries[j].key);
    }
}

/// The bundles that wait for their time, ordered by it, latest first.
pub struct DelayedBuffer {
    queue: SortedVec<Reverse<i128>>,
    waiting: Vec<Delayed>,
}

impl View for DelayedBuffer {
    type V = Seq<DelayedModel>;

    closed spec fn view(&self) -> Seq<DelayedModel> {
        delayed_models(self.waiting@)
    }
}

impl DelayedBuffer {
    /// The queue holds the release times of the waiting bundles, in order.
    #[verifier::type_invariant]
    spec fn queue_in_step(self) -> bool {
        &&& queue_items(self.queue) == releases(self.waiting@)
        &&& descending(queue_items(self.queue))
    }

    /// A buffer in which nothing waits.
    pub fn new() -> (buffer: Self)
        ensures
            buffer@ == Seq::<DelayedModel>::empty(),
    {
        let queue = queue_new();
        let waiting: Vec<Delayed> = Vec::new();
        proof {
            assert(releases(waiting@) =~= Seq::<i128>::empty());
            assert(delayed_models(waiting@) =~= Seq::<DelayedModel>::empty());
        }
        DelayedBuffer { queue, waiting }
    }

    /// The number of bundles that wait. They are ordered by their release
    /// time, latest first.
    pub fn len(&self) -> (n: usize)
        ensures
            n == self@.len(),
            latest_first(self@),
    {
        proof {
            use_type_invariant(self);
            lemma_releases_latest_first(self.waiting@);
        }
        self.waiting.len()
    }

    /// Puts `entry` among the waiting bundles, at a place that keeps them
    /// ordered, and returns that place.
    pub fn insert(&mut self, entry: Delayed) -> (at: usize)
        ensures
            at <= old(self)@.len(),
            final(self)@ == old(self)@.insert(at as int, entry@),
            final(self)@.to_multiset() == old(self)@.to_multiset().insert(entry@),
            latest_first(final(self)@),
    {
        let mut taken = DelayedBuffer::new();
        core::mem::swap(self, &mut taken);
        proof {
            use_type_invariant(&taken);
        }
        let ghost before = taken.waiting@;
        let ghost model = entry@;
        let mut queue = taken.queue;
        let mut waiting = taken.waiting;
        let at = queue_push(&mut queue, entry.key);
        waiting.insert(at, entry);
        proof {
            assert(releases(waiting@) =~= releases(before).insert(at as int, model.release as i128));
            assert(delayed_models(waiting@) =~= delayed_models(before).insert(at as int, model));
            lemma_insert_multiset(delayed_models(before), at as int, model);
        }
        proof {
            lemma_releases_latest_first(waiting@);
        }
        *self = DelayedBuffer { queue, waiting };
        at
    }

    /// Files `bundle` under the instant `release` and a fresh name, which is
    /// handed back.
    pub fn push(&mut self, release: i128, bundle: OscBundle) -> (id: CorrelationId)
        ensures
            final(self)@.to_multiset() == old(self)@.to_multiset().insert(
                DelayedModel { release: release as int, id, bundle: bundle@ },
            ),
            latest_first(final(self)@),
    {
        let id = fresh_id();
        self.insert(KeyValue::new(release, bundle, id));
        id
    }

    /// Takes out the bundles that are due at `now`, earliest first. The others
    /// stay as they are.
    pub fn drain_ready(&mut self, now: i128) -> (ready: Vec<Delayed>)
        ensures
            latest_first(old(self)@),
            future_count(old(self)@, now as int) <= old(self)@.len(),
            final(self)@ == old(self)@.take(future_count(old(self)@, now as int) as int),
            delayed_models(ready@) == tail_reversed(old(self)@, future_count(old(self)@, now as int) as int),
            earliest_first(delayed_models(ready@)),
            forall|i: int| 0 <= i < ready@.len() ==> (#[trigger] ready@[i]).key <= now,
            forall|i: int| 0 <= i < final(self)@.len() ==> (#[trigger] final(self)@[i]).release > now,
    {
        let mut taken = DelayedBuffer::new();
        core::mem::swap(self, &mut taken);
        proof {
            use_type_invariant(&taken);
        }
        let ghost before = taken.waiting@;
        let ghost view = taken@;
        proof {
            lemma_releases_latest_first(before);
        }
        let mut queue = taken.queue;
        let mut waiting = taken.waiting;
        let at = queue_split(&queue, now);
        proof {
            assert forall|i: int| 0 <= i < at implies view[i].release > now by {
                assert(releases(before)[i] == before[i].key);
            }
            assert forall|i: int| at <= i < view.len() implies view[i].release <= now by {
                assert(releases(before)[i] == before[i].key);
            }
            lemma_future_count_is(view, now as int, at as int);
        }
        queue_drain_from(&mut queue, at);
        let mut tail = waiting.split_off(at);
        proof {
            assert(releases(waiting@) =~= releases(before).take(at as int));
            assert(delayed_models(waiting@) =~= view.take(at as int));
            assert forall|i: int, j: int| 0 <= i <= j < queue_items(queue).len() implies queue_items(queue)[i]
                >= queue_items(queue)[j] by {
                assert(releases(before)[i] >= releases(before)[j]);
            }
        }
        *self = DelayedBuffer { queue, waiting };
        let ghost tail_before = tail@;
        let mut ready: Vec<Delayed> = Vec::new();
        while tail.len() > 0
            invariant
                tail@.len() <= tail_before.len(),
                tail@ == tail_before.take(tail@.len() as int),
                ready@.len() == tail_before.len() - tail@.len(),
                forall|i: int| 0 <= i < ready@.len() ==> #[trigger] ready@[i] == tail_before[tail_before.len() - 1 - i],
            decreases tail@.len(),
        {
            let ghost n = tail@.len();
            let entry = tail.pop().unwrap();
            ready.push(entry);
            proof {
                assert(tail@ =~= tail_before.take(n - 1));
            }
        }
        proof {
            assert(tail_before == before.skip(at as int));
            assert(delayed_models(ready@) =~= tail_reversed(view, at as int)) by {
                assert forall|i: int| 0 <= i < ready@.len() implies delayed_models(ready@)[i] == tail_reversed(view, at as int)[i] by {
                    assert(ready@[i] == tail_before[tail_before.len() - 1 - i]);
                    assert(tail_before[tail_before.len() - 1 - i] == before[at + tail_before.len() - 1 - i]);
                }
            }
            lemma_tail_reversed_earliest_first(view, at as int);
            assert forall|i: int| 0 <= i < ready@.len() implies (#[trigger] ready@[i]).key <= now by {
                assert(ready@[i] == tail_before[tail_before.len() - 1 - i]);
                assert(tail_before[tail_before.len() - 1 - i] == before[at + tail_before.len() - 1 - i]);
                assert(view[at + tail_before.len() - 1 - i].release <= now);
            }
            assert forall|i: int| 0 <= i < self@.len() implies (#[trigger] self@[i]).release > now by {
                assert(self@[i] == view[i]);
            }
        }
        ready
    }
}

} // verus!
