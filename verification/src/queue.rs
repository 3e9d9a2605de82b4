//! Release times kept in order, latest first, by a sorted vector.

use vstd::prelude::*;
use sorted_vec::SortedVec;
use std::cmp::Reverse;

verus! {

/// The sorted vector of `sorted_vec`; nothing is known of what is inside but
/// what the functions below say.
#[verifier::external_type_specification]
#[verifier::external_body]
#[verifier::reject_recursive_types(T)]
pub struct ExSortedVec<T: Ord>(SortedVec<T>);

/// The wrapper of the standard library that turns the order of a type round.
#[verifier::external_type_specification]
#[verifier::external_body]
#[verifier::reject_recursive_types(T)]
pub struct ExReverse<T>(Reverse<T>);

/// The release times that a queue holds, in the order in which it holds them.
pub uninterp spec fn queue_items(queue: SortedVec<Reverse<i128>>) -> Seq<i128>;

/// No time in `times` is later than one before it.
pub open spec fn descending(times: Seq<i128>) -> bool {
    forall|i: int, j: int| 0 <= i <= j < times.len() ==> times[i] >= times[j]
}

/// Whether the time `a` is later than the time `b`.
pub fn later_than(a: i128, b: i128) -> (later: bool)
    ensures
        later == (a > b),
{
    a > b
}

/// Calls `SortedVec::new`: a queue that holds nothing.
#[verifier::external_body]
pub(crate) fn queue_new() -> (queue: SortedVec<Reverse<i128>>)
    ensures
        queue_items(queue) == Seq::<i128>::empty(),
{
    SortedVec::new()
}

/// Calls `SortedVec::push`, which puts the time at a place that keeps the
/// vector sorted and returns that place. In a vector of `Reverse` sorted
/// means latest first. Among equal times the place is the crate's choice.
#[verifier::external_body]
pub(crate) fn queue_push(queue: &mut SortedVec<Reverse<i128>>, release: i128) -> (at: usize)
    ensures
        at <= queue_items(*old(queue)).len(),
        queue_items(*final(queue)) == queue_items(*old(queue)).insert(at as int, release),
        descending(queue_items(*old(queue))) ==> descending(queue_items(*final(queue))),
{
    queue.push(Reverse(release))
}

/// Calls `partition_point` on the queue's slice with the test "later than
/// `now`". On times in descending order, which that test partitions, the
/// result is where the times that are not later than `now` begin.
#[verifier::external_body]
pub(crate) fn queue_split(queue: &SortedVec<Reverse<i128>>, now: i128) -> (at: usize)
    requires
        descending(queue_items(*queue)),
    ensures
        at <= queue_items(*queue).len(),
        forall|i: int| 0 <= i < at ==> queue_items(*queue)[i] > now,
        forall|i: int| at <= i < queue_items(*queue).len() ==> queue_items(*queue)[i] <= now,
{
    queue.partition_point(|x| later_than(x.0, now))
}

/// Calls `SortedVec::drain` on the range from `at` to the end and drops what
/// it hands out: the queue keeps its first `at` times.
#[verifier::external_body]
pub(crate) fn queue_drain_from(queue: &mut SortedVec<Reverse<i128>>, at: usize)
    requires
        at <= queue_items(*old(queue)).len(),
    ensures
        queue_items(*final(queue)) == queue_items(*old(queue)).take(at as int),
{
    queue.drain(at..);
}

} // verus!
