//! The fixed-size ring that backs a sliding window.
//!
//! The ring itself is `circular_queue::CircularQueue`: a buffer created with
//! a set capacity into which values are pushed, the oldest being overwritten
//! once the buffer is full. Its contents and its capacity are named here so
//! that verified code can reason about what the ring holds.
use vstd::prelude::*;
use circular_queue::CircularQueue;

verus! {

#[verifier::external_type_specification]
#[verifier::external_body]
#[verifier::reject_recursive_types(T)]
pub struct ExCircularQueue<T>(CircularQueue<T>);

/// The values the ring currently holds, oldest first.
pub uninterp spec fn ring_items(q: CircularQueue<i64>) -> Seq<i64>;

/// The fixed capacity the ring was created with.
pub uninterp spec fn ring_capacity(q: CircularQueue<i64>) -> nat;

/// Relies on `CircularQueue::with_capacity`: a new queue is empty and
/// remembers the requested capacity.
#[verifier::external_body]
pub(crate) fn ring_new(capacity: usize) -> (q: CircularQueue<i64>)
    ensures
        ring_items(q) == Seq::<i64>::empty(),
        ring_capacity(q) == capacity as nat,
{
    CircularQueue::with_capacity(capacity)
}

/// Relies on `CircularQueue::push`: the value is appended and, once the
/// queue is full, the oldest value is overwritten and handed back.
#[verifier::external_body]
pub(crate) fn ring_push(q: &mut CircularQueue<i64>, v: i64) -> (evicted: Option<i64>)
    requires
        ring_capacity(*old(q)) >= 1,
        ring_items(*old(q)).len() <= ring_capacity(*old(q)),
    ensures
        ring_capacity(*final(q)) == ring_capacity(*old(q)),
        ring_items(*old(q)).len() < ring_capacity(*old(q)) ==> {
            &&& ring_items(*final(q)) == ring_items(*old(q)).push(v)
            &&& evicted == None::<i64>
        },
        ring_items(*old(q)).len() == ring_capacity(*old(q)) ==> {
            &&& ring_items(*final(q)) == ring_items(*old(q)).skip(1).push(v)
            &&& evicted == Some(ring_items(*old(q))[0])
        },
{
    q.push(v)
}

} // verus!
