//! A model of the bounded channels at the actor's boundary. A send onto a
//! full channel is refused rather than dropped: the real actor suspends at
//! that point until the consumer reads — the sole backpressure mechanism.

use vstd::prelude::*;

verus! {

/// What a send attempt did.
#[derive(Debug, PartialEq, Eq)]
pub enum SendOutcome {
    /// The element was queued.
    Accepted,
    /// The channel is full; the sender must wait. Nothing was dropped.
    Full,
}

/// The queue contents after one send attempt.
pub open spec fn send_effect<T>(q: Seq<T>, capacity: nat, e: T) -> Seq<T> {
    if q.len() < capacity {
        q.push(e)
    } else {
        q
    }
}

/// The queue contents after a whole history of send attempts.
pub open spec fn send_all<T>(q: Seq<T>, capacity: nat, es: Seq<T>) -> Seq<T>
    decreases es.len(),
{
    if es.len() == 0 {
        q
    } else {
        send_all(send_effect(q, capacity, es[0]), capacity, es.skip(1))
    }
}

/// A bounded first-in-first-out queue.
pub struct BoundedQueue<T> {
    items: Vec<T>,
    capacity: usize,
}

impl<T> BoundedQueue<T> {
    /// The queued elements, oldest first.
    pub closed spec fn queued(&self) -> Seq<T> {
        self.items@
    }

    /// The fixed capacity.
    pub closed spec fn cap(&self) -> nat {
        self.capacity as nat
    }

    /// Never more queued than the capacity allows.
    pub closed spec fn wf(&self) -> bool {
        self.items@.len() <= self.capacity
    }

    /// An empty queue of the given capacity.
    pub fn new(capacity: usize) -> (q: Self)
        ensures
            q.wf(),
            q.cap() == capacity,
            q.queued() == Seq::<T>::empty(),
    {
        let q = BoundedQueue { items: Vec::new(), capacity };
        proof {
            assert(q.queued() =~= Seq::<T>::empty());
        }
        q
    }

    /// Attempt to queue an element. On a full queue nothing changes and the
    /// caller learns it must wait; no element is ever dropped.
    pub fn try_send(&mut self, e: T) -> (r: SendOutcome)
        requires
            old(self).wf(),
        ensures
            final(self).wf(),
            final(self).cap() == old(self).cap(),
            final(self).queued() == send_effect(old(self).queued(), old(self).cap(), e),
            r == SendOutcome::Accepted <==> old(self).queued().len() < old(self).cap(),
    {
        if self.items.len() < self.capacity {
            self.items.push(e);
            SendOutcome::Accepted
        } else {
            SendOutcome::Full
        }
    }

    /// Take the oldest element, if any.
    pub fn recv(&mut self) -> (r: Option<T>)
        requires
            old(self).wf(),
        ensures
            final(self).wf(),
            final(self).cap() == old(self).cap(),
            match r {
                Some(e) => old(self).queued().len() > 0 && e == old(self).queued()[0]
                    && final(self).queued() == old(self).queued().skip(1),
                None => old(self).queued().len() == 0 && final(self).queued() == old(
                    self,
                ).queued(),
            },
    {
        if self.items.len() > 0 {
            let e = self.items.remove(0);
            proof {
                assert(final(self).queued() =~= old(self).queued().skip(1));
            }
            Some(e)
        } else {
            None
        }
    }

    /// How many elements wait to be read.
    pub fn len(&self) -> (r: usize)
        ensures
            r == self.queued().len(),
    {
        self.items.len()
    }
}

/// Sends into remaining space all land, in order.
pub proof fn lemma_sends_within_capacity_all_land<T>(q: Seq<T>, capacity: nat, es: Seq<T>)
    requires
        q.len() + es.len() <= capacity,
    ensures
        send_all(q, capacity, es) == q + es,
    decreases es.len(),
{
    if es.len() == 0 {
        assert(q + es =~= q);
    } else {
        assert(send_effect(q, capacity, es[0]) == q.push(es[0]));
        lemma_sends_within_capacity_all_land(q.push(es[0]), capacity, es.skip(1));
        assert(q.push(es[0]) + es.skip(1) =~= q + es);
    }
}

/// A history of sends splits at any point.
pub proof fn lemma_send_all_splits<T>(q: Seq<T>, capacity: nat, es1: Seq<T>, es2: Seq<T>)
    ensures
        send_all(q, capacity, es1 + es2) == send_all(send_all(q, capacity, es1), capacity, es2),
    decreases es1.len(),
{
    if es1.len() == 0 {
        assert(es1 + es2 =~= es2);
    } else {
        let joined = es1 + es2;
        assert(joined[0] == es1[0]);
        lemma_send_all_splits(send_effect(q, capacity, es1[0]), capacity, es1.skip(1), es2);
        assert(joined.skip(1) =~= es1.skip(1) + es2);
    }
}

/// Backpressure: if the channel's capacity is n and the consumer never
/// reads, then of any n + 1 events offered the first n are queued, in
/// order, and the send of the last finds the channel full and changes
/// nothing — the sender waits; no event is dropped.
pub proof fn lemma_backpressure<T>(capacity: nat, es: Seq<T>)
    requires
        es.len() == capacity + 1,
    ensures
        send_all(Seq::<T>::empty(), capacity, es) == es.drop_last(),
        send_effect(es.drop_last(), capacity, es.last()) == es.drop_last(),
{
    let head = es.drop_last();
    let tail = seq![es.last()];
    assert(es =~= head + tail);
    lemma_send_all_splits(Seq::<T>::empty(), capacity, head, tail);
    lemma_sends_within_capacity_all_land(Seq::<T>::empty(), capacity, head);
    assert(Seq::<T>::empty() + head =~= head);
    assert(send_all(head, capacity, tail) == send_all(
        send_effect(head, capacity, tail[0]),
        capacity,
        tail.skip(1),
    ));
    assert(tail.skip(1) =~= Seq::<T>::empty());
}

} // verus!
