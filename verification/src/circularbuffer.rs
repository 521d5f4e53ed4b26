//! A fixed-capacity ring of values: pushing beyond the capacity drops the
//! oldest entries from the front, so the buffer always holds the newest
//! values in arrival order.

use vstd::prelude::*;
use std::collections::VecDeque;

verus! {

pub struct CircularBuffer<T> {
    buf: VecDeque<T>,
    capacity: usize,
}

/// One push into a ring of capacity `cap`: append at the back, and drop the
/// front entry if that exceeded the capacity.
pub open spec fn ring_push<T>(s: Seq<T>, cap: nat, val: T) -> Seq<T> {
    if s.len() < cap {
        s.push(val)
    } else {
        s.push(val).skip(1)
    }
}

/// `ring_push` folded over a sequence of values, oldest first.
pub open spec fn ring_push_all<T>(s: Seq<T>, cap: nat, vals: Seq<T>) -> Seq<T>
    decreases vals.len(),
{
    if vals.len() == 0 {
        s
    } else {
        ring_push_all(ring_push(s, cap, vals[0]), cap, vals.skip(1))
    }
}

impl<T> View for CircularBuffer<T> {
    type V = Seq<T>;

    closed spec fn view(&self) -> Seq<T> {
        self.buf@
    }
}

impl<T> CircularBuffer<T> {
    pub closed spec fn spec_capacity(&self) -> nat {
        self.capacity as nat
    }

    pub open spec fn wf(&self) -> bool {
        self@.len() <= self.spec_capacity()
    }

    pub fn new(capacity: usize) -> (r: Self)
        ensures
            r@ =~= Seq::<T>::empty(),
            r.spec_capacity() == capacity,
            r.wf(),
    {
        CircularBuffer { buf: VecDeque::with_capacity(capacity), capacity }
    }

    pub fn add(&mut self, val: T)
        requires
            old(self).wf(),
        ensures
            final(self).wf(),
            final(self).spec_capacity() == old(self).spec_capacity(),
            final(self)@ =~= ring_push(old(self)@, old(self).spec_capacity(), val),
    {
        self.buf.push_back(val);
        if self.buf.len() > self.capacity {
            self.buf.pop_front();
        }
    }

    pub fn get_buf(&self) -> (r: &VecDeque<T>)
        ensures
            r@ =~= self@,
    {
        &self.buf
    }

    pub fn is_full(&self) -> (r: bool)
        ensures
            r == (self@.len() == self.spec_capacity()),
    {
        self.buf.len() == self.capacity
    }

    pub fn clear(&mut self)
        ensures
            final(self)@ =~= Seq::<T>::empty(),
            final(self).spec_capacity() == old(self).spec_capacity(),
            final(self).wf(),
    {
        self.buf.clear();
    }

    pub fn capacity(&self) -> (r: usize)
        ensures
            r == self.spec_capacity(),
    {
        self.capacity
    }

    /// Change the capacity; if the buffer now holds too many values, the
    /// oldest are dropped from the front.
    pub fn resize(&mut self, capacity: usize)
        ensures
            final(self).spec_capacity() == capacity,
            final(self).wf(),
            final(self)@ =~= if old(self)@.len() <= capacity {
                old(self)@
            } else {
                old(self)@.skip(old(self)@.len() - capacity)
            },
    {
        self.capacity = capacity;
        while self.capacity < self.buf.len()
            invariant
                self.capacity == capacity,
                self.buf@.len() <= old(self)@.len(),
                self.buf@.len() >= capacity || self.buf@.len() == old(self)@.len(),
                self.buf@ =~= old(self)@.skip(old(self)@.len() - self.buf@.len()),
            decreases self.buf@.len(),
        {
            let ghost prev = self.buf@;
            self.buf.pop_front();
            assert(self.buf@ =~= prev.skip(1));
            assert(self.buf@ =~= old(self)@.skip(old(self)@.len() - self.buf@.len()));
        }
        assert(self@ =~= if old(self)@.len() <= capacity {
            old(self)@
        } else {
            old(self)@.skip(old(self)@.len() - capacity)
        });
    }
}

/// Feeding more values than the capacity leaves exactly the newest
/// `cap` values, in arrival order with the newest at the back: the ring keeps
/// the suffix of everything it ever saw.
pub proof fn lemma_ring_fifo<T>(s: Seq<T>, cap: nat, vals: Seq<T>)
    requires
        s.len() <= cap,
        s.len() + vals.len() >= cap,
    ensures
        ring_push_all(s, cap, vals) =~= (s + vals).skip(s.len() + vals.len() - cap),
    decreases vals.len(),
{
    if vals.len() == 0 {
        assert((s + vals) =~= s);
    } else {
        let stepped = ring_push(s, cap, vals[0]);
        assert(stepped.len() <= cap);
        lemma_ring_fifo(stepped, cap, vals.skip(1));
        assert(stepped + vals.skip(1) =~= (s + vals).skip(
            if s.len() < cap { 0int } else { 1int },
        ));
    }
}

} // verus!
