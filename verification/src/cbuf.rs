//! Circular buffers that move one item at a time: one with a single owner, and one
//! with a writing and a reading end.
use crate::access::Record;
use crate::endpoints::new_scbuf;
use crate::endpoints::ConsEnd;
use crate::endpoints::ProdEnd;
use crate::index::check_capacity;
use crate::index::CapacityError;
use crate::memory::Memory;
use crate::memory::Owned;
use crate::ring::Consumer;
use crate::ring::Producer;
use crate::shared::Shared;
use vstd::prelude::*;
use vstd::std_specs::iter::IteratorSpec;

verus! {

/// A circular buffer with a single owner.
///
/// It runs the operations of the endpoints on a memory that nobody else reaches, so
/// what they do to the items in the buffer is stated in full.
pub struct Cbuf<T> {
    mem: Owned<T>,
    producer: Producer,
    consumer: Consumer,
}

impl<T> Cbuf<T> {
    /// The number of items that the buffer can hold.
    pub closed spec fn capacity(self) -> int {
        self.producer.capacity()
    }

    /// Both ends are in step with the memory.
    pub closed spec fn wf(self) -> bool {
        &&& self.producer.wf()
        &&& self.consumer.wf()
        &&& self.mem.wf()
        &&& self.mem.alone()
        &&& self.mem.size() == self.producer.capacity()
        &&& self.mem.state() matches Some(s)
        &&& self.producer.in_step(s)
        &&& self.consumer.in_step(s)
    }

    /// Makes an empty buffer for `capacity` items.
    pub fn new(capacity: usize) -> (cbuf: Self)
        requires
            crate::index::supported::<T>(capacity),
        ensures
            cbuf.wf(),
            cbuf.capacity() == capacity,
            cbuf@ == Seq::<T>::empty(),
    {
        proof {
            crate::protocol::law_init::<T>(capacity);
        }
        Cbuf {
            mem: Owned::new(capacity),
            producer: Producer::new(capacity),
            consumer: Consumer::new(capacity),
        }
    }

    /// The number of items in the buffer.
    pub fn fill(&self) -> (fill: usize)
        requires
            self.wf(),
        ensures
            fill == self@.len(),
    {
        proof {
            let s = self.mem.state()->0;
            crate::index::law_distance_of_positions(s.published, s.received.len());
        }
        let mut consumer = self.consumer;
        consumer.observe(self.producer.w_idx());
        consumer.fill()
    }

    /// The number of items that the buffer has space for.
    pub fn space(&self) -> (space: usize)
        requires
            self.wf(),
        ensures
            space == self.capacity() - self@.len(),
    {
        proof {
            let s = self.mem.state()->0;
            crate::index::law_distance_of_positions(s.sent.len(), s.released);
        }
        let mut producer = self.producer;
        producer.observe(self.consumer.r_idx());
        producer.space()
    }

    /// Moves `item` into the buffer. Returns `None` on success, and the item if the
    /// buffer is full.
    pub fn push(&mut self, item: T) -> (res: Option<T>)
        requires
            old(self).wf(),
        ensures
            final(self).wf(),
            final(self).capacity() == old(self).capacity(),
            (res, final(self)@) == crate::model::pushed(old(self).capacity(), old(self)@, item),
    {
        self.producer.push(&mut self.mem, item)
    }

    /// Takes the oldest item out of the buffer. Returns `None` if there is none.
    pub fn pop(&mut self) -> (res: Option<T>)
        requires
            old(self).wf(),
        ensures
            final(self).wf(),
            final(self).capacity() == old(self).capacity(),
            (res, final(self)@) == crate::model::popped(old(self)@),
    {
        self.consumer.pop(&mut self.mem)
    }

    /// Moves items from the front of `data` into the buffer, as many as there are and
    /// as fit.
    pub fn write<I: Iterator<Item = T>>(&mut self, data: &mut I)
        requires
            old(self).wf(),
        ensures
            final(self).wf(),
            final(self).capacity() == old(self).capacity(),
            old(self)@.is_prefix_of(final(self)@),
            final(self)@.len() <= final(self).capacity(),
            (*final(data)).obeys_prophetic_iter_laws()
                == (*old(data)).obeys_prophetic_iter_laws(),
            (*old(data)).obeys_prophetic_iter_laws() ==> ((*final(data)).remaining(), final(self)@)
                == crate::model::written(
                old(self).capacity(),
                old(self)@,
                (*old(data)).remaining(),
            ),
    {
        self.producer.write(&mut self.mem, data);
    }

    /// Moves items from the buffer onto the end of `data`, oldest first, as many as
    /// there are and at most `room`.
    pub fn read(&mut self, data: &mut Vec<T>, room: usize)
        requires
            old(self).wf(),
        ensures
            final(self).wf(),
            final(self).capacity() == old(self).capacity(),
            (final(data)@, final(self)@) == crate::model::delivered(
                old(self)@,
                old(data)@,
                room as int,
            ),
    {
        self.consumer.read(&mut self.mem, data, room);
    }

    /// Moves items from the buffer onto the end of `data`, oldest first, as many as there
    /// are and as `data` has space for, where it holds no more than `capacity` items.
    pub fn read_within(&mut self, data: &mut Vec<T>, capacity: usize)
        requires
            old(self).wf(),
            old(data)@.len() <= capacity,
        ensures
            final(self).wf(),
            final(self).capacity() == old(self).capacity(),
            (final(data)@, final(self)@) == crate::model::delivered(
                old(self)@,
                old(data)@,
                capacity - old(data)@.len(),
            ),
    {
        self.consumer.read_within(&mut self.mem, data, capacity);
    }

    /// Takes out and drops all items that are left, oldest first.
    pub fn clear(&mut self)
        requires
            old(self).wf(),
        ensures
            final(self).wf(),
            final(self).capacity() == old(self).capacity(),
            final(self)@ == Seq::<T>::empty(),
    {
        let mut left = true;
        while left
            invariant
                self.wf(),
                self.capacity() == old(self).capacity(),
                !left ==> self@.len() == 0,
            decreases self@.len(), (if left { 1int } else { 0int }),
        {
            left = self.pop().is_some();
        }
    }
}

impl<T> View for Cbuf<T> {
    type V = Seq<T>;

    /// The items in the buffer, oldest first.
    closed spec fn view(&self) -> Seq<T> {
        self.mem.state()->0.items()
    }
}

/// Writing end of a circular buffer that moves one item at a time.
#[verifier::reject_recursive_types(T)]
pub struct CbufWriter<T> {
    end: ProdEnd<T>,
}

/// Reading end of a circular buffer that moves one item at a time.
#[verifier::reject_recursive_types(T)]
pub struct CbufReader<T> {
    end: ConsEnd<T>,
}

/// Makes an empty buffer for `capacity` items and returns its two ends. The buffer,
/// with the items that are left in it, oldest first, is dropped with the second of them.
pub fn new_pair<T>(capacity: usize) -> (ends: (CbufWriter<T>, CbufReader<T>))
    requires
        crate::index::supported::<T>(capacity),
    ensures
        ends.0.buffer() == ends.1.buffer(),
        ends.0.record().is_new(ends.0.buffer()),
        ends.1.record().is_new(ends.1.buffer()),
        crate::ring::fresh(ends.0.state(), ends.1.state(), capacity as int),
{
    let (prod_end, cons_end) = new_scbuf(capacity);
    (CbufWriter { end: prod_end }, CbufReader { end: cons_end })
}

/// Makes an empty buffer as [`new_pair`] does, or says why it cannot be made.
pub fn try_new_pair<T>(capacity: usize) -> (res: Result<
    (CbufWriter<T>, CbufReader<T>),
    CapacityError,
>)
    ensures
        res is Ok <==> crate::index::supported::<T>(capacity),
        match res {
            Ok(ends) => {
                &&& ends.0.buffer() == ends.1.buffer()
                &&& ends.0.record().is_new(ends.0.buffer())
                &&& ends.1.record().is_new(ends.1.buffer())
                &&& crate::ring::fresh(ends.0.state(), ends.1.state(), capacity as int)
            },
            Err(error) => crate::index::verdict::<T>(capacity) == Err::<(), CapacityError>(error),
        },
{
    match check_capacity::<T>(capacity) {
        Ok(()) => Ok(new_pair(capacity)),
        Err(error) => Err(error),
    }
}

impl<T> CbufWriter<T> {
    /// The buffer that is written to.
    pub closed spec fn buffer(self) -> Shared<T> {
        self.end.buffer()
    }

    /// What the writing end has done in the buffer so far.
    pub closed spec fn record(self) -> Record<T> {
        self.end.record()
    }

    /// What the writing end knows of the buffer.
    pub closed spec fn state(self) -> Producer {
        self.end.state()
    }

    /// Moves `item` into the buffer. Returns `None` on success, and the item if the
    /// buffer is full.
    ///
    /// The buffer is never found full while less than a capacity of the items written
    /// are in flight. How many of them are depends on the reader.
    pub fn write(&mut self, item: T) -> (res: Option<T>)
        ensures
            final(self).buffer() == old(self).buffer(),
            crate::ring::pushed_out(old(self).state(), final(self).state(), item, res),
            old(self).record().took_turn(final(self).record()),
            crate::trace::push_steps(
                old(self).state(),
                final(self).state(),
                item,
                res,
                final(self).record().turns().last(),
            ),
    {
        self.end.push(item)
    }
}

impl<T> CbufReader<T> {
    /// The buffer that is read from.
    pub closed spec fn buffer(self) -> Shared<T> {
        self.end.buffer()
    }

    /// What the reading end has done in the buffer so far.
    pub closed spec fn record(self) -> Record<T> {
        self.end.record()
    }

    /// What the reading end knows of the buffer.
    pub closed spec fn state(self) -> Consumer {
        self.end.state()
    }

    /// Takes one item out of the buffer. Returns `None` if the buffer is empty.
    ///
    /// Which item it is, and whether there is one, depends on the writer.
    pub fn read(&mut self) -> (res: Option<T>)
        ensures
            final(self).buffer() == old(self).buffer(),
            crate::ring::popped_in(old(self).state(), final(self).state(), res),
            old(self).record().took_turn(final(self).record()),
            crate::trace::pop_steps(
                old(self).state(),
                final(self).state(),
                res,
                final(self).record().turns().last(),
            ),
    {
        self.end.pop()
    }
}

} // verus!
