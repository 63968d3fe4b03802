//! A circular buffer with one producing and one consuming end, which can be used
//! from different threads.
use crate::access::link_ends;
use crate::access::Link;
use crate::access::Record;
use crate::index::check_capacity;
use crate::index::CapacityError;
use crate::reading::Reading;
use crate::ring::Consumer;
use crate::ring::Producer;
use crate::shared::Shared;
use crate::trace::Event;
use vstd::prelude::*;
use vstd::std_specs::iter::IteratorSpec;
use vstd::std_specs::iter::IteratorSpecImpl;

verus! {

/// Producer endpoint for inserting data into the circular buffer.
/// See [`ProdEnd::push()`] and [`ProdEnd::write()`].
#[verifier::reject_recursive_types(T)]
pub struct ProdEnd<T> {
    link: Link<T>,
    record: Record<T>,
    producer: Producer,
}

/// Consumer endpoint for retrieving data from the circular buffer.
/// See [`ConsEnd::pop()`] and [`ConsEnd::read()`].
#[verifier::reject_recursive_types(T)]
pub struct ConsEnd<T> {
    link: Link<T>,
    record: Record<T>,
    consumer: Consumer,
}

/// Creates a new circular buffer with the given `capacity` and returns one producer
/// and one consumer endpoint.
///
/// The endpoints are [`Send`] and [`Sync`] for items that can be sent, so they can be
/// used in a multi-threaded scenario. An endpoint can be further shared across multiple
/// threads (multiple producers/consumers) by wrapping it into an `Arc<Mutex<_>>`. This
/// way, consumers will block other consumers (and producers other producers), but
/// producers and consumers do not wait for each other.
///
/// The `capacity` must be a power of two, items must take up space, and the storage
/// must not be larger than an allocation may be; see
/// [`check_capacity`](crate::index::check_capacity). The storage is made of slots, and a
/// slot takes more than an item.
///
/// Dropping both endpoints drops the underlying buffer storage and any items left
/// inside, oldest first.
pub fn new_scbuf<T>(capacity: usize) -> (ends: (ProdEnd<T>, ConsEnd<T>))
    requires
        crate::index::supported::<T>(capacity),
    ensures
        ends.0.buffer() == ends.1.buffer(),
        ends.0.record().is_new(ends.0.buffer()),
        ends.1.record().is_new(ends.1.buffer()),
        crate::ring::fresh(ends.0.state(), ends.1.state(), capacity as int),
{
    let ((prod_link, prod_record), (cons_link, cons_record)) = link_ends(capacity);
    let prod_end = ProdEnd {
        link: prod_link,
        record: prod_record,
        producer: Producer::new(capacity),
    };
    let cons_end = ConsEnd {
        link: cons_link,
        record: cons_record,
        consumer: Consumer::new(capacity),
    };
    (prod_end, cons_end)
}

/// Creates a new circular buffer as [`new_scbuf`] does, or says why it cannot be made.
pub fn try_new_scbuf<T>(capacity: usize) -> (res: Result<
    (ProdEnd<T>, ConsEnd<T>),
    CapacityError,
>)
    ensures
        res is Ok <==> crate::index::supported::<T>(capacity),
        match res {
            Ok(ends) => {
                &&& ends.0.buffer() == ends.1.buffer()
                &&& ends.0.record().is_new(ends.0.buffer())
                &&& ends.1.record().is_new(ends.1.buffer())
                &&& crate::ring::fresh(ends.0.state(), ends.1.state(), capacity as int)
            },
            Err(error) => crate::index::verdict::<T>(capacity) == Err::<(), CapacityError>(error),
        },
{
    match check_capacity::<T>(capacity) {
        Ok(()) => Ok(new_scbuf(capacity)),
        Err(error) => Err(error),
    }
}

impl<T> ProdEnd<T> {
    #[verifier::type_invariant]
    spec fn inv(self) -> bool {
        &&& self.producer.wf()
        &&& self.link.buffer().slot_count() == self.producer.capacity()
        &&& self.record.of() == self.link.buffer()
    }

    /// The buffer that the endpoint inserts into.
    pub closed spec fn buffer(self) -> Shared<T> {
        self.link.buffer()
    }

    /// What the endpoint has done in the buffer so far.
    pub closed spec fn record(self) -> Record<T> {
        self.record
    }

    /// What the endpoint knows of the buffer.
    pub closed spec fn state(self) -> Producer {
        self.producer
    }

    /// Moves a single item into the circular buffer. Returns [`None`] on success,
    /// [`Some<T>`] containing the item if the buffer was full.
    ///
    /// The endpoint never finds the buffer full while less than a capacity of its
    /// items are in flight. How many of them are depends on the consumer.
    pub fn push(&mut self, item: T) -> (res: Option<T>)
        ensures
            final(self).buffer() == old(self).buffer(),
            crate::ring::pushed_out(old(self).state(), final(self).state(), item, res),
            old(self).record().took_turn(final(self).record()),
            crate::trace::push_steps(
                old(self).state(),
                final(self).state(),
                item,
                res,
                final(self).record().turns().last(),
            ),
    {
        proof {
            use_type_invariant(&*self);
        }
        let mut producer = self.producer;
        let mut access = self.record.open(&self.link);
        let res = producer.push(&mut access, item);
        assert(access.events().skip(0) =~= access.events());
        self.record.close(access);
        self.producer = producer;
        res
    }

    /// Moves n elements from `data` into the buffer, where n is the minimum of the
    /// number of elements in `data` and the space available in the buffer. Any
    /// iterator will do, and a draining one avoids shifting the items that stay in a
    /// vector which is not drained completely.
    ///
    /// The space is at least what the items in flight leave of the capacity; how much
    /// more it is depends on the consumer. What is taken from `data` is stated for an
    /// iterator that hands out a fixed sequence.
    pub fn write<I: Iterator<Item = T>>(&mut self, data: &mut I)
        ensures
            final(self).buffer() == old(self).buffer(),
            crate::ring::wrote(old(self).state(), final(self).state()),
            old(self).record().took_turn(final(self).record()),
            crate::trace::write_steps(
                old(self).state(),
                final(self).state(),
                final(self).record().turns().last(),
            ),
            (*final(data)).obeys_prophetic_iter_laws()
                == (*old(data)).obeys_prophetic_iter_laws(),
            (*old(data)).obeys_prophetic_iter_laws() ==> crate::ring::moved_out(
                old(self).state(),
                final(self).state(),
                (*old(data)).remaining(),
                (*final(data)).remaining(),
            ),
            (*old(data)).obeys_prophetic_iter_laws() ==> crate::trace::puts_from(
                old(self).state().ahead(final(self).state()),
                (*old(data)).remaining(),
                final(self).record().turns().last(),
            ),
    {
        proof {
            use_type_invariant(&*self);
        }
        let mut producer = self.producer;
        let mut access = self.record.open(&self.link);
        producer.write(&mut access, data);
        assert(access.events().skip(0) =~= access.events());
        self.record.close(access);
        self.producer = producer;
    }
}

impl<T> ConsEnd<T> {
    #[verifier::type_invariant]
    spec fn inv(self) -> bool {
        &&& self.consumer.wf()
        &&& self.link.buffer().slot_count() == self.consumer.capacity()
        &&& self.record.of() == self.link.buffer()
    }

    /// The buffer that the endpoint retrieves from.
    pub closed spec fn buffer(self) -> Shared<T> {
        self.link.buffer()
    }

    /// What the endpoint has done in the buffer so far.
    pub closed spec fn record(self) -> Record<T> {
        self.record
    }

    /// What the endpoint knows of the buffer.
    pub closed spec fn state(self) -> Consumer {
        self.consumer
    }

    /// Pops one item from the circular buffer. Returns [`None`] if the buffer was
    /// empty.
    ///
    /// Which item it is, and whether there is one, depends on the producer.
    pub fn pop(&mut self) -> (res: Option<T>)
        ensures
            final(self).buffer() == old(self).buffer(),
            crate::ring::popped_in(old(self).state(), final(self).state(), res),
            old(self).record().took_turn(final(self).record()),
            crate::trace::pop_steps(
                old(self).state(),
                final(self).state(),
                res,
                final(self).record().turns().last(),
            ),
    {
        proof {
            use_type_invariant(&*self);
        }
        let mut consumer = self.consumer;
        let mut access = self.record.open(&self.link);
        let res = consumer.pop(&mut access);
        assert(access.events().skip(0) =~= access.events());
        self.record.close(access);
        self.consumer = consumer;
        res
    }

    /// Reads n items from the buffer into `data`, where n is the minimum of the
    /// available space in `data` (`data.capacity() - data.len()`) and the number
    /// of items available in the buffer.
    ///
    /// What capacity a vector has rests on the allocator. The first step on record is the
    /// question, asked of `data` as it is handed in, and what is done is stated for the
    /// answer.
    pub fn read(&mut self, data: &mut Vec<T>)
        ensures
            final(self).buffer() == old(self).buffer(),
            crate::ring::moved_in(
                old(self).state(),
                final(self).state(),
                old(data)@,
                final(data)@,
            ),
            old(self).record().took_turn(final(self).record()),
            crate::trace::fill_steps(
                old(self).state(),
                final(self).state(),
                *old(data),
                final(data)@,
                final(self).record().turns().last(),
            ),
            final(self).record().turns().last()[0] matches Event::Measured(asked, capacity) && {
                &&& final(data)@.len() <= capacity
                &&& final(data)@.len() < capacity ==> final(self).state().available() == 0
            },
    {
        proof {
            use_type_invariant(&*self);
        }
        let mut consumer = self.consumer;
        let mut access = self.record.open(&self.link);
        let capacity = capacity_of(data);
        access.note(&capacity);
        let ghost asked = access.events();
        consumer.read_within(&mut access, data, capacity.get());
        assert(asked[0] == access.events().subrange(0, 1)[0]);
        self.record.close(access);
        self.consumer = consumer;
    }

    /// Reads n items from the buffer into `data`, where n is the minimum of
    /// `capacity - data.len()` and the number of items available in the buffer.
    pub fn read_within(&mut self, data: &mut Vec<T>, capacity: usize)
        requires
            old(data)@.len() <= capacity,
        ensures
            final(self).buffer() == old(self).buffer(),
            crate::ring::moved_in(
                old(self).state(),
                final(self).state(),
                old(data)@,
                final(data)@,
            ),
            final(data)@.len() <= capacity,
            final(data)@.len() < capacity ==> final(self).state().available() == 0,
            old(self).record().took_turn(final(self).record()),
            crate::trace::read_steps(
                old(self).state(),
                final(self).state(),
                capacity - old(data)@.len(),
                final(data)@.skip(old(data)@.len() as int),
                final(self).record().turns().last(),
            ),
    {
        proof {
            use_type_invariant(&*self);
        }
        let mut consumer = self.consumer;
        let mut access = self.record.open(&self.link);
        consumer.read_within(&mut access, data, capacity);
        assert(access.events().skip(0) =~= access.events());
        self.record.close(access);
        self.consumer = consumer;
    }
}

/// Iterating takes items out of the buffer until it is found empty.
impl<T> Iterator for ConsEnd<T> {
    type Item = T;

    fn next(&mut self) -> (res: Option<T>)
        ensures
            final(self).buffer() == old(self).buffer(),
            crate::ring::popped_in(old(self).state(), final(self).state(), res),
            old(self).record().took_turn(final(self).record()),
            crate::trace::pop_steps(
                old(self).state(),
                final(self).state(),
                res,
                final(self).record().turns().last(),
            ),
    {
        self.pop()
    }
}

/// The items to come are not fixed in advance, and after [`None`] there can be more.
impl<T> IteratorSpecImpl for ConsEnd<T> {
    open spec fn obeys_prophetic_iter_laws(&self) -> bool {
        false
    }

    open spec fn remaining(&self) -> Seq<T> {
        Seq::empty()
    }

    open spec fn will_return_none(&self) -> bool {
        false
    }

    open spec fn initial_value_relation(&self, init: &Self) -> bool {
        true
    }

    open spec fn decrease(&self) -> Option<nat> {
        None
    }

    open spec fn peek(&self, index: int) -> Option<T> {
        None
    }
}

/// Calls `Vec::capacity`: the number of elements that a vector can hold without
/// reallocating, which is no less than the number that it holds. It is read off `data`.
#[verifier::external_body]
fn capacity_of<T>(data: &Vec<T>) -> (capacity: Reading<Vec<T>>)
    ensures
        capacity.of() == *data,
        capacity.value() >= data@.len(),
{
    Reading::new(data.capacity())
}

} // verus!
