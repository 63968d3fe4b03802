//! The two ends of a circular buffer, over any memory.
use crate::memory::Memory;
use crate::protocol::State;
use crate::trace::Event;
use vstd::prelude::*;
use vstd::std_specs::iter::IteratorSpec;

verus! {

/// The read index that a producer goes by: the one it has just loaded, unless
/// that is behind the one it knew.
pub open spec fn newer_r(w: usize, known: usize, loaded: usize) -> usize {
    if crate::index::distance(w, loaded) <= crate::index::distance(w, known) {
        loaded
    } else {
        known
    }
}

/// The write index that a consumer goes by: the one it has just loaded, unless
/// that is behind the one it knew or more than the capacity ahead.
pub open spec fn newer_w(cap: int, r: usize, known: usize, loaded: usize) -> usize {
    if crate::index::distance(known, r) <= crate::index::distance(loaded, r) <= cap {
        loaded
    } else {
        known
    }
}

/// What the producing end knows: where it writes next, and how far it has seen
/// the consumer get.
#[derive(Clone, Copy)]
pub struct Producer {
    cap: usize,
    msk: usize,
    w_idx: usize,
    r_idx: usize,
}

impl Producer {
    /// The capacity of the buffer.
    pub closed spec fn capacity(self) -> int {
        self.cap as int
    }

    /// The index of the next item to be written.
    pub closed spec fn write_index(self) -> usize {
        self.w_idx
    }

    /// The read index that was last seen.
    pub closed spec fn read_index(self) -> usize {
        self.r_idx
    }

    /// The number of written items that are not yet seen to be read.
    pub open spec fn in_flight(self) -> int {
        crate::index::distance(self.write_index(), self.read_index())
    }

    /// By how many items `after` has written more.
    pub open spec fn ahead(self, after: Self) -> int {
        crate::index::distance(after.write_index(), self.write_index())
    }

    /// The capacity is a power of two, and no more items are in flight.
    pub closed spec fn wf(self) -> bool {
        &&& vstd::arithmetic::power2::is_pow2(self.cap as int)
        &&& self.msk == self.cap - 1
        &&& self.in_flight() <= self.cap
    }

    /// The producer stands where the buffer says, with nothing left to publish, and
    /// has seen no more released than is.
    pub open spec fn in_step<T>(self, s: State<T>) -> bool {
        &&& s.inv()
        &&& s.cap() == self.capacity()
        &&& s.published == s.sent.len()
        &&& self.write_index() == crate::index::index_of(s.sent.len())
        &&& s.sent.len() - s.released <= self.in_flight()
    }

    /// The producer of an empty buffer.
    pub fn new(capacity: usize) -> (producer: Self)
        requires
            vstd::arithmetic::power2::is_pow2(capacity as int),
        ensures
            producer.wf(),
            producer.capacity() == capacity,
            producer.write_index() == 0,
            producer.read_index() == 0,
    {
        proof {
            crate::index::lemma_divides(capacity);
        }
        Producer { cap: capacity, msk: capacity - 1, w_idx: 0, r_idx: 0 }
    }

    /// The index of the next item to be written.
    pub fn w_idx(&self) -> (w_idx: usize)
        ensures
            w_idx == self.write_index(),
    {
        self.w_idx
    }

    /// Takes note of a read index that was loaded.
    pub fn observe(&mut self, r_idx: usize)
        requires
            old(self).wf(),
        ensures
            final(self).wf(),
            final(self).capacity() == old(self).capacity(),
            final(self).write_index() == old(self).write_index(),
            final(self).read_index() == newer_r(
                old(self).write_index(),
                old(self).read_index(),
                r_idx,
            ),
    {
        if self.w_idx.wrapping_sub(r_idx) <= self.w_idx.wrapping_sub(self.r_idx) {
            self.r_idx = r_idx;
        }
    }

    /// The number of slots that are known to be empty.
    pub fn space(&self) -> (space: usize)
        requires
            self.wf(),
        ensures
            space == self.capacity() - self.in_flight(),
    {
        self.cap - self.w_idx.wrapping_sub(self.r_idx)
    }

    /// The slot of the next item to be written.
    fn slot(&self) -> (i: usize)
        requires
            self.wf(),
        ensures
            i == self.write_index() as int % self.capacity(),
            i < self.capacity(),
    {
        proof {
            crate::index::lemma_mask(self.w_idx, self.cap);
        }
        self.w_idx & self.msk
    }

    /// Counts one more item as written.
    fn advance(&mut self)
        requires
            old(self).wf(),
            old(self).in_flight() < old(self).capacity(),
        ensures
            final(self).wf(),
            final(self).capacity() == old(self).capacity(),
            final(self).write_index() == crate::index::next(old(self).write_index()),
            final(self).read_index() == old(self).read_index(),
            final(self).in_flight() == old(self).in_flight() + 1,
    {
        self.w_idx = self.w_idx.wrapping_add(1);
    }

    /// Moves `item` into the buffer. Returns `None` on success, and the item if the
    /// buffer was full.
    ///
    /// It is not full for a producer that knows of an empty slot.
    pub fn push<T, M: Memory<T>>(&mut self, mem: &mut M, item: T) -> (res: Option<T>)
        requires
            old(self).wf(),
            old(mem).wf(),
            old(mem).size() == old(self).capacity(),
            old(mem).state() matches Some(s) ==> old(self).in_step(s),
        ensures
            final(self).wf(),
            final(mem).wf(),
            final(mem).id() == old(mem).id(),
            final(mem).size() == old(mem).size(),
            final(mem).alone() == old(mem).alone(),
            old(mem).state() is None ==> final(mem).state() is None,
            pushed_out(*old(self), *final(self), item, res),
            old(mem).log() is None ==> final(mem).log() is None,
            old(mem).log() matches Some(steps) ==> {
                &&& final(mem).log() matches Some(more)
                &&& steps.is_prefix_of(more)
                &&& crate::trace::push_steps(
                    *old(self),
                    *final(self),
                    item,
                    res,
                    more.skip(steps.len() as int),
                )
            },
            old(mem).state() matches Some(s) ==> {
                &&& final(mem).state() matches Some(t)
                &&& final(self).in_step(t)
                &&& s.consumer_followed(t, old(mem).alone())
                &&& res is Some ==> s.full() && t.sent == s.sent
                &&& res is None ==> t.sent == s.sent.push(item)
                &&& res is None && old(mem).alone() ==> !s.full()
            },
    {
        let ghost known = mem.state() is Some;
        let ghost n = mem.state()->0.sent.len();
        let r_idx = mem.load_r();
        proof {
            if known {
                crate::index::law_distance_of_positions(n, mem.state()->0.released);
            }
        }
        self.observe(r_idx);
        if self.space() == 0 {
            return Some(item);
        }
        proof {
            if known {
                crate::index::law_slot_of_position(n, self.cap);
                crate::index::law_next_of_position(n);
            }
        }
        let i = self.slot();
        mem.put(i, item);
        self.advance();
        mem.store_w(self.w_idx);
        None
    }

    /// Moves items from the front of `data` into the buffer, as many as there are
    /// and as fit. What does not fit stays in `data`.
    ///
    /// Every slot that the producer knows to be empty can be filled.
    pub fn write<T, M: Memory<T>, I: Iterator<Item = T>>(&mut self, mem: &mut M, data: &mut I)
        requires
            old(self).wf(),
            old(mem).wf(),
            old(mem).size() == old(self).capacity(),
            old(mem).state() matches Some(s) ==> old(self).in_step(s),
        ensures
            final(self).wf(),
            final(mem).wf(),
            final(mem).id() == old(mem).id(),
            final(mem).size() == old(mem).size(),
            final(mem).alone() == old(mem).alone(),
            old(mem).state() is None ==> final(mem).state() is None,
            wrote(*old(self), *final(self)),
            old(mem).log() is None ==> final(mem).log() is None,
            old(mem).log() matches Some(steps) ==> {
                &&& final(mem).log() matches Some(more)
                &&& steps.is_prefix_of(more)
                &&& crate::trace::write_steps(
                    *old(self),
                    *final(self),
                    more.skip(steps.len() as int),
                )
                &&& (*old(data)).obeys_prophetic_iter_laws() ==> crate::trace::puts_from(
                    old(self).ahead(*final(self)),
                    (*old(data)).remaining(),
                    more.skip(steps.len() as int),
                )
            },
            (*final(data)).obeys_prophetic_iter_laws()
                == (*old(data)).obeys_prophetic_iter_laws(),
            (*old(data)).obeys_prophetic_iter_laws() ==> moved_out(
                *old(self),
                *final(self),
                (*old(data)).remaining(),
                (*final(data)).remaining(),
            ),
            old(mem).state() matches Some(s) ==> {
                &&& final(mem).state() matches Some(t)
                &&& final(self).in_step(t)
                &&& s.consumer_followed(t, old(mem).alone())
                &&& s.sent.is_prefix_of(t.sent)
                &&& t.sent.len() - s.sent.len() == old(self).ahead(*final(self))
            },
            old(mem).state() matches Some(s) ==> (*old(data)).obeys_prophetic_iter_laws() ==> {
                let all = (*old(data)).remaining();
                let n = old(self).ahead(*final(self));
                let t = final(mem).state()->0;
                &&& t.sent == s.sent + all.take(n)
                &&& n < all.len() ==> s.sent.len() + n >= s.released + s.cap()
            },
    {
        let ghost known = mem.state() is Some;
        let ghost s = mem.state()->0;
        let ghost kept = mem.log() is Some;
        let ghost base = mem.log()->0.len() as int;
        let r_idx = mem.load_r();
        proof {
            if known {
                crate::index::law_distance_of_positions(s.sent.len(), mem.state()->0.released);
            }
        }
        self.observe(r_idx);
        let space = self.space();
        let ghost found = *self;
        let ghost all = (*data).remaining();
        let ghost lawful = (*data).obeys_prophetic_iter_laws();
        let mut n: usize = 0;
        let mut more = true;
        proof {
            crate::index::law_index_of_position(self.write_index() as nat);
        }
        assert(all.skip(0) =~= all);
        assert(s.sent + all.take(0) =~= s.sent);
        while n < space && more
            invariant
                self.wf(),
                self.capacity() == found.capacity(),
                self.in_flight() == found.in_flight() + n,
                self.read_index() == found.read_index(),
                crate::index::distance(self.write_index(), found.write_index()) == n,
                space == found.capacity() - found.in_flight(),
                n <= space,
                mem.wf(),
                mem.id() == old(mem).id(),
                mem.size() == found.capacity(),
                mem.alone() == old(mem).alone(),
                !known ==> mem.state() is None,
                self.write_index() == crate::index::index_of((found.write_index() + n) as nat),
                mem.log() is Some == kept,
                kept == (old(mem).log() is Some),
                kept ==> {
                    let more = mem.log()->0;
                    let steps = more.skip(base);
                    &&& base == old(mem).log()->0.len()
                    &&& old(mem).log()->0.is_prefix_of(more)
                    &&& steps.len() == n + 1
                    &&& steps[0] == Event::<T>::LoadedR(r_idx)
                    &&& forall|j: int|
                        1 <= j <= n ==> (#[trigger] steps[j]) == Event::Put(
                            crate::trace::slot_after(found.write_index(), j - 1, found.capacity()),
                            steps[j]->Put_1,
                        )
                    &&& lawful ==> crate::trace::puts_from(n as int, all, steps)
                },
                (*data).obeys_prophetic_iter_laws() == lawful,
                lawful ==> {
                    &&& n <= all.len()
                    &&& (*data).remaining() == all.skip(n as int)
                    &&& !more ==> n == all.len()
                },
                known ==> {
                    &&& mem.state() matches Some(t)
                    &&& t.inv()
                    &&& t.cap() == found.capacity()
                    &&& s.consumer_followed(t, old(mem).alone())
                    &&& s.sent.is_prefix_of(t.sent)
                    &&& t.sent.len() == s.sent.len() + n
                    &&& lawful ==> t.sent == s.sent + all.take(n as int)
                    &&& self.write_index() == crate::index::index_of(t.sent.len())
                    &&& s.sent.len() - t.released <= found.in_flight()
                },
            decreases space - n, (if more {
                1int
            } else {
                0int
            }),
        {
            match data.next() {
                None => {
                    more = false;
                },
                Some(item) => {
                    proof {
                        if known {
                            let position = mem.state()->0.sent.len();
                            crate::index::law_slot_of_position(position, self.cap);
                            crate::index::law_next_of_position(position);
                            assert(lawful ==> (s.sent + all.take(n as int)).push(item) =~= s.sent
                                + all.take(n + 1));
                        }
                        assert(lawful ==> all.skip(n as int).drop_first() =~= all.skip(n + 1));
                        let position = (found.write_index() + n) as nat;
                        crate::index::law_slot_of_position(position, self.cap);
                        crate::index::law_next_of_position(position);
                    }
                    let i = self.slot();
                    let ghost event = Event::Put(i, item);
                    let ghost so_far = mem.log()->0;
                    mem.put(i, item);
                    assert(kept ==> mem.log()->0.skip(base) =~= so_far.skip(base).push(event));
                    self.advance();
                    n = n + 1;
                },
            }
        }
        let ghost so_far = mem.log()->0;
        mem.store_w(self.w_idx);
        assert(kept ==> mem.log()->0.skip(base) =~= so_far.skip(base).push(
            Event::StoredW(self.w_idx),
        ));
    }
}

/// What a push of `item` that returns `res` does for the producer, whoever else reaches
/// the memory. It succeeds while less than a capacity of items are in flight, and then the
/// item is in flight, with none but those that were before; otherwise it may give the
/// item back, and changes nothing.
pub open spec fn pushed_out<T>(
    before: Producer,
    after: Producer,
    item: T,
    res: Option<T>,
) -> bool {
    &&& after.capacity() == before.capacity()
    &&& before.in_flight() < before.capacity() ==> res is None
    &&& res matches Some(back) ==> back == item && after == before
    &&& res is None ==> {
        &&& after.write_index() == crate::index::next(before.write_index())
        &&& 1 <= after.in_flight() <= before.in_flight() + 1
        &&& after.in_flight() <= after.capacity()
    }
}

/// What a write does for the producer, whoever else reaches the memory: each item by which
/// it gets ahead is in flight, with none but those that were in flight before.
pub open spec fn wrote(before: Producer, after: Producer) -> bool {
    let n = before.ahead(after);
    &&& after.capacity() == before.capacity()
    &&& n <= after.in_flight() <= before.in_flight() + n
    &&& after.in_flight() <= after.capacity()
}

/// What a write makes of the data: it takes from its front as many items as it gets ahead
/// by, and leaves items only where every slot is taken.
pub open spec fn moved_out<T>(
    before: Producer,
    after: Producer,
    data: Seq<T>,
    rest: Seq<T>,
) -> bool {
    let n = before.ahead(after);
    &&& n <= data.len()
    &&& rest == data.skip(n)
    &&& n < data.len() ==> after.in_flight() == after.capacity()
}

/// What the consuming end knows: where it reads next, and how far it has seen the
/// producer get.
#[derive(Clone, Copy)]
pub struct Consumer {
    cap: usize,
    msk: usize,
    r_idx: usize,
    w_idx: usize,
}

impl Consumer {
    /// The capacity of the buffer.
    pub closed spec fn capacity(self) -> int {
        self.cap as int
    }

    /// The index of the next item to be read.
    pub closed spec fn read_index(self) -> usize {
        self.r_idx
    }

    /// The write index that was last seen.
    pub closed spec fn write_index(self) -> usize {
        self.w_idx
    }

    /// The number of items that are seen to be written and not yet read.
    pub open spec fn available(self) -> int {
        crate::index::distance(self.write_index(), self.read_index())
    }

    /// The capacity is a power of two, and no more items are available.
    pub closed spec fn wf(self) -> bool {
        &&& vstd::arithmetic::power2::is_pow2(self.cap as int)
        &&& self.msk == self.cap - 1
        &&& self.available() <= self.cap
    }

    /// The consumer stands where the buffer says, with nothing left to release, and
    /// has seen no more published than is.
    pub open spec fn in_step<T>(self, s: State<T>) -> bool {
        &&& s.inv()
        &&& s.cap() == self.capacity()
        &&& s.released == s.received.len()
        &&& self.read_index() == crate::index::index_of(s.received.len())
        &&& self.available() <= s.published - s.received.len()
    }

    /// The consumer of an empty buffer.
    pub fn new(capacity: usize) -> (consumer: Self)
        requires
            vstd::arithmetic::power2::is_pow2(capacity as int),
        ensures
            consumer.wf(),
            consumer.capacity() == capacity,
            consumer.read_index() == 0,
            consumer.write_index() == 0,
    {
        proof {
            crate::index::lemma_divides(capacity);
        }
        Consumer { cap: capacity, msk: capacity - 1, r_idx: 0, w_idx: 0 }
    }

    /// The index of the next item to be read.
    pub fn r_idx(&self) -> (r_idx: usize)
        ensures
            r_idx == self.read_index(),
    {
        self.r_idx
    }

    /// Takes note of a write index that was loaded.
    pub fn observe(&mut self, w_idx: usize)
        requires
            old(self).wf(),
        ensures
            final(self).wf(),
            final(self).capacity() == old(self).capacity(),
            final(self).read_index() == old(self).read_index(),
            final(self).write_index() == newer_w(
                old(self).capacity(),
                old(self).read_index(),
                old(self).write_index(),
                w_idx,
            ),
    {
        let ahead = w_idx.wrapping_sub(self.r_idx);
        if self.w_idx.wrapping_sub(self.r_idx) <= ahead && ahead <= self.cap {
            self.w_idx = w_idx;
        }
    }

    /// The number of items that are known to be in the buffer.
    pub fn fill(&self) -> (fill: usize)
        ensures
            fill == self.available(),
    {
        self.w_idx.wrapping_sub(self.r_idx)
    }

    /// The slot of the next item to be read.
    fn slot(&self) -> (i: usize)
        requires
            self.wf(),
        ensures
            i == self.read_index() as int % self.capacity(),
            i < self.capacity(),
    {
        proof {
            crate::index::lemma_mask(self.r_idx, self.cap);
        }
        self.r_idx & self.msk
    }

    /// Takes note of what the next slot was found to hold, and hands it on. An item
    /// counts as read; an item that its slot does not hold is not available, nor is
    /// any after it.
    pub fn accept<T>(&mut self, value: Option<T>) -> (res: Option<T>)
        requires
            old(self).wf(),
            old(self).available() > 0,
        ensures
            final(self).wf(),
            final(self).capacity() == old(self).capacity(),
            res == value,
            value is Some ==> {
                &&& final(self).read_index() == crate::index::next(old(self).read_index())
                &&& final(self).write_index() == old(self).write_index()
                &&& final(self).available() == old(self).available() - 1
            },
            value is None ==> {
                &&& final(self).read_index() == old(self).read_index()
                &&& final(self).available() == 0
            },
    {
        if value.is_some() {
            self.r_idx = self.r_idx.wrapping_add(1);
        } else {
            self.w_idx = self.r_idx;
        }
        value
    }

    /// Takes one item out of the buffer. Returns `None` if the buffer was empty.
    ///
    /// The item is the next of those that were sent. Where nothing is known of the
    /// memory, nothing is known of the item either.
    pub fn pop<T, M: Memory<T>>(&mut self, mem: &mut M) -> (res: Option<T>)
        requires
            old(self).wf(),
            old(mem).wf(),
            old(mem).size() == old(self).capacity(),
            old(mem).state() matches Some(s) ==> old(self).in_step(s),
        ensures
            final(self).wf(),
            final(mem).wf(),
            final(mem).id() == old(mem).id(),
            final(mem).size() == old(mem).size(),
            final(mem).alone() == old(mem).alone(),
            old(mem).state() is None ==> final(mem).state() is None,
            popped_in(*old(self), *final(self), res),
            old(mem).log() is None ==> final(mem).log() is None,
            old(mem).log() matches Some(steps) ==> {
                &&& final(mem).log() matches Some(more)
                &&& steps.is_prefix_of(more)
                &&& crate::trace::pop_steps(
                    *old(self),
                    *final(self),
                    res,
                    more.skip(steps.len() as int),
                )
            },
            old(mem).state() matches Some(s) ==> {
                &&& final(mem).state() matches Some(t)
                &&& final(self).in_step(t)
                &&& s.producer_followed(t, old(mem).alone())
                &&& res is None ==> s.empty() && t.received == s.received
                &&& res matches Some(item) ==> t.received == s.received.push(item)
                &&& res is Some && old(mem).alone() ==> !s.empty()
            },
    {
        let ghost known = mem.state() is Some;
        let ghost s = mem.state()->0;
        let w_idx = mem.load_w();
        proof {
            if known {
                crate::index::law_distance_of_positions(
                    mem.state()->0.published,
                    s.received.len(),
                );
            }
        }
        self.observe(w_idx);
        if self.fill() == 0 {
            return None;
        }
        proof {
            if known {
                crate::index::law_slot_of_position(s.received.len(), self.cap);
                crate::index::law_next_of_position(s.received.len());
                crate::protocol::law_take(mem.state()->0);
            }
        }
        let i = self.slot();
        let value = mem.take(i);
        let res = self.accept(value);
        mem.store_r(self.r_idx);
        res
    }

    /// Moves items from the buffer onto the end of `data`, as many as there are and
    /// at most `room`.
    ///
    /// The items are the next of those that were sent. Where nothing is known of the
    /// memory, nothing is known of the items either.
    pub fn read<T, M: Memory<T>>(&mut self, mem: &mut M, data: &mut Vec<T>, room: usize)
        requires
            old(self).wf(),
            old(mem).wf(),
            old(mem).size() == old(self).capacity(),
            old(mem).state() matches Some(s) ==> old(self).in_step(s),
        ensures
            final(self).wf(),
            final(mem).wf(),
            final(mem).id() == old(mem).id(),
            final(mem).size() == old(mem).size(),
            final(mem).alone() == old(mem).alone(),
            old(mem).state() is None ==> final(mem).state() is None,
            moved_in(*old(self), *final(self), old(data)@, final(data)@),
            old(mem).log() is None ==> final(mem).log() is None,
            old(mem).log() matches Some(steps) ==> {
                &&& final(mem).log() matches Some(more)
                &&& steps.is_prefix_of(more)
                &&& crate::trace::read_steps(
                    *old(self),
                    *final(self),
                    room as int,
                    final(data)@.skip(old(data)@.len() as int),
                    more.skip(steps.len() as int),
                )
            },
            final(data)@.len() - old(data)@.len() <= room,
            final(data)@.len() - old(data)@.len() < room ==> final(self).available() == 0,
            old(mem).state() matches Some(s) ==> {
                let n = final(data)@.len() - old(data)@.len();
                &&& final(mem).state() matches Some(t)
                &&& final(self).in_step(t)
                &&& s.producer_followed(t, old(mem).alone())
                &&& t.received == s.received + final(data)@.skip(old(data)@.len() as int)
                &&& n < room ==> s.received.len() + n >= s.published
            },
    {
        let ghost known = mem.state() is Some;
        let ghost s = mem.state()->0;
        let ghost kept = mem.log() is Some;
        let ghost base = mem.log()->0.len() as int;
        let w_idx = mem.load_w();
        proof {
            if known {
                crate::index::law_distance_of_positions(
                    mem.state()->0.published,
                    s.received.len(),
                );
            }
        }
        self.observe(w_idx);
        let fill = self.fill();
        let count: usize = if fill < room {
            fill
        } else {
            room
        };
        let ghost found = *self;
        let ghost start = data@.len() as int;
        let mut n: usize = 0;
        let mut missing = false;
        proof {
            crate::index::law_index_of_position(self.read_index() as nat);
        }
        assert(data@.take(start) =~= data@);
        assert(s.received + data@.skip(start) =~= s.received);
        while n < count && !missing
            invariant
                self.wf(),
                self.capacity() == found.capacity(),
                missing ==> self.available() == 0,
                !missing ==> self.available() == found.available() - n,
                crate::index::distance(self.read_index(), found.read_index()) == n,
                n <= count,
                count <= found.available(),
                count <= room,
                mem.wf(),
                mem.id() == old(mem).id(),
                mem.size() == found.capacity(),
                mem.alone() == old(mem).alone(),
                !known ==> mem.state() is None,
                self.read_index() == crate::index::index_of((found.read_index() + n) as nat),
                !missing ==> self.write_index() == found.write_index(),
                missing ==> n < count,
                mem.log() is Some == kept,
                kept == (old(mem).log() is Some),
                kept ==> {
                    let more = mem.log()->0;
                    let steps = more.skip(base);
                    &&& base == old(mem).log()->0.len()
                    &&& old(mem).log()->0.is_prefix_of(more)
                    &&& steps.len() == n + (if missing {
                        2int
                    } else {
                        1int
                    })
                    &&& steps[0] == Event::<T>::LoadedW(w_idx)
                    &&& forall|j: int|
                        1 <= j <= n ==> (#[trigger] steps[j]) == Event::Took(
                            crate::trace::slot_after(found.read_index(), j - 1, found.capacity()),
                            Some(data@.skip(start)[j - 1]),
                        )
                    &&& missing ==> steps[n + 1] == Event::<T>::Took(
                        crate::trace::slot_after(found.read_index(), n as int, found.capacity()),
                        None,
                    )
                },
                start == old(data)@.len(),
                data@.len() == start + n,
                data@.take(start) == old(data)@,
                known ==> {
                    &&& !missing
                    &&& mem.state() matches Some(t)
                    &&& t.inv()
                    &&& t.cap() == found.capacity()
                    &&& s.producer_followed(t, old(mem).alone())
                    &&& t.received == s.received + data@.skip(start)
                    &&& self.read_index() == crate::index::index_of(t.received.len())
                    &&& found.available() <= t.published - s.received.len()
                },
            decreases count - n, (if missing {
                0int
            } else {
                1int
            }),
        {
            proof {
                if known {
                    let position = mem.state()->0.received.len();
                    crate::index::law_slot_of_position(position, self.cap);
                    crate::index::law_next_of_position(position);
                    crate::protocol::law_take(mem.state()->0);
                }
            }
            proof {
                let position = (found.read_index() + n) as nat;
                crate::index::law_slot_of_position(position, self.cap);
                crate::index::law_next_of_position(position);
            }
            let i = self.slot();
            let ghost so_far = mem.log()->0;
            let value = mem.take(i);
            assert(kept ==> mem.log()->0.skip(base) =~= so_far.skip(base).push(
                Event::Took(i, value),
            ));
            match self.accept(value) {
                Some(item) => {
                    let ghost before = data@;
                    data.push(item);
                    n = n + 1;
                    assert(data@.take(start) =~= before.take(start));
                    assert(data@.skip(start) =~= before.skip(start).push(item));
                    assert(s.received + data@.skip(start) =~= (s.received + before.skip(
                        start,
                    )).push(item));
                },
                None => {
                    missing = true;
                },
            }
        }
        let ghost so_far = mem.log()->0;
        mem.store_r(self.r_idx);
        assert(kept ==> mem.log()->0.skip(base) =~= so_far.skip(base).push(
            Event::StoredR(self.r_idx),
        ));
    }

    /// Moves items from the buffer onto the end of `data`, as many as there are and as
    /// `data` has space for, where it holds no more than `capacity` items.
    pub fn read_within<T, M: Memory<T>>(
        &mut self,
        mem: &mut M,
        data: &mut Vec<T>,
        capacity: usize,
    )
        requires
            old(self).wf(),
            old(mem).wf(),
            old(mem).size() == old(self).capacity(),
            old(mem).state() matches Some(s) ==> old(self).in_step(s),
            old(data)@.len() <= capacity,
        ensures
            final(self).wf(),
            final(mem).wf(),
            final(mem).id() == old(mem).id(),
            final(mem).size() == old(mem).size(),
            final(mem).alone() == old(mem).alone(),
            old(mem).state() is None ==> final(mem).state() is None,
            moved_in(*old(self), *final(self), old(data)@, final(data)@),
            old(mem).log() is None ==> final(mem).log() is None,
            old(mem).log() matches Some(steps) ==> {
                &&& final(mem).log() matches Some(more)
                &&& steps.is_prefix_of(more)
                &&& crate::trace::read_steps(
                    *old(self),
                    *final(self),
                    capacity - old(data)@.len(),
                    final(data)@.skip(old(data)@.len() as int),
                    more.skip(steps.len() as int),
                )
            },
            final(data)@.len() <= capacity,
            final(data)@.len() < capacity ==> final(self).available() == 0,
            old(mem).state() matches Some(s) ==> {
                let n = final(data)@.len() - old(data)@.len();
                &&& final(mem).state() matches Some(t)
                &&& final(self).in_step(t)
                &&& s.producer_followed(t, old(mem).alone())
                &&& t.received == s.received + final(data)@.skip(old(data)@.len() as int)
                &&& final(data)@.len() < capacity ==> s.received.len() + n >= s.published
            },
    {
        let room: usize = capacity - data.len();
        self.read(mem, data, room);
    }
}

/// Both ends of an empty buffer that nothing has passed through.
pub open spec fn fresh(producer: Producer, consumer: Consumer, capacity: int) -> bool {
    &&& producer.capacity() == capacity
    &&& producer.write_index() == 0
    &&& producer.in_flight() == 0
    &&& consumer.capacity() == capacity
    &&& consumer.read_index() == 0
    &&& consumer.available() == 0
}

/// The first item of a buffer that nothing has passed through finds space, and goes into the
/// first slot; and before it is written nothing is read.
pub proof fn law_fresh<T>(
    producer: Producer,
    consumer: Consumer,
    cap: usize,
    pushing: Producer,
    item: T,
    refused: Option<T>,
    push: Seq<Event<T>>,
    popping: Consumer,
    res: Option<T>,
    pop: Seq<Event<T>>,
)
    requires
        vstd::arithmetic::power2::is_pow2(cap as int),
        fresh(producer, consumer, cap as int),
        pushed_out(producer, pushing, item, refused),
        crate::trace::push_steps(producer, pushing, item, refused, push),
        push[0] == Event::<T>::LoadedR(0),
        popped_in(consumer, popping, res),
        crate::trace::pop_steps(consumer, popping, res, pop),
        pop[0] == Event::<T>::LoadedW(0),
    ensures
        refused is None,
        push == seq![Event::LoadedR(0), Event::Put(0, item), Event::StoredW(1)],
        res is None,
        pop == seq![Event::<T>::LoadedW(0)],
{
    crate::index::law_index_of_position(0);
    crate::index::law_index_of_position(1);
    crate::index::lemma_divides(cap);
    vstd::arithmetic::div_mod::lemma_small_mod(0, cap as nat);
    crate::trace::law_push(producer, pushing, item, refused, push, cap, 0, 0, 0);
    crate::trace::law_pop(consumer, popping, res, pop, cap, 0, 0, 0);
}

/// What a pop that returns `res` does for the consumer, whoever else reaches the memory: an
/// item counts as read, and what was available before stays in sight; without one nothing
/// is available.
pub open spec fn popped_in<T>(before: Consumer, after: Consumer, res: Option<T>) -> bool {
    &&& after.capacity() == before.capacity()
    &&& res is None ==> {
        &&& after.read_index() == before.read_index()
        &&& after.available() == 0
    }
    &&& res is Some ==> {
        &&& after.read_index() == crate::index::next(before.read_index())
        &&& before.available() <= after.available() + 1 <= after.capacity()
    }
}

/// What a read does for the consumer, whoever else reaches the memory: it appends
/// to the data, as many items as it counts as read; and it keeps in sight what was
/// available before, unless nothing is left.
pub open spec fn moved_in<T>(
    before: Consumer,
    after: Consumer,
    data: Seq<T>,
    longer: Seq<T>,
) -> bool {
    let n = longer.len() - data.len();
    &&& after.capacity() == before.capacity()
    &&& 0 <= n
    &&& longer.take(data.len() as int) == data
    &&& crate::index::distance(after.read_index(), before.read_index()) == n
    &&& after.available() + n <= after.capacity()
    &&& after.available() == 0 || before.available() <= after.available() + n
}

} // verus!
