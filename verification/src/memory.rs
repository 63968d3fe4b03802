//! The memory that a circular buffer lives in: a row of slots and two indices.
use crate::protocol::State;
use crate::trace::Event;
use vstd::prelude::*;

verus! {

/// A row of slots and two indices, as the two ends of a circular buffer reach them.
///
/// What an operation promises takes into account that the other end may act at the
/// same time. It is promised as long as both ends keep to the protocol, which for the
/// end that calls an operation is what the operation requires.
pub trait Memory<T>: Sized {
    /// What tells memories apart.
    type Id;

    /// Which memory it is, which no operation changes.
    spec fn id(&self) -> Self::Id;

    /// Whether the memory is in order, which all operations require and keep.
    spec fn wf(&self) -> bool;

    /// The number of slots.
    spec fn size(&self) -> nat;

    /// The state of the buffer in this memory, or `None` if nothing is known of it.
    spec fn state(&self) -> Option<State<T>>;

    /// Whether nobody else reaches the memory.
    spec fn alone(&self) -> bool;

    /// The steps that were taken in this memory, or `None` if they are not kept.
    spec fn log(&self) -> Option<Seq<Event<T>>>;

    /// Loads the write index.
    fn load_w(&mut self) -> (w: usize)
        requires
            old(self).wf(),
        ensures
            final(self).wf(),
            final(self).id() == old(self).id(),
            final(self).size() == old(self).size(),
            final(self).alone() == old(self).alone(),
            final(self).log() == crate::trace::noted(old(self).log(), Event::LoadedW(w)),
            old(self).state() is None ==> final(self).state() is None,
            old(self).state() matches Some(s) ==> {
                &&& final(self).state() matches Some(t)
                &&& s.producer_moved(t)
                &&& old(self).alone() ==> t == s
                &&& w == crate::index::index_of(t.published)
            },
    ;

    /// Loads the read index.
    fn load_r(&mut self) -> (r: usize)
        requires
            old(self).wf(),
        ensures
            final(self).wf(),
            final(self).id() == old(self).id(),
            final(self).size() == old(self).size(),
            final(self).alone() == old(self).alone(),
            final(self).log() == crate::trace::noted(old(self).log(), Event::LoadedR(r)),
            old(self).state() is None ==> final(self).state() is None,
            old(self).state() matches Some(s) ==> {
                &&& final(self).state() matches Some(t)
                &&& s.consumer_moved(t)
                &&& old(self).alone() ==> t == s
                &&& r == crate::index::index_of(t.released)
            },
    ;

    /// Stores the write index, which publishes what is in the slots.
    fn store_w(&mut self, w: usize)
        requires
            old(self).wf(),
            old(self).state() matches Some(s) ==> w == crate::index::index_of(
                s.sent.len(),
            ),
        ensures
            final(self).wf(),
            final(self).id() == old(self).id(),
            final(self).size() == old(self).size(),
            final(self).alone() == old(self).alone(),
            final(self).log() == crate::trace::noted(old(self).log(), Event::StoredW(w)),
            old(self).state() is None ==> final(self).state() is None,
            old(self).state() matches Some(s) ==> {
                &&& final(self).state() matches Some(t)
                &&& s.publish().consumer_moved(t)
                &&& old(self).alone() ==> t == s.publish()
            },
    ;

    /// Stores the read index, which releases the slots that were emptied.
    fn store_r(&mut self, r: usize)
        requires
            old(self).wf(),
            old(self).state() matches Some(s) ==> r == crate::index::index_of(
                s.received.len(),
            ),
        ensures
            final(self).wf(),
            final(self).id() == old(self).id(),
            final(self).size() == old(self).size(),
            final(self).alone() == old(self).alone(),
            final(self).log() == crate::trace::noted(old(self).log(), Event::StoredR(r)),
            old(self).state() is None ==> final(self).state() is None,
            old(self).state() matches Some(s) ==> {
                &&& final(self).state() matches Some(t)
                &&& s.release().producer_moved(t)
                &&& old(self).alone() ==> t == s.release()
            },
    ;

    /// Puts `item` into slot `i`, which has to be the next one and released.
    fn put(&mut self, i: usize, item: T)
        requires
            old(self).wf(),
            i < old(self).size(),
            old(self).state() matches Some(s) ==> {
                &&& i == s.sent.len() as int % s.cap()
                &&& s.sent.len() < s.released + s.cap()
            },
        ensures
            final(self).wf(),
            final(self).id() == old(self).id(),
            final(self).size() == old(self).size(),
            final(self).alone() == old(self).alone(),
            final(self).log() == crate::trace::noted(old(self).log(), Event::Put(i, item)),
            old(self).state() is None ==> final(self).state() is None,
            old(self).state() matches Some(s) ==> {
                &&& final(self).state() matches Some(t)
                &&& s.put(item).consumer_moved(t)
                &&& old(self).alone() ==> t == s.put(item)
            },
    ;

    /// Takes what slot `i` holds, which has to be the next one and published, and
    /// leaves the slot empty.
    fn take(&mut self, i: usize) -> (value: Option<T>)
        requires
            old(self).wf(),
            i < old(self).size(),
            old(self).state() matches Some(s) ==> {
                &&& i == s.received.len() as int % s.cap()
                &&& s.received.len() < s.published
            },
        ensures
            final(self).wf(),
            final(self).id() == old(self).id(),
            final(self).size() == old(self).size(),
            final(self).alone() == old(self).alone(),
            final(self).log() == crate::trace::noted(old(self).log(), Event::Took(i, value)),
            old(self).state() is None ==> final(self).state() is None,
            old(self).state() matches Some(s) ==> {
                &&& final(self).state() matches Some(t)
                &&& s.take().producer_moved(t)
                &&& old(self).alone() ==> t == s.take()
                &&& value == Some(s.sent[s.received.len() as int])
            },
    ;
}

/// Calls `rotate_left` of slices: the first `mid` elements move to the end, and the
/// others to the front, each in their order. It panics where there are fewer elements
/// than `mid`.
#[verifier::external_body]
fn rotate_left<V>(elements: &mut Vec<V>, mid: usize)
    requires
        mid <= old(elements)@.len(),
    ensures
        final(elements)@ == old(elements)@.skip(mid as int) + old(elements)@.take(mid as int),
    opens_invariants none
    no_unwind
{
    elements.rotate_left(mid);
}

/// `after` is `before` from the slot of `idx` on, and then up to that slot: no slot is
/// lost or doubled, and their order is only turned.
pub open spec fn turned_by<V>(before: Seq<V>, after: Seq<V>, idx: usize) -> bool {
    let first = idx as int % before.len() as int;
    after == before.skip(first) + before.take(first)
}

/// A turn keeps every slot, and the slot that comes `k`-th in it stood `k` after that of
/// `idx`, where the first follows the last.
pub proof fn law_turn<V>(before: Seq<V>, after: Seq<V>, idx: usize, k: int)
    requires
        turned_by(before, after, idx),
        0 <= k < before.len(),
    ensures
        after.len() == before.len(),
        after[k] == before[(idx + k) % before.len() as int],
{
    let len = before.len() as int;
    let first = idx as int % len;
    vstd::arithmetic::div_mod::lemma_add_mod_noop(idx as int, k, len);
    vstd::arithmetic::div_mod::lemma_small_mod(k as nat, len as nat);
    if first + k < len {
        vstd::arithmetic::div_mod::lemma_small_mod((first + k) as nat, len as nat);
    } else {
        vstd::arithmetic::div_mod::lemma_small_mod((first + k - len) as nat, len as nat);
        vstd::arithmetic::div_mod::lemma_mod_add_multiples_vanish(first + k - len, len);
    }
}

/// Moves the slot of `idx` to the front, and what is before it to the end.
pub fn turn<V>(slots: &mut Vec<V>, msk: usize, idx: usize)
    requires
        vstd::arithmetic::power2::is_pow2(old(slots)@.len() as int),
        old(slots)@.len() == msk + 1,
    ensures
        turned_by(old(slots)@, final(slots)@, idx),
    opens_invariants none
    no_unwind
{
    proof {
        crate::index::lemma_mask(idx, slots.len());
    }
    rotate_left(slots, idx & msk);
}

/// A memory with a single owner.
pub struct Owned<T> {
    slots: Vec<Option<T>>,
    msk: usize,
    w_idx: usize,
    r_idx: usize,
    state: Ghost<State<T>>,
}

impl<T> Owned<T> {
    #[verifier::type_invariant]
    spec fn inv(self) -> bool {
        &&& vstd::arithmetic::power2::is_pow2(self.slots@.len() as int)
        &&& self.slots@.len() == self.msk + 1
    }

    /// The slots, in the order in which they are dropped.
    pub closed spec fn row(self) -> Seq<Option<T>> {
        self.slots@
    }

    /// Makes a memory of `size` empty slots.
    pub fn new(size: usize) -> (memory: Self)
        requires
            vstd::arithmetic::power2::is_pow2(size as int),
            crate::index::fits::<Option<T>>(size),
        ensures
            memory.wf(),
            memory.size() == size,
            memory.alone(),
            memory.state() == Some(State::<T>::init(size as nat)),
    {
        let mut slots: Vec<Option<T>> = Vec::with_capacity(size);
        let mut i: usize = 0;
        while i < size
            invariant
                i <= size,
                slots@ == Seq::new(i as nat, |i: int| None::<T>),
            decreases size - i,
        {
            slots.push(None);
            i = i + 1;
        }
        proof {
            crate::protocol::law_init::<T>(size);
            crate::index::lemma_divides(size);
        }
        Owned { slots, msk: size - 1, w_idx: 0, r_idx: 0, state: Ghost(State::init(size as nat)) }
    }
}

/// Drops the items that are left oldest first: they begin at the slot of the read
/// index, and the slots are dropped from the first one on.
impl<T> Drop for Owned<T> {
    fn drop(&mut self)
        ensures
            old(self).wf() ==> final(self).row() == old(self).state()->0.from_oldest(),
        opens_invariants none
        no_unwind
    {
        proof {
            use_type_invariant(&*self);
            if self.wf() {
                crate::index::law_slot_of_position(self.state@.released, self.slots.len());
            }
        }
        turn(&mut self.slots, self.msk, self.r_idx);
    }
}

impl<T> Memory<T> for Owned<T> {
    type Id = ();

    open spec fn id(&self) -> () {
        ()
    }

    closed spec fn wf(&self) -> bool {
        &&& self.state@.inv()
        &&& self.state@.slots == self.slots@
        &&& self.w_idx == crate::index::index_of(self.state@.published)
        &&& self.r_idx == crate::index::index_of(self.state@.released)
    }

    closed spec fn size(&self) -> nat {
        self.slots@.len()
    }

    closed spec fn state(&self) -> Option<State<T>> {
        Some(self.state@)
    }

    open spec fn alone(&self) -> bool {
        true
    }

    open spec fn log(&self) -> Option<Seq<Event<T>>> {
        None
    }

    fn load_w(&mut self) -> usize {
        self.w_idx
    }

    fn load_r(&mut self) -> usize {
        self.r_idx
    }

    fn store_w(&mut self, w: usize) {
        proof {
            use_type_invariant(&*self);
            crate::protocol::law_publish(self.state@);
        }
        self.w_idx = w;
        self.state = Ghost(self.state@.publish());
    }

    fn store_r(&mut self, r: usize) {
        proof {
            use_type_invariant(&*self);
            crate::protocol::law_release(self.state@);
        }
        self.r_idx = r;
        self.state = Ghost(self.state@.release());
    }

    fn put(&mut self, i: usize, item: T) {
        proof {
            use_type_invariant(&*self);
            crate::protocol::law_put(self.state@, item);
        }
        self.state = Ghost(self.state@.put(item));
        self.slots[i] = Some(item);
    }

    fn take(&mut self, i: usize) -> Option<T> {
        proof {
            use_type_invariant(&*self);
            crate::protocol::law_take(self.state@);
        }
        self.state = Ghost(self.state@.take());
        self.slots[i].take()
    }
}

} // verus!
