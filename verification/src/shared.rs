//! A memory that the two ends of a circular buffer reach from different threads.
//!
//! Each index is an atomic that only one end stores. A slot is guarded by a lock
//! of its own, which the indices keep from ever being contended: an end touches a
//! slot only while the indices give the slot to it.
use crate::memory::Memory;
use crate::protocol::State;
use crate::reading::Mark;
use crate::reading::Reading;
use crate::trace::Event;
use std::sync::atomic::AtomicUsize;
use std::sync::atomic::Ordering;
use std::sync::Mutex;
use std::sync::MutexGuard;
use vstd::prelude::*;

verus! {

/// Declares `std::sync::Mutex`; nothing is claimed of it.
#[verifier::external_type_specification]
#[verifier::external_body]
#[verifier::reject_recursive_types(T)]
pub struct ExMutex<T: ?Sized>(Mutex<T>);

/// Declares `std::sync::MutexGuard`; nothing is claimed of it.
#[verifier::external_type_specification]
#[verifier::external_body]
#[verifier::reject_recursive_types(T)]
pub struct ExMutexGuard<'a, T: ?Sized + 'a>(MutexGuard<'a, T>);

/// `Mutex::new` makes a mutex. Nothing is claimed of what a lock of it finds later,
/// which rests on all threads that reach it.
pub assume_specification<T>[ Mutex::<T>::new ](t: T) -> Mutex<T>;

/// Calls `Mutex::lock`, and takes the guard also out of the error that reports
/// that a thread panicked while it held the lock. Nothing is claimed of the value
/// that the guard guards, which rests on all threads that reach it. A thread that
/// locks a slot holds no other guard, so it does not wait for itself.
#[verifier::external_body]
fn lock<T>(mutex: &Mutex<T>) -> MutexGuard<'_, T> {
    match mutex.lock() {
        Ok(guard) => guard,
        Err(poisoned) => poisoned.into_inner(),
    }
}

/// Calls `MutexGuard::deref_mut`. Nothing is claimed of the value behind the
/// reference.
#[verifier::external_body]
fn guarded<'a, 'b, T>(guard: &'a mut MutexGuard<'b, T>) -> &'a mut T {
    &mut *guard
}

/// Calls `AtomicUsize::get_mut`, and copies the value out. It is read off `atomic`. Which
/// value that is rests on all threads that reached the atomic before, and nothing is
/// claimed of it.
#[verifier::external_body]
fn last_value(atomic: &mut AtomicUsize) -> (value: Reading<AtomicUsize>)
    ensures
        value.of() == *old(atomic),
    opens_invariants none
    no_unwind
{
    Reading::new(*atomic.get_mut())
}

/// Slots and indices that can be reached from several threads.
#[verifier::reject_recursive_types(T)]
pub struct Shared<T> {
    slots: Vec<Mutex<Option<T>>>,
    msk: usize,
    w_idx: AtomicUsize,
    r_idx: AtomicUsize,
    turned: Mark<AtomicUsize>,
}

impl<T> Shared<T> {
    #[verifier::type_invariant]
    spec fn inv(self) -> bool {
        &&& vstd::arithmetic::power2::is_pow2(self.slots@.len() as int)
        &&& self.slots@.len() == self.msk + 1
    }

    /// The number of slots.
    pub closed spec fn slot_count(&self) -> nat {
        self.slots@.len()
    }

    /// The slots, in the order in which they are dropped.
    pub closed spec fn row(self) -> Seq<Mutex<Option<T>>> {
        self.slots@
    }

    /// The atomic that holds the read index.
    pub closed spec fn read_atomic(self) -> AtomicUsize {
        self.r_idx
    }

    /// The index by which the slots were turned to be dropped, and what it was read off.
    pub closed spec fn turned(self) -> Mark<AtomicUsize> {
        self.turned
    }

    /// Makes a memory of `size` empty slots.
    pub fn new(size: usize) -> (shared: Self)
        requires
            vstd::arithmetic::power2::is_pow2(size as int),
            crate::index::fits::<Mutex<Option<T>>>(size),
        ensures
            shared.slot_count() == size,
    {
        let mut slots: Vec<Mutex<Option<T>>> = Vec::with_capacity(size);
        let mut i: usize = 0;
        while i < size
            invariant
                i <= size,
                slots@.len() == i,
            decreases size - i,
        {
            slots.push(Mutex::new(None));
            i = i + 1;
        }
        proof {
            crate::index::lemma_divides(size);
        }
        Shared {
            slots,
            msk: size - 1,
            w_idx: AtomicUsize::new(0),
            r_idx: AtomicUsize::new(0),
            turned: Reading::new(0).mark(),
        }
    }
}

/// Drops the items that are left oldest first: they begin at the slot of the read
/// index, and the slots are dropped from the first one on. Which slot that is rests on
/// the threads that reached the memory; it is stated for the index that is found.
impl<T> Drop for Shared<T> {
    fn drop(&mut self)
        ensures
            exists|idx: usize|
                crate::memory::turned_by(old(self).row(), final(self).row(), idx),
            final(self).turned().of() == old(self).read_atomic(),
            crate::memory::turned_by(
                old(self).row(),
                final(self).row(),
                final(self).turned().value(),
            ),
        opens_invariants none
        no_unwind
    {
        proof {
            use_type_invariant(&*self);
        }
        let r_idx = last_value(&mut self.r_idx);
        crate::memory::turn(&mut self.slots, self.msk, r_idx.get());
        self.turned = r_idx.mark();
        assert(crate::memory::turned_by(old(self).row(), self.row(), self.turned().value()));
    }
}

/// Each end reaches a shared memory through a reference. What its atomics and locks
/// hold rests on all threads that reach it, so no state of it is known.
impl<'a, T> Memory<T> for &'a Shared<T> {
    type Id = Shared<T>;

    open spec fn id(&self) -> Shared<T> {
        **self
    }

    open spec fn wf(&self) -> bool {
        true
    }

    open spec fn size(&self) -> nat {
        self.slot_count()
    }

    open spec fn state(&self) -> Option<State<T>> {
        None
    }

    open spec fn alone(&self) -> bool {
        false
    }

    open spec fn log(&self) -> Option<Seq<Event<T>>> {
        None
    }

    fn load_w(&mut self) -> usize {
        // Pairs with the store of the write index: what was put into the slots
        // before that store is seen after this load.
        self.w_idx.load(Ordering::Acquire)
    }

    fn load_r(&mut self) -> usize {
        // A producer puts nothing into a slot before it has seen the slot read.
        self.r_idx.load(Ordering::Relaxed)
    }

    fn store_w(&mut self, w: usize) {
        self.w_idx.store(w, Ordering::Release);
    }

    fn store_r(&mut self, r: usize) {
        self.r_idx.store(r, Ordering::Release);
    }

    fn put(&mut self, i: usize, item: T) {
        let mut guard = lock(&self.slots[i]);
        *guarded(&mut guard) = Some(item);
    }

    fn take(&mut self, i: usize) -> Option<T> {
        let mut guard = lock(&self.slots[i]);
        guarded(&mut guard).take()
    }
}

} // verus!
