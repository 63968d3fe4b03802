//! How an end reaches the memory that it shares with the other end.
//!
//! An end holds a [`Link`] to the memory and a [`Record`] of its own. To reach the memory it
//! opens an [`Access`], which keeps every step that is taken through it, and closes it again.
//! There is no other way to the memory, and the record counts how often one was opened: so
//! an operation that opens one access and closes it again has taken the steps that are then
//! on record, in that order, and no others.
use crate::memory::Memory;
use crate::protocol::State;
use crate::reading::Reading;
use crate::shared::Shared;
use crate::trace::Event;
use std::sync::Arc;
use vstd::prelude::*;

verus! {

/// What ties an end to the memory.
#[verifier::reject_recursive_types(T)]
pub struct Link<T> {
    shared: Arc<Shared<T>>,
}

/// What an end has done in the memory so far.
#[verifier::reject_recursive_types(T)]
pub struct Record<T> {
    of: Ghost<Shared<T>>,
    opened: Ghost<nat>,
    turns: Ghost<Seq<Seq<Event<T>>>>,
}

/// A memory, as an end reaches it in the course of one operation.
#[verifier::reject_recursive_types(T)]
pub struct Access<T, M> {
    memory: M,
    number: Ghost<nat>,
    events: Ghost<Seq<Event<T>>>,
}

impl<T> Link<T> {
    /// The memory.
    pub closed spec fn buffer(self) -> Shared<T> {
        *self.shared
    }
}

/// Makes a memory of `size` empty slots, and for each of its two ends a link to it and a
/// record of nothing.
pub fn link_ends<T>(size: usize) -> (ends: ((Link<T>, Record<T>), (Link<T>, Record<T>)))
    requires
        vstd::arithmetic::power2::is_pow2(size as int),
        crate::index::fits::<std::sync::Mutex<Option<T>>>(size),
    ensures
        ends.0.0.buffer().slot_count() == size,
        ends.1.0.buffer() == ends.0.0.buffer(),
        ends.0.1.is_new(ends.0.0.buffer()),
        ends.1.1.is_new(ends.0.0.buffer()),
{
    let shared = Arc::new(Shared::new(size));
    let first = Link { shared: Arc::clone(&shared) };
    let second = Link { shared };
    let ghost of = first.buffer();
    (
        (first, Record { of: Ghost(of), opened: Ghost(0), turns: Ghost(Seq::empty()) }),
        (second, Record { of: Ghost(of), opened: Ghost(0), turns: Ghost(Seq::empty()) }),
    )
}

impl<T> Record<T> {
    /// The memory that the record is about.
    pub closed spec fn of(self) -> Shared<T> {
        self.of@
    }

    /// How often the memory was opened.
    pub closed spec fn opened(self) -> nat {
        self.opened@
    }

    /// What was done, each time that the memory was opened and closed again.
    pub closed spec fn turns(self) -> Seq<Seq<Event<T>>> {
        self.turns@
    }

    /// The memory was never opened.
    pub open spec fn is_new(self, memory: Shared<T>) -> bool {
        &&& self.of() == memory
        &&& self.opened() == 0
        &&& self.turns() == Seq::<Seq<Event<T>>>::empty()
    }

    /// The memory was opened and closed again once, and what was done in between is on
    /// record after what was done before.
    pub open spec fn took_turn(self, after: Self) -> bool {
        &&& after.of() == self.of()
        &&& after.opened() == self.opened() + 1
        &&& after.turns() == self.turns().push(after.turns().last())
    }

    /// Opens the memory.
    pub fn open<'a>(&mut self, link: &'a Link<T>) -> (access: Access<T, &'a Shared<T>>)
        requires
            old(self).of() == link.buffer(),
        ensures
            final(self).of() == old(self).of(),
            final(self).opened() == old(self).opened() + 1,
            final(self).turns() == old(self).turns(),
            access.id() == (link.buffer(), final(self).opened()),
            access.events() == Seq::<Event<T>>::empty(),
            access.wf(),
            access.size() == link.buffer().slot_count(),
            access.state() is None,
        no_unwind
    {
        self.opened = Ghost(self.opened@ + 1);
        Access { memory: &link.shared, number: Ghost(self.opened@), events: Ghost(Seq::empty()) }
    }

    /// Puts on record what was done since the memory was last opened.
    pub fn close<'a>(&mut self, access: Access<T, &'a Shared<T>>)
        requires
            access.id() == (old(self).of(), old(self).opened()),
        ensures
            final(self).of() == old(self).of(),
            final(self).opened() == old(self).opened(),
            final(self).turns() == old(self).turns().push(access.events()),
        no_unwind
    {
        self.turns = Ghost(self.turns@.push(access.events@));
    }
}

impl<T, M: Memory<T>> Access<T, M> {
    /// The steps that were taken since the memory was opened.
    pub closed spec fn events(self) -> Seq<Event<T>> {
        self.events@
    }

    /// Keeps what a vector was found to have for a capacity.
    pub fn note(&mut self, capacity: &Reading<Vec<T>>)
        ensures
            final(self).id() == old(self).id(),
            final(self).wf() == old(self).wf(),
            final(self).size() == old(self).size(),
            final(self).state() == old(self).state(),
            final(self).alone() == old(self).alone(),
            final(self).events() == old(self).events().push(
                Event::Measured(capacity.of(), capacity.value()),
            ),
    {
        self.events = Ghost(self.events@.push(Event::Measured(capacity.of(), capacity.value())));
    }
}

/// Each step is taken in the memory, and kept.
impl<T, M: Memory<T>> Memory<T> for Access<T, M> {
    type Id = (M::Id, nat);

    closed spec fn id(&self) -> (M::Id, nat) {
        (self.memory.id(), self.number@)
    }

    closed spec fn wf(&self) -> bool {
        self.memory.wf()
    }

    closed spec fn size(&self) -> nat {
        self.memory.size()
    }

    closed spec fn state(&self) -> Option<State<T>> {
        self.memory.state()
    }

    closed spec fn alone(&self) -> bool {
        self.memory.alone()
    }

    open spec fn log(&self) -> Option<Seq<Event<T>>> {
        Some(self.events())
    }

    fn load_w(&mut self) -> usize {
        let w = self.memory.load_w();
        self.events = Ghost(self.events@.push(Event::LoadedW(w)));
        w
    }

    fn load_r(&mut self) -> usize {
        let r = self.memory.load_r();
        self.events = Ghost(self.events@.push(Event::LoadedR(r)));
        r
    }

    fn store_w(&mut self, w: usize) {
        self.memory.store_w(w);
        self.events = Ghost(self.events@.push(Event::StoredW(w)));
    }

    fn store_r(&mut self, r: usize) {
        self.memory.store_r(r);
        self.events = Ghost(self.events@.push(Event::StoredR(r)));
    }

    fn put(&mut self, i: usize, item: T) {
        self.events = Ghost(self.events@.push(Event::Put(i, item)));
        self.memory.put(i, item);
    }

    fn take(&mut self, i: usize) -> Option<T> {
        let value = self.memory.take(i);
        self.events = Ghost(self.events@.push(Event::Took(i, value)));
        value
    }
}

/// Two operations in a row open the memory twice and no more, and what each of them did
/// stands on record, in that order, after all that was done before.
pub proof fn law_turns<T>(first: Record<T>, second: Record<T>, third: Record<T>, k: int)
    requires
        first.took_turn(second),
        second.took_turn(third),
        0 <= k < first.turns().len(),
    ensures
        third.of() == first.of(),
        third.opened() == first.opened() + 2,
        third.turns().len() == first.turns().len() + 2,
        third.turns()[k] == first.turns()[k],
        third.turns()[first.turns().len() as int] == second.turns().last(),
{
}

/// The first operation of a new end is all that is on its record.
pub proof fn law_first_turn<T>(memory: Shared<T>, first: Record<T>, second: Record<T>)
    requires
        first.is_new(memory),
        first.took_turn(second),
    ensures
        second.of() == memory,
        second.opened() == 1,
        second.turns() == seq![second.turns().last()],
{
    assert(second.turns() =~= seq![second.turns().last()]);
}

} // verus!
