//! How the two ends of a circular buffer use the slots and the indices between them.
//!
//! The producer puts an item into the next slot that it has seen released, and then
//! publishes it by moving the write index. The consumer takes an item out of the next
//! slot that it has seen published, and then releases the slot by moving the read
//! index. Each of these four steps can happen at any time in between those of the
//! other end.
use vstd::prelude::*;

verus! {

/// A buffer while its two ends use it. Positions count items from the first one on,
/// without wrapping.
#[verifier::ext_equal]
pub struct State<T> {
    /// The slots; an empty one holds `None`.
    pub slots: Seq<Option<T>>,
    /// All items that were ever put into a slot, in that order.
    pub sent: Seq<T>,
    /// The position of the write index: how many of these are published.
    pub published: nat,
    /// All items that were ever taken out of a slot, in that order.
    pub received: Seq<T>,
    /// The position of the read index: how many of these are released.
    pub released: nat,
}

impl<T> State<T> {
    /// An empty buffer with `cap` slots.
    pub open spec fn init(cap: nat) -> Self {
        State {
            slots: Seq::new(cap, |i: int| None),
            sent: Seq::empty(),
            published: 0,
            received: Seq::empty(),
            released: 0,
        }
    }

    /// The number of slots.
    pub open spec fn cap(self) -> int {
        self.slots.len() as int
    }

    /// What the slot of a position holds.
    pub open spec fn slot(self, position: int) -> Option<T> {
        self.slots[position % self.cap()]
    }

    /// The items that are in the buffer, oldest first.
    pub open spec fn items(self) -> Seq<T> {
        self.sent.skip(self.received.len() as int)
    }

    /// The slots from that of the read index on.
    pub open spec fn from_oldest(self) -> Seq<Option<T>> {
        let first = self.released as int % self.cap();
        self.slots.skip(first) + self.slots.take(first)
    }

    /// Whether no slot is released for another item.
    pub open spec fn full(self) -> bool {
        self.sent.len() == self.released + self.cap()
    }

    /// Whether no published item is left.
    pub open spec fn empty(self) -> bool {
        self.published == self.received.len()
    }

    /// What holds at all times: the consumer stays behind the producer by no more than
    /// the capacity; what was received is what was sent first; and the slots hold the
    /// items that were sent and not yet received, and nothing else.
    pub open spec fn inv(self) -> bool {
        &&& self.cap() <= usize::MAX
        &&& vstd::arithmetic::power2::is_pow2(self.cap())
        &&& self.released <= self.received.len() <= self.published <= self.sent.len()
            <= self.released + self.cap()
        &&& self.received == self.sent.take(self.received.len() as int)
        &&& forall|p: int|
            self.received.len() <= p < self.sent.len() ==> #[trigger] self.slot(p) == Some(
                self.sent[p],
            )
        &&& forall|p: int|
            self.sent.len() <= p < self.received.len() + self.cap() ==> (#[trigger] self.slot(
                p,
            )) is None
    }

    /// The producer puts `item` into the next slot.
    pub open spec fn put(self, item: T) -> Self {
        State {
            slots: self.slots.update(self.sent.len() as int % self.cap(), Some(item)),
            sent: self.sent.push(item),
            ..self
        }
    }

    /// The producer publishes what it has put into slots.
    pub open spec fn publish(self) -> Self {
        State { published: self.sent.len(), ..self }
    }

    /// The consumer takes what the next slot holds.
    pub open spec fn take(self) -> Self {
        State {
            slots: self.slots.update(self.received.len() as int % self.cap(), None),
            received: self.received.push(self.slot(self.received.len() as int)->0),
            ..self
        }
    }

    /// The consumer releases the slots that it has taken items out of.
    pub open spec fn release(self) -> Self {
        State { released: self.received.len(), ..self }
    }

    /// Everything that the producer can have done in the meantime.
    pub open spec fn producer_moved(self, after: Self) -> bool {
        &&& after.inv()
        &&& after.cap() == self.cap()
        &&& after.received == self.received
        &&& after.released == self.released
        &&& self.sent.is_prefix_of(after.sent)
        &&& self.published <= after.published
    }

    /// Everything that the consumer can have done in the meantime.
    pub open spec fn consumer_moved(self, after: Self) -> bool {
        &&& after.inv()
        &&& after.cap() == self.cap()
        &&& after.sent == self.sent
        &&& after.published == self.published
        &&& self.received.is_prefix_of(after.received)
        &&& self.released <= after.released
    }

    /// The consumer may have got further, unless nobody but the producer acts.
    pub open spec fn consumer_followed(self, after: Self, alone: bool) -> bool {
        &&& self.received.is_prefix_of(after.received)
        &&& self.released <= after.released
        &&& alone ==> after.received == self.received && after.released == self.released
    }

    /// The producer may have got further, unless nobody but the consumer acts.
    pub open spec fn producer_followed(self, after: Self, alone: bool) -> bool {
        &&& self.sent.is_prefix_of(after.sent)
        &&& self.published <= after.published
        &&& alone ==> after.sent == self.sent && after.published == self.published
    }

    /// One step of one of the ends, with the condition under which it is taken.
    pub open spec fn step(self, after: Self) -> bool {
        ||| self.sent.len() < self.released + self.cap() && exists|item: T|
            after == #[trigger] self.put(item)
        ||| after == self.publish()
        ||| self.received.len() < self.published && after == self.take()
        ||| after == self.release()
    }
}

/// Two positions that are less than the number of slots apart have different slots.
proof fn lemma_slots_differ(p: int, q: int, cap: int)
    requires
        p < q < p + cap,
    ensures
        p % cap != q % cap,
{
    vstd::arithmetic::div_mod::lemma_mod_equivalence(q, p, cap);
    vstd::arithmetic::div_mod::lemma_small_mod((q - p) as nat, cap as nat);
}

/// A new buffer is in order.
pub proof fn law_init<T>(cap: usize)
    requires
        vstd::arithmetic::power2::is_pow2(cap as int),
    ensures
        State::<T>::init(cap as nat).inv(),
{
    let s = State::<T>::init(cap as nat);
    crate::index::lemma_divides(cap);
    assert(s.received =~= s.sent.take(0));
    assert forall|p: int| 0 <= p < cap implies (#[trigger] s.slot(p)) is None by {
        vstd::arithmetic::div_mod::lemma_small_mod(p as nat, cap as nat);
    }
}

/// A slot that the producer has seen released is empty when it puts an item there, and
/// what it does keeps the buffer in order and is something that the consumer reckons
/// with.
pub proof fn law_put<T>(s: State<T>, item: T)
    requires
        s.inv(),
        s.sent.len() < s.released + s.cap(),
    ensures
        s.slot(s.sent.len() as int) is None,
        s.producer_moved(s.put(item)),
{
    let cap = s.cap();
    let n = s.sent.len() as int;
    let after = s.put(item);
    assert(after.received =~= after.sent.take(after.received.len() as int));
    assert forall|p: int| after.received.len() <= p < after.sent.len() implies #[trigger] after.slot(
        p,
    ) == Some(after.sent[p]) by {
        if p < n {
            lemma_slots_differ(p, n, cap);
            assert(s.slot(p) == Some(s.sent[p]));
        }
    }
    assert forall|p: int|
        after.sent.len() <= p < after.received.len() + cap implies (#[trigger] after.slot(
        p,
    )) is None by {
        lemma_slots_differ(n, p, cap);
        assert(s.slot(p) is None);
    }
}

/// Publishing keeps the buffer in order and is something that the consumer reckons with.
pub proof fn law_publish<T>(s: State<T>)
    requires
        s.inv(),
    ensures
        s.producer_moved(s.publish()),
{
    let after = s.publish();
    assert forall|p: int| #[trigger] after.slot(p) == s.slot(p) by {}
}

/// A slot that the consumer has seen published holds the next of the items that were
/// sent, and to take it keeps the buffer in order and is something that the producer
/// reckons with.
pub proof fn law_take<T>(s: State<T>)
    requires
        s.inv(),
        s.received.len() < s.published,
    ensures
        s.slot(s.received.len() as int) == Some(s.sent[s.received.len() as int]),
        s.consumer_moved(s.take()),
{
    let cap = s.cap();
    let n = s.received.len() as int;
    let after = s.take();
    assert(s.slot(n) == Some(s.sent[n]));
    assert(after.received =~= after.sent.take(after.received.len() as int));
    assert forall|p: int| after.received.len() <= p < after.sent.len() implies #[trigger] after.slot(
        p,
    ) == Some(after.sent[p]) by {
        lemma_slots_differ(n, p, cap);
        assert(s.slot(p) == Some(s.sent[p]));
    }
    assert forall|p: int|
        after.sent.len() <= p < after.received.len() + cap implies (#[trigger] after.slot(
        p,
    )) is None by {
        if p < n + cap {
            lemma_slots_differ(n, p, cap);
            assert(s.slot(p) is None);
        } else {
            vstd::arithmetic::div_mod::lemma_mod_add_multiples_vanish(n, cap);
        }
    }
}

/// Releasing keeps the buffer in order and is something that the producer reckons with.
pub proof fn law_release<T>(s: State<T>)
    requires
        s.inv(),
    ensures
        s.consumer_moved(s.release()),
{
    let after = s.release();
    assert forall|p: int| #[trigger] after.slot(p) == s.slot(p) by {}
}

/// The two ends never reach for the same slot: one that is released for the producer is
/// none that the consumer has been given and not yet released.
pub proof fn law_ends_apart<T>(s: State<T>, p: int, q: int)
    requires
        s.inv(),
        s.sent.len() <= p < s.released + s.cap(),
        s.released <= q < s.published,
    ensures
        p % s.cap() != q % s.cap(),
{
    lemma_slots_differ(q, p, s.cap());
}

/// Once the consumer has released what it took, the slots from that of the read index on
/// hold the items that are left, oldest first, and then nothing.
pub proof fn law_left_in_order<T>(s: State<T>, k: int)
    requires
        s.inv(),
        s.released == s.received.len(),
        0 <= k < s.cap(),
    ensures
        s.from_oldest().len() == s.cap(),
        k < s.items().len() ==> s.from_oldest()[k] == Some(s.items()[k]),
        k >= s.items().len() ==> s.from_oldest()[k] is None,
{
    let cap = s.cap();
    let n = s.released as int;
    let first = n % cap;
    vstd::arithmetic::div_mod::lemma_fundamental_div_mod(n, cap);
    let q = n / cap;
    assert(s.from_oldest()[k] == s.slot(n + k)) by {
        if first + k < cap {
            assert(n + k == q * cap + (first + k)) by (nonlinear_arith)
                requires
                    n == cap * q + first,
            ;
            vstd::arithmetic::div_mod::lemma_fundamental_div_mod_converse(n + k, cap, q, first + k);
        } else {
            assert(n + k == (q + 1) * cap + (first + k - cap)) by (nonlinear_arith)
                requires
                    n == cap * q + first,
            ;
            vstd::arithmetic::div_mod::lemma_fundamental_div_mod_converse(
                n + k,
                cap,
                q + 1,
                first + k - cap,
            );
        }
    }
}

/// However the steps of the two ends interleave, the buffer stays in order: what was
/// received is what was sent first, in the same order, with nothing lost, doubled or
/// made up; and what is still on its way fits into the buffer and is in its slots. Once
/// everything is published and the buffer is empty, everything is received.
pub proof fn law_interleaving<T>(cap: usize, run: Seq<State<T>>, k: int)
    requires
        vstd::arithmetic::power2::is_pow2(cap as int),
        0 <= k < run.len(),
        run[0] == State::<T>::init(cap as nat),
        forall|i: int| 0 <= i < run.len() - 1 ==> (#[trigger] run[i]).step(run[i + 1]),
    ensures
        run[k].inv(),
        run[k].cap() == cap,
        run[k].sent == run[k].received + run[k].items(),
        run[k].items().len() <= cap,
        run[k].published == run[k].sent.len() && run[k].empty() ==> run[k].received == run[k].sent,
    decreases k,
{
    if k == 0 {
        law_init::<T>(cap);
    } else {
        law_interleaving(cap, run, k - 1);
        let s = run[k - 1];
        let after = run[k];
        assert(s.step(after));
        if after == s.publish() {
            law_publish(s);
        } else if after == s.release() {
            law_release(s);
        } else if s.received.len() < s.published && after == s.take() {
            law_take(s);
        } else {
            let item = choose|item: T| after == #[trigger] s.put(item);
            law_put(s, item);
        }
    }
    let s = run[k];
    assert(s.sent =~= s.received + s.items());
}

} // verus!
