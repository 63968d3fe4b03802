//! What an end of a circular buffer does in memory, step by step.
use crate::ring::Consumer;
use crate::ring::Producer;
use vstd::prelude::*;

verus! {

/// One step of an end.
pub enum Event<T> {
    /// The write index was loaded, and this was found.
    LoadedW(usize),
    /// The read index was loaded, and this was found.
    LoadedR(usize),
    /// This was stored as the write index.
    StoredW(usize),
    /// This was stored as the read index.
    StoredR(usize),
    /// An item was put into the slot of that number.
    Put(usize, T),
    /// The slot of that number was emptied, and this is what it held.
    Took(usize, Option<T>),
    /// The capacity of a vector was asked for, and this was the answer.
    Measured(Vec<T>, usize),
}

/// The steps so far with one more, where steps are kept.
pub open spec fn noted<T>(log: Option<Seq<Event<T>>>, event: Event<T>) -> Option<Seq<Event<T>>> {
    match log {
        Some(events) => Some(events.push(event)),
        None => None,
    }
}

/// The slot that stands `ahead` positions after that of `idx`.
pub open spec fn slot_after(idx: usize, ahead: int, cap: int) -> usize {
    ((idx + ahead) % cap) as usize
}

/// The steps of a push of `item` that returns `res`. It loads the read index, and gives the
/// item back if that leaves no slot empty. Otherwise it puts the item into the slot of its
/// write index, and stores the write index that it has then.
pub open spec fn push_steps<T>(
    before: Producer,
    after: Producer,
    item: T,
    res: Option<T>,
    steps: Seq<Event<T>>,
) -> bool {
    &&& steps.len() > 0
    &&& steps[0] matches Event::LoadedR(r)
    &&& after.read_index() == crate::ring::newer_r(before.write_index(), before.read_index(), r)
    &&& res is Some <==> crate::index::distance(before.write_index(), after.read_index())
        == before.capacity()
    &&& res is Some ==> steps.len() == 1
    &&& res is None ==> {
        &&& steps.len() == 3
        &&& steps[1] == Event::Put(slot_after(before.write_index(), 0, before.capacity()), item)
        &&& steps[2] == Event::<T>::StoredW(after.write_index())
    }
}

/// The steps of a write. It loads the read index, puts each item by which it gets ahead into
/// a slot, one after the other from that of its write index on, and stores the write index
/// that it has then.
pub open spec fn write_steps<T>(before: Producer, after: Producer, steps: Seq<Event<T>>) -> bool {
    let n = before.ahead(after);
    &&& steps.len() == n + 2
    &&& steps[0] matches Event::LoadedR(r)
    &&& after.read_index() == crate::ring::newer_r(before.write_index(), before.read_index(), r)
    &&& forall|j: int|
        1 <= j <= n ==> (#[trigger] steps[j]) == Event::Put(
            slot_after(before.write_index(), j - 1, before.capacity()),
            steps[j]->Put_1,
        )
    &&& steps[n + 1] == Event::<T>::StoredW(after.write_index())
}

/// The items that a write puts into slots are those that it takes from the front of `data`,
/// in that order.
pub open spec fn puts_from<T>(n: int, data: Seq<T>, steps: Seq<Event<T>>) -> bool {
    forall|j: int| 1 <= j <= n ==> (#[trigger] steps[j])->Put_1 == data[j - 1]
}

/// The steps of a pop that returns `res`. It loads the write index, and returns `None` if
/// that leaves no item. Otherwise it returns what the slot of its read index held, and
/// stores the read index that it has then.
pub open spec fn pop_steps<T>(
    before: Consumer,
    after: Consumer,
    res: Option<T>,
    steps: Seq<Event<T>>,
) -> bool {
    &&& steps.len() > 0
    &&& steps[0] matches Event::LoadedW(w)
    &&& {
        let seen = crate::ring::newer_w(
            before.capacity(),
            before.read_index(),
            before.write_index(),
            w,
        );
        if seen == before.read_index() {
            &&& res is None
            &&& steps.len() == 1
        } else {
            &&& steps.len() == 3
            &&& steps[1] == Event::Took(slot_after(before.read_index(), 0, before.capacity()), res)
            &&& steps[2] == Event::<T>::StoredR(after.read_index())
            &&& res is Some ==> after.write_index() == seen
        }
    }
}

/// The steps of a read that appends `items`, at most `room`. It loads the write index, and
/// takes what one slot after the other holds, from that of its read index on, until it has
/// as many items as that leaves, or `room`, or finds an empty slot. Then it stores the read
/// index that it has.
pub open spec fn read_steps<T>(
    before: Consumer,
    after: Consumer,
    room: int,
    items: Seq<T>,
    steps: Seq<Event<T>>,
) -> bool {
    let n = items.len() as int;
    &&& steps.len() > 0
    &&& steps[0] matches Event::LoadedW(w)
    &&& {
        let seen = crate::ring::newer_w(
            before.capacity(),
            before.read_index(),
            before.write_index(),
            w,
        );
        let count = vstd::math::min(crate::index::distance(seen, before.read_index()), room);
        &&& n <= count
        &&& forall|j: int|
            1 <= j <= n ==> (#[trigger] steps[j]) == Event::Took(
                slot_after(before.read_index(), j - 1, before.capacity()),
                Some(items[j - 1]),
            )
        &&& n == count ==> {
            &&& steps.len() == n + 2
            &&& steps[n + 1] == Event::<T>::StoredR(after.read_index())
            &&& after.write_index() == seen
        }
        &&& n < count ==> {
            &&& steps.len() == n + 3
            &&& steps[n + 1] == Event::<T>::Took(
                slot_after(before.read_index(), n, before.capacity()),
                None,
            )
            &&& steps[n + 2] == Event::<T>::StoredR(after.read_index())
        }
    }
}

/// The steps of a read that makes `longer` of the vector `asked`. It asks the vector for its
/// capacity, and then reads as many items as that leaves room for.
pub open spec fn fill_steps<T>(
    before: Consumer,
    after: Consumer,
    asked: Vec<T>,
    longer: Seq<T>,
    steps: Seq<Event<T>>,
) -> bool {
    &&& steps.len() > 0
    &&& steps[0] matches Event::Measured(vector, capacity)
    &&& vector == asked
    &&& asked@.len() <= capacity
    &&& read_steps(
        before,
        after,
        capacity - asked@.len(),
        longer.skip(asked@.len() as int),
        steps.skip(1),
    )
}

/// The slot of an index, and those after it, are the slots of its position and of those
/// after it.
proof fn lemma_slot_after(position: nat, ahead: nat, cap: usize)
    requires
        vstd::arithmetic::power2::is_pow2(cap as int),
    ensures
        cap > 0,
        slot_after(crate::index::index_of(position), ahead as int, cap as int) == (position + ahead)
            % cap as nat,
{
    let idx = crate::index::index_of(position) as int;
    let cap = cap as int;
    crate::index::law_slot_of_position(position, cap as usize);
    vstd::arithmetic::div_mod::lemma_add_mod_noop(idx, ahead as int, cap);
    vstd::arithmetic::div_mod::lemma_add_mod_noop(position as int, ahead as int, cap);
}

/// A push gives the item back if and only if the read index that it loads is a whole
/// capacity behind. Otherwise the item goes into the slot of its position, and the write
/// index that is stored counts it. Nothing else is done in the memory.
pub proof fn law_push<T>(
    before: Producer,
    after: Producer,
    item: T,
    res: Option<T>,
    steps: Seq<Event<T>>,
    cap: usize,
    sent: nat,
    seen: nat,
    released: nat,
)
    requires
        vstd::arithmetic::power2::is_pow2(cap as int),
        before.capacity() == cap,
        before.write_index() == crate::index::index_of(sent),
        before.read_index() == crate::index::index_of(seen),
        seen <= released <= sent <= seen + cap,
        crate::ring::pushed_out(before, after, item, res),
        push_steps(before, after, item, res, steps),
        steps[0] == Event::<T>::LoadedR(crate::index::index_of(released)),
    ensures
        res is Some <==> sent == released + cap,
        res matches Some(back) ==> {
            &&& back == item
            &&& steps == seq![Event::<T>::LoadedR(crate::index::index_of(released))]
            &&& after.write_index() == crate::index::index_of(sent)
        },
        res is None ==> {
            &&& steps == seq![
                Event::LoadedR(crate::index::index_of(released)),
                Event::Put((sent % cap as nat) as usize, item),
                Event::StoredW(crate::index::index_of(sent + 1)),
            ]
            &&& after.write_index() == crate::index::index_of(sent + 1)
        },
        after.read_index() == crate::index::index_of(released),
{
    crate::index::law_distance_of_positions(sent, released);
    crate::index::law_distance_of_positions(sent, seen);
    crate::index::law_next_of_position(sent);
    lemma_slot_after(sent, 0, cap);
    if res is None {
        assert(steps =~= seq![steps[0], steps[1], steps[2]]);
    } else {
        assert(steps =~= seq![steps[0]]);
    }
}

/// Whatever a write is handed, it puts no more items into slots than the read index that it
/// loads has released, one after the other from the slot of its position on. The one write
/// index that it stores comes last, counts all of them, and is the one that the producer
/// goes on from.
pub proof fn law_write_publishes<T>(
    before: Producer,
    after: Producer,
    steps: Seq<Event<T>>,
    cap: usize,
    sent: nat,
    seen: nat,
    released: nat,
) -> (n: nat)
    requires
        vstd::arithmetic::power2::is_pow2(cap as int),
        before.capacity() == cap,
        before.write_index() == crate::index::index_of(sent),
        before.read_index() == crate::index::index_of(seen),
        seen <= released <= sent <= seen + cap,
        crate::ring::wrote(before, after),
        write_steps(before, after, steps),
        steps[0] == Event::<T>::LoadedR(crate::index::index_of(released)),
    ensures
        sent + n <= released + cap,
        n == before.ahead(after),
        steps.len() == n + 2,
        forall|j: int|
            1 <= j <= n ==> (#[trigger] steps[j]) == Event::Put(
                ((sent + j - 1) % cap as int) as usize,
                steps[j]->Put_1,
            ),
        steps.last() == Event::<T>::StoredW(crate::index::index_of(sent + n)),
        after.write_index() == crate::index::index_of(sent + n),
        after.read_index() == crate::index::index_of(released),
        after.in_flight() == sent + n - released,
{
    let n = before.ahead(after) as nat;
    crate::index::law_distance_of_positions(sent, released);
    crate::index::law_distance_of_positions(sent, seen);
    crate::index::law_index_ahead(after.write_index(), sent, n);
    let flight = (sent + n - released) as nat;
    if flight <= usize::MAX {
        crate::index::law_distance_of_positions(sent + n, released);
    } else {
        let m = (usize::MAX + 1) as nat;
        crate::index::law_index_of_position((sent + n - m) as nat);
        crate::index::law_distance_of_positions((sent + n - m) as nat, released);
    }
    assert forall|j: int| 1 <= j <= n implies (#[trigger] steps[j]) == Event::Put(
        ((sent + j - 1) % cap as int) as usize,
        steps[j]->Put_1,
    ) by {
        lemma_slot_after(sent, (j - 1) as nat, cap);
    }
    n
}

/// A write takes from the front of the data as many items as there are, or as many as the
/// read index that it loads has released, whichever is less. It puts them into slots in
/// their order, and leaves the others in the data.
pub proof fn law_write<T>(
    before: Producer,
    after: Producer,
    data: Seq<T>,
    rest: Seq<T>,
    steps: Seq<Event<T>>,
    cap: usize,
    sent: nat,
    seen: nat,
    released: nat,
)
    requires
        vstd::arithmetic::power2::is_pow2(cap as int),
        before.capacity() == cap,
        before.write_index() == crate::index::index_of(sent),
        before.read_index() == crate::index::index_of(seen),
        seen <= released <= sent <= seen + cap,
        crate::ring::wrote(before, after),
        crate::ring::moved_out(before, after, data, rest),
        write_steps(before, after, steps),
        puts_from(before.ahead(after), data, steps),
        steps[0] == Event::<T>::LoadedR(crate::index::index_of(released)),
    ensures
        ({
            let space = released + cap - sent;
            let n = steps.len() - 2;
            &&& n <= data.len() && n <= space
            &&& n == data.len() || n == space
            &&& data == data.take(n) + rest
            &&& forall|j: int|
                1 <= j <= n ==> (#[trigger] steps[j]) == Event::Put(
                    ((sent + j - 1) % cap as int) as usize,
                    data[j - 1],
                )
            &&& steps.last() == Event::<T>::StoredW(crate::index::index_of((sent + n) as nat))
            &&& after.write_index() == crate::index::index_of((sent + n) as nat)
        }),
{
    let n = law_write_publishes(before, after, steps, cap, sent, seen, released);
    assert(data =~= data.take(n as int) + rest);
}

/// A pop returns `None` only if the write index that it loads leaves nothing to read, or if
/// the slot of its position holds nothing. Otherwise it returns what that slot held, and the
/// read index that is stored counts it. Nothing else is done in the memory.
pub proof fn law_pop<T>(
    before: Consumer,
    after: Consumer,
    res: Option<T>,
    steps: Seq<Event<T>>,
    cap: usize,
    received: nat,
    seen: nat,
    published: nat,
)
    requires
        vstd::arithmetic::power2::is_pow2(cap as int),
        before.capacity() == cap,
        before.read_index() == crate::index::index_of(received),
        before.write_index() == crate::index::index_of(seen),
        received <= seen <= published <= received + cap,
        crate::ring::popped_in(before, after, res),
        pop_steps(before, after, res, steps),
        steps[0] == Event::<T>::LoadedW(crate::index::index_of(published)),
    ensures
        published == received ==> {
            &&& res is None
            &&& steps == seq![Event::<T>::LoadedW(crate::index::index_of(published))]
        },
        published > received ==> {
            let read: nat = if res is Some {
                1
            } else {
                0
            };
            &&& steps == seq![
                Event::LoadedW(crate::index::index_of(published)),
                Event::Took((received % cap as nat) as usize, res),
                Event::StoredR(crate::index::index_of(received + read)),
            ]
            &&& after.read_index() == crate::index::index_of(received + read)
            &&& res is Some ==> after.write_index() == crate::index::index_of(published)
        },
{
    crate::index::law_distance_of_positions(published, received);
    crate::index::law_distance_of_positions(seen, received);
    crate::index::law_next_of_position(received);
    lemma_slot_after(received, 0, cap);
    if published == received {
        assert(steps =~= seq![steps[0]]);
    } else {
        assert(steps =~= seq![steps[0], steps[1], steps[2]]);
    }
}

/// A read into data that is to hold at most `capacity` items appends what one slot after the
/// other held, from that of its position on. It stops short of the items that the write index
/// that it loads leaves to read only where the data is full, or where a slot holds nothing.
/// The one read index that it stores comes last, counts all of them, and is the one that the
/// consumer goes on from.
pub proof fn law_read<T>(
    before: Consumer,
    after: Consumer,
    data: Seq<T>,
    longer: Seq<T>,
    capacity: nat,
    steps: Seq<Event<T>>,
    cap: usize,
    received: nat,
    seen: nat,
    published: nat,
)
    requires
        vstd::arithmetic::power2::is_pow2(cap as int),
        before.capacity() == cap,
        before.read_index() == crate::index::index_of(received),
        before.write_index() == crate::index::index_of(seen),
        received <= seen <= published <= received + cap,
        data.len() <= capacity,
        crate::ring::moved_in(before, after, data, longer),
        read_steps(
            before,
            after,
            capacity - data.len(),
            longer.skip(data.len() as int),
            steps,
        ),
        steps[0] == Event::<T>::LoadedW(crate::index::index_of(published)),
    ensures
        ({
            let n = longer.len() - data.len();
            &&& data.is_prefix_of(longer)
            &&& received + n <= published && longer.len() <= capacity
            &&& received + n == published || longer.len() == capacity || steps[n + 1]
                == Event::<T>::Took(((received + n) % cap as int) as usize, None)
            &&& forall|j: int|
                1 <= j <= n ==> (#[trigger] steps[j]) == Event::Took(
                    ((received + j - 1) % cap as int) as usize,
                    Some(longer[data.len() + j - 1]),
                )
            &&& received + n == published || longer.len() == capacity ==> steps.len() == n + 2
            &&& steps.last() == Event::<T>::StoredR(
                crate::index::index_of((received + n) as nat),
            )
            &&& after.read_index() == crate::index::index_of((received + n) as nat)
        }),
{
    let n = (longer.len() - data.len()) as nat;
    crate::index::law_distance_of_positions(published, received);
    crate::index::law_distance_of_positions(seen, received);
    crate::index::law_index_ahead(after.read_index(), received, n);
    assert(data =~= longer.take(data.len() as int));
    lemma_slot_after(received, n, cap);
    assert forall|j: int| 1 <= j <= n implies (#[trigger] steps[j]) == Event::Took(
        ((received + j - 1) % cap as int) as usize,
        Some(longer[data.len() + j - 1]),
    ) by {
        lemma_slot_after(received, (j - 1) as nat, cap);
    }
}

/// A read asks the vector that it is handed for its capacity, and reads until the vector
/// holds as many items as the answer was, or all items are read that the write index that it
/// loads leaves, or a slot holds nothing. What it appends is what the slots held, one after
/// the other.
pub proof fn law_read_fills_vector<T>(
    before: Consumer,
    after: Consumer,
    asked: Vec<T>,
    longer: Seq<T>,
    steps: Seq<Event<T>>,
    capacity: usize,
    cap: usize,
    received: nat,
    seen: nat,
    published: nat,
)
    requires
        vstd::arithmetic::power2::is_pow2(cap as int),
        before.capacity() == cap,
        before.read_index() == crate::index::index_of(received),
        before.write_index() == crate::index::index_of(seen),
        received <= seen <= published <= received + cap,
        crate::ring::moved_in(before, after, asked@, longer),
        fill_steps(before, after, asked, longer, steps),
        steps[0] == Event::Measured(asked, capacity),
        steps[1] == Event::<T>::LoadedW(crate::index::index_of(published)),
    ensures
        ({
            let n = longer.len() - asked@.len();
            &&& asked@.is_prefix_of(longer)
            &&& received + n <= published && longer.len() <= capacity
            &&& received + n == published || longer.len() == capacity || steps[n + 2]
                == Event::<T>::Took(((received + n) % cap as int) as usize, None)
            &&& forall|j: int|
                2 <= j <= n + 1 ==> (#[trigger] steps[j]) == Event::Took(
                    ((received + j - 2) % cap as int) as usize,
                    Some(longer[asked@.len() + j - 2]),
                )
            &&& steps.last() == Event::<T>::StoredR(
                crate::index::index_of((received + n) as nat),
            )
        }),
{
    let n = longer.len() - asked@.len();
    let reading = steps.skip(1);
    law_read(
        before,
        after,
        asked@,
        longer,
        capacity as nat,
        reading,
        cap,
        received,
        seen,
        published,
    );
    assert forall|j: int| 2 <= j <= n + 1 implies (#[trigger] steps[j]) == Event::Took(
        ((received + j - 2) % cap as int) as usize,
        Some(longer[asked@.len() + j - 2]),
    ) by {
        assert(reading[j - 1] == steps[j]);
    }
}

} // verus!
