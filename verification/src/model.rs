//! What the operations of a circular buffer do to the sequence of items in it.
use vstd::prelude::*;

verus! {

/// What pushing `item` returns, and what the buffer holds afterwards.
pub open spec fn pushed<T>(cap: int, items: Seq<T>, item: T) -> (Option<T>, Seq<T>) {
    if items.len() < cap {
        (None, items.push(item))
    } else {
        (Some(item), items)
    }
}

/// What popping returns, and what the buffer holds afterwards.
pub open spec fn popped<T>(items: Seq<T>) -> (Option<T>, Seq<T>) {
    if items.len() > 0 {
        (Some(items[0]), items.drop_first())
    } else {
        (None, items)
    }
}

/// How many of the items of `data` fit into the buffer.
pub open spec fn fitting<T>(cap: int, items: Seq<T>, data: Seq<T>) -> int {
    vstd::math::min(cap - items.len(), data.len() as int)
}

/// What writing `data` leaves of it, and what the buffer holds afterwards.
pub open spec fn written<T>(cap: int, items: Seq<T>, data: Seq<T>) -> (Seq<T>, Seq<T>) {
    let n = fitting(cap, items, data);
    (data.skip(n), items + data.take(n))
}

/// How many items a read of at most `room` takes.
pub open spec fn available<T>(items: Seq<T>, room: int) -> int {
    vstd::math::min(items.len() as int, room)
}

/// What reading at most `room` items onto the end of `data` makes of it, and what
/// the buffer holds afterwards.
pub open spec fn delivered<T>(items: Seq<T>, data: Seq<T>, room: int) -> (Seq<T>, Seq<T>) {
    let n = available(items, room);
    (data + items.take(n), items.skip(n))
}

/// Pushes the items of `data` one after the other until one is refused: what is left of
/// `data`, and what the buffer holds afterwards.
pub open spec fn pushed_all<T>(cap: int, items: Seq<T>, data: Seq<T>) -> (Seq<T>, Seq<T>)
    decreases data.len(),
{
    if data.len() == 0 {
        (data, items)
    } else {
        let (refused, after) = pushed(cap, items, data[0]);
        if refused is Some {
            (data, items)
        } else {
            pushed_all(cap, after, data.drop_first())
        }
    }
}

/// Pops items one after the other, at most `room`, and appends them to `data`: what
/// becomes of `data`, and what the buffer holds afterwards.
pub open spec fn popped_all<T>(items: Seq<T>, data: Seq<T>, room: nat) -> (Seq<T>, Seq<T>)
    decreases room,
{
    if room == 0 {
        (data, items)
    } else {
        match popped(items) {
            (Some(item), after) => popped_all(after, data.push(item), (room - 1) as nat),
            (None, after) => (data, items),
        }
    }
}

/// Pops items one after the other until `data` holds `capacity` of them or the buffer is
/// empty: what becomes of `data`, and what the buffer holds afterwards.
pub open spec fn popped_until_full<T>(items: Seq<T>, data: Seq<T>, capacity: int) -> (
    Seq<T>,
    Seq<T>,
)
    decreases capacity - data.len(),
{
    if data.len() >= capacity {
        (data, items)
    } else {
        match popped(items) {
            (Some(item), after) => popped_until_full(after, data.push(item), capacity),
            (None, after) => (data, items),
        }
    }
}

/// No operation lets the buffer hold more than its capacity.
pub proof fn law_capacity<T>(cap: int, items: Seq<T>, item: T, data: Seq<T>, room: nat)
    requires
        items.len() <= cap,
    ensures
        pushed(cap, items, item).1.len() <= cap,
        popped(items).1.len() <= cap,
        written(cap, items, data).1.len() <= cap,
        delivered(items, data, room as int).1.len() <= cap,
{
}

/// No operation loses, doubles or reorders an item: what was in the buffer and in the
/// data before is there afterwards, in the same order.
pub proof fn law_conservation<T>(cap: int, items: Seq<T>, item: T, data: Seq<T>, room: nat)
    requires
        items.len() <= cap,
    ensures
        ({
            let (refused, after) = pushed(cap, items, item);
            after + (match refused {
                Some(back) => seq![back],
                None => seq![],
            }) == items.push(item)
        }),
        ({
            let (first, after) = popped(items);
            (match first {
                Some(front) => seq![front],
                None => seq![],
            }) + after == items
        }),
        ({
            let (rest, after) = written(cap, items, data);
            after + rest == items + data
        }),
        ({
            let (longer, after) = delivered(items, data, room as int);
            longer + after == data + items
        }),
{
    let (refused, kept) = pushed(cap, items, item);
    let returned: Seq<T> = match refused {
        Some(back) => seq![back],
        None => seq![],
    };
    assert(kept + returned =~= items.push(item));
    let (first, others) = popped(items);
    let front: Seq<T> = match first {
        Some(front) => seq![front],
        None => seq![],
    };
    assert(front + others =~= items);
    let (rest, more) = written(cap, items, data);
    assert(more + rest =~= items + data);
    let (longer, fewer) = delivered(items, data, room as int);
    assert(longer + fewer =~= data + items);
}

/// An item that is pushed into an empty buffer is the one that is popped next.
pub proof fn law_push_then_pop<T>(cap: int, item: T)
    requires
        cap > 0,
    ensures
        pushed(cap, Seq::<T>::empty(), item).0 is None,
        popped(pushed(cap, Seq::<T>::empty(), item).1) == (Some(item), Seq::<T>::empty()),
{
    assert(seq![item].drop_first() =~= Seq::<T>::empty());
    assert(Seq::<T>::empty().push(item) =~= seq![item]);
}

/// After a pop that found an item the buffer takes another one.
pub proof fn law_pop_makes_space<T>(cap: int, items: Seq<T>, item: T)
    requires
        0 < items.len() <= cap,
    ensures
        pushed(cap, popped(items).1, item).0 is None,
{
}

/// What is written comes out again as it went in, after what was in the buffer before.
pub proof fn law_write_then_read<T>(cap: int, items: Seq<T>, data: Seq<T>, room: nat)
    requires
        items.len() + data.len() <= cap,
        items.len() + data.len() <= room,
    ensures
        written(cap, items, data).0.len() == 0,
        delivered(written(cap, items, data).1, Seq::<T>::empty(), room as int) == (
            items + data,
            Seq::<T>::empty(),
        ),
{
    let (rest, after) = written(cap, items, data);
    assert(after =~= items + data);
    let (longer, left) = delivered(after, Seq::<T>::empty(), room as int);
    assert(longer =~= items + data);
    assert(left =~= Seq::<T>::empty());
}

/// A write does what pushing item by item does.
pub proof fn law_write_is_pushes<T>(cap: int, items: Seq<T>, data: Seq<T>)
    requires
        items.len() <= cap,
    ensures
        written(cap, items, data) == pushed_all(cap, items, data),
    decreases data.len(),
{
    let n = fitting(cap, items, data);
    if data.len() == 0 || items.len() == cap {
        assert(data.skip(0) =~= data);
        assert(items + data.take(0) =~= items);
    } else {
        let more = items.push(data[0]);
        let rest = data.drop_first();
        law_write_is_pushes(cap, more, rest);
        assert(rest.skip(n - 1) =~= data.skip(n));
        assert(more + rest.take(n - 1) =~= items + data.take(n));
    }
}

/// A read does what popping item by item does.
pub proof fn law_read_is_pops<T>(items: Seq<T>, data: Seq<T>, room: nat)
    ensures
        delivered(items, data, room as int) == popped_all(items, data, room),
    decreases room,
{
    let n = available(items, room as int);
    if room == 0 || items.len() == 0 {
        assert(items.skip(0) =~= items);
        assert(data + items.take(0) =~= data);
    } else {
        let rest = items.drop_first();
        let longer = data.push(items[0]);
        law_read_is_pops(rest, longer, (room - 1) as nat);
        assert(rest.skip(n - 1) =~= items.skip(n));
        assert(longer + rest.take(n - 1) =~= data + items.take(n));
    }
}

/// A read into the space that is left in `data` does what popping item by item does until
/// `data` is full or the buffer is empty. It loses, doubles and reorders nothing, and
/// leaves items only where `data` is full.
pub proof fn law_read_fills<T>(items: Seq<T>, data: Seq<T>, capacity: int)
    requires
        data.len() <= capacity,
    ensures
        ({
            let (longer, after) = delivered(items, data, capacity - data.len());
            &&& (longer, after) == popped_until_full(items, data, capacity)
            &&& longer + after == data + items
            &&& longer.len() <= capacity
            &&& after.len() == 0 || longer.len() == capacity
        }),
    decreases capacity - data.len(),
{
    let n = available(items, capacity - data.len());
    let (longer, after) = delivered(items, data, capacity - data.len());
    assert(longer + after =~= data + items);
    if data.len() == capacity || items.len() == 0 {
        assert(items.skip(0) =~= items);
        assert(data + items.take(0) =~= data);
    } else {
        let rest = items.drop_first();
        let more = data.push(items[0]);
        law_read_fills(rest, more, capacity);
        assert(rest.skip(n - 1) =~= items.skip(n));
        assert(more + rest.take(n - 1) =~= data + items.take(n));
    }
}

/// Popping until the buffer is empty hands out all items in it, oldest first, however many
/// more times it is tried.
pub proof fn law_iteration<T>(items: Seq<T>, tries: nat)
    requires
        tries >= items.len(),
    ensures
        popped_all(items, Seq::<T>::empty(), tries) == (items, Seq::<T>::empty()),
{
    law_read_is_pops(items, Seq::<T>::empty(), tries);
    let (longer, after) = delivered(items, Seq::<T>::empty(), tries as int);
    assert(longer =~= items);
    assert(after =~= Seq::<T>::empty());
}

} // verus!
