use scbuf::index::CapacityError;
use scbuf::{new_scbuf, try_new_scbuf, ConsEnd, ProdEnd};
use std::num::Wrapping;
use std::sync::atomic::{AtomicBool, Ordering};
use std::sync::{Arc, Mutex};
use std::vec::Drain;

struct ReleaseEvent {
    flag: &'static AtomicBool,
}

impl Drop for ReleaseEvent {
    fn drop(&mut self) {
        self.flag.store(true, Ordering::Relaxed);
    }
}

struct AllocTracked {
    seq: Wrapping<usize>,
    _counter: Arc<ReleaseEvent>,
}

impl AllocTracked {
    fn check_seq(&self, last: &Self) {
        if (self.seq - last.seq).0 != 1usize {
            panic!(
                "expected seq {}, got {}",
                (last.seq + Wrapping(1)).0,
                self.seq.0
            );
        }
    }
}

/// Pops until the buffer is empty or `data` is full.
fn pop_reader(cbuf_reader: &mut ConsEnd<AllocTracked>, data: &mut Vec<AllocTracked>) {
    if data.capacity() == data.len() {
        return;
    }
    for item in cbuf_reader {
        data.push(item);

        if data.capacity() == data.len() {
            return;
        }
    }
}

/// Pushes until the buffer is full or `data` is empty; the refused item goes to `held`.
fn push_writer(
    cbuf_writer: &mut ProdEnd<AllocTracked>,
    data: &mut Drain<AllocTracked>,
    held: &mut Option<AllocTracked>,
) {
    loop {
        let item = match held.take() {
            Some(item) => item,
            None => match data.next() {
                Some(item) => item,
                None => return,
            },
        };
        *held = cbuf_writer.push(item);
        if held.is_some() {
            return;
        }
    }
}

fn batch_reader(cbuf_reader: &mut ConsEnd<AllocTracked>, data: &mut Vec<AllocTracked>) {
    cbuf_reader.read(data);
}

fn batch_writer(
    cbuf_writer: &mut ProdEnd<AllocTracked>,
    data: &mut Drain<AllocTracked>,
    _held: &mut Option<AllocTracked>,
) {
    cbuf_writer.write(data);
}

/// Lets the two ends take turns until everything is written and read.
fn run_test<R, W>(items_w: usize, items_r: usize, cap: usize, readf: R, writef: W)
where
    R: Fn(&mut ConsEnd<AllocTracked>, &mut Vec<AllocTracked>),
    W: Fn(&mut ProdEnd<AllocTracked>, &mut Drain<AllocTracked>, &mut Option<AllocTracked>),
{
    let (mut writer, mut reader) = new_scbuf::<AllocTracked>(cap);
    let rel_event: &'static AtomicBool =
        Box::leak(Box::<AtomicBool>::new(AtomicBool::new(false)));

    let counter = Arc::<ReleaseEvent>::new(ReleaseEvent { flag: rel_event });
    let mut data: Vec<AllocTracked> = Vec::with_capacity(items_w);
    for i in 0..items_w {
        data.push(AllocTracked {
            seq: Wrapping(i),
            _counter: Arc::clone(&counter),
        });
    }

    let mut received: Vec<AllocTracked> = Vec::with_capacity(items_r);
    {
        let mut data = data.drain(..);
        let mut held: Option<AllocTracked> = None;
        while data.len() > 0 || held.is_some() || received.len() < items_r {
            writef(&mut writer, &mut data, &mut held);
            readf(&mut reader, &mut received);
        }
    }
    assert_eq!(received.len(), items_r);

    let mut received = received.into_iter();
    if let Some(first) = received.next() {
        assert_eq!(first.seq, Wrapping(0));
        let mut last = first;
        for item in received {
            item.check_seq(&last);
            last = item;
        }
    }

    drop(counter);
    drop(writer);
    if items_w > items_r {
        // Items that are left inside live as long as one of the ends.
        assert!(!rel_event.load(Ordering::Relaxed));
    }
    drop(reader);

    if !rel_event.load(Ordering::Relaxed) {
        panic!("Not all items released!");
    }

    println!(
        "Passed test: written={:>10}, read={:>10}, buffer capacity={:>10}",
        items_w, items_r, cap
    );
}

const TEST_SET: [(usize, usize, usize); 8] = [
    (32, 0, 32),
    (1, 1, 1),
    (0, 0, 32),
    (1, 0, 1),
    (10_000_000, 10_000_000, 1),
    (10_000_000, 10_000_000, 4096),
    (10_004_000, 10_000_000, 4096),
    (4_001, 4_000, 4096),
];

#[test]
fn push_pop() {
    for (w, r, c) in TEST_SET {
        run_test(w, r, c, pop_reader, push_writer);
    }
}

#[test]
fn read_write() {
    for (w, r, c) in TEST_SET {
        run_test(w, r, c, batch_reader, batch_writer);
    }
}

#[test]
fn push_returns_the_item_when_full() {
    let (mut prod_ep, _cons_ep) = new_scbuf(1);
    assert_eq!(prod_ep.push('a'), None);
    assert_eq!(prod_ep.push('b'), Some('b'));
    assert_eq!(prod_ep.push('c'), Some('c'));
}

#[test]
fn push_works_with_the_other_end_dropped() {
    let (mut prod_ep, _) = new_scbuf(1);
    assert_eq!(prod_ep.push('a'), None);
    assert_eq!(prod_ep.push('b'), Some('b'));
}

#[test]
fn pop_gives_what_was_pushed() {
    let (mut prod_ep, mut cons_ep) = new_scbuf(2);
    assert_eq!(cons_ep.pop(), None);
    prod_ep.push("data");
    assert_eq!(cons_ep.pop(), Some("data"));
    assert_eq!(cons_ep.pop(), None);
    assert_eq!(cons_ep.pop(), None);
    prod_ep.push("more");
    assert_eq!(cons_ep.pop(), Some("more"));
}

#[test]
fn pop_makes_space() {
    let (mut prod_ep, mut cons_ep) = new_scbuf(2);
    assert_eq!(prod_ep.push(1), None);
    assert_eq!(prod_ep.push(2), None);
    assert_eq!(prod_ep.push(3), Some(3));
    assert_eq!(cons_ep.pop(), Some(1));
    assert_eq!(prod_ep.push(3), None);
    assert_eq!(prod_ep.push(4), Some(4));
    assert_eq!(cons_ep.pop(), Some(2));
    assert_eq!(cons_ep.pop(), Some(3));
    assert_eq!(cons_ep.pop(), None);
}

#[test]
fn write_leaves_what_does_not_fit() {
    let (mut prod_ep, mut cons_ep) = new_scbuf(2);
    let mut data = vec!['a', 'b', 'c'];
    let mut drain = data.drain(..);

    prod_ep.write(&mut drain);
    assert_eq!(drain.next(), Some('c'));
    assert_eq!(drain.next(), None);
    drop(drain);
    assert_eq!(data, Vec::<char>::new());
    assert_eq!(cons_ep.pop(), Some('a'));
    assert_eq!(cons_ep.pop(), Some('b'));
    assert_eq!(cons_ep.pop(), None);
}

#[test]
fn write_into_a_full_buffer_moves_nothing() {
    let (mut prod_ep, _cons_ep) = new_scbuf(2);
    prod_ep.write(&mut vec![1, 2].into_iter());
    let mut data = vec![3, 4].into_iter();
    prod_ep.write(&mut data);
    assert_eq!(data.next(), Some(3));
}

#[test]
fn read_takes_as_much_as_there_is_space_for() {
    let (mut prod_ep, mut cons_ep) = new_scbuf(4);

    prod_ep.write(&mut vec![101, 102, 103].drain(..));

    let mut cons_buf = Vec::with_capacity(1);

    cons_ep.read(&mut cons_buf);
    assert_eq!(cons_buf, [101]);
    cons_ep.read(&mut cons_buf);
    assert_eq!(cons_buf, [101]);

    let mut cons_buf = Vec::with_capacity(2);

    cons_ep.read(&mut cons_buf);
    assert_eq!(cons_buf, [102, 103]);
}

#[test]
fn read_appends_and_does_not_grow_the_vector() {
    let (mut prod_ep, mut cons_ep) = new_scbuf(4);
    prod_ep.write(&mut vec![1u64, 2, 3, 4].drain(..));
    let mut data: Vec<u64> = Vec::with_capacity(3);
    data.push(9);
    let capacity = data.capacity();
    cons_ep.read(&mut data);
    assert_eq!(data, [9, 1, 2]);
    assert_eq!(data.capacity(), capacity);
    let mut rest: Vec<u64> = Vec::with_capacity(8);
    cons_ep.read(&mut rest);
    assert_eq!(rest, [3, 4]);
    cons_ep.read(&mut rest);
    assert_eq!(rest, [3, 4]);
}

#[test]
fn iterating_pops() {
    let (mut prod_ep, mut cons_ep) = new_scbuf(4);
    prod_ep.write(&mut vec![1, 2, 3].drain(..));
    assert_eq!(cons_ep.next(), Some(1));
    let rest: Vec<i32> = (&mut cons_ep).collect();
    assert_eq!(rest, [2, 3]);
    assert_eq!(cons_ep.next(), None);
    prod_ep.push(4);
    assert_eq!(cons_ep.next(), Some(4));
}

#[test]
fn batches_and_single_items_mix() {
    let (mut prod_ep, mut cons_ep) = new_scbuf(4);
    let mut next_in = 0usize;
    let mut next_out = 0usize;
    for round in 0..1000usize {
        let mut batch: Vec<usize> = (next_in..next_in + round % 4).collect();
        let mut drain = batch.drain(..);
        prod_ep.write(&mut drain);
        next_in += round % 4 - drain.len();
        if prod_ep.push(next_in).is_none() {
            next_in += 1;
        }
        let mut data: Vec<usize> = Vec::with_capacity(round % 3);
        cons_ep.read(&mut data);
        for item in data {
            assert_eq!(item, next_out);
            next_out += 1;
        }
        if let Some(item) = cons_ep.pop() {
            assert_eq!(item, next_out);
            next_out += 1;
        }
        assert!(next_in - next_out <= 4);
    }
    for item in &mut cons_ep {
        assert_eq!(item, next_out);
        next_out += 1;
    }
    assert_eq!(next_in, next_out);
    assert!(next_out > 1000);
}

fn sent_and_shared<X: Send + Sync>(_: &X) {}

#[test]
fn endpoints_can_be_sent_and_shared() {
    let (prod_ep, cons_ep) = new_scbuf::<String>(2);
    sent_and_shared(&prod_ep);
    sent_and_shared(&cons_ep);
}

#[test]
fn producers_can_share_an_endpoint() {
    let (prod_ep, mut cons_ep) = new_scbuf(2);

    let prod_ep1 = Arc::new(Mutex::new(prod_ep));
    let prod_ep2 = Arc::clone(&prod_ep1);
    assert_eq!(prod_ep1.lock().unwrap().push('a'), None);
    assert_eq!(prod_ep2.lock().unwrap().push('b'), None);

    let mut data = Vec::with_capacity(2);
    cons_ep.read(&mut data);
    assert_eq!(data, ['a', 'b']);
}

#[test]
fn dropping_both_endpoints_drops_what_is_left() {
    let item = Arc::new(7u8);
    let (mut prod_ep, mut cons_ep) = new_scbuf(4);
    for _ in 0..3 {
        assert!(prod_ep.push(Arc::clone(&item)).is_none());
    }
    assert_eq!(Arc::strong_count(&item), 4);
    assert!(cons_ep.pop().is_some());
    assert_eq!(Arc::strong_count(&item), 3);
    drop(cons_ep);
    assert_eq!(Arc::strong_count(&item), 3);
    drop(prod_ep);
    assert_eq!(Arc::strong_count(&item), 1);
}

/// Writes its number down when it is dropped.
struct Noted {
    number: usize,
    dropped: Arc<Mutex<Vec<usize>>>,
}

impl Drop for Noted {
    fn drop(&mut self) {
        self.dropped.lock().unwrap().push(self.number);
    }
}

#[test]
fn what_is_left_is_dropped_oldest_first() {
    for (written, read) in [(0usize, 0usize), (3, 0), (4, 3), (5, 3), (6, 2), (9, 6), (11, 11)] {
        let dropped = Arc::new(Mutex::new(Vec::new()));
        let (mut prod_ep, mut cons_ep) = new_scbuf::<Noted>(4);
        let mut out = 0;
        for number in 0..written {
            let item = Noted {
                number,
                dropped: Arc::clone(&dropped),
            };
            if number - out == 4 || out + 1 < read {
                if let Some(item) = cons_ep.pop() {
                    assert_eq!(item.number, out);
                    out += 1;
                }
            }
            assert!(prod_ep.push(item).is_none());
        }
        while out < read {
            assert_eq!(cons_ep.pop().map(|item| item.number), Some(out));
            out += 1;
        }
        drop(prod_ep);
        drop(cons_ep);
        let expected: Vec<usize> = (0..written).collect();
        assert_eq!(*dropped.lock().unwrap(), expected);
    }
}

#[test]
fn read_counts_capacity_minus_length() {
    let (mut prod_ep, mut cons_ep) = new_scbuf::<i32>(4);
    prod_ep.write(&mut vec![1, 2, 3, 4].drain(..));
    let mut data = Vec::with_capacity(3);
    data.push(9);
    cons_ep.read(&mut data);
    assert_eq!(data, [9, 1, 2]);
    assert_eq!(cons_ep.pop(), Some(3));
}

#[test]
fn read_within_stops_at_the_given_capacity() {
    let (mut prod_ep, mut cons_ep) = new_scbuf::<i32>(4);
    prod_ep.write(&mut vec![1, 2, 3, 4].drain(..));
    let mut data = vec![9];
    cons_ep.read_within(&mut data, 1);
    assert_eq!(data, [9]);
    cons_ep.read_within(&mut data, 3);
    assert_eq!(data, [9, 1, 2]);
    cons_ep.read_within(&mut data, 10);
    assert_eq!(data, [9, 1, 2, 3, 4]);
    cons_ep.read_within(&mut data, 10);
    assert_eq!(data, [9, 1, 2, 3, 4]);
}

#[test]
fn try_new_says_why_not() {
    assert_eq!(
        try_new_scbuf::<char>(3).err(),
        Some(CapacityError::NotPowerOfTwo)
    );
    assert_eq!(try_new_scbuf::<char>(0).err(), Some(CapacityError::Zero));
    assert_eq!(
        try_new_scbuf::<()>(2).err(),
        Some(CapacityError::ZeroSizedItem)
    );
    assert_eq!(
        try_new_scbuf::<char>(usize::MAX / 2 + 1).err(),
        Some(CapacityError::TooLarge)
    );
    let (mut prod_ep, mut cons_ep) = try_new_scbuf(1).unwrap();
    assert_eq!(prod_ep.push('a'), None);
    assert_eq!(prod_ep.push('b'), Some('b'));
    assert_eq!(cons_ep.pop(), Some('a'));
}

#[test]
fn two_buffers_share_nothing() {
    let (mut prod_ep1, mut cons_ep1) = new_scbuf(2);
    let (mut prod_ep2, mut cons_ep2) = new_scbuf(2);
    assert_eq!(prod_ep1.push(1), None);
    assert_eq!(cons_ep2.pop(), None);
    assert_eq!(prod_ep2.push(2), None);
    assert_eq!(prod_ep2.push(3), None);
    assert_eq!(prod_ep1.push(4), None);
    assert_eq!(cons_ep1.pop(), Some(1));
    assert_eq!(cons_ep1.pop(), Some(4));
    assert_eq!(cons_ep1.pop(), None);
    assert_eq!(cons_ep2.pop(), Some(2));
}

#[test]
fn write_takes_from_any_iterator() {
    let (mut prod_ep, mut cons_ep) = new_scbuf(4);
    let mut numbers = 5usize..;
    prod_ep.write(&mut numbers);
    assert_eq!(numbers.next(), Some(9));
    let rest: Vec<usize> = (&mut cons_ep).collect();
    assert_eq!(rest, [5, 6, 7, 8]);
}
