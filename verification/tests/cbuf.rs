use scbuf::cbuf::{new_pair, try_new_pair, Cbuf};
use scbuf::index::CapacityError;
use std::collections::VecDeque;
use std::sync::{Arc, Mutex};

#[test]
fn pair_moves_items_in_order() {
    let (mut writer, mut reader) = new_pair::<u32>(4);
    assert_eq!(reader.read(), None);
    for i in 0..4 {
        assert_eq!(writer.write(i), None);
    }
    assert_eq!(writer.write(4), Some(4));
    for i in 0..4 {
        assert_eq!(reader.read(), Some(i));
    }
    assert_eq!(reader.read(), None);
    assert_eq!(writer.write(5), None);
    assert_eq!(reader.read(), Some(5));
}

#[test]
fn pair_drops_what_is_left() {
    let item = Arc::new(());
    let (mut writer, reader) = new_pair::<Arc<()>>(2);
    assert!(writer.write(Arc::clone(&item)).is_none());
    assert!(writer.write(Arc::clone(&item)).is_none());
    drop(reader);
    assert_eq!(Arc::strong_count(&item), 3);
    drop(writer);
    assert_eq!(Arc::strong_count(&item), 1);
}

#[test]
fn pair_of_capacity_one() {
    let (mut writer, mut reader) = new_pair::<char>(1);
    for _ in 0..5 {
        assert_eq!(writer.write('x'), None);
        assert_eq!(writer.write('y'), Some('y'));
        assert_eq!(reader.read(), Some('x'));
        assert_eq!(reader.read(), None);
    }
}

#[test]
fn new_is_empty() {
    let mut cbuf: Cbuf<u8> = Cbuf::new(8);
    assert_eq!(cbuf.fill(), 0);
    assert_eq!(cbuf.space(), 8);
    assert_eq!(cbuf.pop(), None);
}

#[test]
fn fill_and_space_add_up() {
    let mut cbuf: Cbuf<u8> = Cbuf::new(2);
    assert_eq!(cbuf.push(1), None);
    assert_eq!((cbuf.fill(), cbuf.space()), (1, 1));
    assert_eq!(cbuf.push(2), None);
    assert_eq!((cbuf.fill(), cbuf.space()), (2, 0));
    assert_eq!(cbuf.push(3), Some(3));
    assert_eq!((cbuf.fill(), cbuf.space()), (2, 0));
    assert_eq!(cbuf.pop(), Some(1));
    assert_eq!((cbuf.fill(), cbuf.space()), (1, 1));
}

#[test]
fn push_then_pop() {
    let mut cbuf: Cbuf<&str> = Cbuf::new(1);
    assert_eq!(cbuf.push("data"), None);
    assert_eq!(cbuf.pop(), Some("data"));
    assert_eq!(cbuf.fill(), 0);
}

#[test]
fn write_then_read() {
    let mut cbuf: Cbuf<u8> = Cbuf::new(4);
    assert_eq!(cbuf.push(1), None);
    let mut data = vec![2, 3, 4].into_iter();
    cbuf.write(&mut data);
    assert_eq!(data.len(), 0);
    let mut out: Vec<u8> = Vec::new();
    cbuf.read(&mut out, 9);
    assert_eq!(out, [1, 2, 3, 4]);
    assert_eq!(cbuf.fill(), 0);
}

#[test]
fn write_is_pushing_one_by_one() {
    for held in 0..5usize {
        for len in 0..6usize {
            let mut batch: Cbuf<usize> = Cbuf::new(4);
            let mut single: Cbuf<usize> = Cbuf::new(4);
            for i in 0..held {
                batch.push(i);
                single.push(i);
            }
            let data: Vec<usize> = (10..10 + len).collect();
            let mut rest = data.clone().into_iter();
            batch.write(&mut rest);
            let mut left: VecDeque<usize> = data.into();
            while let Some(item) = left.pop_front() {
                if let Some(back) = single.push(item) {
                    left.push_front(back);
                    break;
                }
            }
            assert!(rest.eq(left.into_iter()));
            loop {
                let item = batch.pop();
                assert_eq!(item, single.pop());
                if item.is_none() {
                    break;
                }
            }
        }
    }
}

#[test]
fn read_is_popping_one_by_one() {
    for held in 0..5usize {
        for room in 0..6usize {
            let mut batch: Cbuf<usize> = Cbuf::new(4);
            let mut single: Cbuf<usize> = Cbuf::new(4);
            for i in 0..held {
                batch.push(i);
                single.push(i);
            }
            let mut data = vec![77];
            batch.read(&mut data, room);
            let mut expected = vec![77];
            for _ in 0..room {
                if let Some(item) = single.pop() {
                    expected.push(item);
                }
            }
            assert_eq!(data, expected);
            assert_eq!(batch.fill(), single.fill());
        }
    }
}

#[test]
fn behaves_like_a_bounded_queue() {
    let mut cbuf: Cbuf<u64> = Cbuf::new(8);
    let mut queue: VecDeque<u64> = VecDeque::new();
    let mut seed: u64 = 42;
    for step in 0..100_000u64 {
        seed = seed
            .wrapping_mul(6364136223846793005)
            .wrapping_add(1442695040888963407);
        let n = (seed >> 40) as usize % 6;
        match (seed >> 60) % 4 {
            0 => {
                let expected = if queue.len() < 8 {
                    queue.push_back(step);
                    None
                } else {
                    Some(step)
                };
                assert_eq!(cbuf.push(step), expected);
            }
            1 => assert_eq!(cbuf.pop(), queue.pop_front()),
            2 => {
                let data: Vec<u64> = (0..n as u64).map(|i| step * 10 + i).collect();
                let fit = data.len().min(8 - queue.len());
                queue.extend(&data[..fit]);
                let mut rest = data.clone().into_iter();
                cbuf.write(&mut rest);
                assert_eq!(rest.as_slice(), &data[fit..]);
            }
            _ => {
                let mut data = vec![0];
                cbuf.read(&mut data, n);
                let count = n.min(queue.len());
                let expected: Vec<u64> = queue.drain(..count).collect();
                assert_eq!(data[1..], expected[..]);
            }
        }
        assert_eq!(cbuf.fill(), queue.len());
        assert_eq!(cbuf.space(), 8 - queue.len());
    }
}

#[test]
fn clear_drops_all_items() {
    let item = Arc::new(1u8);
    let mut cbuf: Cbuf<Arc<u8>> = Cbuf::new(4);
    cbuf.push(Arc::clone(&item));
    cbuf.pop();
    for _ in 0..4 {
        assert!(cbuf.push(Arc::clone(&item)).is_none());
    }
    assert_eq!(Arc::strong_count(&item), 5);
    cbuf.clear();
    assert_eq!(Arc::strong_count(&item), 1);
    assert_eq!(cbuf.fill(), 0);
    assert!(cbuf.push(item).is_none());
}

/// Writes its number down when it is dropped.
struct Noted {
    number: usize,
    dropped: Arc<Mutex<Vec<usize>>>,
}

impl Drop for Noted {
    fn drop(&mut self) {
        self.dropped.lock().unwrap().push(self.number);
    }
}

#[test]
fn what_is_left_of_the_buffer_is_dropped_oldest_first() {
    let dropped = Arc::new(Mutex::new(Vec::new()));
    let noted = |number: usize| Noted {
        number,
        dropped: Arc::clone(&dropped),
    };
    let mut cbuf: Cbuf<Noted> = Cbuf::new(4);
    let (mut writer, mut reader) = new_pair::<Noted>(4);
    for number in 0..4 {
        assert!(cbuf.push(noted(number)).is_none());
        assert!(writer.write(noted(number + 100)).is_none());
    }
    for number in 4..7 {
        drop(cbuf.pop());
        assert!(cbuf.push(noted(number)).is_none());
        drop(reader.read());
        assert!(writer.write(noted(number + 100)).is_none());
    }
    assert_eq!(*dropped.lock().unwrap(), [0, 100, 1, 101, 2, 102]);
    dropped.lock().unwrap().clear();
    drop(cbuf);
    assert_eq!(*dropped.lock().unwrap(), [3, 4, 5, 6]);
    drop(reader);
    drop(writer);
    assert_eq!(*dropped.lock().unwrap(), [3, 4, 5, 6, 103, 104, 105, 106]);
}

#[test]
fn read_within_is_popping_until_full() {
    for held in 0..5usize {
        for capacity in 1..8usize {
            let mut batch: Cbuf<usize> = Cbuf::new(4);
            let mut single: Cbuf<usize> = Cbuf::new(4);
            for i in 0..held {
                batch.push(i);
                single.push(i);
            }
            let mut data = vec![77];
            batch.read_within(&mut data, capacity);
            let mut expected = vec![77];
            while expected.len() < capacity {
                match single.pop() {
                    Some(item) => expected.push(item),
                    None => break,
                }
            }
            assert_eq!(data, expected);
            assert_eq!(batch.fill(), single.fill());
            assert!(batch.fill() == 0 || data.len() == capacity);
        }
    }
}

#[test]
fn popping_hands_out_everything_and_then_nothing() {
    let mut cbuf: Cbuf<u8> = Cbuf::new(4);
    cbuf.write(&mut vec![1, 2, 3].into_iter());
    let mut out = Vec::new();
    for _ in 0..6 {
        out.extend(cbuf.pop());
    }
    assert_eq!(out, [1, 2, 3]);
}

#[test]
fn try_new_pair_says_why_not() {
    assert_eq!(
        try_new_pair::<u8>(6).err(),
        Some(CapacityError::NotPowerOfTwo)
    );
    assert_eq!(try_new_pair::<u8>(0).err(), Some(CapacityError::Zero));
    let (mut writer, mut reader) = try_new_pair::<u8>(2).unwrap();
    assert_eq!(writer.write(1), None);
    assert_eq!(reader.read(), Some(1));
}
