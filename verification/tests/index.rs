use scbuf::index::{check_capacity, CapacityError};
use scbuf::memory::{turn, Memory, Owned};
use scbuf::ring::{Consumer, Producer};
use std::sync::Mutex;

#[test]
fn powers_of_two_are_supported() {
    let mut capacity: usize = 1;
    while capacity <= 1 << 40 {
        assert_eq!(check_capacity::<u8>(capacity), Ok(()));
        assert_eq!(check_capacity::<[u64; 4]>(capacity), Ok(()));
        capacity *= 2;
    }
}

#[test]
fn capacity_not_a_power_of_two() {
    for capacity in [3usize, 5, 6, 7, 9, 12, 1000, usize::MAX] {
        assert_eq!(
            check_capacity::<char>(capacity),
            Err(CapacityError::NotPowerOfTwo)
        );
    }
}

#[test]
fn capacity_zero() {
    assert_eq!(check_capacity::<char>(0), Err(CapacityError::Zero));
}

#[test]
fn zero_sized_items() {
    assert_eq!(check_capacity::<()>(2), Err(CapacityError::ZeroSizedItem));
    assert_eq!(check_capacity::<()>(3), Err(CapacityError::ZeroSizedItem));
    assert_eq!(check_capacity::<()>(0), Err(CapacityError::ZeroSizedItem));
}

/// The largest power of two of slots that an allocation can hold.
fn largest<T>() -> usize {
    let slots = usize::MAX / 2 / std::mem::size_of::<Mutex<Option<T>>>();
    1usize << (usize::BITS - 1 - slots.leading_zeros())
}

#[test]
fn storage_too_large() {
    let half = usize::MAX / 2 + 1;
    assert_eq!(check_capacity::<u8>(half), Err(CapacityError::TooLarge));
    assert_eq!(check_capacity::<u16>(half / 2), Err(CapacityError::TooLarge));
    assert_eq!(check_capacity::<u8>(largest::<u8>()), Ok(()));
    assert_eq!(
        check_capacity::<u8>(largest::<u8>() * 2),
        Err(CapacityError::TooLarge)
    );
    assert_eq!(check_capacity::<[u64; 9]>(largest::<[u64; 9]>()), Ok(()));
    assert_eq!(
        check_capacity::<[u64; 9]>(largest::<[u64; 9]>() * 2),
        Err(CapacityError::TooLarge)
    );
}

#[test]
fn producer_counts_what_is_in_flight() {
    let mut producer = Producer::new(2);
    let mut mem: Owned<char> = Owned::new(2);
    assert_eq!((producer.w_idx(), producer.space()), (0, 2));
    assert_eq!(producer.push(&mut mem, 'a'), None);
    assert_eq!((producer.w_idx(), producer.space()), (1, 1));
    assert_eq!(producer.push(&mut mem, 'b'), None);
    assert_eq!((producer.w_idx(), producer.space()), (2, 0));
    assert_eq!(producer.push(&mut mem, 'c'), Some('c'));
    assert_eq!(mem.load_w(), 2);
    producer.observe(1);
    assert_eq!(producer.space(), 1);
}

#[test]
fn producer_ignores_an_index_that_is_behind() {
    let mut producer = Producer::new(4);
    let mut mem: Owned<u8> = Owned::new(4);
    for i in 0..4 {
        assert_eq!(producer.push(&mut mem, i), None);
    }
    producer.observe(3);
    assert_eq!(producer.space(), 3);
    producer.observe(1);
    assert_eq!(producer.space(), 3);
    producer.observe(usize::MAX);
    assert_eq!(producer.space(), 3);
    producer.observe(4);
    assert_eq!(producer.space(), 4);
}

#[test]
fn consumer_counts_what_is_available() {
    let mut consumer = Consumer::new(4);
    assert_eq!((consumer.r_idx(), consumer.fill()), (0, 0));
    consumer.observe(3);
    assert_eq!(consumer.fill(), 3);
    consumer.observe(2);
    assert_eq!(consumer.fill(), 3);
    consumer.observe(5);
    assert_eq!(consumer.fill(), 3);
    consumer.observe(4);
    assert_eq!(consumer.fill(), 4);
}

#[test]
fn ends_follow_each_other_through_a_memory() {
    let mut mem: Owned<u8> = Owned::new(2);
    let mut producer = Producer::new(2);
    let mut consumer = Consumer::new(2);
    for i in 0..100u8 {
        assert_eq!(consumer.pop(&mut mem), None);
        assert_eq!(producer.push(&mut mem, i), None);
        assert_eq!(mem.load_w(), i as usize + 1);
        assert_eq!(mem.load_r(), i as usize);
        assert_eq!(consumer.pop(&mut mem), Some(i));
        assert_eq!(mem.load_r(), i as usize + 1);
    }
}

#[test]
fn consumer_counts_what_a_slot_was_found_to_hold() {
    let mut consumer = Consumer::new(4);
    consumer.observe(3);
    assert_eq!(consumer.accept(Some('a')), Some('a'));
    assert_eq!((consumer.r_idx(), consumer.fill()), (1, 2));
    assert_eq!(consumer.accept(None::<char>), None);
    assert_eq!((consumer.r_idx(), consumer.fill()), (1, 0));
}

#[test]
fn turning_brings_the_slot_of_an_index_to_the_front() {
    let mut row = vec!['a', 'b', 'c', 'd'];
    turn(&mut row, 3, 6);
    assert_eq!(row, ['c', 'd', 'a', 'b']);
    turn(&mut row, 3, 4);
    assert_eq!(row, ['c', 'd', 'a', 'b']);
    turn(&mut row, 3, usize::MAX);
    assert_eq!(row, ['b', 'c', 'd', 'a']);
}
