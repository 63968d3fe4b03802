use scbuf::memory::{Memory, Owned};

/// Drives the four steps of the two ends in a pseudo-random order.
fn run(cap: usize, mut seed: u64) {
    let mut mem: Owned<usize> = Owned::new(cap);
    let (mut sent, mut published) = (0usize, 0usize);
    let (mut received, mut released) = (0usize, 0usize);
    let mut steps = [0usize; 4];
    for _ in 0..2000 {
        seed = seed
            .wrapping_mul(6364136223846793005)
            .wrapping_add(1442695040888963407);
        match (seed >> 62) as usize {
            0 if sent < released + cap => {
                for q in released..published {
                    assert_ne!(sent % cap, q % cap);
                }
                mem.put(sent % cap, sent * 3);
                sent += 1;
                steps[0] += 1;
            }
            1 => {
                published = sent;
                mem.store_w(published);
                steps[1] += 1;
            }
            2 if received < published => {
                assert_eq!(mem.take(received % cap), Some(received * 3));
                received += 1;
                steps[2] += 1;
            }
            3 => {
                released = received;
                mem.store_r(released);
                steps[3] += 1;
            }
            _ => {}
        }
        assert_eq!(mem.load_w(), published);
        assert_eq!(mem.load_r(), released);
        assert!(sent - received <= cap);
    }
    for count in steps {
        assert!(count > 0);
    }
    mem.store_w(sent);
    while received < sent {
        assert_eq!(mem.take(received % cap), Some(received * 3));
        received += 1;
    }
}

#[test]
fn interleaved_steps_keep_the_order() {
    for cap in [1usize, 2, 4, 8] {
        for seed in 0..20u64 {
            run(cap, seed);
        }
    }
}

#[test]
fn an_unpublished_item_is_not_seen() {
    let mut mem: Owned<char> = Owned::new(2);
    mem.put(0, 'a');
    assert_eq!(mem.load_w(), 0);
    mem.store_w(1);
    assert_eq!(mem.load_w(), 1);
    assert_eq!(mem.take(0), Some('a'));
    assert_eq!(mem.load_r(), 0);
    mem.store_r(1);
    assert_eq!(mem.load_r(), 1);
}
