use resyn::ring::SampleRing;

#[test]
fn new_ring_is_empty() {
    let ring = SampleRing::new(8);
    assert_eq!(ring.max_len(), 8);
    assert_eq!(ring.len(), 0);
    assert_eq!(ring.vacant(), 8);
    assert!(ring.is_empty());
    assert!(!ring.is_full());
}

#[test]
fn drain_returns_what_was_written_in_order() {
    let mut ring = SampleRing::new(8);
    assert!(ring.write(&[1, 2, 3]));
    assert!(ring.write(&[4, 5]));
    assert_eq!(ring.len(), 5);
    assert_eq!(ring.vacant(), 3);
    assert_eq!(ring.drain(), vec![1, 2, 3, 4, 5]);
    assert!(ring.is_empty());
    assert_eq!(ring.drain(), Vec::<i16>::new());
}

#[test]
fn write_to_a_full_ring_is_dropped() {
    let mut ring = SampleRing::new(4);
    assert!(ring.write(&[1, 2, 3, 4]));
    assert!(ring.is_full());
    assert!(!ring.write(&[5]));
    assert_eq!(ring.len(), 4);
    assert_eq!(ring.drain(), vec![1, 2, 3, 4]);
}

#[test]
fn write_that_does_not_fit_is_dropped_whole() {
    let mut ring = SampleRing::new(4);
    assert!(ring.write(&[1, 2, 3]));
    assert!(!ring.write(&[4, 5]));
    assert_eq!(ring.len(), 3);
    assert!(ring.write(&[6]));
    assert_eq!(ring.drain(), vec![1, 2, 3, 6]);
}

#[test]
fn empty_write_always_fits() {
    let mut ring = SampleRing::new(2);
    assert!(ring.write(&[1, 2]));
    assert!(ring.write(&[]));
    assert_eq!(ring.drain(), vec![1, 2]);
    let mut none = SampleRing::new(0);
    assert!(none.write(&[]));
    assert!(!none.write(&[1]));
    assert!(none.is_full());
    assert_eq!(none.drain(), Vec::<i16>::new());
}

#[test]
fn ring_is_usable_again_after_a_drain() {
    let mut ring = SampleRing::new(5);
    let mut round: i16 = 0;
    while round < 7 {
        assert!(ring.write(&[round, round + 1, round + 2]));
        assert!(!ring.write(&[0, 0, 0]));
        assert!(ring.write(&[round + 3, round + 4]));
        assert!(ring.is_full());
        assert_eq!(ring.drain(), vec![round, round + 1, round + 2, round + 3, round + 4]);
        round += 1;
    }
}

#[test]
fn ring_wraps_around_its_storage() {
    let mut ring = SampleRing::new(5);
    let mut next: i16 = 0;
    let mut round: usize = 0;
    while round < 11 {
        assert!(ring.write(&[next, next + 1]));
        assert!(ring.write(&[next + 2]));
        assert_eq!(ring.len(), 3);
        assert_eq!(ring.vacant(), 2);
        assert!(!ring.write(&[-1, -1, -1]));
        assert_eq!(ring.drain(), vec![next, next + 1, next + 2]);
        assert!(ring.is_empty());
        assert_eq!(ring.max_len(), 5);
        next += 3;
        round += 1;
    }
    assert!(ring.write(&[1, 2, 3, 4, 5]));
    assert!(ring.is_full());
    assert_eq!(ring.drain(), vec![1, 2, 3, 4, 5]);
}
