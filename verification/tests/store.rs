use toy_web_counter::store::Counter;

#[test]
fn a_new_counter_is_at_zero() {
    assert_eq!(Counter::new().read(), 0);
}

#[test]
fn reading_changes_nothing() {
    let mut counter = Counter::new();
    assert_eq!(counter.increment_by(7), Some(7));
    assert_eq!(counter.read(), 7);
    assert_eq!(counter.read(), 7);
}

#[test]
fn increment_by_adds_and_returns_the_new_count() {
    let mut counter = Counter::new();
    assert_eq!(counter.increment_by(5), Some(5));
    assert_eq!(counter.increment_by(3), Some(8));
    assert_eq!(counter.increment_by(0), Some(8));
    assert_eq!(counter.read(), 8);
}

#[test]
fn the_count_may_reach_the_largest_number() {
    let mut counter = Counter::new();
    assert_eq!(counter.increment_by(usize::MAX), Some(usize::MAX));
    assert_eq!(counter.read(), usize::MAX);
    assert_eq!(counter.increment_by(0), Some(usize::MAX));
}

#[test]
fn a_sum_that_does_not_fit_fails_and_changes_nothing() {
    let mut counter = Counter::new();
    assert_eq!(counter.increment_by(usize::MAX - 1), Some(usize::MAX - 1));
    assert_eq!(counter.increment_by(2), None);
    assert_eq!(counter.read(), usize::MAX - 1);
    assert_eq!(counter.increment_by(usize::MAX), None);
    assert_eq!(counter.read(), usize::MAX - 1);
    assert_eq!(counter.increment_by(1), Some(usize::MAX));
    assert_eq!(counter.increment_by(1), None);
    assert_eq!(counter.read(), usize::MAX);
}

#[test]
fn the_count_never_falls() {
    let mut counter = Counter::new();
    let mut before = counter.read();
    for diff in [0usize, 1, 5, usize::MAX, 3, usize::MAX / 2, usize::MAX / 2, 9] {
        counter.increment_by(diff);
        assert!(counter.read() >= before);
        before = counter.read();
    }
}
