use bkrbk::sequencer::Counter;

#[test]
fn counts_up_and_wraps() {
    let mut c = Counter::new(3);
    assert_eq!(c.update(), 0);
    assert_eq!(c.update(), 1);
    assert_eq!(c.update(), 2);
    // the fourth call wraps to 0 without repeating the boundary
    assert_eq!(c.update(), 0);
    assert_eq!(c.update(), 1);
    assert_eq!(c.update(), 2);
    assert_eq!(c.update(), 0);
}

#[test]
fn periodic_with_period_count() {
    let count: usize = 5;
    let mut c = Counter::new(count);
    let mut first_cycle = Vec::new();
    for _ in 0..count {
        first_cycle.push(c.update());
    }
    assert_eq!(first_cycle, vec![0, 1, 2, 3, 4]);
    for k in 0..3 * count {
        assert_eq!(c.update(), k % count);
    }
}

#[test]
fn single_frame_repeats_zero() {
    let mut c = Counter::new(1);
    assert_eq!(c.update(), 0);
    assert_eq!(c.update(), 0);
    assert_eq!(c.update(), 0);
}
