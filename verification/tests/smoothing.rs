use qei_oversize::MovingAverageFilter;
use qei_oversize::RateEstimator;
use qei_oversize::Tachometer;

#[test]
fn constant_feed_reports_the_constant() {
    let mut f = MovingAverageFilter::new(4);
    for _ in 0..4 {
        assert_eq!(f.feed(7), 7);
    }
    assert_eq!(f.get(), 7);
    // Also once the window is full and evicting.
    assert_eq!(f.feed(7), 7);
}

#[test]
fn partial_window_averages_over_count_fed() {
    let mut f = MovingAverageFilter::new(4);
    assert_eq!(f.feed(6), 6);
    assert_eq!(f.feed(8), 7); // (6 + 8) / 2, not / 4
    assert_eq!(f.get(), 7);
}

#[test]
fn full_window_evicts_oldest() {
    let mut f = MovingAverageFilter::new(2);
    assert_eq!(f.feed(1), 1);
    assert_eq!(f.feed(3), 2);
    assert_eq!(f.feed(5), 4); // (3 + 5) / 2: the 1 is gone
}

#[test]
fn negative_average_rounds_toward_zero() {
    let mut f = MovingAverageFilter::new(2);
    assert_eq!(f.feed(-3), -3);
    assert_eq!(f.feed(-4), -3); // -7 / 2 rounds toward zero
}

#[test]
fn zero_displacement_gives_zero_rate() {
    let mut e = RateEstimator::new(1200);
    assert_eq!(e.update(0), 0);
    assert_eq!(e.update(5), 6000);
    assert_eq!(e.update(5), 0);
}

#[test]
fn backward_motion_gives_negative_rate() {
    let mut e = RateEstimator::new(1200);
    assert_eq!(e.update(10), 12000);
    assert_eq!(e.update(4), -7200);
}

#[test]
fn tick_sequence() {
    let mut t = Tachometer::new(3, 1200);
    assert_eq!(t.tick(100), (100, 120000));
    assert_eq!(t.tick(100), (100, 60000)); // (120000 + 0) / 2
    assert_eq!(t.tick(98), (98, 39200)); // (120000 + 0 - 2400) / 3
}

#[test]
fn tick_wraps_the_register() {
    let mut t = Tachometer::new(2, 1);
    assert_eq!(t.tick(65530), (-6, -6));
    assert_eq!(t.tick(4), (4, 2)); // (-6 + 10) / 2
}

#[test]
fn ambiguous_tick_holds_position() {
    let mut t = Tachometer::new(2, 1200);
    // Exactly half the register range: skipped, position unchanged, and
    // with no motion observed the rate fed this tick is zero.
    assert_eq!(t.tick(32768), (0, 0));
    // The next tick retries against the same reference.
    assert_eq!(t.tick(5), (5, 3000)); // (6000 + 0) / 2
}
