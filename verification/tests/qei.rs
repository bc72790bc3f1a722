use qei_oversize::QeiManager;
use qei_oversize::SamplingError;

#[test]
fn no_trap() {
    let mut qei = QeiManager::new();
    qei.update_unwrap(55);
    assert_eq!(qei.count(), 55)
}

#[test]
fn underflow() {
    let mut qei = QeiManager::new();
    qei.update_unwrap(5);
    qei.update_unwrap(65532);
    assert_eq!(qei.count(), -4); // -4, not -3
    let mut qei = QeiManager::new();
    qei.update_unwrap(5);
    qei.update_unwrap(65535);
    assert_eq!(qei.count(), -1);
}

#[test]
fn overflow() {
    let mut qei = QeiManager::new();
    qei.update_unwrap(65522);
    qei.update_unwrap(55);
    assert_eq!(qei.count(), 55_i64);
    let mut qei = QeiManager::new();
    qei.update_unwrap(65535);
    qei.update_unwrap(0);
    assert_eq!(qei.count(), 0);
    qei.update_unwrap(65535);
    qei.update_unwrap(1);
    assert_eq!(qei.count(), 1);
}

#[test]
fn middle_values() {
    let mut qei = QeiManager::new();
    qei.update_unwrap(13546);
    qei.update_unwrap(13500);
    qei.update_unwrap(15678);
    assert_eq!(qei.count(), 15678);
    let mut qei = QeiManager::new();
    qei.update_unwrap(16000);
    qei.update_unwrap(15000);
    assert_eq!(qei.count(), 15000);
}

#[test]
fn going_back() {
    let mut qei = QeiManager::new();
    qei.update_unwrap(65489);
    qei.update_unwrap(65000);
    assert_eq!(qei.count(), -536); // -536, not 535: 65000 - (-536) must give 0
    qei.update_unwrap(63000);
    assert_eq!(qei.count(), -2536); // likewise
    qei.update_unwrap(62999);
    assert_eq!(qei.count(), -2537); // likewise
}

#[test]
fn no_changes() {
    let mut qei = QeiManager::new();
    qei.update_unwrap(0);
    qei.update_unwrap(0);
    assert_eq!(qei.count(), 0);
}

#[test]
fn small_changes() {
    let mut qei = QeiManager::new();
    qei.update_unwrap(0);
    qei.update_unwrap(u16::MAX);
    assert_eq!(qei.count(), -1);
    let mut qei = QeiManager::new();
    qei.update_unwrap(u16::MAX);
    qei.update_unwrap(0);
    assert_eq!(qei.count(), 0);
    qei.update_unwrap(1);
    assert_eq!(qei.count(), 1);
    qei.update_unwrap(65535);
    assert_eq!(qei.count(), -1);
    qei.update_unwrap(65534);
    assert_eq!(qei.count(), -2);
}

#[test]
fn boundary_displacement_is_rejected() {
    let mut qei = QeiManager::new();
    let r = qei.sample(32768);
    assert!(matches!(r, Err(SamplingError::SampleTooFar)));
    assert_eq!(qei.count(), 0);
    // The stale reference value is kept, so disambiguation can be
    // retried with a closer sample on the next tick.
    let r = qei.sample(100);
    assert!(matches!(r, Ok(())));
    assert_eq!(qei.count(), 100);
    // The same boundary seen from a nonzero reference.
    let r = qei.sample(100 + 32768);
    assert!(matches!(r, Err(SamplingError::SampleTooFar)));
    assert_eq!(qei.count(), 100);
}

#[test]
fn repeated_sample_is_noop() {
    let mut qei = QeiManager::new();
    assert!(matches!(qei.sample(500), Ok(())));
    assert_eq!(qei.count(), 500);
    assert!(matches!(qei.sample(500), Ok(())));
    assert_eq!(qei.count(), 500);
}

#[test]
fn sample_unwrap_matches_sample() {
    let mut a = QeiManager::new();
    let mut b = QeiManager::new();
    a.sample_unwrap(65522);
    assert!(matches!(b.sample(65522), Ok(())));
    assert_eq!(a.count(), b.count());
    assert_eq!(a.count(), -14);
}

#[test]
fn reset_keeps_reference() {
    let mut qei = QeiManager::new();
    qei.update_unwrap(100);
    assert_eq!(qei.count(), 100);
    qei.reset();
    assert_eq!(qei.count(), 0);
    // No spurious jump: the next sample measures from the old reference.
    qei.update_unwrap(100);
    assert_eq!(qei.count(), 0);
    qei.update_unwrap(110);
    assert_eq!(qei.count(), 10);
}
