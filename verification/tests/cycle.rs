use sextant::cycle::CycleCooldown;

const SEC: u64 = 1_000_000_000;

#[test]
fn first_quote_starts_a_cycle_and_later_ones_wait() {
    let mut c = CycleCooldown::new(5);
    assert!(c.try_start(100 * SEC));
    assert_eq!(c.last_start_ns, Some(100 * SEC));
    assert!(!c.try_start(104 * SEC));
    assert!(!c.try_start(105 * SEC - 1));
    assert_eq!(c.last_start_ns, Some(100 * SEC));
    assert!(c.try_start(105 * SEC));
    assert_eq!(c.last_start_ns, Some(105 * SEC));
}

#[test]
fn zero_cooldown_never_waits() {
    let mut c = CycleCooldown::new(0);
    assert!(c.try_start(7));
    assert!(c.try_start(7));
    assert!(c.try_start(3));
}

#[test]
fn a_clock_behind_the_last_start_waits() {
    let mut c = CycleCooldown::new(1);
    assert!(c.try_start(50 * SEC));
    assert!(!c.try_start(10 * SEC));
}
