use sextant::strategy_lock::StrategyLock;

/// A staged mutation as the lock sees it: the hypothesis description.
fn make_hypo(description: &str) -> String {
    description.to_string()
}

#[test]
fn test_new_lock_is_unlocked() {
    let lock: StrategyLock<String> = StrategyLock::new();
    assert!(!lock.locked);
    assert!(lock.can_apply());
    assert!(lock.pending_mutation.is_none());
    assert!(!lock.urgent_alert);
}

#[test]
fn test_locked_factory() {
    let lock: StrategyLock<String> = StrategyLock::locked();
    assert!(lock.locked);
    assert!(!lock.can_apply());
}

#[test]
fn test_toggle() {
    let mut lock: StrategyLock<String> = StrategyLock::new();
    assert!(lock.toggle()); // now locked
    assert!(!lock.can_apply());
    assert!(!lock.toggle()); // now unlocked
    assert!(lock.can_apply());
}

#[test]
fn test_stage_normal_mutation() {
    let mut lock = StrategyLock::locked();
    let urgent = lock.stage_mutation(make_hypo("window=10"), false);
    assert!(!urgent);
    assert!(lock.pending_mutation.is_some());
    assert!(!lock.urgent_alert);
}

#[test]
fn test_stage_urgent_mutation() {
    let mut lock = StrategyLock::locked();
    let urgent = lock.stage_mutation(make_hypo("breakout"), true);
    assert!(urgent);
    assert!(lock.urgent_alert);
    assert_eq!(lock.pending_mutation.as_deref(), Some("breakout"));
}

#[test]
fn test_approve() {
    let mut lock = StrategyLock::locked();
    lock.stage_mutation(make_hypo("window=10"), false);

    let m = lock.approve();
    assert!(m.is_some());
    assert_eq!(m.unwrap(), "window=10");
    assert!(lock.pending_mutation.is_none());
    assert!(!lock.urgent_alert);
}

#[test]
fn test_reject() {
    let mut lock = StrategyLock::locked();
    lock.stage_mutation(make_hypo("window=10"), false);

    lock.reject();
    assert!(lock.pending_mutation.is_none());
    assert!(!lock.urgent_alert);
}

#[test]
fn test_acknowledge_alert() {
    let mut lock = StrategyLock::locked();
    lock.stage_mutation(make_hypo("breakout"), true);
    assert!(lock.urgent_alert);

    lock.acknowledge_alert();
    assert!(!lock.urgent_alert);
    // Mutation still pending
    assert!(lock.pending_mutation.is_some());
}

#[test]
fn test_stage_replaces_previous() {
    let mut lock = StrategyLock::locked();
    lock.stage_mutation(make_hypo("first"), false);
    lock.stage_mutation(make_hypo("second"), false);

    assert_eq!(lock.pending_mutation.as_deref(), Some("second"));
}

#[test]
fn test_default_is_unlocked() {
    let lock: StrategyLock<String> = StrategyLock::default();
    assert!(!lock.locked);
}

#[test]
fn urgent_alert_survives_a_later_normal_staging() {
    let mut lock = StrategyLock::locked();
    lock.stage_mutation(make_hypo("urgent"), true);
    lock.stage_mutation(make_hypo("calm"), false);
    assert!(lock.urgent_alert);
    assert_eq!(lock.approve().as_deref(), Some("calm"));
    assert!(!lock.urgent_alert);
    assert!(lock.approve().is_none());
}
