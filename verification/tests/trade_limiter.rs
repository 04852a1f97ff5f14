use sextant::trade_limiter::TradeLimiter;

#[test]
fn test_unlimited() {
    let mut limiter = TradeLimiter::new("test", 0);
    assert!(limiter.try_trade());
    limiter.record_fill();
    assert!(limiter.try_trade()); // still unlimited
}

#[test]
fn test_limited() {
    let mut limiter = TradeLimiter::new("test", 2);
    assert!(limiter.try_trade());
    limiter.record_fill();
    assert!(limiter.try_trade()); // 1/2
    limiter.record_fill();
    assert!(!limiter.try_trade()); // 2/2 — blocked
}

#[test]
fn limiter_counts_fills_and_keeps_cap() {
    let mut limiter = TradeLimiter::new("agent-7", 3);
    assert_eq!(limiter.trade_count(), 0);
    assert_eq!(limiter.max_trades(), 3);
    for expected in 1..=3u32 {
        assert!(limiter.try_trade());
        limiter.record_fill();
        assert_eq!(limiter.trade_count(), expected);
    }
    assert!(!limiter.try_trade());
    limiter.record_fill();
    assert!(!limiter.try_trade(), "a reached cap stays closed");
    assert_eq!(limiter.max_trades(), 3);
}

#[test]
fn every_fill_is_counted_and_the_cap_stays() {
    let mut l = TradeLimiter::new("agent", 2);
    let mut fills = 0u32;
    for step in 0..7 {
        let _ = l.try_trade();
        if step % 2 == 0 {
            l.record_fill();
            fills += 1;
        }
        assert_eq!(l.trade_count(), fills);
        assert_eq!(l.max_trades(), 2);
    }
    assert_eq!(fills, 4);
    assert!(!l.try_trade());
}
