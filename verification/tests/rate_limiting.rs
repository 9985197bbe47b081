use kraken_trades::rate_limit::{Cost, RateLimit};

#[test]
fn cost_value_is_fixed() {
    assert_eq!(Cost::FillsWithLastFillTime.value(), 25);
}

#[test]
fn boundary_is_strict() {
    // Limit 100: three requests of cost 25 bring the total to 75; the next
    // would land exactly on the limit (75 + 25 is not < 100) and is rejected.
    let mut limiter = RateLimit::new(100, 10, 0);
    assert!(limiter.try_increment(Cost::FillsWithLastFillTime, 0));
    assert!(limiter.try_increment(Cost::FillsWithLastFillTime, 0));
    assert!(limiter.try_increment(Cost::FillsWithLastFillTime, 0));
    assert!(!limiter.try_increment(Cost::FillsWithLastFillTime, 0));

    // Limit 101: from the same total of 75, the same request stays strictly
    // below the limit and is accepted.
    let mut wider = RateLimit::new(101, 10, 0);
    assert!(wider.try_increment(Cost::FillsWithLastFillTime, 0));
    assert!(wider.try_increment(Cost::FillsWithLastFillTime, 0));
    assert!(wider.try_increment(Cost::FillsWithLastFillTime, 0));
    assert!(wider.try_increment(Cost::FillsWithLastFillTime, 0));
}

#[test]
fn rejection_leaves_total_unchanged() {
    let mut limiter = RateLimit::new(100, 10, 0);
    assert!(limiter.try_increment(Cost::FillsWithLastFillTime, 0));
    assert!(limiter.try_increment(Cost::FillsWithLastFillTime, 0));
    assert!(limiter.try_increment(Cost::FillsWithLastFillTime, 0));
    // Repeated rejected attempts never admit a request within the window.
    assert!(!limiter.try_increment(Cost::FillsWithLastFillTime, 5));
    assert!(!limiter.try_increment(Cost::FillsWithLastFillTime, 9));
}

#[test]
fn window_resets_after_interval() {
    let mut limiter = RateLimit::new(100, 10, 0);
    assert!(limiter.try_increment(Cost::FillsWithLastFillTime, 0));
    assert!(limiter.try_increment(Cost::FillsWithLastFillTime, 0));
    assert!(limiter.try_increment(Cost::FillsWithLastFillTime, 0));
    assert!(!limiter.try_increment(Cost::FillsWithLastFillTime, 0));
    // Exactly the interval elapsed: not yet expired (strictly more needed).
    assert!(!limiter.try_increment(Cost::FillsWithLastFillTime, 10));
    // Strictly more than the interval: the window resets and the
    // previously rejected request is accepted.
    assert!(limiter.try_increment(Cost::FillsWithLastFillTime, 11));
}

#[test]
fn reset_reopens_window_at_reset_time() {
    let mut limiter = RateLimit::new(51, 10, 0);
    assert!(limiter.try_increment(Cost::FillsWithLastFillTime, 0));
    assert!(limiter.try_increment(Cost::FillsWithLastFillTime, 0));
    assert!(!limiter.try_increment(Cost::FillsWithLastFillTime, 0));
    // Reset at 11; the new window starts there, so at 21 it has not expired
    // again and the accumulated cost of the reset window gates the call.
    assert!(limiter.try_increment(Cost::FillsWithLastFillTime, 11));
    assert!(limiter.try_increment(Cost::FillsWithLastFillTime, 21));
    assert!(!limiter.try_increment(Cost::FillsWithLastFillTime, 21));
}
