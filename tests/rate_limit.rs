use mmb_core::rate_limit::RequestsTimeoutManager;

#[test]
fn admits_up_to_limit_per_period() {
    let mut limiter = RequestsTimeoutManager::new(3, 100);
    assert_eq!(limiter.try_reserve(10), Ok(2));
    assert_eq!(limiter.try_reserve(20), Ok(1));
    assert_eq!(limiter.try_reserve(30), Ok(0));
    assert_eq!(limiter.try_reserve(40), Err(110));
    assert_eq!(limiter.try_reserve(109), Err(110));
    assert_eq!(limiter.try_reserve(110), Ok(0));
    assert_eq!(limiter.try_reserve(125), Ok(0));
    assert_eq!(limiter.try_reserve(126), Err(130));
}

#[test]
fn no_period_holds_more_than_limit() {
    let mut limiter = RequestsTimeoutManager::new(2, 50);
    let mut admitted: Vec<i64> = Vec::new();
    for t in 0..400i64 {
        if limiter.try_reserve(t * 7).is_ok() {
            admitted.push(t * 7);
        }
    }
    for i in 0..admitted.len() {
        if i + 2 < admitted.len() {
            assert!(admitted[i] + 50 <= admitted[i + 2]);
        }
    }
    assert!(admitted.len() > 10);
}

#[test]
fn clock_going_back_reads_as_latest() {
    let mut limiter = RequestsTimeoutManager::new(1, 100);
    assert_eq!(limiter.try_reserve(500), Ok(0));
    assert_eq!(limiter.try_reserve(100), Err(600));
    assert_eq!(limiter.limit(), 1);
    assert_eq!(limiter.period(), 100);
}

#[test]
fn extreme_times_do_not_overflow() {
    let mut limiter = RequestsTimeoutManager::new(1, i64::MAX);
    assert_eq!(limiter.try_reserve(i64::MAX), Ok(0));
    assert_eq!(limiter.try_reserve(i64::MAX), Err(i64::MAX as i128 * 2));
}

#[test]
fn available_on_counts_the_window() {
    let mut limiter = RequestsTimeoutManager::new(5, 1_000);
    assert_eq!(limiter.available_on(0), 5);
    for t in [0i64, 100, 200] {
        assert!(limiter.try_reserve(t).is_ok());
    }
    assert_eq!(limiter.available_on(200), 2);
    assert_eq!(limiter.available_on(1_000), 3);
    assert_eq!(limiter.available_on(1_150), 4);
    assert_eq!(limiter.available_on(5_000), 5);
    assert_eq!(limiter.available_on(50), 4);
}
