use downloader::rate_limiter::RateLimiter;

#[test]
fn unlimited_rate_always_grants() {
    let mut limiter = RateLimiter::new(0);
    assert!(limiter.is_unlimited());
    assert!(limiter.try_acquire(u64::MAX));
    assert!(limiter.try_acquire(1));
}

#[test]
fn bucket_starts_full_and_deducts() {
    // 1 MiB/s: the initial burst budget is one second's worth
    let mut limiter = RateLimiter::new(1048576);
    assert!(!limiter.is_unlimited());
    assert!(limiter.try_acquire(1048576));
    assert!(!limiter.try_acquire(1));
}

#[test]
fn refill_accrues_and_caps() {
    let mut limiter = RateLimiter::new(1000);
    assert!(limiter.try_acquire(1000));
    limiter.refill(500);
    assert!(limiter.try_acquire(500));
    assert!(!limiter.try_acquire(1));
    // a long pause still leaves only one second's budget
    limiter.refill(60_000);
    assert!(limiter.try_acquire(1000));
    assert!(!limiter.try_acquire(1));
}

#[test]
fn four_megabytes_take_three_more_seconds() {
    // at 1 MiB/s, 4 MiB need the initial burst plus three seconds of refill
    let chunk: u64 = 1048576;
    let mut limiter = RateLimiter::new(chunk);
    let mut refills: u32 = 0;
    let mut transferred: u64 = 0;
    while transferred < 4 * chunk {
        if limiter.try_acquire(chunk) {
            transferred += chunk;
        } else {
            limiter.refill(1000);
            refills += 1;
        }
    }
    assert_eq!(transferred, 4 * chunk);
    assert_eq!(refills, 3);
}

#[test]
fn wait_hint_is_capped() {
    let mut limiter = RateLimiter::new(1000);
    assert!(limiter.try_acquire(1000));
    // 500 missing tokens at 1000/s: 500 ms, capped to 100
    assert_eq!(limiter.wait_hint_millis(500), 100);
    limiter.refill(450);
    // 50 missing tokens: 50 ms, under the cap
    assert_eq!(limiter.wait_hint_millis(500), 50);
}
