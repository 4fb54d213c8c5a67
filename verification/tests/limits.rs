use std::time::Duration;

use xero_service::headers::Headers;
use xero_service::rate_limit::{Admission, LimiterRegistry, TenantRateLimiter};
use xero_service::retry::{
    backoff_with_jitter, exp_backoff, is_transient_transport_err, retry_after_or_default,
    BASE_DELAY_MS, FALLBACK_RETRY_AFTER_SECS, MAX_DELAY_MS,
};


#[test]
fn registry_returns_same_arc_for_same_tenant() {
    let mut registry = LimiterRegistry::new();
    let a = registry.for_tenant("t1");
    let b = registry.for_tenant("t1");
    assert_eq!(a, b);
}

#[test]
fn registry_returns_distinct_for_different_tenants() {
    let mut registry = LimiterRegistry::new();
    let a = registry.for_tenant("t-a");
    let b = registry.for_tenant("t-b");
    assert_ne!(a, b);
}

#[test]
fn update_from_headers_parses_known_keys() {
    let mut lim = TenantRateLimiter::new("unit".into());
    let mut h = Headers::new();
    h.push("x-minlimit-remaining", Some("3".to_owned()));
    h.push("x-daylimit-remaining", Some("4990".to_owned()));
    h.push("x-appminlimit-remaining", Some("9".to_owned()));
    lim.update_from_headers(&h);
    let s = lim.state();
    assert_eq!(s.min_remaining, Some(3));
    assert_eq!(s.day_remaining, Some(4990));
    assert_eq!(s.app_min_remaining, Some(9));
}

#[test]
fn proactive_wait_kicks_in_below_threshold() {
    let mut lim = TenantRateLimiter::new("unit".into());
    let mut h = Headers::new();
    h.push("x-minlimit-remaining", Some("2".to_owned()));
    lim.update_from_headers(&h);
    assert!(lim.proactive_wait().is_some());
}

#[test]
fn proactive_wait_silent_above_threshold() {
    let mut lim = TenantRateLimiter::new("unit".into());
    let mut h = Headers::new();
    h.push("x-minlimit-remaining", Some("30".to_owned()));
    lim.update_from_headers(&h);
    assert!(lim.proactive_wait().is_none());
}


#[test]
fn exp_backoff_grows_then_caps() {
    let d0 = exp_backoff(0);
    let d1 = exp_backoff(1);
    let d_huge = exp_backoff(20);
    assert!(d0 >= BASE_DELAY_MS);
    assert!(d1 >= d0); // monotonic up to cap (modulo jitter)
    assert!(d_huge <= MAX_DELAY_MS + MAX_DELAY_MS / 4);
}

#[test]
fn retry_after_parses_seconds() {
    let mut h = Headers::new();
    h.push("retry-after", Some("17".to_owned()));
    assert_eq!(Duration::from_secs(retry_after_or_default(&h)), Duration::from_secs(17));
}

#[test]
fn retry_after_falls_back_on_missing_or_garbage() {
    let h = Headers::new();
    assert_eq!(
        Duration::from_secs(retry_after_or_default(&h)),
        Duration::from_secs(FALLBACK_RETRY_AFTER_SECS)
    );
    let mut h = Headers::new();
    h.push("retry-after", Some("nope".to_owned()));
    assert_eq!(
        Duration::from_secs(retry_after_or_default(&h)),
        Duration::from_secs(FALLBACK_RETRY_AFTER_SECS)
    );
}

#[test]
fn requests_in_flight_are_capped() {
    let mut lim = TenantRateLimiter::new("unit".into());
    for _ in 0..6 {
        assert_eq!(lim.acquire(false), Admission::Admitted);
    }
    assert_eq!(lim.acquire(true), Admission::WaitForSlot(50));
    assert_eq!(lim.in_flight(), 6);
    lim.release();
    assert_eq!(lim.acquire(false), Admission::Admitted);
    for _ in 0..9 {
        lim.release();
    }
    assert_eq!(lim.in_flight(), 0);
}

#[test]
fn low_quota_throttles_once() {
    let wait = |remaining: &str| {
        let mut lim = TenantRateLimiter::new("unit".into());
        let mut h = Headers::new();
        h.push("x-minlimit-remaining", Some(remaining.to_owned()));
        lim.update_from_headers(&h);
        lim.proactive_wait()
    };
    assert_eq!(wait("0"), Some(2000));
    assert_eq!(wait("1"), Some(750));
    assert_eq!(wait("5"), Some(150));
    assert_eq!(wait("6"), None);
    let mut lim = TenantRateLimiter::new("unit".into());
    let mut h = Headers::new();
    h.push("x-minlimit-remaining", Some("2".to_owned()));
    lim.update_from_headers(&h);
    assert_eq!(lim.acquire(false), Admission::Throttle(600));
    assert_eq!(lim.in_flight(), 0);
    assert_eq!(lim.acquire(true), Admission::Admitted);
}

#[test]
fn unreadable_headers_leave_the_quota_as_it_was() {
    let mut lim = TenantRateLimiter::new("unit".into());
    let mut h = Headers::new();
    h.push("x-minlimit-remaining", Some("7".to_owned()));
    h.push("x-minlimit-remaining", Some("8".to_owned()));
    h.push("x-daylimit-remaining", None);
    lim.update_from_headers(&h);
    assert_eq!(lim.state().min_remaining, Some(7));
    assert_eq!(lim.state().day_remaining, None);
    let mut h = Headers::new();
    h.push("x-minlimit-remaining", Some("4294967296".to_owned()));
    lim.update_from_headers(&h);
    assert_eq!(lim.state().min_remaining, Some(7));
}

#[test]
fn registry_hands_requests_to_the_tenants_limiter() {
    let mut registry = LimiterRegistry::new();
    let a = registry.for_tenant("a");
    let b = registry.for_tenant("b");
    assert_eq!(registry.acquire(a, false), Admission::Admitted);
    assert_eq!(registry.limiter(a).in_flight(), 1);
    assert_eq!(registry.limiter(b).in_flight(), 0);
    let mut h = Headers::new();
    h.push("x-appminlimit-remaining", Some("3".to_owned()));
    registry.update_from_headers(b, &h);
    assert_eq!(registry.limiter(b).state().app_min_remaining, Some(3));
    assert_eq!(registry.limiter(a).state().app_min_remaining, None);
    registry.release(a);
    assert_eq!(registry.limiter(a).in_flight(), 0);
    assert_eq!(registry.for_tenant("a"), a);
}

#[test]
fn backoff_is_the_delay_and_its_jitter() {
    assert_eq!(backoff_with_jitter(0, 124), 624);
    assert_eq!(backoff_with_jitter(5, 0), 16_000);
    assert_eq!(backoff_with_jitter(6, 7_499), 37_499);
    assert_eq!(backoff_with_jitter(u32::MAX, 0), 30_000);
    for _ in 0..50 {
        let ms = exp_backoff(2);
        assert!((2_000..2_500).contains(&ms));
    }
}

#[test]
fn transport_errors_are_classified() {
    assert!(is_transient_transport_err(true, false, false));
    assert!(is_transient_transport_err(false, true, false));
    assert!(is_transient_transport_err(false, false, true));
    assert!(!is_transient_transport_err(false, false, false));
}
