use moltis::health::{
    restart_backoff_secs, should_track, should_untrack, RestartState, MAX_BACKOFF_SECS,
};

#[test]
fn test_backoff_growth_and_cap() {
    // Backoff: 5, 10, 20, 40, 80, 160, 300, 300, 300...
    let expected = [5, 10, 20, 40, 80, 160, 300, 300, 300];
    for (i, &want) in expected.iter().enumerate() {
        let backoff = restart_backoff_secs(i as u32);
        assert_eq!(backoff, want, "attempt {i}");
    }
}

#[test]
fn test_max_backoff_cap() {
    let backoff = restart_backoff_secs(10);
    assert_eq!(backoff, MAX_BACKOFF_SECS);
    assert_eq!(restart_backoff_secs(u32::MAX), MAX_BACKOFF_SECS);
}

#[test]
fn restart_state_flow() {
    let s = RestartState::start();
    assert_eq!(s.count, 0);
    assert!(s.retry_due(0));
    let f = s.failed(1000);
    assert_eq!(f.count, 1);
    assert_eq!(f.last_attempt, Some(1000));
    assert!(!f.retry_due(1009));
    assert!(f.retry_due(1010));
    assert!(!f.retry_due(999));
    let mut w = RestartState { count: 4, last_attempt: None };
    assert!(!w.warn_loudly());
    w = w.failed(1);
    assert!(w.warn_loudly());
    let top = RestartState { count: u32::MAX, last_attempt: None }.failed(5);
    assert_eq!(top.count, u32::MAX);
}

#[test]
fn tracking_decisions() {
    assert!(should_track(true, true, false, false));
    assert!(!should_track(true, false, false, false));
    assert!(!should_track(true, true, true, false));
    assert!(!should_track(true, true, false, true));
    assert!(should_untrack(false, false));
    assert!(should_untrack(true, true));
    assert!(!should_untrack(true, false));
}
