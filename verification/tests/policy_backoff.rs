use rama::{AcquireStep, Backoff, ConcurrentPolicy};

#[test]
fn backoff_delay_doubles_until_cap() {
    let b = Backoff::new(100, 2, 1000);
    assert_eq!(b.delay_ms(0), 100);
    assert_eq!(b.delay_ms(1), 200);
    assert_eq!(b.delay_ms(2), 400);
    assert_eq!(b.delay_ms(3), 800);
    assert_eq!(b.delay_ms(4), 1000);
    assert_eq!(b.delay_ms(5), 1000);
    assert_eq!(b.delay_ms(30), 1000);
}

#[test]
fn backoff_delay_is_monotone_and_capped() {
    let b = Backoff::exponential(7, 300);
    let mut prev = b.delay_ms(0);
    assert_eq!(prev, 7);
    for i in 1..40u32 {
        let d = b.delay_ms(i);
        assert!(d >= prev);
        assert!(d <= 300);
        prev = d;
    }
}

#[test]
fn backoff_base_above_cap_is_clipped() {
    let b = Backoff::new(5000, 2, 100);
    assert_eq!(b.delay_ms(0), 100);
    assert_eq!(b.delay_ms(1), 100);
}

#[test]
fn try_acquire_counts_up_to_max() {
    let mut p = ConcurrentPolicy::new(2);
    assert_eq!(p.in_flight(), 0);
    assert!(p.try_acquire());
    assert!(p.try_acquire());
    assert_eq!(p.in_flight(), 2);
    // saturated: a third slot is denied
    assert!(!p.try_acquire());
    assert_eq!(p.in_flight(), 2);
    p.release();
    assert_eq!(p.in_flight(), 1);
    assert!(p.try_acquire());
    assert_eq!(p.in_flight(), 2);
    p.release();
    p.release();
    assert_eq!(p.in_flight(), 0);
}

#[test]
fn acquire_poll_without_backoff_denies_at_once() {
    let mut p = ConcurrentPolicy::new(1);
    assert_eq!(p.acquire_poll(0, false, false), AcquireStep::Acquired);
    assert_eq!(p.acquire_poll(0, false, false), AcquireStep::Denied);
    assert_eq!(p.in_flight(), 1);
}

#[test]
fn acquire_poll_with_backoff_sleeps_then_acquires() {
    let b = Backoff::new(50, 2, 400);
    let mut p = ConcurrentPolicy::with_backoff(1, Some(b));
    assert_eq!(p.acquire_poll(0, false, false), AcquireStep::Acquired);
    assert_eq!(p.acquire_poll(0, false, false), AcquireStep::Sleep(50));
    assert_eq!(p.acquire_poll(1, false, false), AcquireStep::Sleep(100));
    p.release();
    assert_eq!(p.acquire_poll(2, false, false), AcquireStep::Acquired);
    assert_eq!(p.in_flight(), 1);
}

#[test]
fn acquire_poll_cancellation_wins_and_touches_nothing() {
    let b = Backoff::new(50, 2, 400);
    let mut p = ConcurrentPolicy::with_backoff(1, Some(b));
    assert_eq!(p.acquire_poll(0, true, false), AcquireStep::Cancelled);
    assert_eq!(p.in_flight(), 0);
}

#[test]
fn acquire_poll_deadline_expiry_denies() {
    let b = Backoff::new(50, 2, 400);
    let mut p = ConcurrentPolicy::with_backoff(1, Some(b));
    assert_eq!(p.acquire_poll(0, false, false), AcquireStep::Acquired);
    assert_eq!(p.acquire_poll(3, false, true), AcquireStep::Denied);
    assert_eq!(p.in_flight(), 1);
}
