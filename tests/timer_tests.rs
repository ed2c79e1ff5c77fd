use tokio_timer::{build, new, next_duration, secs_bounds, subsec_bounds, Duration, Instant, Interval, Poll, Request, TaskId, Timer, TimerError, Token, DEFAULT_CHANNEL_CAPACITY, NANOS_PER_SEC};

fn at(nanos: u64) -> Instant {
    Instant::from_nanos(nanos)
}

fn task(id: u64) -> TaskId {
    TaskId { id }
}

#[test]
fn next_duration_stays_in_range() {
    let min = Duration::new(1, 250_000_000);
    let max = Duration::new(4, 100_000_000);
    for _ in 0..1000 {
        let d = next_duration(min, max);
        assert!(d.subsec_nanos() < NANOS_PER_SEC);
        let total = d.as_nanos().unwrap();
        assert!(total >= min.as_nanos().unwrap());
        assert!(total <= max.as_nanos().unwrap());
    }
}

#[test]
fn next_duration_degenerate_range_is_fixed() {
    let d = Duration::new(2, 500);
    for _ in 0..100 {
        assert_eq!(next_duration(d, d), d);
    }
}

#[test]
fn next_duration_equal_subsec_parts_keep_them() {
    let min = Duration::new(1, 700);
    let max = Duration::new(5, 700);
    for _ in 0..200 {
        let d = next_duration(min, max);
        assert_eq!(d.subsec_nanos(), 700);
        assert!(d.as_secs() >= 1 && d.as_secs() <= 5);
    }
}

#[test]
fn next_duration_varies_over_wide_range() {
    let min = Duration::from_secs(0);
    let max = Duration::from_secs(1_000_000);
    let first = next_duration(min, max);
    let mut differs = false;
    for _ in 0..50 {
        if next_duration(min, max) != first {
            differs = true;
        }
    }
    assert!(differs);
}

#[test]
fn expired_timeout_is_ready_without_worker() {
    let mut timer = build(4);
    let mut t = timer.set_timeout(at(100));
    assert_eq!(t.poll(at(100), task(1), &mut timer), Poll::Ready);
    assert_eq!(timer.worker.len(), 0);
    let mut past = timer.set_timeout(at(5));
    assert_eq!(past.poll(at(50), task(1), &mut timer), Poll::Ready);
    assert_eq!(timer.worker.len(), 0);
    assert!(past.handle.is_none());
}

#[test]
fn first_poll_registers() {
    let mut timer = build(4);
    let mut t = timer.set_timeout(at(1_000));
    assert!(!t.is_expired(at(999)));
    assert!(t.is_expired(at(1_000)));
    assert_eq!(t.poll(at(10), task(7), &mut timer), Poll::Pending);
    assert_eq!(t.handle, Some((task(7), Token { id: 0 })));
    let sent = timer.worker.take_requests();
    assert_eq!(sent, vec![Request::Register { token: Token { id: 0 }, when: at(1_000), task: task(7) }]);
}

#[test]
fn same_task_repolls_register_once() {
    let mut timer = build(4);
    let mut t = timer.set_timeout(at(1_000));
    for now in 0..50u64 {
        assert_eq!(t.poll(at(now), task(3), &mut timer), Poll::Pending);
    }
    assert_eq!(timer.worker.len(), 1);
    assert_eq!(t.poll(at(1_000), task(3), &mut timer), Poll::Ready);
    assert_eq!(timer.worker.len(), 1);
}

#[test]
fn moved_task_issues_one_move() {
    let mut timer = build(4);
    let mut t = timer.set_timeout(at(1_000));
    assert_eq!(t.poll(at(1), task(1), &mut timer), Poll::Pending);
    assert_eq!(t.poll(at(2), task(2), &mut timer), Poll::Pending);
    assert_eq!(t.handle, Some((task(2), Token { id: 0 })));
    assert_eq!(t.poll(at(3), task(2), &mut timer), Poll::Pending);
    let sent = timer.worker.take_requests();
    assert_eq!(
        sent,
        vec![
            Request::Register { token: Token { id: 0 }, when: at(1_000), task: task(1) },
            Request::Move { token: Token { id: 0 }, when: at(1_000), task: task(2) },
        ]
    );
}

#[test]
fn cancel_of_registered_timeout_sends_one_cancel() {
    let mut timer = build(4);
    let mut t = timer.set_timeout(at(1_000));
    assert_eq!(t.poll(at(1), task(1), &mut timer), Poll::Pending);
    let _ = timer.worker.take_requests();
    t.cancel(&mut timer);
    assert_eq!(timer.worker.take_requests(), vec![Request::Cancel { token: Token { id: 0 }, when: at(1_000) }]);
}

#[test]
fn cancel_of_unregistered_timeout_sends_nothing() {
    let mut timer = build(4);
    let t = timer.set_timeout(at(1_000));
    t.cancel(&mut timer);
    assert_eq!(timer.worker.len(), 0);
}

#[test]
fn overload_on_first_poll_retries() {
    let mut timer = build(1);
    let mut other = timer.set_timeout(at(500));
    assert_eq!(other.poll(at(0), task(9), &mut timer), Poll::Pending);
    let mut t = timer.set_timeout(at(1_000));
    assert_eq!(t.poll(at(1), task(4), &mut timer), Poll::Retry(task(4)));
    assert!(t.handle.is_none());
    assert_eq!(timer.worker.len(), 1);
    let _ = timer.worker.take_requests();
    assert_eq!(t.poll(at(2), task(4), &mut timer), Poll::Pending);
    assert_eq!(t.handle, Some((task(4), Token { id: 1 })));
}

#[test]
fn overload_on_move_keeps_old_registration() {
    let mut timer = build(1);
    let mut t = timer.set_timeout(at(1_000));
    assert_eq!(t.poll(at(1), task(1), &mut timer), Poll::Pending);
    assert_eq!(t.poll(at(2), task(2), &mut timer), Poll::Retry(task(2)));
    assert_eq!(t.handle, Some((task(1), Token { id: 0 })));
    let _ = timer.worker.take_requests();
    assert_eq!(t.poll(at(3), task(2), &mut timer), Poll::Pending);
    assert_eq!(t.handle, Some((task(2), Token { id: 0 })));
}

#[test]
fn zero_capacity_always_retries() {
    let mut timer = build(0);
    let mut t = timer.set_timeout(at(10));
    assert_eq!(t.poll(at(0), task(1), &mut timer), Poll::Retry(task(1)));
    assert_eq!(t.poll(at(10), task(1), &mut timer), Poll::Ready);
}

#[test]
fn default_timer_has_baseline_capacity() {
    let timer = Timer::default();
    assert_eq!(timer.worker.capacity(), DEFAULT_CHANNEL_CAPACITY);
    assert_eq!(timer.worker.len(), 0);
}

fn fire_gaps(interval: &mut Interval, timer: &mut Timer, firings: usize) -> Vec<u64> {
    let mut gaps = Vec::new();
    let mut now = interval.sleep.when.nanos;
    for _ in 0..firings {
        assert_eq!(interval.poll(at(now), task(1), timer), Ok(Poll::Ready));
        let next = interval.sleep.when.nanos;
        gaps.push(next - now);
        assert_eq!(interval.poll(at(next - 1), task(1), timer), Ok(Poll::Pending));
        let _ = timer.worker.take_requests();
        now = next;
    }
    gaps
}

#[test]
fn interval_with_fixed_period_keeps_cadence() {
    let mut timer = build(8);
    let period = Duration::from_secs(2);
    let first = timer.set_timeout(at(1_000));
    let mut interval = new(first, period, period);
    let gaps = fire_gaps(&mut interval, &mut timer, 20);
    for gap in gaps {
        assert_eq!(gap, 2 * NANOS_PER_SEC as u64);
    }
}

#[test]
fn interval_gaps_lie_between_one_and_three_seconds() {
    let mut timer = build(8);
    let first = timer.set_timeout(at(0));
    let mut interval = new(first, Duration::from_secs(1), Duration::from_secs(3));
    let gaps = fire_gaps(&mut interval, &mut timer, 200);
    for gap in gaps {
        assert!(gap >= NANOS_PER_SEC as u64);
        assert!(gap <= 3 * NANOS_PER_SEC as u64);
    }
}

#[test]
fn interval_pending_before_deadline() {
    let mut timer = build(8);
    let first = timer.set_timeout(at(1_000));
    let mut interval = new(first, Duration::from_secs(1), Duration::from_secs(1));
    assert_eq!(interval.poll(at(10), task(5), &mut timer), Ok(Poll::Pending));
    assert_eq!(interval.sleep.when, at(1_000));
    assert_eq!(timer.worker.len(), 1);
}

#[test]
fn interval_firing_cancels_old_registration() {
    let mut timer = build(8);
    let first = timer.set_timeout(at(1_000));
    let mut interval = new(first, Duration::new(0, 500), Duration::new(0, 500));
    assert_eq!(interval.poll(at(10), task(5), &mut timer), Ok(Poll::Pending));
    assert_eq!(interval.poll(at(1_200), task(5), &mut timer), Ok(Poll::Ready));
    assert_eq!(interval.sleep.when, at(1_700));
    assert!(interval.sleep.handle.is_none());
    assert_eq!(
        timer.worker.take_requests(),
        vec![
            Request::Register { token: Token { id: 0 }, when: at(1_000), task: task(5) },
            Request::Cancel { token: Token { id: 0 }, when: at(1_000) },
        ]
    );
}

#[test]
fn interval_deadline_past_clock_is_too_long() {
    let mut timer = build(8);
    let first = timer.set_timeout(at(u64::MAX - 10));
    let mut interval = new(first, Duration::from_secs(1), Duration::from_secs(1));
    assert_eq!(interval.poll(at(u64::MAX - 5), task(1), &mut timer), Err(TimerError::TooLong));
    assert_eq!(interval.sleep.when, at(u64::MAX - 10));
}

#[test]
fn instant_checked_add() {
    assert_eq!(at(5).checked_add(Duration::new(1, 3)), Some(at(1_000_000_008)));
    assert_eq!(at(u64::MAX).checked_add(Duration::new(0, 1)), None);
    assert_eq!(at(0).checked_add(Duration::from_secs(u64::MAX)), None);
    assert_eq!(Duration::new(3, 7).as_nanos(), Some(3_000_000_007));
}

#[test]
fn next_duration_same_second_stays_below_max() {
    let min = Duration::new(1, 500_000_000);
    let max = Duration::new(1, 700_000_000);
    for _ in 0..1000 {
        let d = next_duration(min, max);
        assert_eq!(d.as_secs(), 1);
        assert!(d.subsec_nanos() >= 500_000_000 && d.subsec_nanos() <= 700_000_000);
    }
}

#[test]
fn next_duration_at_top_of_range() {
    let min = Duration::new(u64::MAX - 1, 900);
    let max = Duration::new(u64::MAX, 100);
    for _ in 0..200 {
        let d = next_duration(min, max);
        assert!(d.as_secs() >= u64::MAX - 1);
        if d.as_secs() == u64::MAX - 1 {
            assert!(d.subsec_nanos() >= 900 && d.subsec_nanos() < NANOS_PER_SEC);
        } else {
            assert!(d.subsec_nanos() <= 100);
        }
    }
    let whole = next_duration(Duration::from_secs(0), Duration::from_secs(u64::MAX));
    assert_eq!(whole.subsec_nanos(), 0);
}

#[test]
fn draw_bounds_are_exact() {
    let min = Duration::new(1, 250);
    let max = Duration::new(4, 100);
    assert_eq!(secs_bounds(min, max), Some((1, 4)));
    assert_eq!(secs_bounds(min, Duration::new(1, 900)), None);
    assert_eq!(subsec_bounds(min, max, 1), Some((250, 999_999_999)));
    assert_eq!(subsec_bounds(min, max, 4), Some((0, 100)));
    assert_eq!(subsec_bounds(min, max, 2), Some((0, 999_999_999)));
    assert_eq!(subsec_bounds(min, Duration::new(1, 900), 1), Some((250, 900)));
    assert_eq!(subsec_bounds(Duration::new(1, 7), Duration::new(3, 7), 2), None);
}
