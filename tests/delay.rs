use mini_tokio::delay::{Delay, Progress};

#[test]
fn past_deadline_completes_on_first_poll() {
    let mut d = Delay::new(100);
    assert_eq!(d.poll(100, 7), Progress::Ready);
    assert!(d.is_complete());
    assert_eq!(d.notifier(), None);

    let mut e = Delay::new(0);
    assert_eq!(e.poll(5, 1), Progress::Ready);
    assert_eq!(e.notifier(), None);
}

#[test]
fn future_deadline_arms_once() {
    let mut d = Delay::new(100);
    assert_eq!(d.poll(10, 1), Progress::Arm);
    assert_eq!(d.poll(20, 1), Progress::Wait);
    assert_eq!(d.poll(30, 1), Progress::Wait);
    assert_eq!(d.poll(40, 2), Progress::Refresh);
    assert!(!d.is_complete());
    assert_eq!(d.poll(100, 2), Progress::Ready);
    assert!(d.is_complete());
}

#[test]
fn complete_is_idempotent() {
    let mut d = Delay::new(50);
    assert_eq!(d.poll(10, 1), Progress::Arm);
    assert_eq!(d.poll(60, 1), Progress::Ready);
    assert_eq!(d.notifier(), Some(1));
    for k in 0..5u64 {
        assert_eq!(d.poll(70 + k, 9 + k), Progress::Ready);
        assert_eq!(d.notifier(), Some(1));
        assert!(d.is_complete());
    }
    assert_eq!(d.poll(0, 3), Progress::Ready);
}

#[test]
fn latest_notifier_is_the_one_fired() {
    let mut d = Delay::new(1_000);
    assert_eq!(d.poll(1, 11), Progress::Arm);
    assert_eq!(d.poll(2, 22), Progress::Refresh);
    assert_eq!(d.notifier(), Some(22));
}

#[test]
fn remaining_is_clamped_at_zero() {
    let d = Delay::new(100);
    assert_eq!(d.when(), 100);
    assert_eq!(d.remaining(40), 60);
    assert_eq!(d.remaining(100), 0);
    assert_eq!(d.remaining(250), 0);
}

#[test]
fn ready_only_at_or_after_target() {
    let mut d = Delay::new(u64::MAX);
    assert_eq!(d.poll(u64::MAX - 1, 0), Progress::Arm);
    assert_eq!(d.poll(u64::MAX, 0), Progress::Ready);
}
