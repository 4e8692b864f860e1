use mini_tokio::delay::{Delay, Progress};
use mini_tokio::scheduler::{MiniTokio, TaskState, Turn};

#[test]
fn spawn_queues_in_order() {
    let mut s = MiniTokio::new();
    assert!(s.is_finished());
    assert_eq!(s.spawn(), 0);
    assert_eq!(s.spawn(), 1);
    assert_eq!(s.task_count(), 2);
    assert_eq!(s.pop_ready(), Some(0));
    assert!(s.is_resuming());
    assert_eq!(s.state(0), TaskState::Running);
    s.finish(0, true);
    assert_eq!(s.state(0), TaskState::Done);
    assert_eq!(s.pop_ready(), Some(1));
    s.finish(1, false);
    assert_eq!(s.state(1), TaskState::Idle);
    assert_eq!(s.pop_ready(), None);
    assert!(!s.is_finished());
}

#[test]
fn each_wake_queues_once() {
    let mut s = MiniTokio::new();
    let a = s.spawn();
    assert_eq!(s.pop_ready(), Some(a));
    s.finish(a, false);
    s.wake(a);
    s.wake(a);
    assert_eq!(s.pop_ready(), Some(a));
    s.finish(a, false);
    assert_eq!(s.pop_ready(), Some(a));
    s.finish(a, true);
    assert_eq!(s.pop_ready(), None);
    assert!(s.is_finished());
}

#[test]
fn wakes_of_finished_tasks_are_dropped() {
    let mut s = MiniTokio::new();
    let a = s.spawn();
    let b = s.spawn();
    assert_eq!(s.pop_ready(), Some(a));
    s.finish(a, true);
    s.wake(a);
    s.wake(a);
    assert_eq!(s.pop_ready(), Some(b));
    s.finish(b, true);
    s.wake(a);
    assert_eq!(s.pop_ready(), None);
    assert!(s.is_finished());
}

/// Runs delay tasks with the given targets on a simulated clock that jumps
/// to the earliest pending timer whenever the ready-queue is empty. Returns
/// the clock reading when the scheduler had nothing left to do, and how many
/// timers were started.
fn run_delays(targets: &[u64]) -> (u64, usize) {
    let mut s = MiniTokio::new();
    let mut delays = Vec::new();
    for &t in targets {
        let id = s.spawn();
        assert_eq!(id, delays.len());
        delays.push(Delay::new(t));
    }
    let mut now: u64 = 0;
    let mut timers: Vec<(u64, usize)> = Vec::new();
    let mut started = 0;
    loop {
        match s.next_turn() {
            Turn::Run(id) => {
                let p = delays[id].poll(now, id as u64);
                if p == Progress::Arm {
                    started += 1;
                    timers.push((now + delays[id].remaining(now), id));
                }
                s.finish(id, p == Progress::Ready);
            }
            Turn::Stop => return (now, started),
            Turn::Wait => {
                let k = (0..timers.len()).min_by_key(|&k| timers[k].0).unwrap();
                let (at, id) = timers.remove(k);
                now = now.max(at);
                let n = delays[id].notifier().unwrap();
                s.wake(n as usize);
            }
        }
    }
}

#[test]
fn single_delay_runs_until_its_target() {
    let (end, started) = run_delays(&[50]);
    assert!(end >= 50);
    assert_eq!(end, 50);
    assert_eq!(started, 1);
}

#[test]
fn ten_delays_run_until_the_last_target() {
    let targets: Vec<u64> = (0..10u64).map(|i| 10 * i).collect();
    let (end, started) = run_delays(&targets);
    assert_eq!(end, 90);
    assert_eq!(started, 9);
}

#[test]
fn next_turn_resumes_waits_and_stops() {
    let mut s = MiniTokio::new();
    assert_eq!(s.next_turn(), Turn::Stop);
    let a = s.spawn();
    assert_eq!(s.next_turn(), Turn::Run(a));
    s.finish(a, false);
    assert_eq!(s.next_turn(), Turn::Wait);
    s.wake(a);
    assert_eq!(s.next_turn(), Turn::Run(a));
    s.finish(a, true);
    assert_eq!(s.next_turn(), Turn::Stop);
}
