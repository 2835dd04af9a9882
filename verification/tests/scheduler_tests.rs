use thud_and_tile::scheduler::{DeterministicScheduler, Scheduler};
use thud_and_tile::test_time_provider::{ControllableTimeProvider, TimeProvider};

#[test]
fn test_deterministic_scheduler() {
    let mut scheduler = DeterministicScheduler::new();
    assert_eq!(scheduler.get_sleep_count(), 0);
    scheduler.sleep(100);
    assert_eq!(scheduler.get_sleep_count(), 1);
    scheduler.wait_for_next_frame();
    assert_eq!(scheduler.get_sleep_count(), 2);
    scheduler.reset_sleep_count();
    assert_eq!(scheduler.get_sleep_count(), 0);
}

#[test]
fn controllable_clock_moves_only_when_told() {
    let mut clock = ControllableTimeProvider::new();
    assert_eq!(clock.now(), 0);
    clock.advance(120);
    clock.advance(30);
    assert_eq!(clock.now(), 150);
    clock.set_time(7);
    assert_eq!(clock.now(), 7);
}

#[test]
fn waiting_for_a_frame_counts_one_request() {
    let mut scheduler = DeterministicScheduler::new();
    scheduler.wait_for_next_frame();
    scheduler.sleep(5);
    assert_eq!(scheduler.get_sleep_count(), 2);
}
