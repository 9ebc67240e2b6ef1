use p2dux::{TimeTracker, frame_budget_ms, throttle_delay_ms};

#[test]
fn ms_since_is_the_gap_between_the_last_two_frames() {
    let t = TimeTracker {
        epoch: std::time::Instant::now(),
        last_time: 100,
        now_time: 150,
        next_fps_time: 1100,
        fps_ctr: 5,
        curr_fps: 7,
    };
    assert_eq!(t.get_ms_since(), 50);
    assert_eq!(t.get_curr_fps(), 7);
}

#[test]
fn record_frame_counts_within_the_second() {
    let mut t = TimeTracker {
        epoch: std::time::Instant::now(),
        last_time: 100,
        now_time: 150,
        next_fps_time: 1100,
        fps_ctr: 5,
        curr_fps: 7,
    };
    t.record_frame(200);
    assert_eq!(t.last_time, 150);
    assert_eq!(t.now_time, 200);
    assert_eq!(t.fps_ctr, 6);
    assert_eq!(t.curr_fps, 7);
    assert_eq!(t.next_fps_time, 1100);
}

#[test]
fn record_frame_publishes_the_count_each_second() {
    let mut t = TimeTracker {
        epoch: std::time::Instant::now(),
        last_time: 100,
        now_time: 150,
        next_fps_time: 1100,
        fps_ctr: 5,
        curr_fps: 7,
    };
    t.record_frame(1100);
    assert_eq!(t.curr_fps, 5);
    assert_eq!(t.fps_ctr, 0);
    assert_eq!(t.next_fps_time, 2100);
    assert_eq!(t.last_time, 150);
    assert_eq!(t.now_time, 1100);
}

#[test]
fn record_frame_never_runs_backwards() {
    let mut t = TimeTracker {
        epoch: std::time::Instant::now(),
        last_time: 100,
        now_time: 150,
        next_fps_time: 1100,
        fps_ctr: 0,
        curr_fps: 0,
    };
    t.record_frame(50);
    assert_eq!(t.last_time, 150);
    assert_eq!(t.now_time, 150);
    assert_eq!(t.get_ms_since(), 0);
}

#[test]
fn new_tracker_starts_with_a_zero_sample() {
    let t = TimeTracker::new();
    assert_eq!(t.curr_fps, 0);
    assert!(t.fps_ctr <= 1);
    assert!(t.last_time <= t.now_time);
}

#[test]
fn update_keeps_time_moving_forward() {
    let mut t = TimeTracker::new();
    t.update();
    t.update();
    assert!(t.last_time <= t.now_time);
}

#[test]
fn frame_budget_is_whole_milliseconds() {
    assert_eq!(frame_budget_ms(60), 16);
    assert_eq!(frame_budget_ms(1000), 1);
    assert_eq!(frame_budget_ms(1), 1000);
}

#[test]
fn throttle_sleeps_only_until_the_deadline() {
    assert_eq!(throttle_delay_ms(1000, 1010, 60), Some(6));
    assert_eq!(throttle_delay_ms(1000, 1016, 60), None);
    assert_eq!(throttle_delay_ms(1000, 2000, 60), None);
    assert_eq!(throttle_delay_ms(1000, 1000, 60), Some(16));
}
