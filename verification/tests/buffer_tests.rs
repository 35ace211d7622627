use fas_rs::buffer::{Buffer, BufferWorkingState, FrameRate};
use fas_rs::config::TargetFps;
use fas_rs::frame_acc::Acc;

const MS: u64 = 1_000_000;

fn buffer(list: Vec<u32>) -> Buffer {
    Buffer::new(TargetFps::Array(list), 42, "com.game".to_string(), 0)
}

#[test]
fn new_buffer_is_empty_and_unusable() {
    let b = buffer(vec![30, 60]);
    assert_eq!(b.state.working_state, BufferWorkingState::Unusable);
    assert!(b.frametime_state.frametimes.is_empty());
    assert_eq!(b.target_fps_state.target_fps, None);
    assert_eq!(b.frametime_state.current_fps_long, FrameRate::Unmeasured);
}

#[test]
fn target_is_picked_at_first_calculation() {
    let mut b = buffer(vec![30, 60]);
    for i in 0..10u64 {
        assert_eq!(b.push_frametime(16_666_667, i * MS), None);
    }
    assert_eq!(b.frametime_state.frametimes.len(), 10);
    // 200 ms after creation the rates are computed: 60 fps is the target.
    let changed = b.push_frametime(16_666_667, 200 * MS);
    assert_eq!(changed, Some(60));
    assert_eq!(b.target_fps_state.target_fps, Some(60));
    assert_eq!(b.frametime_state.avg_time_long, 16_666_667);
    assert_eq!(b.frametime_state.current_fps_long, FrameRate::Period(16_666_667));
    // A new target drops the frame times and makes the buffer unusable.
    assert!(b.frametime_state.frametimes.is_empty());
    assert_eq!(b.state.working_state, BufferWorkingState::Unusable);
    assert_eq!(b.state.working_state_timer, 200 * MS);
}

#[test]
fn slow_frames_pick_the_lower_target() {
    let mut b = buffer(vec![30, 60]);
    for i in 0..5u64 {
        b.push_frametime(33_333_333, i * MS);
    }
    assert_eq!(b.push_frametime(33_333_333, 150 * MS), Some(30));
}

#[test]
fn too_slow_frames_pick_no_target() {
    let mut b = buffer(vec![30, 60]);
    b.push_frametime(100 * MS, 0);
    // 10 fps is below the floor of 20 fps.
    assert_eq!(b.push_frametime(100 * MS, 150 * MS), None);
    assert_eq!(b.target_fps_state.target_fps, None);
    assert!(b.frametime_state.frametimes.is_empty());
}

#[test]
fn fast_frames_pick_the_last_target() {
    let mut b = buffer(vec![30, 60]);
    b.push_frametime(5 * MS, 0);
    assert_eq!(b.push_frametime(5 * MS, 150 * MS), Some(60));
}

#[test]
fn frame_times_are_capped_and_newest_first() {
    let mut b = buffer(vec![60]);
    // Without a target at most 720 frame times are kept.
    for i in 0..800u64 {
        b.push_frametime(1_000 + i, 0);
    }
    assert_eq!(b.frametime_state.frametimes.len(), 720);
    assert_eq!(b.frametime_state.frametimes[0], 1_799);
    assert_eq!(b.frametime_state.frametimes[719], 1_080);
}

#[test]
fn buffer_becomes_usable_a_second_after_reset_when_full() {
    let mut b = buffer(vec![60]);
    for _ in 0..720u64 {
        b.push_frametime(MS, 0);
    }
    assert_eq!(b.state.working_state, BufferWorkingState::Unusable);
    b.try_usable(999 * MS);
    assert_eq!(b.state.working_state, BufferWorkingState::Unusable);
    b.try_usable(1_000 * MS);
    assert_eq!(b.state.working_state, BufferWorkingState::Usable);
    b.unusable(2_000 * MS);
    assert_eq!(b.state.working_state, BufferWorkingState::Unusable);
}

#[test]
fn additional_frametime_counts_time_since_last_frame() {
    let mut b = buffer(vec![60]);
    b.push_frametime(16 * MS, 10 * MS);
    b.additional_frametime(50 * MS);
    assert_eq!(b.frametime_state.additional_frametime, 40 * MS);
}

#[test]
fn push_checks() {
    let b = buffer(vec![60]);
    assert!(b.push_ok(u64::MAX, 0));
    assert!(b.additional_ok(0));
    assert!(b.average_ok_exec(10));
}

#[test]
fn accumulator() {
    let mut a = Acc::new();
    a.acc(1_500_000_000);
    a.acc(1_100_000_000);
    // 2.6 s less 2 s over two frames.
    assert_eq!(a.timeout_dur(), 300_000_000);
    a.reset();
    a.acc(500_000_000);
    assert_eq!(a.timeout_dur(), 0);
}
