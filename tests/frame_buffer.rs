use frame_buffer::buffer::{US_PER_MILLI_FPS};
use frame_buffer::sync::{SYNC_DISPLAY, SYNC_DROP, SYNC_WAIT};
use frame_buffer::{AVSync, BufferState, FrameBuffer, FrameInfo};

fn frame(i: u32, pts_us: i64) -> FrameInfo {
    FrameInfo::new(i, pts_us, 33_330, 1920, 1080, i, false)
}

#[test]
fn test_frame_buffer_push_and_get() {
    let mut buffer = FrameBuffer::new(10, 30_000);

    for i in 0..5u32 {
        let frame = FrameInfo::new(i, i as i64 * 33_330, 33_330, 1920, 1080, i, i == 0);
        buffer.push_frame(frame);
    }

    assert_eq!(buffer.get_stats().frame_count, 5);

    buffer.start_playback(0, 0);
    let frame = buffer.get_frame_for_time(50_000);
    assert!(frame.is_some());
    assert_eq!(frame.unwrap().frame_number, 1);
}

#[test]
fn test_buffer_states() {
    let mut buffer = FrameBuffer::new(10, 30_000);

    assert_eq!(buffer.get_stats().state, BufferState::Starving);

    for i in 0..3u32 {
        let frame = FrameInfo::new(i, i as i64 * 33_330, 33_330, 1920, 1080, i, false);
        buffer.push_frame(frame);
    }
    assert_eq!(buffer.get_stats().state, BufferState::Healthy);

    for i in 3..10u32 {
        let frame = FrameInfo::new(i, i as i64 * 33_330, 33_330, 1920, 1080, i, false);
        buffer.push_frame(frame);
    }
    assert_eq!(buffer.get_stats().state, BufferState::Full);
}

#[test]
fn test_av_sync() {
    let mut sync = AVSync::new(40);

    sync.set_audio_time(1000);
    sync.set_video_time(1000);
    assert!(sync.is_synced());
    assert_eq!(sync.get_sync_action(), 0);

    sync.set_video_time(1100);
    assert!(!sync.is_synced());
    assert_eq!(sync.get_sync_action(), 1);

    sync.set_video_time(900);
    assert!(!sync.is_synced());
    assert_eq!(sync.get_sync_action(), -1);
}

#[test]
fn take_counts_skipped_frames_as_dropped() {
    let mut buffer = FrameBuffer::new(10, 30_000);
    for i in 0..5u32 {
        buffer.push_frame(frame(i, i as i64 * 33_330));
    }
    buffer.start_playback(0, 0);
    let taken = buffer.get_frame_for_time(50_000).unwrap();
    assert_eq!(taken.frame_number, 1);
    let stats = buffer.get_stats();
    assert_eq!(stats.frames_dropped, 1);
    assert_eq!(stats.frames_displayed, 1);
    assert_eq!(stats.frames_decoded, 5);
    assert_eq!(stats.frame_count, 3);
    assert_eq!(buffer.get_earliest_frame(), Some(2));
}

#[test]
fn take_before_first_frame_returns_nothing() {
    let mut buffer = FrameBuffer::new(10, 30_000);
    assert!(buffer.get_frame_for_time(0).is_none());
    buffer.push_frame(frame(0, 100_000));
    assert!(buffer.get_frame_for_time(99_999).is_none());
    assert_eq!(buffer.get_stats().frame_count, 1);
    assert_eq!(buffer.get_frame_for_time(100_000).unwrap().frame_number, 0);
}

#[test]
fn take_prefers_first_of_equal_times() {
    let mut buffer = FrameBuffer::new(10, 30_000);
    buffer.push_frame(frame(7, 1_000));
    buffer.push_frame(frame(8, 1_000));
    let taken = buffer.get_frame_for_time(5_000).unwrap();
    assert_eq!(taken.frame_number, 7);
    assert_eq!(buffer.get_stats().frames_dropped, 0);
    assert_eq!(buffer.get_earliest_frame(), Some(8));
}

#[test]
fn repeated_frame_is_suppressed_until_playback_restarts() {
    let mut buffer = FrameBuffer::new(10, 30_000);
    buffer.push_frame(frame(1, 0));
    assert_eq!(buffer.get_frame_for_time(10).unwrap().frame_number, 1);
    buffer.push_frame(frame(1, 20));
    assert!(buffer.get_frame_for_time(30).is_none());
    assert_eq!(buffer.get_stats().frame_count, 1);
    assert_eq!(buffer.get_stats().frames_displayed, 1);
    buffer.start_playback(1, 0);
    assert_eq!(buffer.get_frame_for_time(30).unwrap().frame_number, 1);
    assert_eq!(buffer.get_stats().frame_count, 0);
}

#[test]
fn repeated_frame_is_offered_again_after_clear() {
    let mut buffer = FrameBuffer::new(10, 30_000);
    buffer.push_frame(frame(4, 0));
    assert!(buffer.get_frame_for_time(0).is_some());
    buffer.clear();
    buffer.push_frame(frame(4, 0));
    assert_eq!(buffer.get_frame_for_time(0).unwrap().frame_number, 4);
}

#[test]
fn out_of_order_pushes_stay_sorted() {
    let mut buffer = FrameBuffer::new(10, 30_000);
    buffer.push_frame(frame(2, 66_660));
    buffer.push_frame(frame(0, 0));
    buffer.push_frame(frame(1, 33_330));
    assert_eq!(buffer.get_earliest_frame(), Some(0));
    assert_eq!(buffer.get_latest_frame(), Some(2));
    let handles = buffer.clear();
    assert_eq!(handles, vec![0, 1, 2]);
}

#[test]
fn push_at_capacity_evicts_earliest_presented() {
    let mut buffer = FrameBuffer::new(3, 30_000);
    assert_eq!(buffer.push_frame(frame(5, 500)), None);
    assert_eq!(buffer.push_frame(frame(3, 300)), None);
    assert_eq!(buffer.push_frame(frame(4, 400)), None);
    assert!(buffer.is_full());
    assert_eq!(buffer.push_frame(frame(6, 600)), Some(3));
    assert_eq!(buffer.get_stats().frame_count, 3);
    assert_eq!(buffer.get_earliest_frame(), Some(4));
    assert_eq!(buffer.get_latest_frame(), Some(6));
    assert_eq!(buffer.get_stats().frames_decoded, 4);
}

#[test]
fn zero_capacity_holds_one_record() {
    let mut buffer = FrameBuffer::new(0, 30_000);
    assert_eq!(buffer.push_frame(frame(1, 0)), None);
    assert_eq!(buffer.push_frame(frame(2, 10)), Some(1));
    assert_eq!(buffer.get_stats().frame_count, 1);
    assert_eq!(buffer.get_stats().state, BufferState::Full);
}

#[test]
fn clear_returns_every_handle_and_starves() {
    let mut buffer = FrameBuffer::new(10, 30_000);
    for i in 0..4u32 {
        buffer.push_frame(FrameInfo::new(i, i as i64 * 10, 10, 64, 64, 100 + i, false));
    }
    let handles = buffer.clear();
    assert_eq!(handles, vec![100, 101, 102, 103]);
    let stats = buffer.get_stats();
    assert_eq!(stats.frame_count, 0);
    assert_eq!(stats.state, BufferState::Starving);
    assert_eq!(stats.state(), BufferState::Starving);
    assert_eq!(stats.buffer_duration_us, 0);
    assert_eq!(stats.frames_decoded, 4);
    assert!(buffer.clear().is_empty());
}

#[test]
fn low_state_below_low_water_mark() {
    let mut buffer = FrameBuffer::new(10, 30_000);
    buffer.push_frame(frame(0, 0));
    assert_eq!(buffer.get_stats().state, BufferState::Low);
    buffer.push_frame(frame(1, 33_330));
    assert_eq!(buffer.get_stats().state, BufferState::Healthy);
}

#[test]
fn buffer_duration_spans_first_start_to_last_end() {
    let mut buffer = FrameBuffer::new(10, 30_000);
    for i in 0..5u32 {
        buffer.push_frame(frame(i, i as i64 * 33_330));
    }
    assert_eq!(buffer.get_stats().buffer_duration_us, 166_650);
    assert_eq!(buffer.get_stats().capacity, 10);
}

#[test]
fn needs_frames_below_three_quarters() {
    let mut buffer = FrameBuffer::new(4, 30_000);
    assert!(buffer.needs_frames());
    buffer.push_frame(frame(0, 0));
    buffer.push_frame(frame(1, 1));
    assert!(buffer.needs_frames());
    buffer.push_frame(frame(2, 2));
    assert!(!buffer.needs_frames());
    assert!(!buffer.is_full());
    buffer.push_frame(frame(3, 3));
    assert!(buffer.is_full());
}

#[test]
fn lookup_by_number_does_not_consume() {
    let mut buffer = FrameBuffer::new(10, 30_000);
    buffer.push_frame(frame(0, 0));
    buffer.push_frame(frame(1, 33_330));
    let found = buffer.get_frame_by_number(1).unwrap();
    assert_eq!(found.pts_us, 33_330);
    assert!(buffer.get_frame_by_number(9).is_none());
    assert_eq!(buffer.get_stats().frame_count, 2);
}

#[test]
fn presentation_time_follows_anchor() {
    let mut buffer = FrameBuffer::new(10, 30_000);
    assert_eq!(buffer.get_presentation_time(5_000), 0);
    buffer.start_playback(3, 1_000_000);
    assert_eq!(buffer.get_presentation_time(1_050_000), 150_000);
    buffer.stop_playback();
    assert_eq!(buffer.get_presentation_time(1_050_000), 0);
    assert_eq!(US_PER_MILLI_FPS, 1_000_000_000);
}

#[test]
fn presentation_time_truncates_fractional_frame_start() {
    let mut buffer = FrameBuffer::new(10, 29_970);
    buffer.start_playback(1, 0);
    assert_eq!(buffer.get_presentation_time(0), 33_366);
}

#[test]
fn target_frame_counts_whole_elapsed_frames() {
    let mut buffer = FrameBuffer::new(10, 30_000);
    assert_eq!(buffer.get_target_frame(123), 0);
    buffer.start_playback(3, 1_000_000);
    assert_eq!(buffer.get_target_frame(1_100_000), 6);
    assert_eq!(buffer.get_target_frame(1_033_332), 3);
    assert_eq!(buffer.get_target_frame(1_033_334), 4);
    assert_eq!(buffer.get_target_frame(999_999), 2);
    assert_eq!(buffer.get_target_frame(900_000), 0);
    buffer.stop_playback();
    assert_eq!(buffer.get_target_frame(1_100_000), 3);
}

#[test]
fn target_frame_saturates_at_u32_max() {
    let mut buffer = FrameBuffer::new(10, 30_000);
    buffer.start_playback(u32::MAX - 1, 0);
    assert_eq!(buffer.get_target_frame(1_000_000), u32::MAX);
}

#[test]
fn next_decode_frame_follows_newest() {
    let mut buffer = FrameBuffer::new(10, 30_000);
    assert_eq!(buffer.get_next_decode_frame(), 0);
    buffer.start_playback(42, 0);
    assert_eq!(buffer.get_next_decode_frame(), 42);
    buffer.push_frame(frame(50, 10));
    buffer.push_frame(frame(49, 5));
    assert_eq!(buffer.get_next_decode_frame(), 51);
    assert_eq!(buffer.get_earliest_frame(), Some(49));
}

#[test]
fn empty_buffer_queries() {
    let buffer = FrameBuffer::new(10, 30_000);
    assert_eq!(buffer.get_earliest_frame(), None);
    assert_eq!(buffer.get_latest_frame(), None);
    assert_eq!(buffer.get_stats().frame_count, 0);
    assert_eq!(BufferState::default(), BufferState::Starving);
}

#[test]
fn sync_boundaries_display() {
    let mut sync = AVSync::new(40);
    sync.set_audio_time(1000);
    sync.set_video_time(1040);
    assert!(sync.is_synced());
    assert_eq!(sync.get_sync_action(), SYNC_DISPLAY);
    sync.set_video_time(960);
    assert!(sync.is_synced());
    assert_eq!(sync.get_sync_action(), SYNC_DISPLAY);
    sync.set_video_time(1041);
    assert_eq!(sync.get_sync_action(), SYNC_WAIT);
    sync.set_video_time(959);
    assert_eq!(sync.get_sync_action(), SYNC_DROP);
}

#[test]
fn sync_drift_and_reset() {
    let mut sync = AVSync::new(40);
    sync.set_video_time(i64::MAX);
    sync.set_audio_time(i64::MIN);
    assert_eq!(sync.get_drift_ms(), i64::MAX as i128 - i64::MIN as i128);
    sync.reset();
    assert_eq!(sync.get_drift_ms(), 0);
    assert!(sync.is_synced());
}

#[test]
fn negative_threshold_is_never_synced() {
    let sync = AVSync::new(-1);
    assert!(!sync.is_synced());
    assert_eq!(sync.get_sync_action(), SYNC_WAIT);
}
