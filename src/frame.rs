//! Frame metadata, buffer fill classification and statistics.

use vstd::prelude::*;

verus! {

/// Metadata of one decoded frame. The pixels stay with an outside store that
/// `js_handle` indexes; the buffer never reads them.
#[derive(Clone, Copy, Debug, PartialEq, Eq, Structural)]
pub struct FrameInfo {
    /// Sequence index assigned by the decoder.
    pub frame_number: u32,
    /// Presentation timestamp in microseconds: the buffer's sort key.
    pub pts_us: i64,
    /// Display duration in microseconds.
    pub duration_us: i64,
    pub width: u32,
    pub height: u32,
    /// Key into the outside store that owns the frame's content.
    pub js_handle: u32,
    pub is_keyframe: bool,
}

impl FrameInfo {
    pub fn new(
        frame_number: u32,
        pts_us: i64,
        duration_us: i64,
        width: u32,
        height: u32,
        js_handle: u32,
        is_keyframe: bool,
    ) -> (r: Self)
        ensures
            r == (FrameInfo {
                frame_number,
                pts_us,
                duration_us,
                width,
                height,
                js_handle,
                is_keyframe,
            }),
    {
        FrameInfo { frame_number, pts_us, duration_us, width, height, js_handle, is_keyframe }
    }
}

/// How full the buffer is.
#[derive(Clone, Copy, Debug, PartialEq, Eq, Structural)]
pub enum BufferState {
    /// Empty: decoding must catch up.
    Starving,
    /// Below the low-water mark.
    Low,
    /// Between the low-water mark and capacity.
    Healthy,
    /// At or above capacity: decoding can slow down.
    Full,
}

impl Default for BufferState {
    fn default() -> (r: Self)
        ensures
            r == BufferState::Starving,
    {
        BufferState::Starving
    }
}

/// The fill classification of `count` records in a buffer of `capacity`
/// whose low-water mark is `low_water_mark`.
pub open spec fn state_for(count: int, capacity: int, low_water_mark: int) -> BufferState {
    if count == 0 {
        BufferState::Starving
    } else if count < low_water_mark {
        BufferState::Low
    } else if count >= capacity {
        BufferState::Full
    } else {
        BufferState::Healthy
    }
}

/// Counters and derived figures describing a buffer's health.
#[derive(Clone, Copy, Debug)]
pub struct BufferStats {
    /// Records currently buffered.
    pub frame_count: u32,
    pub capacity: u32,
    /// Records skipped because the presentation time had passed them
    /// (saturates at `u32::MAX`).
    pub frames_dropped: u32,
    /// Records pushed (saturates at `u32::MAX`).
    pub frames_decoded: u32,
    /// Records handed out for display (saturates at `u32::MAX`).
    pub frames_displayed: u32,
    /// Fill classification of the current occupancy.
    pub state: BufferState,
    /// Span from the oldest record's start to the newest record's end, in
    /// microseconds; zero when empty.
    pub buffer_duration_us: i128,
}

impl BufferStats {
    pub fn state(&self) -> (r: BufferState)
        ensures
            r == self.state,
    {
        self.state
    }
}

} // verus!
