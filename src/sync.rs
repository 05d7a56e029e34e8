//! Audio/video drift and the resulting presentation decision.

use vstd::prelude::*;

verus! {

/// Show the pending video frame.
pub const SYNC_DISPLAY: i32 = 0;

/// Video is ahead of audio: hold or repeat the current frame.
pub const SYNC_WAIT: i32 = 1;

/// Video is behind audio: discard the pending frame to catch up.
pub const SYNC_DROP: i32 = -1;

/// Two independently reported clocks, in whole milliseconds, and the drift
/// between them. Each report is an authoritative sample: nothing is smoothed.
pub struct AVSync {
    sync_threshold_ms: i64,
    audio_time_ms: i64,
    video_time_ms: i64,
}

/// Whether a drift lies within the threshold, boundaries included.
pub open spec fn synced(drift: int, threshold: int) -> bool {
    -threshold <= drift <= threshold
}

/// The decision for a drift: wait while video leads by more than the
/// threshold, drop while it trails by more, display otherwise.
pub open spec fn action_for(drift: int, threshold: int) -> i32 {
    if drift > threshold {
        SYNC_WAIT
    } else if drift < -threshold {
        SYNC_DROP
    } else {
        SYNC_DISPLAY
    }
}

impl AVSync {
    pub closed spec fn threshold(&self) -> int {
        self.sync_threshold_ms as int
    }

    pub closed spec fn audio(&self) -> int {
        self.audio_time_ms as int
    }

    pub closed spec fn video(&self) -> int {
        self.video_time_ms as int
    }

    /// Video time minus audio time: positive while video leads.
    pub open spec fn drift(&self) -> int {
        self.video() - self.audio()
    }

    pub fn new(sync_threshold_ms: i64) -> (r: Self)
        ensures
            r.threshold() == sync_threshold_ms,
            r.audio() == 0,
            r.video() == 0,
    {
        AVSync { sync_threshold_ms, audio_time_ms: 0, video_time_ms: 0 }
    }

    pub fn set_audio_time(&mut self, time_ms: i64)
        ensures
            final(self).audio() == time_ms,
            final(self).video() == old(self).video(),
            final(self).threshold() == old(self).threshold(),
    {
        self.audio_time_ms = time_ms;
    }

    pub fn set_video_time(&mut self, time_ms: i64)
        ensures
            final(self).video() == time_ms,
            final(self).audio() == old(self).audio(),
            final(self).threshold() == old(self).threshold(),
    {
        self.video_time_ms = time_ms;
    }

    pub fn get_drift_ms(&self) -> (r: i128)
        ensures
            r == self.drift(),
    {
        self.video_time_ms as i128 - self.audio_time_ms as i128
    }

    pub fn is_synced(&self) -> (r: bool)
        ensures
            r == synced(self.drift(), self.threshold()),
    {
        let drift = self.get_drift_ms();
        let threshold = self.sync_threshold_ms as i128;
        -threshold <= drift && drift <= threshold
    }

    /// `SYNC_WAIT`, `SYNC_DROP` or `SYNC_DISPLAY`.
    pub fn get_sync_action(&self) -> (r: i32)
        ensures
            r == action_for(self.drift(), self.threshold()),
            r == SYNC_DISPLAY <==> synced(self.drift(), self.threshold()),
    {
        let drift = self.get_drift_ms();
        let threshold = self.sync_threshold_ms as i128;
        if drift > threshold {
            SYNC_WAIT
        } else if drift < -threshold {
            SYNC_DROP
        } else {
            SYNC_DISPLAY
        }
    }

    pub fn reset(&mut self)
        ensures
            final(self).audio() == 0,
            final(self).video() == 0,
            final(self).drift() == 0,
            final(self).threshold() == old(self).threshold(),
    {
        self.audio_time_ms = 0;
        self.video_time_ms = 0;
    }
}

/// A drift of exactly plus or minus a non-negative threshold counts as
/// synced, and the frame is displayed.
pub proof fn lemma_threshold_boundary_displays(c: AVSync)
    requires
        c.threshold() >= 0,
        c.drift() == c.threshold() || c.drift() == -c.threshold(),
    ensures
        synced(c.drift(), c.threshold()),
        action_for(c.drift(), c.threshold()) == SYNC_DISPLAY,
{
}

} // verus!
