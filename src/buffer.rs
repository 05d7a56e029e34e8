//! The bounded, presentation-time-ordered ring of frame records.

use std::collections::VecDeque;
use vstd::prelude::*;
use crate::frame::{state_for, BufferState, BufferStats, FrameInfo};

verus! {

/// Microseconds in a second times the frame-rate scale (thousandths of a
/// frame per second).
pub const US_PER_MILLI_FPS: u64 = 1_000_000_000;

/// Records in non-decreasing order of presentation time.
pub open spec fn sorted_by_time(s: Seq<FrameInfo>) -> bool {
    forall|i: int, j: int| 0 <= i < j < s.len() ==> s[i].pts_us <= s[j].pts_us
}

/// From the oldest record's start to the newest record's end; zero when empty.
pub open spec fn buffer_duration(s: Seq<FrameInfo>) -> int {
    if s.len() == 0 {
        0
    } else {
        s.last().pts_us - s[0].pts_us + s.last().duration_us
    }
}

/// The first position whose record is presented strictly after `t`, or the
/// length when there is none: where a record presented at `t` is inserted.
pub open spec fn insert_point(s: Seq<FrameInfo>, t: int) -> int
    decreases s.len(),
{
    if s.len() == 0 {
        0
    } else if s[0].pts_us > t {
        0
    } else {
        1 + insert_point(s.drop_first(), t)
    }
}

/// `s[i]` is the record to show at time `t`: among those presented at or
/// before `t` it has the latest time, and it is the first with that time.
pub open spec fn is_pick(s: Seq<FrameInfo>, t: int, i: int) -> bool {
    &&& 0 <= i < s.len()
    &&& s[i].pts_us <= t
    &&& forall|j: int| 0 <= j < s.len() && s[j].pts_us <= t ==> s[j].pts_us <= s[i].pts_us
    &&& forall|j: int| 0 <= j < i && s[j].pts_us <= t ==> s[j].pts_us < s[i].pts_us
}

pub open spec fn has_pick(s: Seq<FrameInfo>, t: int) -> bool {
    exists|i: int| is_pick(s, t, i)
}

pub open spec fn pick(s: Seq<FrameInfo>, t: int) -> int {
    choose|i: int| is_pick(s, t, i)
}

/// The content handles of `s`, in order.
pub open spec fn handles_of(s: Seq<FrameInfo>) -> Seq<u32> {
    s.map_values(|f: FrameInfo| f.js_handle)
}

/// `a + b`, held at `u32::MAX`.
pub open spec fn sat_add(a: int, b: int) -> int {
    if a + b > u32::MAX {
        u32::MAX as int
    } else {
        a + b
    }
}

/// `k` is the insertion point when every record before it is presented at or
/// before `t` and the record at `k`, if any, after it.
proof fn lemma_insert_point(s: Seq<FrameInfo>, t: int, k: int)
    requires
        0 <= k <= s.len(),
        forall|j: int| 0 <= j < k ==> s[j].pts_us <= t,
        k < s.len() ==> s[k].pts_us > t,
    ensures
        insert_point(s, t) == k,
    decreases s.len(),
{
    if s.len() > 0 && k > 0 {
        lemma_insert_point(s.drop_first(), t, k - 1);
    }
}

/// Inserting a record at its insertion point keeps the order.
proof fn lemma_insert_sorted(s: Seq<FrameInfo>, f: FrameInfo, k: int)
    requires
        sorted_by_time(s),
        0 <= k <= s.len(),
        forall|j: int| 0 <= j < k ==> s[j].pts_us <= f.pts_us,
        k < s.len() ==> s[k].pts_us > f.pts_us,
    ensures
        sorted_by_time(s.insert(k, f)),
{
    let r = s.insert(k, f);
    assert forall|i: int, j: int| 0 <= i < j < r.len() implies r[i].pts_us <= r[j].pts_us by {
        if j == k {
            assert(r[i] == s[i]);
        } else if i == k {
            assert(r[j] == s[j - 1]);
            assert(s[k].pts_us <= s[j - 1].pts_us);
        } else {
            let si = if i < k { i } else { i - 1 };
            let sj = if j < k { j } else { j - 1 };
            assert(r[i] == s[si] && r[j] == s[sj]);
        }
    }
}

/// Two records that both qualify as the pick are the same one.
proof fn lemma_pick_unique(s: Seq<FrameInfo>, t: int, a: int, b: int)
    requires
        is_pick(s, t, a),
        is_pick(s, t, b),
    ensures
        a == b,
{
}

/// Removes the first `count` records.
fn pop_front_n(frames: &mut VecDeque<FrameInfo>, count: usize)
    requires
        count <= old(frames)@.len(),
    ensures
        final(frames)@ == old(frames)@.subrange(count as int, old(frames)@.len() as int),
{
    let ghost s = frames@;
    let mut k: usize = 0;
    while k < count
        invariant
            k <= count,
            count <= s.len(),
            frames@ == s.subrange(k as int, s.len() as int),
        decreases count - k,
    {
        frames.pop_front();
        k = k + 1;
    }
}

/// `a / d` rounded toward negative infinity, for `d > 0`.
pub open spec fn floor_div(a: int, d: int) -> int {
    a / d
}

/// The presentation time in microseconds at wall-clock `now_us`: the anchor
/// frame's start plus the wall time elapsed since the anchor, zero while no
/// anchor is set. The anchor frame's start is truncated to whole microseconds.
pub open spec fn presentation_time(
    anchor: Option<i64>,
    start_frame: int,
    fps_milli: int,
    now_us: int,
) -> int {
    match anchor {
        Some(w) => start_frame * US_PER_MILLI_FPS as int / fps_milli + (now_us - w),
        None => 0,
    }
}

/// `x` held within the range of `u32`.
pub open spec fn clamp_u32(x: int) -> int {
    if x < 0 {
        0
    } else if x > u32::MAX {
        u32::MAX as int
    } else {
        x
    }
}

/// The frame due at wall-clock `now_us`: the anchor frame plus the whole
/// frames elapsed since the anchor, held within `u32`; the anchor frame while
/// no anchor is set.
pub open spec fn target_frame(anchor: Option<i64>, start_frame: int, fps_milli: int, now_us: int) -> int {
    match anchor {
        Some(w) => clamp_u32(
            start_frame + floor_div((now_us - w) * fps_milli, US_PER_MILLI_FPS as int),
        ),
        None => start_frame,
    }
}

/// Ceiling division of the magnitude gives the floor of a negative quotient.
proof fn lemma_floor_div_negative(n: int, d: int)
    requires
        n > 0,
        d > 0,
    ensures
        -((n + d - 1) / d) == floor_div(-n, d),
{
    let q = (n + d - 1) / d;
    vstd::arithmetic::div_mod::lemma_fundamental_div_mod(n + d - 1, d);
    vstd::arithmetic::div_mod::lemma_mod_pos_bound(n + d - 1, d);
    let m = (n + d - 1) % d;
    assert(q * d == n + d - 1 - m) by (nonlinear_arith)
        requires
            d * q + m == n + d - 1,
    ;
    assert(-n == (-q) * d + (d - 1 - m)) by (nonlinear_arith)
        requires
            q * d == n + d - 1 - m,
    ;
    vstd::arithmetic::div_mod::lemma_fundamental_div_mod_converse(-n, d, -q, d - 1 - m);
}

/// Ring buffer of frame metadata, kept in presentation-time order.
pub struct FrameBuffer {
    frames: VecDeque<FrameInfo>,
    capacity: usize,
    /// Occupancy below which more decoding is wanted (three quarters).
    target_size: usize,
    /// Occupancy below which the buffer counts as low (one quarter).
    low_water_mark: usize,
    fps_milli: u32,
    stats: BufferStats,
    last_displayed_frame: Option<u32>,
    /// Wall-clock time at which playback was anchored, while it runs.
    playback_start_time: Option<i64>,
    playback_start_frame: u32,
}

impl View for FrameBuffer {
    type V = Seq<FrameInfo>;

    closed spec fn view(&self) -> Seq<FrameInfo> {
        self.frames@
    }
}

impl FrameBuffer {
    /// What `get_frame_for_time(t)` does, from buffer `pre` to buffer `post`
    /// with result `r`. With no record presented at or before `t`, or when the
    /// pick is the frame last displayed, nothing happens. Otherwise the pick is
    /// returned and removed together with every record before it, those
    /// counting as dropped.
    pub open spec fn take_post(pre: FrameBuffer, post: FrameBuffer, t: int, r: Option<FrameInfo>) -> bool {
        let s = pre@;
        let i = pick(s, t);
        if !has_pick(s, t) || pre.last_displayed() == Some(s[i].frame_number) {
            r == None::<FrameInfo> && post == pre
        } else {
            &&& r == Some(s[i])
            &&& post@ == s.subrange(i + 1, s.len() as int)
            &&& post.last_displayed() == Some(s[i].frame_number)
            &&& post.stats().frames_dropped == sat_add(pre.stats().frames_dropped as int, i)
            &&& post.stats().frames_displayed == sat_add(pre.stats().frames_displayed as int, 1)
            &&& post.stats().frames_decoded == pre.stats().frames_decoded
            &&& post.same_config(&pre)
            &&& post.same_playback(&pre)
        }
    }
}

impl FrameBuffer {
    pub closed spec fn capacity(&self) -> int {
        self.capacity as int
    }

    pub closed spec fn target_size(&self) -> int {
        self.target_size as int
    }

    pub closed spec fn low_water_mark(&self) -> int {
        self.low_water_mark as int
    }

    pub closed spec fn fps_milli(&self) -> int {
        self.fps_milli as int
    }

    pub closed spec fn stats(&self) -> BufferStats {
        self.stats
    }

    /// Frame number of the record last handed out for display.
    pub closed spec fn last_displayed(&self) -> Option<u32> {
        self.last_displayed_frame
    }

    /// Wall-clock anchor of the presentation clock; `None` while stopped.
    pub closed spec fn anchor_time(&self) -> Option<i64> {
        self.playback_start_time
    }

    /// Frame number of the anchor; kept after playback stops.
    pub closed spec fn start_frame(&self) -> int {
        self.playback_start_frame as int
    }

    /// The statistics agree with the records `s` for the given limits.
    pub open spec fn stats_match(&self, s: Seq<FrameInfo>) -> bool {
        &&& self.stats().frame_count == s.len()
        &&& self.stats().capacity == self.capacity()
        &&& self.stats().state == state_for(
            s.len() as int,
            self.capacity(),
            self.low_water_mark(),
        )
        &&& self.stats().buffer_duration_us == buffer_duration(s)
    }

    pub open spec fn wf(&self) -> bool {
        &&& self.capacity() <= u32::MAX
        &&& self.target_size() == self.capacity() * 3 / 4
        &&& self.low_water_mark() == self.capacity() / 4
        &&& self.fps_milli() > 0
        &&& (self@.len() <= self.capacity() || self@.len() <= 1)
        &&& sorted_by_time(self@)
        &&& self.stats_match(self@)
    }

    /// Same limits and frame rate.
    pub open spec fn same_config(&self, o: &FrameBuffer) -> bool {
        &&& self.capacity() == o.capacity()
        &&& self.target_size() == o.target_size()
        &&& self.low_water_mark() == o.low_water_mark()
        &&& self.fps_milli() == o.fps_milli()
    }

    /// Same presentation-clock anchor.
    pub open spec fn same_playback(&self, o: &FrameBuffer) -> bool {
        &&& self.anchor_time() == o.anchor_time()
        &&& self.start_frame() == o.start_frame()
    }

    /// Same cumulative counters.
    pub open spec fn same_counters(&self, o: &FrameBuffer) -> bool {
        &&& self.stats().frames_decoded == o.stats().frames_decoded
        &&& self.stats().frames_dropped == o.stats().frames_dropped
        &&& self.stats().frames_displayed == o.stats().frames_displayed
    }

    /// An empty buffer for `capacity` records at `fps_milli` thousandths of a
    /// frame per second.
    pub fn new(capacity: u32, fps_milli: u32) -> (r: Self)
        requires
            fps_milli > 0,
        ensures
            r.wf(),
            r@.len() == 0,
            r.capacity() == capacity,
            r.target_size() == capacity * 3 / 4,
            r.low_water_mark() == capacity / 4,
            r.fps_milli() == fps_milli,
            r.stats().frames_decoded == 0,
            r.stats().frames_dropped == 0,
            r.stats().frames_displayed == 0,
            r.stats().state == BufferState::Starving,
            r.last_displayed() == None::<u32>,
            r.anchor_time() == None::<i64>,
            r.start_frame() == 0,
    {
        let cap = capacity as usize;
        FrameBuffer {
            frames: VecDeque::with_capacity(cap),
            capacity: cap,
            target_size: ((capacity as u64 * 3) / 4) as usize,
            low_water_mark: (capacity / 4) as usize,
            fps_milli,
            stats: BufferStats {
                frame_count: 0,
                capacity,
                frames_dropped: 0,
                frames_decoded: 0,
                frames_displayed: 0,
                state: BufferState::default(),
                buffer_duration_us: 0,
            },
            last_displayed_frame: None,
            playback_start_time: None,
            playback_start_frame: 0,
        }
    }

    /// Recomputes occupancy, fill state and duration from the records.
    fn update_state(&mut self)
        requires
            old(self)@.len() <= u32::MAX,
            old(self).capacity() <= u32::MAX,
            old(self).stats().capacity == old(self).capacity(),
        ensures
            final(self)@ == old(self)@,
            final(self).stats_match(final(self)@),
            final(self).same_config(old(self)),
            final(self).same_playback(old(self)),
            final(self).same_counters(old(self)),
            final(self).last_displayed() == old(self).last_displayed(),
    {
        let count = self.frames.len();
        self.stats.frame_count = count as u32;
        self.stats.state = if count == 0 {
            BufferState::Starving
        } else if count < self.low_water_mark {
            BufferState::Low
        } else if count >= self.capacity {
            BufferState::Full
        } else {
            BufferState::Healthy
        };
        if count > 0 {
            let first = self.frames[0].pts_us as i128;
            let last = self.frames[count - 1];
            self.stats.buffer_duration_us = last.pts_us as i128 - first + last.duration_us as i128;
        } else {
            self.stats.buffer_duration_us = 0;
        }
    }
    /// Adds a decoded record. At capacity the record presented earliest is
    /// evicted first and its handle returned, for the caller to release. The
    /// new record goes before the first one presented strictly after it.
    pub fn push_frame(&mut self, frame: FrameInfo) -> (evicted: Option<u32>)
        requires
            old(self).wf(),
        ensures
            final(self).wf(),
            sorted_by_time(final(self)@),
            final(self).stats().frame_count == final(self)@.len(),
            ({
                let s = old(self)@;
                let evicts = s.len() >= old(self).capacity() && s.len() > 0;
                let kept = if evicts {
                    s.subrange(1, s.len() as int)
                } else {
                    s
                };
                &&& evicted == (if evicts {
                    Some(s[0].js_handle)
                } else {
                    None::<u32>
                })
                &&& evicts ==> forall|i: int| 0 <= i < s.len() ==> s[0].pts_us <= #[trigger] s[i].pts_us
                &&& final(self)@ == kept.insert(insert_point(kept, frame.pts_us as int), frame)
            }),
            final(self).stats().frames_decoded == sat_add(
                old(self).stats().frames_decoded as int,
                1,
            ),
            final(self).stats().frames_dropped == old(self).stats().frames_dropped,
            final(self).stats().frames_displayed == old(self).stats().frames_displayed,
            final(self).same_config(old(self)),
            final(self).same_playback(old(self)),
            final(self).last_displayed() == old(self).last_displayed(),
    {
        self.stats.frames_decoded = self.stats.frames_decoded.saturating_add(1);
        let evicted = if self.frames.len() >= self.capacity {
            match self.frames.pop_front() {
                Some(f) => Some(f.js_handle),
                None => None,
            }
        } else {
            None
        };
        let ghost kept = self.frames@;
        let n = self.frames.len();
        let mut pos: usize = 0;
        while pos < n && self.frames[pos].pts_us <= frame.pts_us
            invariant
                self.frames@ == kept,
                n == kept.len(),
                pos <= n,
                forall|j: int| 0 <= j < pos ==> kept[j].pts_us <= frame.pts_us,
            decreases n - pos,
        {
            pos = pos + 1;
        }
        proof {
            lemma_insert_point(kept, frame.pts_us as int, pos as int);
            lemma_insert_sorted(kept, frame, pos as int);
        }
        self.frames.insert(pos, frame);
        self.update_state();
        evicted
    }
    /// Hands out the record to show at `current_time_us`: the latest one
    /// presented at or before it (the first of equals), dropping the records
    /// ahead of it. Returns `None`, changing nothing, when no record is due or
    /// when the due record is the frame already displayed.
    pub fn get_frame_for_time(&mut self, current_time_us: i64) -> (r: Option<FrameInfo>)
        requires
            old(self).wf(),
        ensures
            final(self).wf(),
            sorted_by_time(final(self)@),
            final(self).stats().frame_count == final(self)@.len(),
            Self::take_post(*old(self), *final(self), current_time_us as int, r),
    {
        let ghost s = self.frames@;
        let ghost t = current_time_us as int;
        let n = self.frames.len();
        let mut found = false;
        let mut b: usize = 0;
        let mut idx: usize = 0;
        while idx < n
            invariant
                self.frames@ == s,
                t == current_time_us as int,
                n == s.len(),
                idx <= n,
                !found ==> forall|j: int| 0 <= j < idx ==> s[j].pts_us > t,
                found ==> {
                    &&& b < idx
                    &&& s[b as int].pts_us <= t
                    &&& forall|j: int|
                        0 <= j < idx && s[j].pts_us <= t ==> s[j].pts_us <= s[b as int].pts_us
                    &&& forall|j: int|
                        0 <= j < b && s[j].pts_us <= t ==> s[j].pts_us < s[b as int].pts_us
                },
            decreases n - idx,
        {
            let p = self.frames[idx].pts_us;
            if p <= current_time_us && (!found || p > self.frames[b].pts_us) {
                found = true;
                b = idx;
            }
            idx = idx + 1;
        }
        if !found {
            proof {
                if has_pick(s, t) {
                    assert(is_pick(s, t, pick(s, t)));
                }
            }
            return None;
        }
        proof {
            assert(is_pick(s, t, b as int));
            lemma_pick_unique(s, t, b as int, pick(s, t));
        }
        let frame = self.frames[b];
        let repeated = match self.last_displayed_frame {
            Some(last) => last == frame.frame_number,
            None => false,
        };
        if repeated {
            return None;
        }
        pop_front_n(&mut self.frames, b);
        self.frames.pop_front();
        proof {
            assert(self.frames@ =~= s.subrange(b + 1, s.len() as int));
        }
        self.stats.frames_dropped = self.stats.frames_dropped.saturating_add(b as u32);
        self.stats.frames_displayed = self.stats.frames_displayed.saturating_add(1);
        self.last_displayed_frame = Some(frame.frame_number);
        self.update_state();
        Some(frame)
    }
    /// The first buffered record with number `frame_number`, if any.
    pub fn get_frame_by_number(&self, frame_number: u32) -> (r: Option<FrameInfo>)
        ensures
            match r {
                None => forall|i: int| 0 <= i < self@.len() ==> self@[i].frame_number != frame_number,
                Some(f) => exists|i: int|
                    0 <= i < self@.len() && self@[i] == f && f.frame_number == frame_number
                        && forall|j: int| 0 <= j < i ==> self@[j].frame_number != frame_number,
            },
    {
        let n = self.frames.len();
        let mut i: usize = 0;
        while i < n
            invariant
                n == self@.len(),
                i <= n,
                forall|j: int| 0 <= j < i ==> self@[j].frame_number != frame_number,
            decreases n - i,
        {
            if self.frames[i].frame_number == frame_number {
                return Some(self.frames[i]);
            }
            i = i + 1;
        }
        None
    }

    /// Anchors the presentation clock: frame `start_frame` is due at wall-clock
    /// `current_time_us`. Forgets the last displayed frame.
    pub fn start_playback(&mut self, start_frame: u32, current_time_us: i64)
        requires
            old(self).wf(),
        ensures
            final(self).wf(),
            final(self).anchor_time() == Some(current_time_us),
            final(self).start_frame() == start_frame,
            final(self).last_displayed() == None::<u32>,
            final(self)@ == old(self)@,
            final(self).stats() == old(self).stats(),
            final(self).same_config(old(self)),
    {
        self.playback_start_time = Some(current_time_us);
        self.playback_start_frame = start_frame;
        self.last_displayed_frame = None;
    }

    /// Releases the clock anchor; the anchor frame number is kept.
    pub fn stop_playback(&mut self)
        requires
            old(self).wf(),
        ensures
            final(self).wf(),
            final(self).anchor_time() == None::<i64>,
            final(self).start_frame() == old(self).start_frame(),
            final(self).last_displayed() == old(self).last_displayed(),
            final(self)@ == old(self)@,
            final(self).stats() == old(self).stats(),
            final(self).same_config(old(self)),
    {
        self.playback_start_time = None;
    }

    /// The presentation time, in microseconds, at wall-clock `current_time_us`.
    pub fn get_presentation_time(&self, current_time_us: i64) -> (r: i128)
        requires
            self.wf(),
        ensures
            r == presentation_time(
                self.anchor_time(),
                self.start_frame(),
                self.fps_milli(),
                current_time_us as int,
            ),
    {
        match self.playback_start_time {
            Some(start) => {
                let elapsed = current_time_us as i128 - start as i128;
                let start_pts = (self.playback_start_frame as u128 * US_PER_MILLI_FPS as u128)
                    / self.fps_milli as u128;
                assert(start_pts <= self.playback_start_frame as u128 * US_PER_MILLI_FPS as u128)
                    by {
                    vstd::arithmetic::div_mod::lemma_div_is_ordered_by_denominator(
                        self.playback_start_frame as u128 * US_PER_MILLI_FPS as u128,
                        1,
                        self.fps_milli as int,
                    );
                }
                start_pts as i128 + elapsed
            },
            None => 0,
        }
    }

    /// The frame number due at wall-clock `current_time_us`.
    pub fn get_target_frame(&self, current_time_us: i64) -> (r: u32)
        requires
            self.wf(),
        ensures
            r == target_frame(
                self.anchor_time(),
                self.start_frame(),
                self.fps_milli(),
                current_time_us as int,
            ),
    {
        match self.playback_start_time {
            Some(start) => {
                let elapsed = current_time_us as i128 - start as i128;
                let fps = self.fps_milli as i128;
                proof {
                    if elapsed > 0 {
                        vstd::arithmetic::mul::lemma_mul_strict_upper_bound(
                            elapsed as int,
                            0x1_0000_0000_0000_0000,
                            fps as int,
                            0x1_0000_0000,
                        );
                        assert(elapsed * fps <= 0xffff_ffff_ffff_ffff * 0xffff_ffff);
                    } else if elapsed < 0 {
                        vstd::arithmetic::mul::lemma_mul_strict_upper_bound(
                            -elapsed,
                            0x1_0000_0000_0000_0000,
                            fps as int,
                            0x1_0000_0000,
                        );
                        assert((-elapsed) * fps <= 0xffff_ffff_ffff_ffff * 0xffff_ffff);
                        assert((-elapsed) * fps == -(elapsed * fps)) by (nonlinear_arith);
                    } else {
                        assert(elapsed * fps == 0);
                    }
                }
                let scaled = elapsed * fps;
                let d = US_PER_MILLI_FPS as i128;
                let frames_elapsed: i128 = if scaled >= 0 {
                    (scaled as u128 / d as u128) as i128
                } else {
                    let q = ((-scaled) as u128 + (d - 1) as u128) / d as u128;
                    proof {
                        lemma_floor_div_negative(-scaled, d as int);
                    }
                    -(q as i128)
                };
                let frame = self.playback_start_frame as i128 + frames_elapsed;
                if frame < 0 {
                    0
                } else if frame > u32::MAX as i128 {
                    u32::MAX
                } else {
                    frame as u32
                }
            },
            None => self.playback_start_frame,
        }
    }

    /// Removes every record and returns their content handles, in buffer
    /// order, for the caller to release. Forgets the last displayed frame.
    pub fn clear(&mut self) -> (handles: Vec<u32>)
        requires
            old(self).wf(),
        ensures
            final(self).wf(),
            handles@ == handles_of(old(self)@),
            final(self)@.len() == 0,
            final(self).stats().frame_count == 0,
            final(self).stats().state == BufferState::Starving,
            final(self).last_displayed() == None::<u32>,
            final(self).same_counters(old(self)),
            final(self).same_config(old(self)),
            final(self).same_playback(old(self)),
    {
        let n = self.frames.len();
        let mut handles: Vec<u32> = Vec::new();
        let mut i: usize = 0;
        while i < n
            invariant
                n == self@.len(),
                i <= n,
                handles@ == handles_of(self@).subrange(0, i as int),
            decreases n - i,
        {
            handles.push(self.frames[i].js_handle);
            i = i + 1;
            assert(handles@ =~= handles_of(self@).subrange(0, i as int));
        }
        assert(handles@ =~= handles_of(self@));
        self.frames.clear();
        self.last_displayed_frame = None;
        self.update_state();
        handles
    }

    pub fn get_stats(&self) -> (r: BufferStats)
        ensures
            r == self.stats(),
    {
        self.stats
    }

    /// Whether occupancy is below the target size.
    pub fn needs_frames(&self) -> (r: bool)
        ensures
            r == (self@.len() < self.target_size()),
    {
        self.frames.len() < self.target_size
    }

    /// Whether occupancy has reached capacity.
    pub fn is_full(&self) -> (r: bool)
        ensures
            r == (self@.len() >= self.capacity()),
    {
        self.frames.len() >= self.capacity
    }

    /// The frame number to decode next: one past the newest record's (held at
    /// `u32::MAX`), or the anchor frame when the buffer is empty.
    pub fn get_next_decode_frame(&self) -> (r: u32)
        ensures
            r == (if self@.len() > 0 {
                sat_add(self@.last().frame_number as int, 1)
            } else {
                self.start_frame()
            }),
    {
        let n = self.frames.len();
        if n > 0 {
            self.frames[n - 1].frame_number.saturating_add(1)
        } else {
            self.playback_start_frame
        }
    }

    /// Frame number of the record presented first.
    pub fn get_earliest_frame(&self) -> (r: Option<u32>)
        ensures
            r == (if self@.len() > 0 {
                Some(self@[0].frame_number)
            } else {
                None::<u32>
            }),
    {
        if self.frames.len() > 0 {
            Some(self.frames[0].frame_number)
        } else {
            None
        }
    }

    /// Frame number of the record presented last.
    pub fn get_latest_frame(&self) -> (r: Option<u32>)
        ensures
            r == (if self@.len() > 0 {
                Some(self@.last().frame_number)
            } else {
                None::<u32>
            }),
    {
        let n = self.frames.len();
        if n > 0 {
            Some(self.frames[n - 1].frame_number)
        } else {
            None
        }
    }
}

/// A frame is never displayed twice in a row: when two calls of
/// `get_frame_for_time` both hand out a record, with only calls that keep the
/// last-displayed mark in between (`push_frame`, lookups, `stop_playback`),
/// the two records have different frame numbers.
pub proof fn lemma_no_repeat_display(
    b0: FrameBuffer,
    b1: FrameBuffer,
    b2: FrameBuffer,
    b3: FrameBuffer,
    t1: int,
    t2: int,
    f1: FrameInfo,
    f2: FrameInfo,
)
    requires
        FrameBuffer::take_post(b0, b1, t1, Some(f1)),
        b2.last_displayed() == b1.last_displayed(),
        FrameBuffer::take_post(b2, b3, t2, Some(f2)),
    ensures
        f1.frame_number != f2.frame_number,
{
}

} // verus!
