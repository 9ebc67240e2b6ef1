//! UX layer for a tile-based 2D game front end: frame timing, text-box
//! layout in tile units, a vertical text menu, and a cooperative
//! active/passive view stack. Rendering is expressed as command lists
//! that a platform shell executes against the real window.
use vstd::prelude::*;

pub mod gfx;
pub mod ui;
pub mod view;

verus! {

/// Milliseconds in one second, the sampling window for frame counting.
pub const MS_PER_SECOND: u64 = 1000;

/// `a + b` capped at `u64::MAX`.
pub open spec fn sat_add64(a: u64, b: u64) -> u64 {
    if a + b > u64::MAX {
        u64::MAX
    } else {
        (a + b) as u64
    }
}

/// `c + 1` capped at `usize::MAX`.
pub open spec fn sat_inc(c: usize) -> usize {
    if c + 1 > usize::MAX {
        usize::MAX
    } else {
        (c + 1) as usize
    }
}

fn sat_add(a: u64, b: u64) -> (r: u64)
    ensures
        r == sat_add64(a, b),
{
    if a > u64::MAX - b {
        u64::MAX
    } else {
        a + b
    }
}

#[verifier::external_type_specification]
#[verifier::external_body]
pub struct ExInstant(std::time::Instant);

/// Relies on std::time::Instant::now: an opaque reading of the
/// monotonic clock; its documentation gives it no panic.
#[verifier::external_body]
fn instant_now() -> (t: std::time::Instant) {
    std::time::Instant::now()
}

/// Relies on std::time::Instant::duration_since: the time from
/// `earlier` to `later`; its documentation promises zero, not a
/// panic, when `later` is the earlier one.
#[verifier::external_body]
fn duration_between(earlier: &std::time::Instant, later: &std::time::Instant) -> (d:
    core::time::Duration) {
    later.duration_since(*earlier)
}

/// Relies on core::time::Duration::as_millis: the duration in whole
/// milliseconds.
#[verifier::external_body]
fn duration_as_millis(d: &core::time::Duration) -> (ms: u128) {
    d.as_millis()
}

/// Whole milliseconds on the monotonic clock since `epoch`, clamped
/// into `u64`.
fn clock_ms(epoch: &std::time::Instant) -> (ms: u64) {
    let now = instant_now();
    let d = duration_between(epoch, &now);
    let q = duration_as_millis(&d);
    if q > u64::MAX as u128 {
        u64::MAX
    } else {
        q as u64
    }
}

/// Per-frame timing state: the two most recent frame timestamps and a
/// frame counter sampled once per second. Timestamps count from the
/// instant the tracker was created.
pub struct TimeTracker {
    pub epoch: std::time::Instant,
    pub last_time: u64,
    pub now_time: u64,
    pub next_fps_time: u64,
    pub fps_ctr: usize,
    pub curr_fps: usize,
}

impl TimeTracker {
    /// Timestamps never run backwards: the previous frame's time is at
    /// most the current frame's time.
    pub open spec fn wf(&self) -> bool {
        self.last_time <= self.now_time
    }

    /// The state after recording a frame observed at clock value `now`.
    /// A clock reading older than the current timestamp is treated as
    /// the current timestamp, so time never runs backwards. Once per
    /// second the frame counter is published and reset.
    pub open spec fn spec_record(self, now: u64) -> TimeTracker {
        let adjusted = if now >= self.now_time {
            now
        } else {
            self.now_time
        };
        if adjusted >= self.next_fps_time {
            TimeTracker {
                last_time: self.now_time,
                now_time: adjusted,
                next_fps_time: sat_add64(adjusted, MS_PER_SECOND),
                fps_ctr: 0,
                curr_fps: self.fps_ctr,
                ..self
            }
        } else {
            TimeTracker {
                last_time: self.now_time,
                now_time: adjusted,
                fps_ctr: sat_inc(self.fps_ctr),
                ..self
            }
        }
    }

    /// Fold a frame whose clock reading was `now` into the tracker.
    pub fn record_frame(&mut self, now: u64)
        requires
            old(self).wf(),
        ensures
            *final(self) == old(self).spec_record(now),
            final(self).wf(),
    {
        let adjusted = if now >= self.now_time {
            now
        } else {
            self.now_time
        };
        self.last_time = self.now_time;
        self.now_time = adjusted;
        if self.now_time >= self.next_fps_time {
            self.curr_fps = self.fps_ctr;
            self.fps_ctr = 0;
            self.next_fps_time = sat_add(self.now_time, MS_PER_SECOND);
        } else {
            if self.fps_ctr < usize::MAX {
                self.fps_ctr = self.fps_ctr + 1;
            }
        }
    }

    /// A fresh tracker, started at the current clock and already
    /// updated once, exactly as a first frame would: some clock
    /// reading `c` seeded every timestamp, and one frame at some
    /// later reading `n` was then recorded.
    pub fn new() -> (t: TimeTracker)
        ensures
            t.wf(),
            t.curr_fps == 0,
            t.fps_ctr <= 1,
            exists|c: u64, n: u64|
                t == (TimeTracker {
                    epoch: t.epoch,
                    last_time: c,
                    now_time: c,
                    next_fps_time: sat_add64(c, MS_PER_SECOND),
                    fps_ctr: 0,
                    curr_fps: 0,
                }).spec_record(n),
    {
        let epoch = instant_now();
        let curr_time = clock_ms(&epoch);
        let mut t = TimeTracker {
            epoch,
            last_time: curr_time,
            now_time: curr_time,
            next_fps_time: sat_add(curr_time, MS_PER_SECOND),
            fps_ctr: 0,
            curr_fps: 0,
        };
        let ghost t0 = t;
        t.update();
        proof {
            let n = choose|n: u64| t == t0.spec_record(n);
            assert(t == (TimeTracker {
                epoch: t.epoch,
                last_time: curr_time,
                now_time: curr_time,
                next_fps_time: sat_add64(curr_time, MS_PER_SECOND),
                fps_ctr: 0,
                curr_fps: 0,
            }).spec_record(n));
        }
        t
    }

    /// Record a frame at the clock's current reading.
    pub fn update(&mut self)
        requires
            old(self).wf(),
        ensures
            exists|now: u64| *final(self) == old(self).spec_record(now),
            final(self).wf(),
    {
        let now = clock_ms(&self.epoch);
        self.record_frame(now);
        proof {
            assert(*self == old(self).spec_record(now));
        }
    }

    /// The frame count published at the end of the last full second.
    pub fn get_curr_fps(&self) -> (fps: usize)
        ensures
            fps == self.curr_fps,
    {
        self.curr_fps
    }

    /// Milliseconds between the two most recent recorded frames.
    pub fn get_ms_since(&self) -> (ms: usize)
        requires
            self.wf(),
        ensures
            ms == (self.now_time - self.last_time) as usize,
    {
        #[verifier::truncate]
        let ms = (self.now_time - self.last_time) as usize;
        ms
    }
}

/// Frame budget in milliseconds for a requested frame rate: the whole
/// number of milliseconds each frame may take.
pub open spec fn spec_frame_budget(fps: u64) -> int
    recommends
        fps > 0,
{
    1000int / fps as int
}

/// Length of one frame in milliseconds at `fps` frames per second.
pub fn frame_budget_ms(fps: u64) -> (budget: u64)
    requires
        fps > 0,
    ensures
        budget == spec_frame_budget(fps),
{
    1000 / fps
}

/// How long a frame-rate throttle should sleep after a frame: the time
/// left until the deadline of a frame begun at `frame_start`, or `None`
/// when the deadline has already passed by the time `now` was sampled.
pub fn throttle_delay_ms(frame_start: u64, now: u64, fps: u64) -> (delay: Option<u64>)
    requires
        fps > 0,
    ensures
        ({
            let deadline = sat_add64(frame_start, spec_frame_budget(fps) as u64);
            delay == if now < deadline {
                Some((deadline - now) as u64)
            } else {
                None::<u64>
            }
        }),
{
    let deadline = sat_add(frame_start, frame_budget_ms(fps));
    if now < deadline {
        Some(deadline - now)
    } else {
        None
    }
}

} // verus!
