//! Encoder acceleration: converts time intervals between detents into step multipliers.
//!
//! Faster turning means shorter intervals and more steps per detent.
//! Platform-agnostic: accepts `now_ms` timestamps.

use vstd::prelude::*;

verus! {

/// Encoder acceleration state. Tracks time of last detent.
#[derive(Debug, Clone, Copy)]
pub struct EncoderAccel {
    last_detent_ms: u32,
    initialized: bool,
}

impl View for EncoderAccel {
    /// The time of the last detent, if there was one.
    type V = Option<u32>;

    closed spec fn view(&self) -> Option<u32> {
        if self.initialized {
            Some(self.last_detent_ms)
        } else {
            None
        }
    }
}

/// Acceleration curve: interval (ms) to step count.
pub open spec fn curve(interval_ms: u32) -> u8 {
    if interval_ms < 20 {
        8
    } else if interval_ms < 50 {
        4
    } else if interval_ms < 100 {
        2
    } else {
        1
    }
}

/// The steps of a detent at `now_ms` where the one before came at `last`.
pub open spec fn detent_steps(last: Option<u32>, now_ms: u32) -> u8 {
    match last {
        Some(t) => curve(now_ms.wrapping_sub(t)),
        None => 1,
    }
}

/// Turning faster never gives fewer steps.
pub proof fn law_faster_is_never_less(short: u32, long: u32)
    requires
        short <= long,
    ensures
        curve(short) >= curve(long),
{
}

/// Every detent moves, by at most 8 steps; the first one moves by one step.
pub proof fn law_steps_in_range(last: Option<u32>, now_ms: u32)
    ensures
        1 <= detent_steps(last, now_ms) <= 8,
        last is None ==> detent_steps(last, now_ms) == 1,
{
}

/// The interval is what has passed since the last detent even where the clock has
/// wrapped in between.
pub proof fn law_interval_survives_wrap(last: u32, passed: u32)
    ensures
        detent_steps(Some(last), last.wrapping_add(passed)) == curve(passed),
{
}

impl Default for EncoderAccel {
    fn default() -> (r: Self)
        ensures
            r@ is None,
    {
        Self::new()
    }
}

impl EncoderAccel {
    pub fn new() -> (r: Self)
        ensures
            r@ is None,
    {
        EncoderAccel { last_detent_ms: 0, initialized: false }
    }

    /// Record a detent at `now_ms` and return the number of steps to apply.
    /// First detent always returns 1 (no interval to measure yet).
    pub fn steps(&mut self, now_ms: u32) -> (r: u8)
        ensures
            r == detent_steps(old(self)@, now_ms),
            final(self)@ == Some(now_ms),
    {
        if !self.initialized {
            self.last_detent_ms = now_ms;
            self.initialized = true;
            return 1;
        }
        let interval_ms: u32 = now_ms.wrapping_sub(self.last_detent_ms);
        self.last_detent_ms = now_ms;

        accel_curve(interval_ms)
    }

    /// Reset state (e.g., on preset switch).
    pub fn reset(&mut self)
        ensures
            final(self)@ is None,
    {
        self.initialized = false;
    }
}

/// Acceleration curve: interval (ms) to step count.
/// Tuned for typical rotary encoders with ~20 detents/revolution.
fn accel_curve(interval_ms: u32) -> (r: u8)
    ensures
        r == curve(interval_ms),
{
    if interval_ms < 20 {
        8  // very fast

    } else if interval_ms < 50 {
        4  // fast

    } else if interval_ms < 100 {
        2  // moderate

    } else {
        1  // slow/normal

    }
}

} // verus!
