//! Long-press detection: distinguishes short press from long press using timestamps.
//!
//! Call `update(edge, now_ms)` on each input poll. Returns a `Gesture` when detected:
//! - `ShortPress` on release before the threshold
//! - `LongPress` once held for the threshold
//!
//! Platform-agnostic: the caller provides a monotonic time in milliseconds.

use vstd::prelude::*;

verus! {

/// Default long-press threshold in milliseconds.
pub const LONG_PRESS_MS: u32 = 500;

/// Input edge from a debounced button.
#[derive(Debug, Clone, Copy, PartialEq, Eq, Structural)]
pub enum Edge {
    Activate,
    Deactivate,
}

/// Detected gesture after timing analysis.
#[derive(Debug, Clone, Copy, PartialEq, Eq, Structural)]
pub enum Gesture {
    ShortPress,
    LongPress,
}

/// Detects long-press gestures using absolute timestamps.
///
/// Call `update()` on each poll cycle with the current edge (if any) and the
/// current monotonic time in milliseconds.
#[derive(Debug, Clone, Copy)]
pub struct LongPressDetector {
    press_time: u32,
    active: bool,
    fired: bool,
    threshold_ms: u32,
}

/// What a detector knows: when the button went down last, whether it is down,
/// whether a release is to be swallowed, and how long a long press takes.
pub ghost struct PressModel {
    pub press_time: u32,
    pub active: bool,
    pub fired: bool,
    pub threshold_ms: u32,
}

impl PressModel {
    /// A detector that has seen nothing yet.
    pub open spec fn idle(threshold_ms: u32) -> PressModel {
        PressModel { press_time: 0, active: false, fired: false, threshold_ms }
    }

    /// A detector that swallows the next release.
    pub open spec fn spent() -> PressModel {
        PressModel { fired: true, ..PressModel::idle(LONG_PRESS_MS) }
    }

    /// The gesture that an edge, or a poll without one, brings at `now_ms`.
    pub open spec fn gesture(self, edge: Option<Edge>, now_ms: u32) -> Option<Gesture> {
        match edge {
            Some(Edge::Activate) => None,
            Some(Edge::Deactivate) => if self.fired {
                None
            } else {
                Some(Gesture::ShortPress)
            },
            None => if self.active && !self.fired && now_ms.wrapping_sub(self.press_time)
                >= self.threshold_ms {
                Some(Gesture::LongPress)
            } else {
                None
            },
        }
    }

    /// For how long the button is held by `now_ms`.
    pub open spec fn held_for(self, now_ms: u32) -> u32 {
        if self.active {
            now_ms.wrapping_sub(self.press_time)
        } else {
            0
        }
    }

    /// The detector after it.
    pub open spec fn next(self, edge: Option<Edge>, now_ms: u32) -> PressModel {
        match edge {
            Some(Edge::Activate) => PressModel {
                active: true,
                press_time: now_ms,
                fired: false,
                ..self
            },
            Some(Edge::Deactivate) => PressModel { active: false, ..self },
            None => PressModel {
                fired: self.fired || self.gesture(edge, now_ms) is Some,
                ..self
            },
        }
    }
}

impl View for LongPressDetector {
    type V = PressModel;

    closed spec fn view(&self) -> PressModel {
        PressModel {
            press_time: self.press_time,
            active: self.active,
            fired: self.fired,
            threshold_ms: self.threshold_ms,
        }
    }
}

impl Default for LongPressDetector {
    fn default() -> (r: Self)
        ensures
            r@ == PressModel::idle(LONG_PRESS_MS),
    {
        Self::new()
    }
}

impl LongPressDetector {
    pub fn new() -> (r: Self)
        ensures
            r@ == PressModel::idle(LONG_PRESS_MS),
    {
        LongPressDetector {
            press_time: 0,
            active: false,
            fired: false,
            threshold_ms: LONG_PRESS_MS,
        }
    }

    /// Create a detector with a custom threshold.
    pub fn with_threshold(threshold_ms: u32) -> (r: Self)
        ensures
            r@ == PressModel::idle(threshold_ms),
    {
        LongPressDetector { press_time: 0, active: false, fired: false, threshold_ms }
    }

    /// Create a detector in "fired" state: a subsequent Deactivate will be suppressed.
    /// Used after preset switch to ignore stale button releases.
    pub fn new_fired() -> (r: Self)
        ensures
            r@ == PressModel::spent(),
    {
        LongPressDetector {
            press_time: 0,
            active: false,
            fired: true,
            threshold_ms: LONG_PRESS_MS,
        }
    }

    /// Update with the current edge and timestamp.
    /// Returns a gesture when detected.
    pub fn update(&mut self, edge: Option<Edge>, now_ms: u32) -> (r: Option<Gesture>)
        ensures
            r == old(self)@.gesture(edge, now_ms),
            final(self)@ == old(self)@.next(edge, now_ms),
    {
        match edge {
            Some(Edge::Activate) => {
                self.active = true;
                self.press_time = now_ms;
                self.fired = false;
                None
            },
            Some(Edge::Deactivate) => {
                self.active = false;
                if self.fired {
                    // Long press already handled, suppress short press
                    None
                } else {
                    Some(Gesture::ShortPress)
                }
            },
            None => {
                if self.active && !self.fired {
                    let held_ms: u32 = now_ms.wrapping_sub(self.press_time);
                    if held_ms >= self.threshold_ms {
                        self.fired = true;
                        return Some(Gesture::LongPress);
                    }
                }
                None
            },
        }
    }

    /// Returns true while the button is held (before or after firing).
    pub fn is_active(&self) -> (r: bool)
        ensures
            r == self@.active,
    {
        self.active
    }

    /// Returns true if the long press gesture has already fired.
    pub fn has_fired(&self) -> (r: bool)
        ensures
            r == self@.fired,
    {
        self.fired
    }

    /// Returns ms elapsed since press, or 0 if not active.
    pub fn held_ms(&self, now_ms: u32) -> (r: u32)
        ensures
            r == self@.held_for(now_ms),
    {
        if self.active {
            now_ms.wrapping_sub(self.press_time)
        } else {
            0
        }
    }
}

/// A detector after polls at the given times, with no edge in between.
pub open spec fn polled(d: PressModel, times: Seq<u32>) -> PressModel
    decreases times.len(),
{
    if times.len() == 0 {
        d
    } else {
        polled(d, times.drop_last()).next(None, times.last())
    }
}

/// Once a press has fired as a long press, no poll fires it again and its release
/// is swallowed, however long the button is held and whenever it is let go.
pub proof fn law_long_press_fires_once(d: PressModel, times: Seq<u32>, now_ms: u32)
    requires
        d.fired,
    ensures
        polled(d, times) == d,
        polled(d, times).gesture(None, now_ms) is None,
        polled(d, times).gesture(Some(Edge::Deactivate), now_ms) is None,
    decreases times.len(),
{
    if times.len() > 0 {
        law_long_press_fires_once(d, times.drop_last(), now_ms);
    }
}

/// A press that is polled only before the threshold, and let go, is a short press.
pub proof fn law_early_release_is_short(
    d: PressModel,
    pressed_ms: u32,
    times: Seq<u32>,
    released_ms: u32,
)
    requires
        forall|i: int|
            0 <= i < times.len() ==> (#[trigger] times[i]).wrapping_sub(pressed_ms)
                < d.threshold_ms,
    ensures
        ({
            let held = polled(d.next(Some(Edge::Activate), pressed_ms), times);
            &&& held == d.next(Some(Edge::Activate), pressed_ms)
            &&& held.gesture(Some(Edge::Deactivate), released_ms) == Some(Gesture::ShortPress)
        }),
    decreases times.len(),
{
    if times.len() > 0 {
        assert forall|i: int| 0 <= i < times.drop_last().len() implies (
        #[trigger] times.drop_last()[i]).wrapping_sub(pressed_ms) < d.threshold_ms by {
            assert(times.drop_last()[i] == times[i]);
        }
        law_early_release_is_short(d, pressed_ms, times.drop_last(), released_ms);
        assert(times.last() == times[times.len() - 1]);
    }
}

/// A press that is polled once it has been held for the threshold is a long press,
/// also where the clock has wrapped since.
pub proof fn law_hold_is_long(d: PressModel, pressed_ms: u32, held_ms: u32)
    requires
        held_ms >= d.threshold_ms,
    ensures
        d.next(Some(Edge::Activate), pressed_ms).gesture(None, pressed_ms.wrapping_add(held_ms))
            == Some(Gesture::LongPress),
{
}

/// A spent detector swallows one stale release, and the press after it counts.
pub proof fn law_spent_swallows_stale_release(t0: u32, t1: u32, t2: u32)
    ensures
        PressModel::spent().gesture(Some(Edge::Deactivate), t0) is None,
        PressModel::spent().next(Some(Edge::Deactivate), t0).next(Some(Edge::Activate), t1).gesture(
            Some(Edge::Deactivate),
            t2,
        ) == Some(Gesture::ShortPress),
{
}

} // verus!
