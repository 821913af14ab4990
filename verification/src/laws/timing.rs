//! Laws of what goes by the clock: presses, detents and taps.

use vstd::prelude::*;

use crate::encoder_accel::{curve, detent_steps};
use crate::long_press::{Edge, Gesture, PressModel};
use crate::tap_tempo::{tap_result, taps_after, tempo};

verus! {

/// A detent counts 8 steps within 20 ms of the one before, 4 within 50, 2 within 100,
/// and otherwise 1.
pub proof fn law_curve(interval_ms: u32)
    ensures
        curve(interval_ms) == 8 <==> interval_ms < 20,
        curve(interval_ms) == 4 <==> 20 <= interval_ms < 50,
        curve(interval_ms) == 2 <==> 50 <= interval_ms < 100,
        curve(interval_ms) == 1 <==> interval_ms >= 100,
        detent_steps(None, interval_ms) == 1,
{
}

/// A button is held from its press to its release, whatever polls come between, and
/// how long a long press takes never changes.
pub proof fn law_held_from_press_to_release(d: PressModel, edge: Option<Edge>, now_ms: u32)
    ensures
        edge == Some(Edge::Activate) ==> d.next(edge, now_ms).active,
        edge == Some(Edge::Deactivate) ==> !d.next(edge, now_ms).active,
        edge is None ==> d.next(edge, now_ms).active == d.active,
        d.next(edge, now_ms).threshold_ms == d.threshold_ms,
        d.next(edge, now_ms).press_time == if edge == Some(Edge::Activate) {
            now_ms
        } else {
            d.press_time
        },
{
}

/// A button is held for the time that has passed since its press, also where the clock
/// has wrapped and however often it was polled, and no longer once it was let go. A poll
/// brings the long press exactly once that time has reached the threshold.
pub proof fn law_held_for(d: PressModel, pressed_ms: u32, poll_ms: u32, passed: u32)
    ensures
        ({
            let now_ms = pressed_ms.wrapping_add(passed);
            let pressed = d.next(Some(Edge::Activate), pressed_ms);
            &&& pressed.held_for(now_ms) == passed
            &&& pressed.next(None, poll_ms).held_for(now_ms) == passed
            &&& pressed.next(Some(Edge::Deactivate), poll_ms).held_for(now_ms) == 0
            &&& pressed.gesture(None, now_ms) is Some <==> passed >= d.threshold_ms
        }),
{
}

/// A press or a poll is never a short press and an edge is never a long press; a
/// release is one exactly where no long press came before it since the press.
pub proof fn law_which_gesture(d: PressModel, edge: Option<Edge>, now_ms: u32)
    ensures
        d.gesture(edge, now_ms) == Some(Gesture::ShortPress) <==> edge == Some(Edge::Deactivate)
            && !d.fired,
        d.gesture(edge, now_ms) == Some(Gesture::LongPress) <==> edge is None && d.active
            && !d.fired && now_ms.wrapping_sub(d.press_time) >= d.threshold_ms,
        d.gesture(edge, now_ms) == Some(Gesture::LongPress) ==> d.next(edge, now_ms).fired,
        d.gesture(edge, now_ms) is None && edge != Some(Edge::Activate) ==> d.next(
            edge,
            now_ms,
        ).fired == d.fired,
        edge == Some(Edge::Deactivate) ==> d.next(edge, now_ms).fired == d.fired,
        edge == Some(Edge::Activate) ==> !d.next(edge, now_ms).fired,
{
}

/// A detector starts out with nothing held, and with the threshold it was made for:
/// half a second for one that swallows the next release.
pub proof fn law_new_detector(threshold_ms: u32)
    ensures
        !PressModel::idle(threshold_ms).active && !PressModel::idle(threshold_ms).fired,
        PressModel::idle(threshold_ms).threshold_ms == threshold_ms,
        !PressModel::spent().active && PressModel::spent().fired,
        PressModel::spent().threshold_ms == 500,
{
}

/// The tempo of four taps is three beats to their span, rounded down to whole beats
/// per minute; there is one exactly where that is from 30 to 300.
pub proof fn law_tempo(span_ms: u32)
    ensures
        tempo(span_ms) matches Some(bpm) ==> bpm * span_ms <= 3 * 60_000 && 3 * 60_000 < (bpm + 1)
            * span_ms,
        tempo(span_ms) is Some <==> 30 * span_ms <= 3 * 60_000 && 3 * 60_000 < 301 * span_ms,
{
    if span_ms > 0 {
        let d = span_ms as int;
        let q = 180_000int / d;
        vstd::arithmetic::div_mod::lemma_fundamental_div_mod(180_000, d);
        vstd::arithmetic::mul::lemma_mul_is_commutative(d, q);
        vstd::arithmetic::mul::lemma_mul_is_distributive_add_other_way(d, q, 1);
        assert(30 <= q <==> 30 * d <= 180_000) by (nonlinear_arith)
            requires
                q * d <= 180_000,
                180_000 < (q + 1) * d,
                d > 0,
        ;
        assert(q <= 300 <==> 180_000 < 301 * d) by (nonlinear_arith)
            requires
                q * d <= 180_000,
                180_000 < (q + 1) * d,
                d > 0,
        ;
    }
}

/// The tempo is measured from the third tap before: a tap is kept for the next three,
/// and then forgotten.
pub proof fn law_taps_kept(a: u32, b: u32, c: u32, d: u32, taps: Seq<u32>)
    requires
        taps.len() <= 3,
    ensures
        ({
            let four = taps_after(taps_after(taps_after(taps, a), b), c);
            &&& four == seq![a, b, c]
            &&& tap_result(four, d) == tempo(d.wrapping_sub(a))
            &&& taps.len() < 3 ==> tap_result(taps, a) is None
        }),
{
    assert(taps_after(taps_after(taps_after(taps, a), b), c) =~= seq![a, b, c]);
}

} // verus!
