//! Tap tempo: the tempo of four taps in a row.
//!
//! Platform-agnostic: accepts `now_ms` timestamps.

use vstd::prelude::*;

verus! {

/// The slowest tempo that taps set, in BPM.
pub const MIN_BPM: u32 = 30;

/// The fastest tempo that taps set, in BPM.
pub const MAX_BPM: u32 = 300;

/// Tap tempo state: the times of the last three taps.
#[derive(Debug, Clone, Copy)]
pub struct TapTempo {
    times: [u32; 3],
    count: u8,
}

/// The tempo of four taps that took `span_ms` from the first to the last: three
/// intervals, so three times a minute's milliseconds over the span. A span that
/// gives no tempo in range sets none.
pub open spec fn tempo(span_ms: u32) -> Option<u16> {
    if span_ms > 0 && MIN_BPM <= 180_000u32 / span_ms <= MAX_BPM {
        Some((180_000u32 / span_ms) as u16)
    } else {
        None
    }
}

/// What a tap at `now_ms` gives after the taps in `taps`: the first three taps only
/// start the measurement.
pub open spec fn tap_result(taps: Seq<u32>, now_ms: u32) -> Option<u16> {
    if taps.len() == 3 {
        tempo(now_ms.wrapping_sub(taps[0]))
    } else {
        None
    }
}

/// The taps that the next one is measured against.
pub open spec fn taps_after(taps: Seq<u32>, now_ms: u32) -> Seq<u32> {
    if taps.len() == 3 {
        seq![taps[1], taps[2], now_ms]
    } else {
        taps.push(now_ms)
    }
}

/// A tempo that taps set lies in the range of tempi.
pub proof fn law_tempo_in_range(span_ms: u32)
    ensures
        tempo(span_ms) matches Some(bpm) ==> MIN_BPM <= bpm <= MAX_BPM,
{
}

/// Four taps that are `interval_ms` apart give the tempo of that interval, a minute
/// over it, where it is in range, also where the clock has wrapped.
pub proof fn law_even_taps(first_ms: u32, interval_ms: u32)
    requires
        200 <= interval_ms <= 2000,
    ensures
        ({
            let t1 = first_ms.wrapping_add(interval_ms);
            let t2 = t1.wrapping_add(interval_ms);
            let t3 = t2.wrapping_add(interval_ms);
            let none = Seq::<u32>::empty();
            let one = taps_after(none, first_ms);
            let two = taps_after(one, t1);
            let three = taps_after(two, t2);
            &&& tap_result(none, first_ms) is None
            &&& tap_result(one, t1) is None
            &&& tap_result(two, t2) is None
            &&& tap_result(three, t3) == Some((60_000u32 / interval_ms) as u16)
        }),
{
    let a = interval_ms as int;
    let span = (3 * a) as u32;
    vstd::arithmetic::div_mod::lemma_div_denominator(180_000, 3, a);
    assert(180_000u32 / span == 60_000u32 / interval_ms);
    assert(30 <= 60_000u32 / interval_ms <= 300) by (nonlinear_arith)
        requires
            200 <= interval_ms <= 2000,
    ;
}

impl View for TapTempo {
    /// The times of the taps that the next one is measured against.
    type V = Seq<u32>;

    closed spec fn view(&self) -> Seq<u32> {
        if self.count >= 3 {
            self.times@
        } else {
            self.times@.take(self.count as int)
        }
    }
}

impl Default for TapTempo {
    fn default() -> (r: Self)
        ensures
            r@ == Seq::<u32>::empty(),
    {
        Self::new()
    }
}

impl TapTempo {
    pub fn new() -> (r: Self)
        ensures
            r@ == Seq::<u32>::empty(),
    {
        TapTempo { times: [0, 0, 0], count: 0 }
    }

    /// Record a tap at `now_ms`. Returns the tempo in BPM once there are four taps
    /// to measure.
    pub fn tap(&mut self, now_ms: u32) -> (r: Option<u16>)
        ensures
            r == tap_result(old(self)@, now_ms),
            final(self)@ == taps_after(old(self)@, now_ms),
    {
        if self.count < 3 {
            let used: usize = self.count as usize;
            self.times[used] = now_ms;
            self.count = self.count + 1;
            assert(self@ =~= taps_after(old(self)@, now_ms));
            return None;
        }
        let span_ms: u32 = now_ms.wrapping_sub(self.times[0]);
        self.times = [self.times[1], self.times[2], now_ms];
        assert(self@ =~= taps_after(old(self)@, now_ms));
        if span_ms == 0 {
            return None;
        }
        let bpm: u32 = 180_000 / span_ms;
        if bpm < MIN_BPM || bpm > MAX_BPM {
            return None;
        }
        Some(bpm as u16)
    }
}

} // verus!
