//! Laws of the LED rings: what a viewer sees of renderers and modifiers.

use vstd::prelude::*;

use crate::led::{
    arc_place, brightness, dimmed, dot_spacing, dots, heat, heat_lit, hour, hue, quarter_wave, rgb,
    sine, spatial, Modifier, Renderer, Rgb, RingAnimation, RingModel,
};

verus! {

/// Every component is scaled by itself, by `factor` parts in 255, rounded down.
pub proof fn law_scale_in_proportion(c: Rgb, factor: u8)
    ensures
        255 * c.scaled(factor).r <= c.r * factor < 255 * (c.scaled(factor).r + 1),
        255 * c.scaled(factor).g <= c.g * factor < 255 * (c.scaled(factor).g + 1),
        255 * c.scaled(factor).b <= c.b * factor < 255 * (c.scaled(factor).b + 1),
{
    lemma_dimmed_in_proportion(c.r, factor);
    lemma_dimmed_in_proportion(c.g, factor);
    lemma_dimmed_in_proportion(c.b, factor);
}

proof fn lemma_dimmed_in_proportion(component: u8, factor: u8)
    ensures
        255 * dimmed(component, factor) <= component * factor < 255 * (dimmed(component, factor)
            + 1),
{
    assert(0 <= component * factor <= 255 * 255) by (nonlinear_arith)
        requires
            0 <= component <= 255,
            0 <= factor <= 255,
    ;
}

/// The LEDs stand round the clock against its hands, from 3 o'clock on: each an hour
/// before the one of the number below.
pub proof fn law_hours(led: int)
    requires
        0 <= led < 12,
    ensures
        0 <= hour(led) < 12,
        led == 0 ==> hour(led) == 3,
        (hour((led + 1) % 12) + 1) % 12 == hour(led),
{
}

/// A solid ring has its color on every LED, and one that is off has none.
pub proof fn law_solid(c: Rgb, rotation: u8, led: int)
    requires
        0 <= led < 12,
    ensures
        spatial(Renderer::Solid(c), rotation)[led] == c,
        spatial(Renderer::Off, rotation)[led] == rgb(0, 0, 0),
        spatial(Renderer::Solid(c), rotation).len() == 12,
{
}

/// A single LED is the one at its hour, and all others are dark.
pub proof fn law_single(c: Rgb, pos: u8, rotation: u8, led: int)
    requires
        0 <= led < 12,
    ensures
        spatial(Renderer::Single(c, pos), rotation)[led] == if (pos - hour(led)) % 12 == 0 {
            c
        } else {
            rgb(0, 0, 0)
        },
{
}

/// As many dots as are asked for, at least one and at most twelve, with as many hours
/// from one to the next as all of them have room for.
pub proof fn law_dot_spacing(count: u8)
    ensures
        1 <= count <= 12 ==> dots(count) == count,
        count == 0 ==> dots(count) == 1,
        count > 12 ==> dots(count) == 12,
        dot_spacing(count) * dots(count) <= 12,
        12 < (dot_spacing(count) + 1) * dots(count),
{
    let n = dots(count);
    vstd::arithmetic::div_mod::lemma_fundamental_div_mod(12, n);
    vstd::arithmetic::mul::lemma_mul_is_commutative(n, dot_spacing(count));
    vstd::arithmetic::mul::lemma_mul_is_distributive_add_other_way(n, dot_spacing(count), 1);
}

/// The potentiometer arc starts at 7 o'clock and goes on with the hours, and eleven
/// twelfths of the fill are lit, rounded down, never more than eleven.
pub proof fn law_arc(fill: u8, h: int)
    requires
        0 <= h < 12,
    ensures
        h == 7 ==> arc_place(h) == 0,
        h != 6 ==> arc_place((h + 1) % 12) == arc_place(h) + 1,
        fill <= 12 ==> 12 * heat_lit(fill) <= 11 * fill < 12 * (heat_lit(fill) + 1),
        fill > 12 ==> heat_lit(fill) == 11,
{
}

/// Along the arc the color goes from blue over green to red: blue never comes back,
/// red never goes, and there is no blue once there is red.
pub proof fn law_heat_gradient(low: int, high: int)
    requires
        0 <= low <= high < 11,
    ensures
        heat(low, 11).b >= heat(high, 11).b,
        heat(low, 11).r <= heat(high, 11).r,
        heat(low, 11).r == 0 || heat(low, 11).b == 0,
        low < high ==> heat(low, 11) != heat(high, 11),
        heat(0, 11).b == 255,
        heat(5, 11).g >= 254,
        heat(10, 11).r >= 254,
{
    let s = (low * 255) / 10;
    let t = (high * 255) / 10;
    assert(0 <= s <= t <= 255);
    assert(low < high ==> s + 25 <= t);
}

/// A glowing ring shows every second LED at 32 parts in 255, an eighth of its color,
/// and the others dark, at every tick.
pub proof fn law_glow(ring: RingModel, led: int)
    requires
        ring.animation.modifier == Modifier::Glow,
        0 <= led < 12,
    ensures
        ({
            let base = spatial(ring.animation.renderer, ring.rotation)[led];
            let px = ring.shown()[led];
            &&& led % 2 == 1 ==> px == rgb(0, 0, 0)
            &&& led % 2 == 0 ==> {
                &&& 255 * px.r <= 32 * base.r < 255 * (px.r + 1)
                &&& 255 * px.g <= 32 * base.g < 255 * (px.g + 1)
                &&& 255 * px.b <= 32 * base.b < 255 * (px.b + 1)
            }
        }),
{
    law_scale_in_proportion(spatial(ring.animation.renderer, ring.rotation)[led], 32);
}

/// Without a modifier a ring shows its pattern at every tick, and a rotating one shows
/// it for its first 5 ticks and then moves on by whole steps of 5 ticks.
pub proof fn law_steady(ring: RingModel, led: int)
    requires
        0 <= led < 12,
    ensures
        ring.shown().len() == 12,
        ring.animation.modifier == Modifier::Solid ==> ring.shown()[led] == spatial(
            ring.animation.renderer,
            ring.rotation,
        )[led],
        ring.animation.modifier == Modifier::Rotate && ring.tick < 5 ==> ring.shown()[led]
            == spatial(ring.animation.renderer, ring.rotation)[led],
        ring.animation.modifier == Modifier::Rotate ==> ring.shown()[led] == (RingModel {
            tick: (ring.tick - ring.tick % 5) as u16,
            ..ring
        }).shown()[led],
{
    assert(((ring.tick - ring.tick % 5) as u16) / 5 == ring.tick / 5);
}

/// The wave rises from dark to full, each step no larger than the one before, through
/// eight pairs of places of a given brightness.
pub proof fn law_wave(i: int)
    requires
        0 <= i < 16,
    ensures
        quarter_wave().len() == 16,
        quarter_wave()[0] == 0,
        quarter_wave()[15] == 255,
        i < 15 ==> quarter_wave()[i] < quarter_wave()[i + 1],
        i < 14 ==> quarter_wave()[i + 1] - quarter_wave()[i] >= quarter_wave()[i + 2]
            - quarter_wave()[i + 1],
        i % 2 == 0 ==> quarter_wave()[i] + quarter_wave()[i + 1] == seq![
            25int,
            124,
            218,
            304,
            377,
            439,
            482,
            506,
        ][i / 2],
{
}

/// A pulse brightens for 18 ticks and its second rise is its first, 37 ticks later.
pub proof fn law_pulse_rises(phase: int)
    requires
        0 <= phase < 18,
    ensures
        sine(phase, 75) <= sine(phase + 1, 75),
        sine(phase + 37, 75) == sine(phase, 75),
        sine(phase, 75) == quarter_wave()[phase * 15 / 18],
{
    let a = phase * 15 / 18;
    let b = (phase + 1) * 15 / 18;
    assert(0 <= a <= b <= 15);
    assert(b <= a + 1);
    law_wave(a);
    assert(phase % 75 == phase && (phase + 1) % 75 == phase + 1 && (phase + 37) % 75 == phase + 37);
    if phase < 17 {
        assert(sine(phase + 1, 75) == quarter_wave()[b]);
    } else {
        assert(sine(18, 75) == brightness(18, 18));
        assert((18int * 15) / 18 == 15);
    }
}

/// The hue goes round in small steps, through red, green and blue a third of the way
/// from each other: no component changes by more than 6 from one hue to the next.
pub proof fn law_hue_circle(h: u8)
    ensures
        hue(0) == rgb(255, 0, 0),
        hue(86) == rgb(0, 255, 0),
        hue(172) == rgb(0, 0, 255),
        h < 255 ==> -6 <= hue((h + 1) as u8).r - hue(h).r <= 6,
        h < 255 ==> -6 <= hue((h + 1) as u8).g - hue(h).g <= 6,
        h < 255 ==> -6 <= hue((h + 1) as u8).b - hue(h).b <= 6,
        // Each third of the circle lies between two of the three
        h < 86 ==> hue(h).b == 0,
        86 <= h < 172 ==> hue(h).r == 0,
        172 <= h ==> hue(h).g == 0,
{
    let a = h / 43;
    assert(h < 43 ==> a == 0);
    assert(43 <= h < 86 ==> a == 1);
    assert(86 <= h < 129 ==> a == 2);
    assert(129 <= h < 172 ==> a == 3);
    assert(172 <= h < 215 ==> a == 4);
    assert(215 <= h ==> a == 5);
}

/// A pulsing ring shows its pattern at the brightness of the tick.
pub proof fn law_pulse_scales(ring: RingModel, led: int)
    requires
        ring.animation.modifier == Modifier::Pulse,
        0 <= led < 12,
    ensures
        ({
            let base = spatial(ring.animation.renderer, ring.rotation)[led];
            let px = ring.shown()[led];
            let level = sine(ring.tick as int % 75, 75);
            &&& 255 * px.r <= base.r * level < 255 * (px.r + 1)
            &&& 255 * px.g <= base.g * level < 255 * (px.g + 1)
            &&& 255 * px.b <= base.b * level < 255 * (px.b + 1)
        }),
{
    let t = ring.tick as int;
    assert((t % 75) % 75 == t % 75);
    law_scale_in_proportion(
        spatial(ring.animation.renderer, ring.rotation)[led],
        sine(ring.tick as int, 75),
    );
}

/// A ring shows what it was last told to, from its first tick on; to be told so again
/// changes nothing, and neither that nor a tick moves its anchor.
pub proof fn law_told(ring: RingModel, anim: RingAnimation)
    ensures
        ring.showing(anim).animation == anim,
        ring.showing(anim).rotation == ring.rotation,
        ring.animation != anim ==> ring.showing(anim).tick == 0,
        ring.animation == anim ==> ring.showing(anim).tick == ring.tick,
        ring.showing(anim).ticked().showing(anim) == ring.showing(anim).ticked(),
        ring.ticked().animation == ring.animation,
        ring.ticked().rotation == ring.rotation,
        ring.tick < u16::MAX ==> ring.ticked().tick == ring.tick + 1,
        ring.tick == u16::MAX ==> ring.ticked().tick == 0,
{
}

/// A new ring has every LED dark, however long it runs, and its anchor where it was put.
pub proof fn law_starts_dark(rotation: u8, led: int)
    requires
        0 <= led < 12,
    ensures
        RingModel::dark(rotation).shown()[led] == rgb(0, 0, 0),
        RingModel::dark(rotation).ticked().shown()[led] == rgb(0, 0, 0),
        RingModel::dark(rotation).rotation == rotation,
        RingModel::dark(rotation).tick == 0,
{
}

} // verus!
