//! LED ring renderer: spatial patterns + temporal modifiers.
//!
//! Design: the SK6812 LEDs handle brightness natively via RGB values.
//! The renderer produces a 12-pixel frame, then the modifier attenuates it per tick.

use vstd::prelude::*;

verus! {

pub const LEDS_PER_RING: usize = 12;

pub type RingFrame = [Rgb; LEDS_PER_RING];

/// RGB color (matches smart_leds::RGB8 layout).
#[derive(Debug, Copy, Clone, PartialEq, Eq, Structural)]
pub struct Rgb {
    pub r: u8,
    pub g: u8,
    pub b: u8,
}

impl Default for Rgb {
    fn default() -> (r: Self)
        ensures
            r == rgb(0, 0, 0),
    {
        Rgb::black()
    }
}

/// The color with the given components.
pub open spec fn rgb(r: u8, g: u8, b: u8) -> Rgb {
    Rgb { r, g, b }
}

/// One component at `factor` parts in 255, rounded down.
pub open spec fn dimmed(component: u8, factor: u8) -> u8 {
    ((component * factor) / 255) as u8
}

impl Rgb {
    pub fn new(r: u8, g: u8, b: u8) -> (c: Self)
        ensures
            c == rgb(r, g, b),
    {
        Rgb { r, g, b }
    }

    /// An unlit LED.
    pub fn black() -> (c: Self)
        ensures
            c == rgb(0, 0, 0),
    {
        Rgb { r: 0, g: 0, b: 0 }
    }

    /// Each component at `factor` parts in 255.
    pub open spec fn scaled(self, factor: u8) -> Rgb {
        rgb(dimmed(self.r, factor), dimmed(self.g, factor), dimmed(self.b, factor))
    }

    /// Scale brightness by factor 0..=255 (255 = full).
    pub fn scale(self, factor: u8) -> (c: Self)
        ensures
            c == self.scaled(factor),
    {
        proof {
            lemma_dimmed(self.r, factor);
            lemma_dimmed(self.g, factor);
            lemma_dimmed(self.b, factor);
        }
        Rgb {
            r: ((self.r as u16 * factor as u16) / 255) as u8,
            g: ((self.g as u16 * factor as u16) / 255) as u8,
            b: ((self.b as u16 * factor as u16) / 255) as u8,
        }
    }
}

proof fn lemma_dimmed(component: u8, factor: u8)
    ensures
        0 <= component * factor <= 255 * 255,
        (component * factor) / 255 <= component,
        (component * factor) / 255 <= 255,
{
    assert(0 <= component * factor <= component * 255 && component * 255 <= 255 * 255)
        by (nonlinear_arith)
        requires
            0 <= component <= 255,
            0 <= factor <= 255,
    ;
}

/// A factor of 0 is black, a factor of 255 changes nothing, and no factor makes a
/// component brighter.
pub proof fn law_scale(c: Rgb, factor: u8)
    ensures
        c.scaled(0) == rgb(0, 0, 0),
        c.scaled(255) == c,
        c.scaled(factor).r <= c.r,
        c.scaled(factor).g <= c.g,
        c.scaled(factor).b <= c.b,
{
    lemma_dimmed(c.r, factor);
    lemma_dimmed(c.g, factor);
    lemma_dimmed(c.b, factor);
}

/// A larger factor never gives a smaller component.
pub proof fn law_scale_monotone(c: Rgb, low: u8, high: u8)
    requires
        low <= high,
    ensures
        c.scaled(low).r <= c.scaled(high).r,
        c.scaled(low).g <= c.scaled(high).g,
        c.scaled(low).b <= c.scaled(high).b,
{
    lemma_dimmed_monotone(c.r, low, high);
    lemma_dimmed_monotone(c.g, low, high);
    lemma_dimmed_monotone(c.b, low, high);
}

proof fn lemma_dimmed_monotone(component: u8, low: u8, high: u8)
    requires
        low <= high,
    ensures
        dimmed(component, low) <= dimmed(component, high),
{
    lemma_dimmed(component, low);
    lemma_dimmed(component, high);
    assert(component * low <= component * high) by (nonlinear_arith)
        requires
            0 <= component,
            low <= high,
    ;
}

/// Spatial pattern: which LEDs are lit and what color.
#[derive(Debug, Copy, Clone, PartialEq, Eq, Structural)]
pub enum Renderer {
    Off,
    /// All 12 LEDs same color.
    Solid(Rgb),
    /// Arc from rotation anchor, `count` LEDs lit (0 to 12).
    Fill(Rgb, u8),
    /// Potentiometer arc (7h to 5h), blue to green to red. `fill` = 0 to 12.
    Heatmap(u8),
    /// Single LED at clock position (0 to 11).
    Single(Rgb, u8),
    /// N evenly-spaced LEDs (1,2,3,4,6,12).
    Dots(Rgb, u8),
}

/// Temporal modifier: how rendered pixels change over time.
#[derive(Debug, Copy, Clone, PartialEq, Eq, Structural)]
pub enum Modifier {
    /// No modulation, full brightness.
    Solid,
    /// Static dim (1/8 intensity, every second LED off): "available but inactive".
    Glow,
    /// On/off toggle, 12 ticks each.
    Blink,
    /// Sine-wave fade, period ~1.5s.
    Pulse,
    /// Rotate pattern clockwise, one step per ~100ms.
    Rotate,
    /// Cycle hue over time (ignores original color, keeps lit/unlit pattern).
    ColorCycle,
}

impl Default for Modifier {
    fn default() -> (r: Self)
        ensures
            r == Modifier::Solid,
    {
        Modifier::Solid
    }
}

/// Complete ring animation state.
#[derive(Debug, Copy, Clone, PartialEq, Eq, Structural)]
pub struct RingAnimation {
    pub renderer: Renderer,
    pub modifier: Modifier,
}

impl Default for RingAnimation {
    fn default() -> (r: Self)
        ensures
            r == (RingAnimation { renderer: Renderer::Off, modifier: Modifier::Solid }),
    {
        Self::off()
    }
}

impl RingAnimation {
    pub fn off() -> (r: Self)
        ensures
            r == (RingAnimation { renderer: Renderer::Off, modifier: Modifier::Solid }),
    {
        RingAnimation { renderer: Renderer::Off, modifier: Modifier::Solid }
    }

    pub fn solid(color: Rgb) -> (r: Self)
        ensures
            r == (RingAnimation { renderer: Renderer::Solid(color), modifier: Modifier::Solid }),
    {
        RingAnimation { renderer: Renderer::Solid(color), modifier: Modifier::Solid }
    }

    pub fn glow(color: Rgb) -> (r: Self)
        ensures
            r == (RingAnimation { renderer: Renderer::Solid(color), modifier: Modifier::Glow }),
    {
        RingAnimation { renderer: Renderer::Solid(color), modifier: Modifier::Glow }
    }
}

// --- What a ring shows ---

/// The clock hour (0 to 11) at which LED `led` stands. The LEDs run against the
/// clock, and LED 0 is at 3 o'clock.
pub open spec fn hour(led: int) -> int {
    (3 - led) % 12
}

/// How many LEDs past `anchor`, in the running order of an arc, LED `led` stands.
pub open spec fn behind(anchor: int, led: int) -> int {
    (anchor - led) % 12
}

/// How many LEDs of the potentiometer arc are lit.
pub open spec fn heat_lit(fill: u8) -> int {
    if fill >= 12 {
        11
    } else {
        fill * 11 / 12
    }
}

/// The place of an hour on the potentiometer arc, which starts at 7 o'clock.
pub open spec fn arc_place(h: int) -> int {
    (h + 5) % 12
}

/// The color at `pos` of `max` places: blue, over green, to red. Past the last place
/// the red half comes again.
pub open spec fn heat(pos: int, max: int) -> Rgb {
    if max <= 1 {
        rgb(0, 0, 255)
    } else {
        let t = (pos * 255) / (max - 1);
        if t < 128 {
            rgb(0, (2 * t) as u8, (255 - 2 * t) as u8)
        } else {
            let r = 2 * (t - 128) % 256;
            rgb(r as u8, (255 - r) as u8, 0)
        }
    }
}

/// How many dots a count stands for.
pub open spec fn dots(count: u8) -> int {
    if count < 1 {
        1
    } else if count > 12 {
        12
    } else {
        count as int
    }
}

/// How many hours lie from one dot to the next.
pub open spec fn dot_spacing(count: u8) -> int {
    12int / dots(count)
}

/// The color of LED `led` under a renderer, before any modifier.
pub open spec fn spatial_pixel(renderer: Renderer, rotation: u8, led: int) -> Rgb {
    match renderer {
        Renderer::Off => rgb(0, 0, 0),
        Renderer::Solid(c) => c,
        Renderer::Fill(c, count) => if behind(rotation as int, led) < count {
            c
        } else {
            rgb(0, 0, 0)
        },
        Renderer::Heatmap(fill) => if arc_place(hour(led)) < heat_lit(fill) {
            heat(arc_place(hour(led)), 11)
        } else {
            rgb(0, 0, 0)
        },
        Renderer::Single(c, pos) => if hour(led) == pos % 12 {
            c
        } else {
            rgb(0, 0, 0)
        },
        Renderer::Dots(c, count) => if hour(led) % dot_spacing(count) == 0 && hour(led)
            / dot_spacing(count) < dots(count) {
            c
        } else {
            rgb(0, 0, 0)
        },
    }
}

/// The frame of a renderer, before any modifier.
pub open spec fn spatial(renderer: Renderer, rotation: u8) -> Seq<Rgb> {
    Seq::new(12, |led: int| spatial_pixel(renderer, rotation, led))
}

/// The rising quarter of a sine wave, 16 steps from 0 to 255.
pub open spec fn quarter_wave() -> Seq<u8> {
    seq![0u8, 25, 50, 74, 98, 120, 142, 162, 180, 197, 213, 226, 237, 245, 251, 255]
}

/// How far up a hump of `len` places `pos` stands, where the hump rises for `rise`
/// places and then falls, to the bottom at its last place.
pub open spec fn hump(pos: int, len: int, rise: int) -> int {
    if pos < rise {
        pos
    } else {
        len - 1 - pos
    }
}

/// The brightness that far up, where the top is `rise` places up.
pub open spec fn brightness(height: int, rise: int) -> u8 {
    let step = (height * 15) / (if rise < 1 { 1 } else { rise });
    quarter_wave()[if step < 15 { step } else { 15 }]
}

/// The brightness at `phase` of a pulse of `period` ticks. A period has two humps,
/// the second of which takes the odd tick; each rises along the wave from dark to
/// bright for a quarter of the period, and falls back to dark.
pub open spec fn sine(phase: int, period: int) -> u8 {
    let half = period / 2;
    let quarter = period / 4;
    let pos = phase % period;
    brightness(
        if pos < half {
            hump(pos, half, quarter)
        } else {
            hump(pos - half, period - half, quarter)
        },
        quarter,
    )
}

/// The color of a hue (0 to 255) at full saturation and value.
pub open spec fn hue(h: u8) -> Rgb {
    let rise = ((h % 43) * 6) as u8;
    let fall = (255 - (h % 43) * 6) as u8;
    let region = h / 43;
    if region == 0 {
        rgb(255, rise, 0)
    } else if region == 1 {
        rgb(fall, 255, 0)
    } else if region == 2 {
        rgb(0, 255, rise)
    } else if region == 3 {
        rgb(0, fall, 255)
    } else if region == 4 {
        rgb(rise, 0, 255)
    } else {
        rgb(255, 0, fall)
    }
}

/// The color of LED `led` of a frame under a modifier at `tick`.
pub open spec fn modified_pixel(modifier: Modifier, tick: u16, frame: Seq<Rgb>, led: int) -> Rgb {
    match modifier {
        Modifier::Solid => frame[led],
        Modifier::Glow => if led % 2 == 1 {
            rgb(0, 0, 0)
        } else {
            frame[led].scaled(32)
        },
        Modifier::Blink => if (tick / 12) % 2 == 1 {
            rgb(0, 0, 0)
        } else {
            frame[led]
        },
        Modifier::Pulse => frame[led].scaled(sine(tick as int, 75)),
        Modifier::Rotate => frame[(led + tick / 5) % 12],
        Modifier::ColorCycle => if frame[led] == rgb(0, 0, 0) {
            rgb(0, 0, 0)
        } else {
            hue((tick * 3 % 256) as u8)
        },
    }
}

/// A frame under a modifier at `tick`.
pub open spec fn modified(modifier: Modifier, tick: u16, frame: Seq<Rgb>) -> Seq<Rgb> {
    Seq::new(12, |led: int| modified_pixel(modifier, tick, frame, led))
}

/// A ring: its animation, the LED at which an arc starts, and the ticks since the
/// animation was set.
pub ghost struct RingModel {
    pub animation: RingAnimation,
    pub rotation: u8,
    pub tick: u16,
}

impl RingModel {
    /// A ring on which nothing was shown yet.
    pub open spec fn dark(rotation: u8) -> RingModel {
        RingModel {
            animation: RingAnimation { renderer: Renderer::Off, modifier: Modifier::Solid },
            rotation,
            tick: 0,
        }
    }

    /// The ring once it was told to show `anim`.
    pub open spec fn showing(self, anim: RingAnimation) -> RingModel {
        if self.animation == anim {
            self
        } else {
            RingModel { animation: anim, tick: 0, ..self }
        }
    }

    /// The ring one frame on.
    pub open spec fn ticked(self) -> RingModel {
        RingModel { tick: self.tick.wrapping_add(1), ..self }
    }

    /// The frame that the ring shows.
    pub open spec fn shown(self) -> Seq<Rgb> {
        modified(
            self.animation.modifier,
            self.tick,
            spatial(self.animation.renderer, self.rotation),
        )
    }
}

/// Stateful ring that tracks tick for temporal modifiers.
#[derive(Copy, Clone)]
pub struct LedRing {
    pub animation: RingAnimation,
    rotation: u8,
    tick: u16,
}

impl View for LedRing {
    type V = RingModel;

    closed spec fn view(&self) -> RingModel {
        RingModel { animation: self.animation, rotation: self.rotation, tick: self.tick }
    }
}

impl LedRing {
    pub fn new(rotation: u8) -> (r: Self)
        ensures
            r@ == RingModel::dark(rotation),
    {
        LedRing { animation: RingAnimation::off(), rotation, tick: 0 }
    }

    /// Show `anim`. An animation that is already shown goes on undisturbed, another
    /// one starts at its first tick.
    pub fn set(&mut self, anim: RingAnimation)
        ensures
            final(self)@ == old(self)@.showing(anim),
    {
        if self.animation != anim {
            self.animation = anim;
            self.tick = 0;
        }
    }

    /// Advance one frame. Call at 50Hz.
    pub fn tick(&mut self)
        ensures
            final(self)@ == old(self)@.ticked(),
    {
        self.tick = self.tick.wrapping_add(1);
    }

    /// Render current frame.
    pub fn render(&self) -> (r: RingFrame)
        ensures
            r@ == self@.shown(),
    {
        let base = self.render_spatial();
        let frame = self.apply_modifier(base);
        assert(frame@ =~= self@.shown());
        frame
    }

    pub(crate) fn render_spatial(&self) -> (r: RingFrame)
        ensures
            r@ == spatial(self@.animation.renderer, self@.rotation),
    {
        let frame: RingFrame = match self.animation.renderer {
            Renderer::Off => [Rgb::black(); LEDS_PER_RING],
            Renderer::Solid(c) => [c; LEDS_PER_RING],
            Renderer::Fill(c, count) => fill_frame(self.rotation, c, count),
            Renderer::Heatmap(fill) => heatmap_frame(fill),
            Renderer::Single(c, pos) => {
                let mut frame: RingFrame = [Rgb::black(); LEDS_PER_RING];
                let led: usize = clock_led((pos as usize) % 12);
                frame[led] = c;
                frame
            },
            Renderer::Dots(c, count) => dots_frame(c, count),
        };
        assert(frame@ =~= spatial(self@.animation.renderer, self@.rotation));
        frame
    }

    pub(crate) fn apply_modifier(&self, frame: RingFrame) -> (r: RingFrame)
        ensures
            r@ == modified(self@.animation.modifier, self@.tick, frame@),
    {
        let result: RingFrame = match self.animation.modifier {
            Modifier::Solid => frame,
            Modifier::Glow => glow_frame(frame),
            Modifier::Blink => {
                // 12 ticks on, 12 off
                if (self.tick / 12) % 2 == 1 {
                    [Rgb::black(); LEDS_PER_RING]
                } else {
                    frame
                }
            },
            Modifier::Pulse => {
                // Sine-wave period ~75 ticks (1.5s at 50Hz)
                let factor: u8 = sine_u8(self.tick % 75, 75);
                pulse_frame(frame, factor)
            },
            Modifier::Rotate => {
                // Shift one position every 5 ticks (10Hz rotation)
                let shift: usize = (self.tick / 5) as usize % LEDS_PER_RING;
                rotated_frame(frame, shift)
            },
            Modifier::ColorCycle => {
                let color = hue_to_rgb(((self.tick as u32 * 3) % 256) as u8);
                recolored_frame(frame, color)
            },
        };
        assert(result@ =~= modified(self@.animation.modifier, self@.tick, frame@));
        result
    }
}

// --- Frames ---

proof fn lemma_behind(anchor: int, i: int, led: int)
    requires
        0 <= anchor,
        0 <= i < 12,
        0 <= led < 12,
    ensures
        behind(anchor, led) == i <==> led == (anchor + 12 - i) % 12,
{
}

/// An arc of `count` LEDs from the anchor on.
fn fill_frame(rotation: u8, c: Rgb, count: u8) -> (frame: RingFrame)
    ensures
        frame@ == spatial(Renderer::Fill(c, count), rotation),
{
    let lit: usize = if (count as usize) < LEDS_PER_RING {
        count as usize
    } else {
        LEDS_PER_RING
    };
    let anchor: usize = rotation as usize;
    let mut frame: RingFrame = [Rgb::black(); LEDS_PER_RING];
    let mut i: usize = 0;
    while i < lit
        invariant
            i <= lit <= 12,
            anchor <= 255,
            forall|p: int|
                0 <= p < 12 ==> #[trigger] frame@[p] == if behind(anchor as int, p) < i {
                    c
                } else {
                    rgb(0, 0, 0)
                },
        decreases lit - i,
    {
        let led: usize = (anchor + LEDS_PER_RING - i) % LEDS_PER_RING;
        let ghost before = frame@;
        frame[led] = c;
        assert forall|p: int| 0 <= p < 12 implies #[trigger] frame@[p] == if behind(
            anchor as int,
            p,
        ) < i + 1 {
            c
        } else {
            rgb(0, 0, 0)
        } by {
            lemma_behind(anchor as int, i as int, p);
            assert(before[p] == if behind(anchor as int, p) < i {
                c
            } else {
                rgb(0, 0, 0)
            });
        }
        i += 1;
    }
    assert(frame@ =~= spatial(Renderer::Fill(c, count), rotation));
    frame
}

proof fn lemma_arc_place(i: int, led: int)
    requires
        0 <= i < 12,
        0 <= led < 12,
    ensures
        arc_place(hour(led)) == i <==> hour(led) == (i + 7) % 12,
{
}

/// The potentiometer arc.
fn heatmap_frame(fill: u8) -> (frame: RingFrame)
    ensures
        frame@ == spatial(Renderer::Heatmap(fill), 0),
{
    let part: usize = (fill as usize) * 11 / 12;
    let lit: usize = if part < 11 {
        part
    } else {
        11
    };
    let mut frame: RingFrame = [Rgb::black(); LEDS_PER_RING];
    let mut i: usize = 0;
    while i < lit
        invariant
            i <= lit <= 11,
            forall|p: int|
                0 <= p < 12 ==> #[trigger] frame@[p] == if arc_place(hour(p)) < i {
                    heat(arc_place(hour(p)), 11)
                } else {
                    rgb(0, 0, 0)
                },
        decreases lit - i,
    {
        let led: usize = clock_led((i + 7) % 12);
        let ghost before = frame@;
        frame[led] = heatmap_color(i, 11);
        assert forall|p: int| 0 <= p < 12 implies #[trigger] frame@[p] == if arc_place(hour(p)) < i
            + 1 {
            heat(arc_place(hour(p)), 11)
        } else {
            rgb(0, 0, 0)
        } by {
            lemma_arc_place(i as int, p);
            assert(before[p] == if arc_place(hour(p)) < i {
                heat(arc_place(hour(p)), 11)
            } else {
                rgb(0, 0, 0)
            });
        }
        i += 1;
    }
    assert(frame@ =~= spatial(Renderer::Heatmap(fill), 0));
    frame
}

proof fn lemma_dot(i: int, spacing: int, h: int)
    requires
        0 <= i,
        1 <= spacing,
    ensures
        h % spacing == 0 && h / spacing == i <==> h == i * spacing,
{
    vstd::arithmetic::div_mod::lemma_fundamental_div_mod(h, spacing);
    vstd::arithmetic::div_mod::lemma_div_multiples_vanish(i, spacing);
    vstd::arithmetic::div_mod::lemma_mod_multiples_basic(i, spacing);
    vstd::arithmetic::mul::lemma_mul_is_commutative(i, spacing);
}

/// Evenly-spaced LEDs.
fn dots_frame(c: Rgb, count: u8) -> (frame: RingFrame)
    ensures
        frame@ == spatial(Renderer::Dots(c, count), 0),
{
    let n: usize = if count < 1 {
        1
    } else if count > 12 {
        12
    } else {
        count as usize
    };
    let spacing: usize = LEDS_PER_RING / n;
    assert(1 <= spacing && n * spacing <= 12) by (nonlinear_arith)
        requires
            1 <= n <= 12,
            spacing == 12usize / n,
    ;
    let mut frame: RingFrame = [Rgb::black(); LEDS_PER_RING];
    let mut i: usize = 0;
    while i < n
        invariant
            i <= n <= 12,
            1 <= spacing <= 12,
            n * spacing <= 12,
            forall|p: int|
                0 <= p < 12 ==> #[trigger] frame@[p] == if hour(p) % (spacing as int) == 0 && hour(
                    p,
                ) / (spacing as int) < i {
                    c
                } else {
                    rgb(0, 0, 0)
                },
        decreases n - i,
    {
        assert(0 <= i * spacing < 12) by (nonlinear_arith)
            requires
                0 <= i < n,
                n * spacing <= 12,
                spacing >= 1,
        ;
        let led: usize = clock_led((i * spacing) % 12);
        let ghost before = frame@;
        frame[led] = c;
        assert forall|p: int| 0 <= p < 12 implies #[trigger] frame@[p] == if hour(p) % (
        spacing as int) == 0 && hour(p) / (spacing as int) < i + 1 {
            c
        } else {
            rgb(0, 0, 0)
        } by {
            lemma_dot(i as int, spacing as int, hour(p));
            assert(before[p] == if hour(p) % (spacing as int) == 0 && hour(p) / (spacing as int)
                < i {
                c
            } else {
                rgb(0, 0, 0)
            });
        }
        i += 1;
    }
    assert(frame@ =~= spatial(Renderer::Dots(c, count), 0));
    frame
}

/// Every second LED off, the others dimmed.
fn glow_frame(base: RingFrame) -> (frame: RingFrame)
    ensures
        frame@ == modified(Modifier::Glow, 0, base@),
{
    let mut frame: RingFrame = base;
    let mut i: usize = 0;
    while i < LEDS_PER_RING
        invariant
            i <= 12,
            forall|p: int|
                0 <= p < i ==> #[trigger] frame@[p] == modified_pixel(
                    Modifier::Glow,
                    0,
                    base@,
                    p,
                ),
            forall|p: int| i <= p < 12 ==> #[trigger] frame@[p] == base@[p],
        decreases 12 - i,
    {
        if i % 2 == 1 {
            frame[i] = Rgb::black();
        } else {
            // 1/8 brightness + every 2nd LED off
            frame[i] = frame[i].scale(32);
        }
        i += 1;
    }
    assert(frame@ =~= modified(Modifier::Glow, 0, base@));
    frame
}

/// Every LED at `factor`.
fn pulse_frame(base: RingFrame, factor: u8) -> (frame: RingFrame)
    ensures
        forall|p: int| 0 <= p < 12 ==> #[trigger] frame@[p] == base@[p].scaled(factor),
{
    let mut frame: RingFrame = base;
    let mut i: usize = 0;
    while i < LEDS_PER_RING
        invariant
            i <= 12,
            forall|p: int| 0 <= p < i ==> #[trigger] frame@[p] == base@[p].scaled(factor),
            forall|p: int| i <= p < 12 ==> #[trigger] frame@[p] == base@[p],
        decreases 12 - i,
    {
        frame[i] = frame[i].scale(factor);
        i += 1;
    }
    frame
}

proof fn lemma_rotated(shift: int, i: int, led: int)
    requires
        0 <= shift < 12,
        0 <= i < 12,
        0 <= led < 12,
    ensures
        (led + shift) % 12 == i <==> led == (i + 12 - shift) % 12,
{
}

/// Every LED moved on by `shift` hours: the LEDs run against the clock.
fn rotated_frame(base: RingFrame, shift: usize) -> (frame: RingFrame)
    requires
        shift < 12,
    ensures
        forall|p: int| 0 <= p < 12 ==> #[trigger] frame@[p] == base@[(p + shift) % 12],
{
    let mut frame: RingFrame = [Rgb::black(); LEDS_PER_RING];
    let mut i: usize = 0;
    while i < LEDS_PER_RING
        invariant
            i <= 12,
            shift < 12,
            forall|p: int|
                0 <= p < 12 && (p + shift) % 12 < i ==> #[trigger] frame@[p] == base@[(p + shift)
                    % 12],
        decreases 12 - i,
    {
        let ghost before = frame@;
        frame[(i + LEDS_PER_RING - shift) % LEDS_PER_RING] = base[i];
        assert forall|p: int| 0 <= p < 12 && (p + shift) % 12 < i + 1 implies #[trigger] frame@[p]
            == base@[(p + shift) % 12] by {
            lemma_rotated(shift as int, i as int, p);
            assert((p + shift) % 12 < i ==> before[p] == base@[(p + shift) % 12]);
        }
        i += 1;
    }
    frame
}

/// Every lit LED in `color`.
fn recolored_frame(base: RingFrame, color: Rgb) -> (frame: RingFrame)
    ensures
        forall|p: int|
            0 <= p < 12 ==> #[trigger] frame@[p] == if base@[p] == rgb(0, 0, 0) {
                rgb(0, 0, 0)
            } else {
                color
            },
{
    let black = Rgb::black();
    let mut frame: RingFrame = base;
    let mut i: usize = 0;
    while i < LEDS_PER_RING
        invariant
            i <= 12,
            black == rgb(0, 0, 0),
            forall|p: int|
                0 <= p < i ==> #[trigger] frame@[p] == if base@[p] == rgb(0, 0, 0) {
                    rgb(0, 0, 0)
                } else {
                    color
                },
            forall|p: int| i <= p < 12 ==> #[trigger] frame@[p] == base@[p],
        decreases 12 - i,
    {
        if frame[i] != black {
            frame[i] = color;
        }
        i += 1;
    }
    frame
}

impl Default for LedRing {
    fn default() -> (r: Self)
        ensures
            r@ == (RingModel {
                animation: RingAnimation { renderer: Renderer::Off, modifier: Modifier::Solid },
                rotation: 8,
                tick: 0,
            }),
    {
        Self::new(8)
    }
}

// --- Lookup tables ---

/// Physical LED index for each clock-hour position.
/// PCB layout: D1=3h, D2=2h, ..., D12=4h. 0-based.
const CLOCK: [usize; 12] = [3, 2, 1, 0, 11, 10, 9, 8, 7, 6, 5, 4];

/// The LED at a clock hour.
fn clock_led(h: usize) -> (led: usize)
    requires
        h < 12,
    ensures
        led < 12,
        forall|p: int| 0 <= p < 12 ==> (#[trigger] hour(p) == h <==> p == led),
{
    CLOCK[h]
}

/// Blue (0), over green (mid), to red (max-1)
fn heatmap_color(pos: usize, max: usize) -> (c: Rgb)
    requires
        max > 1 ==> pos * 255 <= usize::MAX,
        max > 1 ==> 2 * ((pos * 255) / (max - 1) - 128) <= usize::MAX,
    ensures
        c == heat(pos as int, max as int),
{
    if max <= 1 {
        return Rgb::new(0, 0, 255);
    }
    let t: usize = (pos * 255) / (max - 1);
    if t < 128 {
        let g: u8 = (t * 2) as u8;
        Rgb::new(0, g, 255 - g)
    } else {
        let red: usize = (t - 128) * 2;
        assert(red as u8 == red % 256) by (bit_vector);
        let r: u8 = #[verifier::truncate] (red as u8);
        Rgb::new(r, 255 - r, 0)
    }
}

/// HSV hue (0 to 255) to RGB at full saturation/value.
fn hue_to_rgb(h: u8) -> (c: Rgb)
    ensures
        c == hue(h),
{
    let region: u8 = h / 43;
    let remainder: u8 = (h % 43) * 6;
    match region {
        0 => Rgb::new(255, remainder, 0),
        1 => Rgb::new(255 - remainder, 255, 0),
        2 => Rgb::new(0, 255, remainder),
        3 => Rgb::new(0, 255 - remainder, 255),
        4 => Rgb::new(remainder, 0, 255),
        _ => Rgb::new(255, 0, 255 - remainder),
    }
}

/// Quarter-wave lookup, 16 entries
const QUARTER: [u8; 16] = [
    0, 25, 50, 74, 98, 120, 142, 162, 180, 197, 213, 226, 237, 245, 251, 255,
];

/// Approximate sine: maps phase (0..period) to 0..255.
fn sine_u8(phase: u16, period: u16) -> (r: u8)
    requires
        period >= 1,
    ensures
        r == sine(phase as int, period as int),
{
    let half: u16 = period / 2;
    let quarter: u16 = period / 4;
    let pos: u16 = phase % period;
    let idx_base: u16 = if pos < quarter {
        pos
    } else if pos < half {
        half - pos - 1
    } else if pos - half < quarter {
        pos - half
    } else {
        period - pos - 1
    };
    let len: u32 = if quarter < 1 {
        1
    } else {
        quarter as u32
    };
    let step: u32 = (idx_base as u32 * 15) / len;
    let table_idx: usize = if step < 15 {
        step as usize
    } else {
        15
    };
    assert(QUARTER@ =~= quarter_wave());
    QUARTER[table_idx]
}

// --- Laws ---

/// A ring that is off is dark, whatever its modifier and at every tick.
pub proof fn law_off_is_dark(ring: RingModel, led: int)
    requires
        ring.animation.renderer == Renderer::Off,
        0 <= led < 12,
    ensures
        ring.shown()[led] == rgb(0, 0, 0),
{
    law_scale(rgb(0, 0, 0), 32);
    law_scale(rgb(0, 0, 0), sine(ring.tick as int, 75));
}

/// An arc lights `count` LEDs in a row, starting at the anchor and running against
/// the numbers, and no other.
pub proof fn law_fill(c: Rgb, count: u8, rotation: u8, i: int)
    requires
        0 <= i < 12,
    ensures
        spatial(Renderer::Fill(c, count), rotation)[(rotation + 12 - i) % 12] == if i < count {
            c
        } else {
            rgb(0, 0, 0)
        },
{
    lemma_behind(rotation as int, i, (rotation + 12 - i) % 12);
}

/// The dots are evenly spaced: of `n` dots the `i`th stands `i * (12 / n)` hours past
/// 12 o'clock, and no other LED is lit.
pub proof fn law_dots(c: Rgb, count: u8, rotation: u8, led: int)
    requires
        0 <= led < 12,
        c != rgb(0, 0, 0),
    ensures
        spatial(Renderer::Dots(c, count), rotation)[led] == c <==> exists|i: int|
            0 <= i < dots(count) && hour(led) == #[trigger] (i * dot_spacing(count)),
{
    let n = dots(count);
    let spacing = dot_spacing(count);
    assert(spacing >= 1) by (nonlinear_arith)
        requires
            1 <= n <= 12,
            spacing == 12int / n,
    ;
    if spatial(Renderer::Dots(c, count), rotation)[led] == c {
        let i = hour(led) / spacing;
        assert(i >= 0) by (nonlinear_arith)
            requires
                i == hour(led) / spacing,
                hour(led) >= 0,
                spacing >= 1,
        ;
        lemma_dot(i, spacing, hour(led));
        assert(hour(led) == i * spacing);
    }
    if exists|i: int| 0 <= i < n && hour(led) == #[trigger] (i * spacing) {
        let i = choose|i: int| 0 <= i < n && hour(led) == #[trigger] (i * spacing);
        lemma_dot(i, spacing, hour(led));
    }
}

/// A full potentiometer arc lights 11 LEDs, all but the one at 6 o'clock.
pub proof fn law_full_heatmap(fill: u8, rotation: u8, led: int)
    requires
        fill >= 12,
        0 <= led < 12,
    ensures
        spatial(Renderer::Heatmap(fill), rotation)[led] == rgb(0, 0, 0) <==> hour(led) == 6,
{
    let place = arc_place(hour(led));
    if place < 11 {
        let t = (place * 255) / 10;
        assert(0 <= t <= 255);
    }
}

/// At every fill the arc lights the first `heat_lit(fill)` hours from 7 o'clock on
/// and no other: the LED at 6 o'clock is always dark. The components of each lit LED
/// add up to 255, and the first is blue.
pub proof fn law_heatmap(fill: u8, rotation: u8, led: int)
    requires
        0 <= led < 12,
    ensures
        ({
            let px = spatial(Renderer::Heatmap(fill), rotation)[led];
            &&& px != rgb(0, 0, 0) <==> arc_place(hour(led)) < heat_lit(fill)
            &&& px != rgb(0, 0, 0) ==> px.r + px.g + px.b == 255
            &&& hour(led) == 6 ==> px == rgb(0, 0, 0)
            &&& hour(led) == 7 && heat_lit(fill) > 0 ==> px == rgb(0, 0, 255)
        }),
{
    lemma_heat_sum(arc_place(hour(led)));
}

/// At every fill exactly `heat_lit(fill)` LEDs are lit.
pub proof fn law_heatmap_count(fill: u8, rotation: u8)
    ensures
        lit(spatial(Renderer::Heatmap(fill), rotation)) == heat_lit(fill),
{
    let frame = spatial(Renderer::Heatmap(fill), rotation);
    let n = heat_lit(fill);
    assert forall|p: int| 0 <= p < 12 implies (#[trigger] frame[p] != rgb(0, 0, 0) <==> (8 - p)
        % 12 < n) by {
        law_heatmap(fill, rotation, p);
        assert(arc_place(hour(p)) == (8 - p) % 12);
    }
    // LEDs 8 down to 0 are the first nine places of the arc
    lemma_lit_run(frame, n, 9);
    assert(lit_below(frame, 10) == lit_below(frame, 9));
    assert(lit_below(frame, 11) == lit_below(frame, 10) + if n > 10 {
        1int
    } else {
        0
    });
    assert(lit_below(frame, 12) == lit_below(frame, 11) + if n > 9 {
        1int
    } else {
        0
    });
}

proof fn lemma_lit_run(frame: Seq<Rgb>, n: int, k: nat)
    requires
        k <= 9,
        0 <= n,
        forall|p: int|
            0 <= p < 9 ==> (#[trigger] frame[p] != rgb(0, 0, 0) <==> (8 - p) % 12 < n),
    ensures
        lit_below(frame, k) == if n <= 9 - k {
            0
        } else if n <= 9 {
            n - (9 - k)
        } else {
            k as int
        },
    decreases k,
{
    if k > 0 {
        lemma_lit_run(frame, n, (k - 1) as nat);
        assert((8 - (k - 1)) % 12 == 9 - k);
    }
}

/// How many of the first `n` LEDs of a frame are lit.
pub open spec fn lit_below(frame: Seq<Rgb>, n: nat) -> int
    decreases n,
{
    if n == 0 {
        0
    } else if frame[n - 1] != rgb(0, 0, 0) {
        lit_below(frame, (n - 1) as nat) + 1
    } else {
        lit_below(frame, (n - 1) as nat)
    }
}

/// How many LEDs of a frame are lit.
pub open spec fn lit(frame: Seq<Rgb>) -> int {
    lit_below(frame, frame.len())
}

proof fn lemma_heat_sum(place: int)
    requires
        0 <= place < 12,
    ensures
        place < 11 ==> ({
            let c = heat(place, 11);
            c.r + c.g + c.b == 255
        }),
{
    if place < 11 {
        let t = (place * 255) / 10;
        assert(0 <= t <= 255);
    }
}

/// A higher fill keeps what a lower one has lit.
pub proof fn law_heatmap_grows(low: u8, high: u8, rotation: u8, led: int)
    requires
        low <= high,
        0 <= led < 12,
    ensures
        spatial(Renderer::Heatmap(low), rotation)[led] != rgb(0, 0, 0) ==> spatial(
            Renderer::Heatmap(high),
            rotation,
        )[led] == spatial(Renderer::Heatmap(low), rotation)[led],
{
}

/// A blinking ring is dark for 12 ticks out of 24 and shows its pattern for the
/// others, starting with the pattern.
pub proof fn law_blink(ring: RingModel, led: int)
    requires
        ring.animation.modifier == Modifier::Blink,
        0 <= led < 12,
    ensures
        ring.shown()[led] == if ring.tick % 24 < 12 {
            spatial(ring.animation.renderer, ring.rotation)[led]
        } else {
            rgb(0, 0, 0)
        },
{
}

/// A pulse starts dark.
pub proof fn law_pulse_starts_dark(ring: RingModel, led: int)
    requires
        ring.animation.modifier == Modifier::Pulse,
        ring.tick % 75 == 0,
        0 <= led < 12,
    ensures
        ring.shown()[led] == rgb(0, 0, 0),
{
    assert(sine(ring.tick as int, 75) == quarter_wave()[0]);
    law_scale(spatial(ring.animation.renderer, ring.rotation)[led], 0);
}

/// How far `pos` is from the nearer end of `len` places: 0 at both ends, and most in
/// the middle.
pub open spec fn from_end(pos: int, len: int) -> int {
    if pos < len - 1 - pos {
        pos
    } else {
        len - 1 - pos
    }
}

/// The brightness goes by the distance to the nearer dark end of the hump, so each
/// hump falls as it rose. A period of less than 4 has no quarters to rise in.
pub proof fn law_pulse_is_symmetric(phase: int, period: int)
    requires
        4 <= period,
        0 <= phase,
    ensures
        ({
            let half = period / 2;
            let pos = phase % period;
            sine(phase, period) == brightness(
                if pos < half {
                    from_end(pos, half)
                } else {
                    from_end(pos - half, period - half)
                },
                period / 4,
            )
        }),
{
    let half = period / 2;
    let q = period / 4;
    let pos = phase % period;
    let (height, away) = if pos < half {
        (hump(pos, half, q), from_end(pos, half))
    } else {
        (hump(pos - half, period - half, q), from_end(pos - half, period - half))
    };
    vstd::arithmetic::div_mod::lemma_mod_bound(phase, period);
    assert(away == height || away == q && height == q + 1);
    assert((q * 15) / q == 15 && ((q + 1) * 15) / q >= 15) by (nonlinear_arith)
        requires
            q >= 1,
    ;
}

/// A pulse reaches full brightness twice in each period of 75 ticks.
pub proof fn law_pulse_reaches_full(ring: RingModel, led: int)
    requires
        ring.animation.modifier == Modifier::Pulse,
        ring.tick % 75 == 18 || ring.tick % 75 == 55,
        0 <= led < 12,
    ensures
        sine(ring.tick as int, 75) == 255,
        ring.shown()[led] == spatial(ring.animation.renderer, ring.rotation)[led],
{
    let pos = ring.tick as int % 75;
    assert(pos == 18 || pos == 55);
    assert(hump(18, 37, 18) == 18 && hump(55 - 37, 75 - 37, 18) == 19);
    assert((18int * 15) / 18 == 15 && (19int * 15) / 18 == 15);
    assert(sine(ring.tick as int, 75) == quarter_wave()[15]);
    law_scale(spatial(ring.animation.renderer, ring.rotation)[led], 255);
}

/// A pulse comes round after 75 ticks, which is 1.5 seconds.
pub proof fn law_pulse_comes_round(ring: RingModel, led: int)
    requires
        ring.animation.modifier == Modifier::Pulse,
        ring.tick + 75 <= u16::MAX,
        0 <= led < 12,
    ensures
        (RingModel { tick: (ring.tick + 75) as u16, ..ring }).shown()[led] == ring.shown()[led],
{
    let t = ring.tick as int;
    assert((t + 75) % 75 == t % 75);
    assert(sine(t + 75, 75) == sine(t, 75));
}

/// A rotating pattern moves clockwise by one hour every 5 ticks, and is back where it
/// was after 60, as long as the tick counter does not wrap.
pub proof fn law_rotate(ring: RingModel, led: int, on: int)
    requires
        ring.animation.modifier == Modifier::Rotate,
        0 <= led < 12,
        0 <= on < 12,
        hour(on) == (hour(led) + 1) % 12,
    ensures
        on == (led + 11) % 12,
        ring.tick + 5 <= u16::MAX ==> (RingModel {
            tick: (ring.tick + 5) as u16,
            ..ring
        }).shown()[on] == ring.shown()[led],
        ring.tick + 60 <= u16::MAX ==> (RingModel {
            tick: (ring.tick + 60) as u16,
            ..ring
        }).shown()[led] == ring.shown()[led],
{
    let steps = ring.tick / 5;
    assert((on + (steps + 1)) % 12 == (led + steps) % 12);
    assert((led + (steps + 12)) % 12 == (led + steps) % 12);
}

/// A cycling hue keeps the pattern, at every tick: the same LEDs are dark, and all
/// others have the one color of the tick, in which some component is full and some
/// is off.
pub proof fn law_color_cycle_keeps_pattern(ring: RingModel, led: int)
    requires
        ring.animation.modifier == Modifier::ColorCycle,
        0 <= led < 12,
    ensures
        ({
            let base = spatial(ring.animation.renderer, ring.rotation)[led];
            let color = hue((ring.tick * 3 % 256) as u8);
            &&& ring.shown()[led] == if base == rgb(0, 0, 0) {
                base
            } else {
                color
            }
            &&& color != rgb(0, 0, 0)
            &&& color.r == 255 || color.g == 255 || color.b == 255
            &&& color.r == 0 || color.g == 0 || color.b == 0
        }),
{
}

} // verus!
